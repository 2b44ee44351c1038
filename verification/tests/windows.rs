use std::sync::Arc;

use mergefox::calendar::format_commit_time;
use mergefox::git::{
    ConflictBlob, ConflictChoice, ConflictEntry, DeltaStatus, DiffLine, EntryKind, FileDiff,
    FileKind, HunkResolution, LineKind, Oid, RepoDiff, RepoState, StatusEntry,
};
use mergefox::providers::github::{
    created_repository, org_owner, repo_summary, user_owner, OrgResp, OwnerResp, RepoListResp,
    UserResp,
};
use mergefox::providers::oauth::default_interval;
use mergefox::providers::types::{IssueState, IssueSummary, RemoteRepoOwnerKind};
use mergefox::ui::activity_log::{
    copied_text, outcome_color, outcome_name, severity_color, ActivityOutcome, HintSeverity,
};
use mergefox::ui::basket_focus::BasketFocusModalState;
use mergefox::ui::binary_conflict_view::{
    format_size_summary, offers, pane_label, BinaryConflictIntent,
};
use mergefox::ui::blame::{copy_text, line_number_text, truncate, BlameCommit, BlameLine};
use mergefox::ui::commit_modal::{
    amend_author_override, commit_buttons, discard_path, finish_move, handle_commit_intent,
    panel_count, prune_selection, selected_in_panel, style_for, sync_amend_author_state,
    CommitAuthor, CommitIntent, CommitModal, PanelKind,
};
use mergefox::ui::conflict_hunks_view::resolution_label;
use mergefox::ui::conflict_window::{blocks_line, continue_tip, use_tip};
use mergefox::ui::conflicts::{
    can_continue, finish_choice, finish_manual, highlighted_lines, may_have_conflicts,
    operation_summary, region_heading, ConflictPane, LineStyle,
};
use mergefox::ui::diff_images::{image_notice, image_uri, working_tree_image_cache};
use mergefox::ui::diff_pane::{DiffPane, SelectedFileView};
use mergefox::ui::diff_view::{
    diff_line_text, file_row_label, file_stats_str, status_color, working_tree_stats_str,
};
use mergefox::ui::file_preview::{PreviewMode, PreviewState};
use mergefox::ui::file_snapshot::{
    commit_snapshot, named_size, shown_oid, sizes_text, thumbnail_key, thumbnail_slot,
    working_snapshot, working_text, SnapshotView, ThumbnailSlot,
};
use mergefox::ui::forge::{issue_title, repo_label};
use mergefox::ui::preview_cache::PreviewIdentity;
use mergefox::ui::three_way::ThreeWayState;
use mergefox::ui::thumbnailer::{
    after_look, arguments, expected_output, find_first_png, source_name, Look, WaitStep,
};

fn oid(n: u8) -> Oid {
    Oid { bytes: [n; 20] }
}

fn file(kind: FileKind) -> FileDiff {
    FileDiff {
        old_path: Some("old.png".into()),
        new_path: Some("new.png".into()),
        status: DeltaStatus::Modified,
        kind,
        old_size: 10,
        new_size: 7,
        old_oid: Some(oid(1)),
        new_oid: Some(oid(2)),
    }
}

fn image() -> FileDiff {
    file(FileKind::Image { ext: "png".into() })
}

fn entry(path: &str, kind: EntryKind, staged: bool, unstaged: bool) -> StatusEntry {
    StatusEntry { path: path.into(), kind, staged, unstaged, conflicted: false }
}

#[test]
fn commit_times() {
    assert_eq!(format_commit_time(0), "unknown");
    assert_eq!(format_commit_time(951_827_640), "2000-02-29 12:34 UTC");
}

#[test]
fn rows_of_files() {
    let text = FileKind::Text { hunks: vec![], lines_added: 12, lines_removed: 3, truncated: true };
    assert_eq!(file_stats_str(&file(text.clone())), "+12 −3 …");
    assert_eq!(file_row_label("M", "a.rs", &text), "M  a.rs  (+12 −3, truncated)");
    assert_eq!(file_row_label("A", "a.png", &image().kind), "A  a.png  [image:png]");
    assert_eq!(file_stats_str(&file(FileKind::TooLarge)), "[large]");
    assert_eq!(status_color(DeltaStatus::Deleted), (220, 110, 110));
    assert_eq!(working_tree_stats_str(&entry("a", EntryKind::Untracked, false, true)), "[new]");
    assert_eq!(
        working_tree_stats_str(&entry("a", EntryKind::Modified, true, true)),
        "[staged+wt]"
    );
    let line = DiffLine {
        kind: LineKind::Add,
        content: "x".into(),
        old_lineno: None,
        new_lineno: Some(12),
    };
    assert_eq!(diff_line_text(&line), "        12 + x");
}

#[test]
fn whole_files() {
    assert!(matches!(
        commit_snapshot(&image(), 0),
        SnapshotView::Image { caption: "File at selected commit" }
    ));
    let mut gone = image();
    gone.new_oid = None;
    gone.new_path = None;
    assert!(matches!(
        working_snapshot(&gone, 0),
        SnapshotView::Image { caption: "Deleted file (last committed contents)" }
    ));
    assert_eq!(shown_oid(&gone), Some(oid(1)));
    assert!(matches!(
        commit_snapshot(&file(FileKind::TooLarge), 5 * 1024 * 1024),
        SnapshotView::Notice(t) if t == "File snapshot is too large to render inline (>5 MB)."
    ));
    assert!(matches!(
        working_snapshot(&file(FileKind::Binary), 0),
        SnapshotView::Notice(t) if t == "Binary working tree file snapshot is not shown inline."
    ));
    assert_eq!(sizes_text(&image()), "old: 10 bytes   new: 7 bytes");
    assert_eq!(named_size(&image()), 10);
    assert_eq!(
        working_text(&image(), Some("disk".into()), Some("repo".into())).as_deref(),
        Some("disk")
    );
    assert_eq!(working_text(&gone, Some("disk".into()), Some("repo".into())).as_deref(), Some("repo"));
}

#[test]
fn small_pictures() {
    let key = thumbnail_key(&image()).unwrap();
    assert_eq!(key.identity, PreviewIdentity::Blob(oid(2)));
    assert_eq!(key.mode, PreviewMode::Thumb);
    assert!(thumbnail_key(&file(FileKind::Binary)).is_none());
    assert_eq!(thumbnail_slot(Some(&PreviewState::Pending)), ThumbnailSlot::Placeholder);
    assert_eq!(
        thumbnail_slot(Some(&PreviewState::TooLarge { bytes: 1 })),
        ThumbnailSlot::Blank
    );
    assert_eq!(thumbnail_slot(None), ThumbnailSlot::Blank);
}

#[test]
fn pictures_of_the_working_tree() {
    let cache =
        working_tree_image_cache(&image(), Some(vec![1]), None, Some(vec![3])).unwrap();
    assert_eq!(cache.old_bytes, Some(vec![1]));
    assert_eq!(cache.new_bytes, Some(vec![3]));
    assert_eq!(image_uri(&None, 255, "png"), "bytes://diff/anon-ff.png");
    assert_eq!(
        image_uri(&Some(oid(0xab)), 0, "png"),
        format!("bytes://diff/{}.png", "ab".repeat(20))
    );
    assert_eq!(image_notice(&PreviewState::Pending), "Decoding…");
    assert_eq!(
        image_notice(&PreviewState::TooLarge { bytes: 9 }),
        "Image too large to preview (9 bytes > 64 MB cap)"
    );
}

#[test]
fn the_thumbnailer_is_watched() {
    assert_eq!(source_name(&oid(0), "fbx"), format!("{}.fbx", "0".repeat(40)));
    assert_eq!(source_name(&oid(0), ""), "0".repeat(40));
    assert_eq!(
        arguments(PreviewMode::Full, "/t", "/t/a.fbx"),
        vec!["-t", "-s", "512", "-o", "/t", "/t/a.fbx"]
    );
    assert_eq!(after_look(Look::Running, 4999), WaitStep::Sleep);
    assert_eq!(after_look(Look::Running, 5000), WaitStep::Kill);
    assert_eq!(after_look(Look::Ended(true), 9000), WaitStep::Read);
    assert_eq!(after_look(Look::Ended(false), 0), WaitStep::GiveUp);
    assert_eq!(after_look(Look::Lost, 0), WaitStep::GiveUp);
    assert_eq!(expected_output("/t", "/x/a.fbx").as_deref(), Some("/t/a.fbx.png"));
    assert_eq!(find_first_png(&["/t/a".to_string(), "/t/b.png".to_string()]), Some(1));
}

fn pane() -> DiffPane {
    DiffPane {
        selected_commit: Some(oid(1)),
        current_diff: None,
        selected_file_idx: None,
        selected_file_view: SelectedFileView::File,
        image_cache: None,
        combined_diff_full: None,
        combined_diff_focus_path: None,
        selected_working_tree: true,
        selected_working_file: None,
        working_file_diff: None,
    }
}

#[test]
fn the_diff_pane_toggles_files() {
    let mut p = pane();
    p.toggle_file(2);
    assert_eq!(p.selected_file_idx, Some(2));
    assert_eq!(p.selected_file_view, SelectedFileView::Diff);
    p.toggle_file(2);
    assert_eq!(p.selected_file_idx, None);
    p.toggle_working_file("a", Some("d".into()));
    assert!(p.has_selected_file());
    assert_eq!(p.working_file_diff.as_deref(), Some("d"));
    p.toggle_working_file("a/", None);
    assert!(!p.has_selected_file());
    assert!(p.is_visible(false));
    p.close_changes();
    assert!(!p.is_visible(false) && p.is_visible(true));
    p.toggle_file(1);
    p.back_to_history();
    assert_eq!(p.selected_file_idx, None);
    p.close_diff();
    assert_eq!(p.selected_commit, None);
}

#[test]
fn files_that_are_left_or_gone() {
    let mut p = pane();
    p.toggle_working_file("a", Some("d".into()));
    p.selected_file_view = SelectedFileView::File;
    p.back_to_changes();
    assert_eq!((p.selected_working_file.as_ref(), p.working_file_diff.as_ref()), (None, None));
    assert!(p.image_cache.is_none() && p.selected_working_tree);
    assert_eq!(p.selected_file_view, SelectedFileView::File);
    p.toggle_working_file("a", Some("d".into()));
    p.forget_working_file();
    assert_eq!((p.selected_working_file.as_ref(), p.working_file_diff.as_ref()), (None, None));
    p.toggle_file(4);
    p.forget_file();
    assert_eq!(p.selected_file_idx, None);
    assert_eq!(p.selected_commit, Some(oid(1)));
}

#[test]
fn a_focused_diff_becomes_whole_again() {
    let diff = |title: &str| {
        Arc::new(RepoDiff {
            title: title.into(),
            commit_oid: None,
            commit_parent_oids: vec![],
            commit_message: None,
            commit_author: None,
            commit_author_email: None,
            commit_author_time: None,
            files: vec![],
        })
    };
    let mut p = pane();
    p.current_diff = Some(diff("part"));
    p.combined_diff_full = Some(diff("all"));
    p.clear_focus();
    assert_eq!(p.current_diff.as_ref().unwrap().title, "part");
    p.combined_diff_focus_path = Some("a".into());
    p.clear_focus();
    assert_eq!(p.current_diff.as_ref().unwrap().title, "all");
    assert!(p.combined_diff_focus_path.is_none());
}

fn blob(size: usize) -> Option<ConflictBlob> {
    Some(ConflictBlob { oid: None, size, text: None })
}

#[test]
fn binary_conflicts_offer_what_is_there() {
    let e = ConflictEntry {
        path: "m.fbx".into(),
        ours: blob(2048),
        theirs: None,
        merged_text: None,
        is_binary: true,
    };
    assert!(offers(&e, &BinaryConflictIntent::UseOurs));
    assert!(!offers(&e, &BinaryConflictIntent::UseTheirs));
    assert!(!offers(&e, &BinaryConflictIntent::KeepBoth { keep_as_main: ConflictChoice::Ours }));
    assert!(offers(&e, &BinaryConflictIntent::OpenExternal { side: ConflictChoice::Ours }));
    assert_eq!(format_size_summary(&e.ours, &e.theirs), "ours 2 KB  ·  theirs absent");
    assert_eq!(pane_label("a.png"), "image preview not loaded");
    assert_eq!(pane_label("a.zzz"), "binary file");
    assert!(!can_continue(&[e]) && can_continue(&[]));
}

#[test]
fn conflict_words() {
    assert!(may_have_conflicts(RepoState::Clean, true));
    assert!(!may_have_conflicts(RepoState::Clean, false));
    assert_eq!(operation_summary(RepoState::Merge, 2), "Merge · 2 conflicted files");
    assert_eq!(region_heading("a\nb\n", "c"), "2 lines vs 1 line");
    assert_eq!(blocks_line(1), "1 region");
    assert_eq!(continue_tip(1), "Resolve every conflicted file first.");
    assert_eq!(
        use_tip("main", "topic"),
        "Resolve the whole file to the main version, discarding topic"
    );
    assert_eq!(resolution_label(HunkResolution::Both), "● Both");
    let styles: Vec<LineStyle> = highlighted_lines("x\n<<<<<<< a\no\n=======\nt\n>>>>>>> b\ny\n")
        .into_iter()
        .map(|l| l.1)
        .collect();
    assert_eq!(
        styles,
        vec![
            LineStyle::Normal,
            LineStyle::OursMarker,
            LineStyle::Ours,
            LineStyle::Split,
            LineStyle::Theirs,
            LineStyle::TheirsMarker,
            LineStyle::Normal,
        ]
    );
}

#[test]
fn resolutions_are_reported() {
    let mut ws = ConflictPane {
        selected_conflict: Some("a".into()),
        conflict_editor_path: Some("a".into()),
        conflict_editor_text: "t".into(),
    };
    assert_eq!(
        finish_choice(&mut ws, "a", ConflictChoice::Theirs, Ok(())),
        Ok("Resolved a with theirs".to_string())
    );
    assert!(ws.conflict_editor_path.is_none());
    assert_eq!(
        finish_manual(&mut ws, "a", Err("disk".into())),
        Err("manual resolution: disk".to_string())
    );
}

#[test]
fn three_way_navigation_wraps() {
    let mut s = ThreeWayState::default();
    s.sync(2);
    s.next_region(2);
    assert_eq!(s.cursor_region, 1);
    s.next_region(2);
    assert_eq!(s.scroll_to_region, Some(0));
    s.previous_region(2);
    assert_eq!(s.cursor_region, 1);
}

#[test]
fn typing_starts_the_picker_over() {
    let mut s = BasketFocusModalState { query: "a".into(), selected: 3 };
    s.type_query("a".into());
    assert_eq!(s.selected, 3);
    s.type_query("ab".into());
    assert_eq!(s.selected, 0);
}

#[test]
fn blame_is_copied_with_tabs() {
    let line = BlameLine {
        line_no: 7,
        content: "code".into(),
        commit: BlameCommit {
            sha: "0123456789".into(),
            author: "A".into(),
            author_email: "a@b".into(),
            author_time: 86400,
            summary: "s".into(),
        },
    };
    assert_eq!(copy_text(&[line]), "01234567\tA\t1970-01-02\t7\tcode");
    assert_eq!(line_number_text(7), "    7");
    assert_eq!(truncate("abcdef", 3), "ab…");
}

#[test]
fn the_commit_window() {
    let entries = vec![
        entry("a", EntryKind::Modified, true, false),
        entry("b", EntryKind::Untracked, false, false),
    ];
    assert_eq!(panel_count(&entries, PanelKind::Staged), 1);
    assert_eq!(panel_count(&entries, PanelKind::Unstaged), 1);
    let mut modal = CommitModal::default();
    modal.selection.insert("b");
    modal.selection.insert("gone");
    assert_eq!(selected_in_panel(&entries, &modal.selection), vec!["b".to_string()]);
    modal.selection_anchor = Some("b/".into());
    prune_selection(&mut modal, &["b".to_string()]);
    assert_eq!(modal.selection_anchor.as_deref(), Some("b/"));
    assert_eq!(modal.selection.len(), 1);
    assert!(discard_path(&entries[1]).untracked);
    finish_move(&mut modal, Err("locked".into()));
    assert_eq!(modal.last_error.as_deref(), Some("locked"));
    assert_eq!(style_for(EntryKind::Deleted, false), (220, 100, 100, 160));
    assert!(!commit_buttons(&modal, 1).commit);
    modal.message = "m".into();
    let b = commit_buttons(&modal, 0);
    assert!(!b.commit && b.stage_all_and_commit && !b.amend);
}

#[test]
fn amending_can_change_the_author() {
    let mut modal = CommitModal::default();
    let head = || CommitAuthor { name: "A".into(), email: "a@b".into() };
    sync_amend_author_state(&mut modal, "/r", Some(head()));
    assert!(modal.amend_head_available);
    assert_eq!(amend_author_override(&modal, Ok(head())), Ok(None));
    modal.amend_author_override = true;
    sync_amend_author_state(&mut modal, "//r/", None);
    assert!(modal.amend_author_override && modal.amend_head_available);
    assert_eq!(amend_author_override(&modal, Ok(head())), Ok(None));
    let other = CommitAuthor { name: "B".into(), email: "a@b".into() };
    assert_eq!(amend_author_override(&modal, Ok(other.clone())), Ok(Some(other)));
    assert_eq!(
        amend_author_override(&modal, Err("bad".into())),
        Err("amend author: bad".to_string())
    );
}

#[test]
fn commits_close_the_window() {
    let mut modal = CommitModal::default();
    modal.message = "m".into();
    let mut open = true;
    let failed = handle_commit_intent(
        &mut modal,
        &mut open,
        CommitIntent::CommitStaged("m".into()),
        Err("hook".into()),
    );
    assert!(failed.is_none() && open);
    assert_eq!(modal.last_error.as_deref(), Some("hook"));
    let (label, op) = handle_commit_intent(
        &mut modal,
        &mut open,
        CommitIntent::Amend { message: "m".into(), author: None },
        Ok(oid(0xcd)),
    )
    .unwrap();
    assert_eq!(label, "Amended cdcdcdc");
    assert!(op.amended && !open && modal.message.is_empty());
}

#[test]
fn activity_colours() {
    assert_eq!(severity_color(HintSeverity::Danger), (240, 110, 110));
    assert_eq!(outcome_color(ActivityOutcome::FastForward), (90, 200, 120));
    assert_eq!(outcome_name(ActivityOutcome::NonLinear), "NonLinear");
    assert_eq!(copied_text(12), "Copied 12 bytes of activity JSON");
}

#[test]
fn repositories_of_lists() {
    let resp = || RepoListResp {
        name: "r".into(),
        owner: OwnerResp { login: "o".into() },
        default_branch: None,
        description: None,
        private: true,
        ssh_url: "s".into(),
        clone_url: "c".into(),
        html_url: "h".into(),
    };
    let s = repo_summary(resp());
    assert_eq!((s.clone_https.as_str(), s.clone_ssh.as_str(), s.web_url.as_str()), ("c", "s", "h"));
    let c = created_repository(resp());
    assert_eq!((c.owner.as_str(), c.repo.as_str()), ("o", "r"));
    let u = user_owner(UserResp { login: "u".into(), name: Some(" ".into()), avatar_url: None });
    assert_eq!((u.display_name.as_str(), u.kind), ("u", RemoteRepoOwnerKind::User));
    let o = org_owner(OrgResp { login: "g".into(), name: Some("Group".into()) });
    assert_eq!((o.display_name.as_str(), o.kind), ("Group", RemoteRepoOwnerKind::Organization));
    assert_eq!(default_interval(), 5);
    assert_eq!(repo_label("o", "r"), "o/r");
    let issue = IssueSummary {
        number: 4,
        title: "T".into(),
        body: None,
        author: "a".into(),
        url: "u".into(),
        state: IssueState::Open,
        labels: vec![],
        assignees: vec![],
    };
    assert_eq!(issue_title(&issue), "#4 T");
}
