use mergefox::config::UiLanguage;
use mergefox::git::{EntryKind, Oid, StatusEntry};
use mergefox::providers::types::{IssueState, IssueSummary, PrState, PullRequestSummary};
use mergefox::ui::activity_log::{
    cursor_text, ref_deltas_line, severity_icon, shorten, HintSeverity, RefDelta,
};
use mergefox::ui::basket_focus::{
    filter, fuzzy_score, BasketFocusModalState, FocusPickerOutcome, PickerKeys,
};
use mergefox::ui::basket_squash::{
    BasketSquashConfirmOutcome, BasketSquashConfirmState, SquashInput,
};
use mergefox::ui::bisect::{
    command_of, conclusion_text, counters, BisectCommand, BisectStatus, BisectUiState, Intent,
};
use mergefox::ui::chrome::{blended, section_title, segment_clicked};
use mergefox::ui::commit_basket::{bar_text, button_text, BasketIntent};
use mergefox::ui::commit_modal::{
    all_selected, apply_selection_click, check_ai, commit_label, finish_ai, panel_entries,
    plan_move, recent_messages, toggle_all, CommitModal, CommitSuggestion, DiscardPath, MoveCall,
    MoveIntent, PanelKind,
};
use mergefox::ui::find_fix::{
    commit_tag, group_hits, hits_heading, line_number_text, split_hit, CommitMatch,
    FindFixModalState, WorkingTreeMatch,
};
use mergefox::ui::fonts::{cjk_font_candidates, font_family, requires_cjk_font, Platform};
use mergefox::ui::forge::{
    find_issue, find_pull_request, issue_detail, issue_meta, keeps_selection, list_heading,
    modal_step, named_list,
    pull_request_detail, pull_request_meta, pull_request_title, shown_body, window_title, ModalStep,
};
use mergefox::ui::forge_labels::labels;
use mergefox::ui::hud::cursor_line;

#[test]
fn fuzzy_matches_subsequence() {
    assert!(fuzzy_score("src/ui/button.rs", "btn").is_some());
    assert!(fuzzy_score("src/git/basket_ops.rs", "bo").is_some());
}

#[test]
fn fuzzy_rejects_missing_chars() {
    assert!(fuzzy_score("README.md", "xyz").is_none());
}

#[test]
fn segment_boundary_beats_middle() {
    let boundary = fuzzy_score("src/ui/button.rs", "button").unwrap();
    let middle = fuzzy_score("src/abut/ontology.rs", "button").unwrap_or(i32::MIN);
    assert!(boundary > middle, "boundary={boundary} middle={middle}");
}

#[test]
fn empty_query_matches_everything() {
    let paths = vec!["a.rs".to_string(), "b.rs".to_string()];
    let result = filter(&paths, "");
    assert_eq!(result.len(), 2);
}

#[test]
fn filter_excludes_non_matches() {
    let paths = vec![
        "src/foo.rs".to_string(),
        "src/bar.rs".to_string(),
        "README.md".to_string(),
    ];
    let result = filter(&paths, "foo");
    assert_eq!(result.len(), 1);
    assert_eq!(result[0], "src/foo.rs");
}

#[test]
fn fuzzy_search_goes_by_characters() {
    assert!(fuzzy_score("é.rs", "é").is_some());
    assert!(fuzzy_score("docs/日本語.md", "日語").is_some());
    assert!(fuzzy_score("docs/日本語.md", "語日").is_none());
    assert_eq!(fuzzy_score("éa", "éa"), Some(20));
    assert_eq!(fuzzy_score("x/éa", "a"), Some(0));
}

#[test]
fn a_query_at_a_segment_start_is_better() {
    let button = fuzzy_score("src/ui/button.rs", "btn").unwrap();
    let noise = fuzzy_score("src/abort/noise_btn.rs", "btn").unwrap();
    assert!(button > noise);
    assert_eq!((button, noise), (10, 4));
}

#[test]
fn fuzzy_search_ignores_case() {
    assert_eq!(fuzzy_score("SRC/Ä.rs", "ä"), fuzzy_score("src/ä.rs", "Ä"));
    assert!(fuzzy_score("README.md", "readme").is_some());
}

#[test]
fn the_picker_follows_its_keys() {
    let paths = vec!["a".to_string(), "b".to_string()];
    let matches: Vec<&String> = paths.iter().collect();
    let mut state = BasketFocusModalState::default();
    let none = PickerKeys { up: false, down: false, enter: false, esc: false };
    assert_eq!(state.handle_keys(PickerKeys { down: true, ..none }, &matches, None), None);
    assert_eq!(state.selected, 1);
    assert_eq!(
        state.handle_keys(PickerKeys { enter: true, ..none }, &matches, None),
        Some(FocusPickerOutcome::Picked("b".to_string()))
    );
    assert_eq!(
        state.handle_keys(PickerKeys { esc: true, ..none }, &matches, None),
        Some(FocusPickerOutcome::Cancelled)
    );
    state.clamp(1);
    assert_eq!(state.selected, 0);
}

#[test]
fn squashing_needs_a_message() {
    let mut s = BasketSquashConfirmState {
        message: " ".into(),
        backup_tag_preview: "t".into(),
        commit_count: 3,
    };
    let none = SquashInput { squash: false, cancel: false, escape: false, confirm_keys: false };
    assert!(!s.can_confirm());
    assert!(s.answer(SquashInput { squash: true, confirm_keys: true, ..none }).is_none());
    s.message = "m".into();
    assert!(matches!(
        s.answer(SquashInput { confirm_keys: true, escape: true, ..none }),
        Some(BasketSquashConfirmOutcome::Confirmed { message }) if message == "m"
    ));
    assert!(matches!(
        s.answer(SquashInput { escape: true, ..none }),
        Some(BasketSquashConfirmOutcome::Cancelled)
    ));
    assert!(s.answer(none).is_none());
    assert_eq!(s.warning(), "⚠ This rewrites history for 3 commits.");
}

#[test]
fn the_basket_bar_starts_at_two() {
    assert_eq!(bar_text(1), None);
    assert_eq!(bar_text(2).as_deref(), Some("✓ 2 commits selected"));
    assert_eq!(button_text(BasketIntent::Clear), "✕ Clear");
}

#[test]
fn bisect_sessions() {
    let mut ui = BisectUiState::default();
    ui.open = true;
    ui.start_good = " v1 ".into();
    let intent = ui.start().unwrap();
    assert!(matches!(
        command_of(intent),
        BisectCommand::Start { bad: None, good } if good == "v1"
    ));
    ui.start_good = " ".into();
    assert!(!ui.can_start() && ui.start().is_none());
    assert!(matches!(command_of(Intent::Skip), BisectCommand::Skip));
    assert!(ui.sync(true));
    let status = BisectStatus {
        last_progress: String::new(),
        good_count: 1,
        bad_count: 2,
        skip_count: 0,
        concluded: true,
        conclusion_sha: None,
    };
    assert_eq!(conclusion_text(&status).as_deref(), Some("First bad commit: (unknown SHA)"));
    assert_eq!(counters(&status).1, "✗ bad: 2");
    ui.status = Some(status);
    assert!(!ui.sync(true));
    ui.finish(true);
    assert!(ui.status.is_none());
    ui.close(false, true, true);
    assert!(ui.open);
    ui.close(false, true, false);
    assert!(!ui.open);
}

#[test]
fn activity_lines() {
    let d = |name: &str, before: Option<&str>, after: Option<&str>| RefDelta {
        refname: name.into(),
        before: before.map(|s| s.to_string()),
        after: after.map(|s| s.to_string()),
    };
    assert_eq!(
        ref_deltas_line(&[d("a", None, Some("0123456789")), d("b", Some("abcdefghi"), None)]),
        "a: ∅ → 0123456 · b: abcdefg → ∅"
    );
    assert_eq!(ref_deltas_line(&[]), "");
    assert_eq!(shorten("éééééééé"), "ééééééé");
    assert_eq!(cursor_text(4), "cursor @ #4 (1-based: 5)");
    assert_eq!(severity_icon(HintSeverity::Warn), "⚠");
    assert_eq!(
        cursor_line(Some(1), 3),
        "position 2 / 3    ↶ undo available    redo available ↷"
    );
    assert_eq!(cursor_line(None, 0), "position 0 / 0    ↶ no undo    no redo ↷");
}

fn hit(path: &str, line: &str, start: usize, end: usize) -> WorkingTreeMatch {
    WorkingTreeMatch {
        path: path.into(),
        line_number: 7,
        line: line.into(),
        match_start: start,
        match_end: end,
    }
}

#[test]
fn hits_are_grouped_by_file() {
    let hits = vec![hit("a-b", "x", 0, 1), hit("a/b", "x", 0, 1), hit("a-b", "y", 0, 1)];
    let groups = group_hits(&hits);
    let order: Vec<&str> = groups.iter().map(|g| g.path.as_str()).collect();
    assert_eq!(order, vec!["a/b", "a-b"]);
    assert_eq!(groups[1].hits, vec![0, 2]);
    assert_eq!(hits_heading("a/b", 1), "a/b — 1 hit");
    assert_eq!(hits_heading("Working tree", 3), "Working tree — 3 hits");
    assert_eq!(line_number_text(42), "   42  ");
}

#[test]
fn hits_of_one_file_go_under_the_first_path() {
    let hits = vec![
        hit("b", "x", 0, 1),
        hit("a//b", "x", 0, 1),
        hit("./b", "x", 0, 1),
        hit("a/./b", "y", 0, 1),
        hit("../b", "x", 0, 1),
    ];
    let groups = group_hits(&hits);
    let order: Vec<&str> = groups.iter().map(|g| g.path.as_str()).collect();
    assert_eq!(order, vec!["./b", "../b", "a//b", "b"]);
    assert_eq!(groups[2].hits, vec![1, 3]);
    let mut s = FindFixModalState::new();
    s.tick_path("a//b", true);
    assert!(s.is_path_ticked("a/b") && !s.is_path_ticked("./a/b"));
}

#[test]
fn hits_are_cut_out_of_their_lines() {
    let (pre, mid, post) = split_hit(&hit("a", "äbc", 2, 3));
    assert_eq!((pre.as_str(), mid.as_str(), post.as_str()), ("ä", "b", "c"));
    let (pre, mid, post) = split_hit(&hit("a", "abc", 1, 99));
    assert_eq!((pre.as_str(), mid.as_str(), post.as_str()), ("a", "bc", ""));
}

#[test]
fn searching_and_replacing() {
    let mut s = FindFixModalState::new();
    assert!(!s.can_scan());
    assert_eq!(s.empty_text(), Some("Type a search term and press Search to scan."));
    s.pattern = "x".into();
    assert!(s.can_scan() && !s.can_apply());
    assert_eq!(s.apply_label(), "Apply");
    let oid = Oid { bytes: [1; 20] };
    s.tick_path("a", true);
    s.tick_commit(&oid, true);
    s.tick_commit(&oid, true);
    assert_eq!(s.selected_count(), 2);
    assert_eq!(s.apply_label(), "Apply (2)");
    assert!(s.can_apply() && s.is_commit_ticked(&oid) && s.is_path_ticked("a"));
    s.tick_path("a", false);
    assert!(!s.is_path_ticked("a"));
    s.scan_busy = true;
    assert!(!s.can_scan() && !s.can_apply());
    assert_eq!(s.scan_label(), "Scanning…");
    s.working_tree_results = vec![hit("a", "x", 0, 1)];
    assert_eq!(s.hits_text().as_deref(), Some("1 file hit · 0 commit hits"));
    assert_eq!(s.empty_text(), None);
    let m = CommitMatch { oid, subject: "s".into(), subject_hit: true, body_hit: true };
    assert_eq!(commit_tag(&m), "subject+body");
}

fn pr(number: u64) -> PullRequestSummary {
    PullRequestSummary {
        number,
        title: "T".into(),
        body: Some("  ".into()),
        author: "a".into(),
        url: "u".into(),
        is_draft: true,
        state: PrState::Open,
        head_ref: "topic".into(),
        base_ref: "main".into(),
    }
}

fn issue(number: u64, labels: &[&str]) -> IssueSummary {
    IssueSummary {
        number,
        title: "T".into(),
        body: None,
        author: "a".into(),
        url: "u".into(),
        state: IssueState::Closed,
        labels: labels.iter().map(|l| l.to_string()).collect(),
        assignees: vec![],
    }
}

#[test]
fn the_forge_panel() {
    let p = pr(3);
    assert_eq!(pull_request_title(&p), "#3 T · draft");
    assert_eq!(pull_request_meta(&p), "topic → main · a");
    assert_eq!(pull_request_detail(&p), "a · topic → main · open");
    assert_eq!(shown_body(&p.body), None);
    assert_eq!(find_pull_request(&[pr(1), pr(3), pr(3)], 3), Some(1));
    assert_eq!(find_issue(&[issue(1, &[])], 3), None);
    assert_eq!(issue_meta(&issue(1, &["x", "y"])), "a · x, y");
    assert_eq!(issue_meta(&issue(1, &[])), "a");
    assert_eq!(issue_detail(&issue(1, &[])), "a · closed");
    assert_eq!(named_list("labels", &[]), None);
    assert_eq!(
        named_list("labels", &["x".to_string(), "y".to_string()]).as_deref(),
        Some("labels: x, y")
    );
    assert_eq!(list_heading("Issues", 2), "Issues (2)");
    assert_eq!(window_title("Issue", 4), "Issue #4");
    assert!(keeps_selection(true, false));
    assert!(!keeps_selection(false, false));
    assert!(!keeps_selection(true, true));
    assert_eq!(modal_step(true, false, true, false), ModalStep::Stay);
    assert_eq!(modal_step(true, false, true, true), ModalStep::Submit);
    assert_eq!(modal_step(false, false, true, true), ModalStep::Close);
    assert_eq!(labels(UiLanguage::Korean).cancel, "취소");
    assert_eq!(labels(UiLanguage::Japanese).cancel, "Cancel");
}

#[test]
fn fonts_of_languages() {
    assert!(requires_cjk_font(UiLanguage::Chinese));
    assert!(!requires_cjk_font(UiLanguage::English));
    let linux = cjk_font_candidates(Platform::OtherUnix);
    assert_eq!(linux.len(), 5);
    assert_eq!(linux[0].name, "NotoSansKR-Regular");
    assert_eq!(cjk_font_candidates(Platform::Windows)[3].path, "C:\\Windows\\Fonts\\meiryo.ttc");
    assert_eq!(
        font_family(&["egui".to_string()], Some("chrome"), Some("cjk")),
        vec!["chrome".to_string(), "cjk".to_string(), "egui".to_string()]
    );
}

#[test]
fn window_frame_rules() {
    assert_eq!(section_title("Branches é"), "BRANCHES é");
    assert_eq!(segment_clicked(Some(1), 1), None);
    assert_eq!(segment_clicked(Some(2), 1), Some(2));
    assert_eq!(blended(255, 254), 254);
}

fn entry(path: &str, staged: bool, unstaged: bool) -> StatusEntry {
    StatusEntry {
        path: path.into(),
        kind: EntryKind::Modified,
        staged,
        unstaged,
        conflicted: false,
    }
}

#[test]
fn panels_and_ticks() {
    let entries = vec![entry("a", true, true), entry("b", false, true), entry("c", true, false)];
    let unstaged = panel_entries(&entries, PanelKind::Unstaged);
    assert_eq!(unstaged.iter().map(|e| e.path.as_str()).collect::<Vec<_>>(), vec!["a", "b"]);
    let mut modal = CommitModal::default();
    apply_selection_click(&mut modal, &unstaged, "a", false, false);
    assert!(modal.selection.contains("a"));
    apply_selection_click(&mut modal, &unstaged, "b/.", true, false);
    assert!(all_selected(&unstaged, &modal.selection));
    toggle_all(&mut modal, &unstaged, false);
    assert!(!modal.selection.contains("a") && !modal.selection.contains("b"));
}

#[test]
fn discarding_splits_new_files_from_old_ones() {
    let call = plan_move(MoveIntent::Discard(vec![
        DiscardPath { path: "new".into(), untracked: true },
        DiscardPath { path: "old".into(), untracked: false },
    ]));
    assert_eq!(
        call,
        MoveCall::DiscardPaths { restore: vec!["old".into()], remove: vec!["new".into()] }
    );
}

#[test]
fn messages_and_suggestions() {
    assert_eq!(
        recent_messages(&["one".into(), " two ".into(), "".into(), "one".into()]),
        vec!["one".to_string(), "two".to_string()]
    );
    assert_eq!(commit_label(0), "▸ Commit");
    assert_eq!(commit_label(2), "▸ Commit 2 staged");
    let mut modal = CommitModal::default();
    let s = || CommitSuggestion { title: "t".into(), body: Some("b".into()) };
    finish_ai(&mut modal, Ok(s()));
    assert_eq!(modal.message, "t\n\nb");
    finish_ai(&mut modal, Ok(s()));
    assert_eq!(modal.message, "t\n\nb\n\n--- AI suggestion ---\nt\n\nb");
    assert_eq!(check_ai(true, Ok(()), Ok("d".into())), Ok("d".to_string()));
    assert_eq!(
        check_ai(false, Ok(()), Ok("d".into())),
        Err("No AI endpoint configured.".to_string())
    );
    assert_eq!(
        check_ai(true, Err("locked".into()), Ok("d".into())),
        Err("secret store: locked".to_string())
    );
    assert_eq!(check_ai(true, Ok(()), Err("x".into())), Err("diff: x".to_string()));
    assert!(check_ai(true, Ok(()), Ok(" \n".into())).is_err());
}
