use mergefox::calendar::{civil_from_days, format_ts, relative_time};
use mergefox::git::{
    DeltaStatus, DiffLine, EntryKind, FileDiff, FileKind, Hunk, LineKind, Oid, StatusEntry,
};
use mergefox::ui::blame::{
    author_hue, copy_text, short_sha, truncate, BlameCommit, BlameLine, BlameResult, BlameTask,
};
use mergefox::ui::diff_minimap::{color_for_kind, rows_for_file};
use mergefox::ui::diff_pane::{build_snapshot, needs_snapshot};
use mergefox::ui::diff_view::{
    author_hover, combined_heading, commit_message_text, count_entries, detail_rows,
    diff_line_text, meaningful_text, path_looks_like_image, selected_working_entry,
    working_tree_summary, DetailRow,
};
use mergefox::ui::file_groups::{group_by_dir, group_heading};
use mergefox::ui::line_bounds::compute_line_bounds;

fn make_file(kinds: &[LineKind]) -> FileDiff {
    let lines = kinds
        .iter()
        .map(|k| DiffLine {
            kind: *k,
            content: String::new(),
            old_lineno: None,
            new_lineno: None,
        })
        .collect();
    let hunk = Hunk {
        header: "@@ -1 +1 @@".into(),
        old_start: 1,
        old_lines: 1,
        new_start: 1,
        new_lines: 1,
        lines,
    };
    FileDiff {
        old_path: None,
        new_path: None,
        status: DeltaStatus::Modified,
        kind: FileKind::Text {
            hunks: vec![hunk],
            lines_added: 0,
            lines_removed: 0,
            truncated: false,
        },
        old_size: 0,
        new_size: 0,
        old_oid: None,
        new_oid: None,
    }
}

fn entry(path: &str, kind: EntryKind, staged: bool, unstaged: bool) -> StatusEntry {
    StatusEntry { path: path.into(), kind, staged, unstaged, conflicted: false }
}

#[test]
fn empty_for_non_text() {
    let binary = FileDiff {
        old_path: None,
        new_path: None,
        status: DeltaStatus::Modified,
        kind: FileKind::Binary,
        old_size: 0,
        new_size: 0,
        old_oid: None,
        new_oid: None,
    };
    assert!(rows_for_file(&binary).is_empty());
}

#[test]
fn one_row_per_line_plus_hunk_header() {
    let file = make_file(&[LineKind::Context, LineKind::Add, LineKind::Remove]);
    let rows = rows_for_file(&file);
    assert_eq!(rows.len(), 4);
    assert_eq!(rows[0].kind, LineKind::Meta);
    assert_eq!(rows[1].kind, LineKind::Context);
    assert_eq!(rows[2].kind, LineKind::Add);
    assert_eq!(rows[3].kind, LineKind::Remove);
}

#[test]
fn rows_preserve_kind_order_across_hunks() {
    let base = make_file(&[LineKind::Remove]);
    let mut extended = base.clone();
    if let FileKind::Text { hunks, .. } = &mut extended.kind {
        let extra = hunks[0].clone();
        hunks.push(extra);
    }
    let rows = rows_for_file(&extended);
    assert_eq!(rows.len(), 4);
    assert_eq!(
        rows.iter().map(|r| r.kind).collect::<Vec<_>>(),
        vec![LineKind::Meta, LineKind::Remove, LineKind::Meta, LineKind::Remove]
    );
}

#[test]
fn the_minimap_follows_the_rows_of_the_diff() {
    let file = make_file(&[LineKind::Add, LineKind::Add]);
    let hunks = match &file.kind {
        FileKind::Text { hunks, .. } => hunks.clone(),
        _ => unreachable!(),
    };
    let rows = detail_rows(&hunks, false);
    assert_eq!(rows.len(), rows_for_file(&file).len());
    assert_eq!(rows[0], DetailRow::HunkHeader { hunk: 0 });
    assert_eq!(rows[2], DetailRow::Line { hunk: 0, line: 1 });
    assert_eq!(detail_rows(&hunks, true).last(), Some(&DetailRow::Truncated));
    assert_eq!(color_for_kind(LineKind::Remove), (220, 110, 110));
}

#[test]
fn files_are_grouped_by_directory() {
    let paths: Vec<String> = ["src/b.rs", "README.md", "src/a.rs", "docs/x.md"]
        .iter()
        .map(|p| p.to_string())
        .collect();
    let groups = group_by_dir(&paths);
    assert_eq!(
        groups.iter().map(|g| (g.dir.as_str(), g.files.clone())).collect::<Vec<_>>(),
        vec![(".", vec![1]), ("docs", vec![3]), ("src", vec![0, 2])]
    );
    assert_eq!(group_heading(&groups[0]), "(root)  (1)");
    assert_eq!(group_heading(&groups[2]), "📁 src/  (2)");
}

#[test]
fn lines_are_cut_out_by_their_bounds() {
    let text = "one\ntwo\r\n\nfour";
    let bounds = compute_line_bounds(text);
    let cut: Vec<&str> = bounds.iter().map(|(a, b)| &text[*a as usize..*b as usize]).collect();
    assert_eq!(cut, text.lines().collect::<Vec<_>>());
}

#[test]
fn counts_in_words() {
    let entries = vec![
        entry("a", EntryKind::Modified, true, true),
        entry("b", EntryKind::Untracked, false, true),
    ];
    let c = count_entries(&entries);
    assert_eq!((c.staged, c.unstaged, c.untracked, c.conflicted), (1, 2, 1, 0));
    assert_eq!(working_tree_summary(c), "1 staged · 2 unstaged · 1 untracked");
    assert!(selected_working_entry(&entries, "b").is_some());
    assert_eq!(selected_working_entry(&entries, "b/").unwrap().path, "b");
    assert!(selected_working_entry(&entries, "c").is_none());
}

#[test]
fn texts_of_commits() {
    assert_eq!(meaningful_text(&Some("  ".into())), None);
    assert_eq!(meaningful_text(&Some(" x ".into())).as_deref(), Some("x"));
    assert!(!commit_message_text(&None).is_empty());
    assert!(author_hover(&Some("A".into()), &Some("a@b".into())).unwrap().contains("a@b"));
    assert!(author_hover(&None, &None).is_none());
    assert!(combined_heading(3).contains('3'));
    assert!(path_looks_like_image("x/Y.PNG"));
    assert!(!path_looks_like_image("x/y.rs"));
    let line = DiffLine {
        kind: LineKind::Add,
        content: "text\n".into(),
        old_lineno: None,
        new_lineno: Some(12),
    };
    assert!(diff_line_text(&line).contains("text"));
}

#[test]
fn dates() {
    assert_eq!(civil_from_days(0), (1970, 1, 1));
    assert_eq!(civil_from_days(-1), (1969, 12, 31));
    assert_eq!(civil_from_days(11016), (2000, 2, 29));
    assert!(format_ts(951782400).starts_with("2000-02-29"));
    assert_eq!(relative_time(100, 100), relative_time(100, 100));
}

#[test]
fn snapshots_are_built_once() {
    let oid = Some(Oid { bytes: [3; 20] });
    assert!(needs_snapshot(&None, &oid));
    let cache = build_snapshot(oid, Some("a\nb\n".into()));
    assert!(!needs_snapshot(&cache, &oid));
    assert_eq!(cache.unwrap().line_bounds.len(), 2);
    assert!(build_snapshot(oid, None).is_none());
}

fn blame_line(n: usize, text: &str) -> BlameLine {
    BlameLine {
        line_no: n,
        content: text.into(),
        commit: BlameCommit {
            sha: "0123456789".into(),
            author: "A".into(),
            author_email: "a@b".into(),
            author_time: 0,
            summary: "s".into(),
        },
    }
}

#[test]
fn blame_is_polled_once() {
    let mut task = BlameTask::new("a.rs".into());
    assert!(task.poll().is_none());
    task.deliver(Ok(BlameResult { path: "a.rs".into(), lines: vec![] }));
    assert!(matches!(task.poll(), Some(Ok(_))));
    assert!(task.poll().is_none());
}

#[test]
fn blame_texts() {
    assert_eq!(short_sha("0123456789"), "01234567");
    assert_eq!(short_sha("ab"), "ab");
    assert_eq!(truncate("abc", 5), "abc");
    assert!(truncate("abcdef", 3).ends_with('…'));
    assert!(author_hue("a@b") < 360);
    assert_eq!(author_hue("a@b"), author_hue("a@b"));
    let text = copy_text(&[blame_line(1, "x"), blame_line(2, "y")]);
    assert_eq!(text.lines().count(), 2);
    assert!(text.contains("0123456"));
}
