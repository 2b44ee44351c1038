use mergefox::git::{ConflictHunkKind, HunkResolution, HunkResolutionState};
use mergefox::ui::conflict_hunks_view::{
    handle_shortcuts, next_pending, preview_display, preview_text, progress_text, resolved_count,
    side_display, toggle_custom, HunkIntent, HunkKeys,
};

fn st(res: HunkResolution) -> HunkResolutionState {
    HunkResolutionState { resolution: res, custom_text: String::new() }
}

#[test]
fn next_pending_wraps_forward() {
    let r = vec![
        st(HunkResolution::Ours),
        st(HunkResolution::Pending),
        st(HunkResolution::Theirs),
    ];
    assert_eq!(next_pending(&r, Some(0), true), Some(1));
    assert_eq!(next_pending(&r, Some(1), true), Some(1));
}

#[test]
fn next_pending_returns_none_when_all_resolved() {
    let r = vec![st(HunkResolution::Ours), st(HunkResolution::Theirs)];
    assert_eq!(next_pending(&r, Some(0), true), None);
    assert_eq!(next_pending(&r, Some(0), false), None);
}

#[test]
fn next_pending_walks_backward() {
    let r = vec![
        st(HunkResolution::Pending),
        st(HunkResolution::Ours),
        st(HunkResolution::Pending),
    ];
    assert_eq!(next_pending(&r, Some(2), false), Some(0));
    assert_eq!(next_pending(&r, Some(0), false), Some(2));
}

#[test]
fn preview_text_pending_is_empty() {
    let chunk = ConflictHunkKind::Conflict {
        ours: "O\n".into(),
        theirs: "T\n".into(),
        ancestor: None,
    };
    assert!(preview_text(&chunk, &st(HunkResolution::Pending)).is_empty());
}

#[test]
fn preview_text_custom_uses_state() {
    let chunk = ConflictHunkKind::Conflict {
        ours: "O\n".into(),
        theirs: "T\n".into(),
        ancestor: None,
    };
    let state = HunkResolutionState {
        resolution: HunkResolution::Custom,
        custom_text: "X\n".into(),
    };
    assert_eq!(preview_text(&chunk, &state), "X\n");
}

#[test]
fn preview_text_both_joins_with_newline() {
    let chunk = ConflictHunkKind::Conflict {
        ours: "O".into(),
        theirs: "T\n".into(),
        ancestor: None,
    };
    assert_eq!(preview_text(&chunk, &st(HunkResolution::Both)), "O\nT\n");
}

#[test]
fn a_pending_hunk_shows_that_there_is_nothing_yet() {
    let chunk = ConflictHunkKind::Conflict {
        ours: "O\n".into(),
        theirs: "T\n".into(),
        ancestor: None,
    };
    assert_eq!(preview_display(&chunk, &st(HunkResolution::Pending)), "(nothing yet)");
    assert_eq!(side_display("O\n"), "O");
}

#[test]
fn progress_counts_resolved_hunks() {
    let r = vec![st(HunkResolution::Ours), st(HunkResolution::Pending)];
    assert_eq!(resolved_count(&r), 1);
    let (title, rest) = progress_text(1, 2);
    assert_eq!(title, "Resolving 1 of 2 hunks");
    assert_eq!(rest, "·  Pending 1  ·  Resolved 1");
}

#[test]
fn custom_opens_with_a_seed() {
    let mut open = false;
    let intent = toggle_custom(0, &st(HunkResolution::Pending), "seed".to_string(), &mut open);
    assert!(open);
    assert!(matches!(intent, HunkIntent::OpenCustom { index: 0, seed } if seed == "seed"));
    let again = toggle_custom(0, &st(HunkResolution::Pending), "seed".to_string(), &mut open);
    assert!(!open);
    assert!(matches!(again, HunkIntent::CloseCustom { index: 0 }));
}

#[test]
fn shortcuts_wait_while_text_is_typed() {
    let keys = HunkKeys { one: true, two: false, three: false, n: true, p: false };
    let mut intents = Vec::new();
    handle_shortcuts(keys, true, true, &mut intents);
    assert!(intents.is_empty());
    handle_shortcuts(keys, true, false, &mut intents);
    assert_eq!(intents.len(), 2);
    assert!(matches!(intents[1], HunkIntent::NavPending { forward: true }));
}
