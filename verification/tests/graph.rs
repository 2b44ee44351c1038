use mergefox::actions::{CommitAction, ResetMode};
use mergefox::git::{EntryKind, Oid, StatusEntry};
use mergefox::ui::columns::{
    column_title, columns, has_handle, stays_open, switch_label, Column, ColumnPrefs, Switch,
};
use mergefox::ui::graph::{
    chip_texts, connector_lane, fnv1a, fnv1a_reverse, identicon, is_empty, lane_color, ref_chips,
    relative_time, summarize_working_tree, working_tree_chips, working_tree_row, GraphInteraction,
    RefChip, RefKind, RefLabel,
};
use mergefox::ui::graph_lanes::{row_segments, GraphRow, LaneSegment};
use mergefox::ui::graph_menu::{
    commit_menu, entry_action, entry_label, is_danger, reset_action, reset_label,
    working_tree_label, MenuEntry, WorkingTreeEntry,
};
use mergefox::ui::smart_branches::visible_chips;

fn label(short: &str, kind: RefKind) -> RefLabel {
    RefLabel { short: short.into(), kind }
}

fn refs() -> Vec<RefLabel> {
    vec![
        label("v1", RefKind::Tag),
        label("main", RefKind::LocalBranch),
        label("origin/main", RefKind::RemoteBranch),
        label("topic", RefKind::LocalBranch),
        label("fork/main", RefKind::RemoteBranch),
    ]
}

fn oid() -> Oid {
    Oid { bytes: [9; 20] }
}

fn row(lane: u16, below: &[u16], incoming: &[u16], out: &[u16]) -> GraphRow {
    GraphRow {
        oid: oid(),
        lane,
        lanes_below: below.to_vec(),
        incoming_lanes: incoming.to_vec(),
        edges_out: out.to_vec(),
        refs: vec![],
        summary: String::new(),
        author: String::new(),
        author_email: String::new(),
        timestamp: 0,
    }
}

#[test]
fn local_and_remote_branches_share_a_chip() {
    let r = refs();
    let chips = ref_chips(&r);
    assert_eq!(
        chips,
        vec![
            RefChip::Synced { local: 1, remote: 2 },
            RefChip::Local { local: 3 },
            RefChip::Remote { remote: 4 },
            RefChip::Tag { tag: 0 },
        ]
    );
    assert_eq!(
        chip_texts(&r, chips[0]),
        ("← main".to_string(), "origin →".to_string())
    );
    assert_eq!(chip_texts(&r, chips[3]).0, "v1");
}

#[test]
fn a_past_commit_has_the_plain_menu() {
    assert_eq!(
        commit_menu(&[], false),
        vec![
            MenuEntry::Checkout,
            MenuEntry::CreateWorktree,
            MenuEntry::CreateBranch,
            MenuEntry::CherryPick,
            MenuEntry::Revert,
            MenuEntry::Separator,
            MenuEntry::CopySha,
            MenuEntry::CopyShortSha,
            MenuEntry::CreateTag,
            MenuEntry::CreateAnnotatedTag,
        ]
    );
}

#[test]
fn a_branch_tip_has_its_branches_in_the_menu() {
    let r = vec![
        label("main", RefKind::LocalBranch),
        label("origin/main", RefKind::RemoteBranch),
    ];
    let menu = commit_menu(&r, true);
    assert_eq!(
        menu,
        vec![
            MenuEntry::Pull(0),
            MenuEntry::Push(0),
            MenuEntry::SetUpstream(0),
            MenuEntry::Separator,
            MenuEntry::Checkout,
            MenuEntry::CreateWorktree,
            MenuEntry::CreateBranch,
            MenuEntry::CherryPick,
            MenuEntry::ResetMenu(0),
            MenuEntry::Revert,
            MenuEntry::Separator,
            MenuEntry::Amend,
            MenuEntry::Drop,
            MenuEntry::MoveUp,
            MenuEntry::MoveDown,
            MenuEntry::Separator,
            MenuEntry::Rename(0),
            MenuEntry::Delete(0),
            MenuEntry::DeleteRemote(1),
            MenuEntry::Separator,
            MenuEntry::CopySha,
            MenuEntry::CopyShortSha,
            MenuEntry::CreateTag,
            MenuEntry::CreateAnnotatedTag,
        ]
    );
    assert_eq!(entry_label(menu[0], &r), "Pull 'main' (ff if possible)");
    assert_eq!(entry_label(menu[8], &r), "Reset 'main' to this commit");
    assert_eq!(entry_label(menu[18], &r), "Delete remote 'origin/main'");
    assert!(is_danger(menu[18]) && !is_danger(menu[0]));
    assert_eq!(
        entry_action(menu[1], &r, oid()),
        Some(CommitAction::Push { branch: "main".into(), force: false })
    );
    assert_eq!(
        entry_action(menu[18], &r, oid()),
        Some(CommitAction::DeleteBranchPrompt { name: "origin/main".into(), is_remote: true })
    );
    assert_eq!(entry_action(MenuEntry::Separator, &r, oid()), None);
}

#[test]
fn resets() {
    assert_eq!(reset_label(ResetMode::Hard), ("Hard  — discard all changes", true));
    assert_eq!(
        reset_action("main", ResetMode::Soft, oid()),
        CommitAction::Reset { branch: "main".into(), mode: ResetMode::Soft, target: oid() }
    );
}

#[test]
fn lanes_end_pass_and_leave() {
    let above = row(0, &[0, 1, 2], &[], &[]);
    let here = row(0, &[0, 2, 3], &[1], &[0, 3]);
    let line = |in_top_half: bool, from: u16, to: u16, lane: u16| LaneSegment {
        in_top_half,
        from,
        to,
        lane,
    };
    assert_eq!(
        row_segments(&here, Some(&above), None, 8),
        vec![
            line(true, 0, 0, 0),
            line(true, 1, 0, 1),
            line(true, 2, 2, 2),
            line(false, 2, 2, 2),
            line(false, 0, 0, 0),
            line(false, 0, 3, 3),
        ]
    );
    assert_eq!(row_segments(&row(5, &[], &[], &[]), None, Some(5), 2), vec![line(true, 2, 2, 5)]);
    assert_eq!(lane_color(13), lane_color(1));
    assert_eq!(lane_color(0), (255, 183, 178));
}

#[test]
fn hashes_and_pictures() {
    assert_eq!(fnv1a(b"", 7), 7);
    assert_eq!(fnv1a(b"a", 0x811c_9dc5), 0xe40c_292c);
    assert_eq!(fnv1a_reverse(b"abc", 1), fnv1a(b"cba", 1));
    let icon = identicon("alice@example.com", "Alice");
    assert_eq!(icon.cells.len(), 25);
    assert!(icon.hue < 360);
    for r in 0..5 {
        for c in 0..5 {
            assert_eq!(icon.cells[r * 5 + c], icon.cells[r * 5 + 4 - c]);
        }
    }
    assert_eq!(identicon("", "Alice").hue, identicon("Alice", "other").hue);
}

#[test]
fn ages_in_short() {
    assert_eq!(relative_time(100, 130), "now");
    assert_eq!(relative_time(130, 100), "now");
    assert_eq!(relative_time(0, 120), "2m");
    assert_eq!(relative_time(0, 7200), "2h");
    assert_eq!(relative_time(0, 86_400 * 3), "3d");
    assert_eq!(relative_time(0, 2_592_000 * 4), "4mo");
}

#[test]
fn the_working_tree_is_a_row_of_its_own() {
    let entries = vec![StatusEntry {
        path: "a".into(),
        kind: EntryKind::Modified,
        staged: true,
        unstaged: false,
        conflicted: true,
    }];
    let s = summarize_working_tree(&entries);
    assert!(s.has_changes());
    assert_eq!(s.message(), "1 conflicted · 1 staged");
    assert_eq!(working_tree_chips(&s), vec!["WORKTREE", "CONFLICT"]);
    assert!(working_tree_row(Some(&entries)).is_some());
    assert!(working_tree_row(Some(&[])).is_none());
    assert_eq!(summarize_working_tree(&[]).message(), "clean");
    assert!(is_empty(0, None) && is_empty(0, Some(&[])) && !is_empty(0, Some(&entries)));
    assert_eq!(connector_lane(0, 4, true), Some(4));
    assert_eq!(connector_lane(1, 4, true), None);
}

#[test]
fn clicks_select_a_commit_or_the_working_tree() {
    let mut out = GraphInteraction::default();
    let mut selected = None;
    let mut working = false;
    out.click_commit(&mut selected, 3);
    assert_eq!((selected, out.clicked), (Some(3), Some(3)));
    out.click_working_tree(&mut selected, &mut working);
    assert_eq!((selected, out.clicked), (None, None));
    assert!(working && out.clear_commit_selection);
    out.pick_working_tree_entry(WorkingTreeEntry::CreateStash);
    assert_eq!(out.action, Some(CommitAction::StashPushPrompt));
    out.pick_working_tree_entry(WorkingTreeEntry::Commit);
    assert!(out.open_commit);
    assert_eq!(working_tree_label(WorkingTreeEntry::Commit), "Commit…");
}

#[test]
fn column_layouts() {
    let mut p = ColumnPrefs::default_full();
    assert_eq!(p, ColumnPrefs::default());
    assert_eq!(
        columns(&p, true),
        vec![Column::Graph, Column::Refs, Column::Message, Column::Author, Column::Date]
    );
    p.toggle(Switch::Sha);
    assert!(p.on(Switch::Sha));
    p.toggle(Switch::Sha);
    assert_eq!(p, ColumnPrefs::default_full());
    assert!(p.reset(false, true, false));
    assert_eq!(p, ColumnPrefs::compact());
    assert_eq!(columns(&p, false), vec![Column::Graph, Column::Message]);
    assert_eq!(columns(&p, true), vec![Column::Graph, Column::Refs, Column::Message]);
    assert!(p.reset(false, false, true));
    assert_eq!(switch_label(Switch::Sha, true), "✓ Sha");
    assert_eq!(switch_label(Switch::Sha, false), "   Sha");
    assert_eq!(column_title(Column::Refs), "Branch");
    assert!(!has_handle(&p, Column::Message));
    assert!(stays_open(true, false, false) && !stays_open(true, false, true));
}

#[test]
fn a_remote_branch_goes_with_the_whole_local_name() {
    let r = vec![
        label("feature/x", RefKind::LocalBranch),
        label("origin/feature/x", RefKind::RemoteBranch),
        label("main", RefKind::LocalBranch),
        label("main", RefKind::RemoteBranch),
        label("domain", RefKind::LocalBranch),
        label("origin/main", RefKind::RemoteBranch),
    ];
    assert_eq!(
        ref_chips(&r),
        vec![
            RefChip::Synced { local: 0, remote: 1 },
            RefChip::Synced { local: 2, remote: 5 },
            RefChip::Local { local: 4 },
            RefChip::Remote { remote: 3 },
        ]
    );
    assert_eq!(
        chip_texts(&r, RefChip::Synced { local: 0, remote: 1 }),
        ("← feature/x".to_string(), "origin →".to_string())
    );
}

#[test]
fn smart_branches_are_shown_once() {
    let with = |refs: Vec<RefLabel>| GraphRow { refs, ..row(0, &[], &[], &[]) };
    let rows = vec![
        with(vec![label("main", RefKind::LocalBranch)]),
        with(vec![label("side", RefKind::LocalBranch)]),
        with(vec![]),
        with(vec![
            label("origin/main", RefKind::RemoteBranch),
            label("v1", RefKind::Tag),
            label("origin/side", RefKind::RemoteBranch),
            label("origin/other/main", RefKind::RemoteBranch),
        ]),
        with(vec![label("origin/side", RefKind::RemoteBranch)]),
    ];
    let parents = vec![vec![2], vec![4], vec![3], vec![], vec![]];
    let smart = ColumnPrefs { smart_branches: true, ..ColumnPrefs::default_full() };
    let plain = ColumnPrefs { smart_branches: false, ..ColumnPrefs::default_full() };
    assert_eq!(visible_chips(&rows, &parents, 0, &smart), vec![RefChip::Local { local: 0 }]);
    assert_eq!(
        visible_chips(&rows, &parents, 3, &smart),
        vec![RefChip::Remote { remote: 2 }, RefChip::Remote { remote: 3 }, RefChip::Tag { tag: 1 }]
    );
    assert_eq!(visible_chips(&rows, &parents, 3, &plain), ref_chips(&rows[3].refs));
    assert_eq!(visible_chips(&rows, &parents, 4, &smart), vec![]);
}
