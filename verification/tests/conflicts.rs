use mergefox::git::{ConflictBlob, ConflictChoice, ConflictEntry, RepoState};
use mergefox::ui::binary_conflict_view::{is_image_like, sibling_side_name, BinaryConflictIntent};
use mergefox::ui::conflict_window::{
    abort_tip, card_texts, click, file_rows, file_view, open_detail, save_tip, ConflictButton,
    ConflictIntent, FileBadge,
};
use mergefox::ui::conflicts::{
    apply_editor_resolution, conflict_title, operation_summary, rebase_summary, region_badge,
    snippet, sync_selected_conflict, ConflictPane, SideLabels,
};
use mergefox::ui::markers::{
    pick_marker, resolve_all_regions_in_editor, resolve_region_in_editor, ConflictMarkers,
    EditorResolution, NavIntent,
};
use mergefox::ui::three_way::{
    compose_three_way_resolution, layout_three_way_rows, region_count, RowKind, ThreeWaySegment,
    ThreeWayState,
};

fn sample_conflict() -> String {
    "alpha\n\
     <<<<<<< HEAD\n\
     ours-1\n\
     ours-2\n\
     =======\n\
     theirs-1\n\
     >>>>>>> branch\n\
     omega\n"
        .to_string()
}

fn entry(path: &str, text: Option<&str>) -> ConflictEntry {
    ConflictEntry {
        path: path.to_string(),
        ours: Some(ConflictBlob { oid: None, size: 3, text: Some("our".to_string()) }),
        theirs: None,
        merged_text: text.map(|t| t.to_string()),
        is_binary: false,
    }
}

fn pane() -> ConflictPane {
    ConflictPane {
        selected_conflict: None,
        conflict_editor_path: None,
        conflict_editor_text: String::new(),
    }
}

#[test]
fn parse_splits_context_and_conflict() {
    let segs = ThreeWaySegment::parse(&sample_conflict());
    assert_eq!(segs.len(), 3);
    match &segs[0] {
        ThreeWaySegment::Context(l) => assert_eq!(l, &vec!["alpha".to_string()]),
        _ => panic!("expected context"),
    }
    match &segs[1] {
        ThreeWaySegment::Conflict { ours, theirs } => {
            assert_eq!(ours, &vec!["ours-1".to_string(), "ours-2".to_string()]);
            assert_eq!(theirs, &vec!["theirs-1".to_string()]);
        }
        _ => panic!("expected conflict"),
    }
    match &segs[2] {
        ThreeWaySegment::Context(l) => assert_eq!(l, &vec!["omega".to_string()]),
        _ => panic!("expected context"),
    }
}

#[test]
fn parse_handles_no_markers() {
    let segs = ThreeWaySegment::parse("one\ntwo\nthree\n");
    assert_eq!(segs.len(), 1);
    assert!(matches!(&segs[0], ThreeWaySegment::Context(l) if l.len() == 3));
}

#[test]
fn compose_ours_only() {
    let segs = ThreeWaySegment::parse(&sample_conflict());
    let out = compose_three_way_resolution(&segs, &[(true, false)]);
    assert_eq!(out, "alpha\nours-1\nours-2\nomega\n");
}

#[test]
fn compose_theirs_only() {
    let segs = ThreeWaySegment::parse(&sample_conflict());
    let out = compose_three_way_resolution(&segs, &[(false, true)]);
    assert_eq!(out, "alpha\ntheirs-1\nomega\n");
}

#[test]
fn compose_both_sides() {
    let segs = ThreeWaySegment::parse(&sample_conflict());
    let out = compose_three_way_resolution(&segs, &[(true, true)]);
    assert_eq!(out, "alpha\nours-1\nours-2\n\ntheirs-1\nomega\n");
}

#[test]
fn compose_neither_drops_hunk() {
    let segs = ThreeWaySegment::parse(&sample_conflict());
    let out = compose_three_way_resolution(&segs, &[(false, false)]);
    assert_eq!(out, "alpha\nomega\n");
}

#[test]
fn layout_pads_unequal_hunks_with_filler() {
    let (left, right) = layout_three_way_rows(&ThreeWaySegment::parse(&sample_conflict()));
    assert_eq!(left.len(), 4);
    assert_eq!(right.len(), 4);
    assert!(matches!(left[2].kind, RowKind::Filler));
    assert!(matches!(right[1].kind, RowKind::ConflictOurs));
    assert!(matches!(right[2].kind, RowKind::ConflictOurs));
}

#[test]
fn layout_numbers_each_side_independently() {
    let (left, right) = layout_three_way_rows(&ThreeWaySegment::parse(&sample_conflict()));
    assert_eq!(left[0].line_no, Some(1));
    assert_eq!(left[1].line_no, Some(2));
    assert_eq!(left[2].line_no, None);
    assert_eq!(left[3].line_no, Some(3));

    assert_eq!(right[0].line_no, Some(1));
    assert_eq!(right[1].line_no, Some(2));
    assert_eq!(right[2].line_no, Some(3));
    assert_eq!(right[3].line_no, Some(4));
}

#[test]
fn compose_multiple_hunks_preserves_order() {
    let text = "A\n<<<<<<<\nO1\n=======\nT1\n>>>>>>>\nB\n<<<<<<<\nO2\n=======\nT2\n>>>>>>>\nC\n";
    let segs = ThreeWaySegment::parse(text);
    let out = compose_three_way_resolution(&segs, &[(true, false), (false, true)]);
    assert_eq!(out, "A\nO1\nB\nT2\nC\n");
}

#[test]
fn compose_with_missing_selection_defaults_to_nothing() {
    let segs = ThreeWaySegment::parse(&sample_conflict());
    let out = compose_three_way_resolution(&segs, &[]);
    assert_eq!(out, "alpha\nomega\n");
}

#[test]
fn sibling_side_name_preserves_extension() {
    let p = "assets/hero.psd";
    assert_eq!(sibling_side_name(p, ConflictChoice::Theirs), "assets/hero.theirs.psd");
    assert_eq!(sibling_side_name(p, ConflictChoice::Ours), "assets/hero.ours.psd");
}

#[test]
fn sibling_side_name_handles_no_extension() {
    assert_eq!(
        sibling_side_name("scripts/Makefile", ConflictChoice::Ours),
        "scripts/Makefile.ours"
    );
}

#[test]
fn sibling_side_name_handles_multi_dot_extension() {
    assert_eq!(
        sibling_side_name("release/archive.tar.gz", ConflictChoice::Theirs),
        "release/archive.tar.theirs.gz"
    );
}

#[test]
fn sibling_side_name_handles_dotfile() {
    assert_eq!(sibling_side_name(".gitattributes", ConflictChoice::Ours), ".gitattributes.ours");
}

#[test]
fn sibling_side_name_root_relative_path() {
    assert_eq!(sibling_side_name("image.png", ConflictChoice::Theirs), "image.theirs.png");
}

#[test]
fn is_image_like_recognises_common_formats() {
    assert!(is_image_like("hero.png"));
    assert!(is_image_like("hero.JPG"));
    assert!(is_image_like("layers.psd"));
    assert!(!is_image_like("model.fbx"));
    assert!(!is_image_like("lib.dll"));
    assert!(!is_image_like("README"));
}

#[test]
fn intents_are_equatable() {
    assert_eq!(BinaryConflictIntent::UseOurs, BinaryConflictIntent::UseOurs);
    assert_ne!(BinaryConflictIntent::UseOurs, BinaryConflictIntent::UseTheirs);
    assert_eq!(
        BinaryConflictIntent::KeepBoth { keep_as_main: ConflictChoice::Ours },
        BinaryConflictIntent::KeepBoth { keep_as_main: ConflictChoice::Ours }
    );
    assert_ne!(
        BinaryConflictIntent::KeepBoth { keep_as_main: ConflictChoice::Ours },
        BinaryConflictIntent::KeepBoth { keep_as_main: ConflictChoice::Theirs }
    );
}

#[test]
fn scan_finds_blocks_in_bytes_and_characters() {
    let text = "ä\n<<<<<<< a\nx\n=======\ny\n>>>>>>> b\nz\n";
    let markers = ConflictMarkers::scan(text);
    assert_eq!(markers.count(), 1);
    let r = &markers.regions[0];
    assert_eq!(&text[r.start..r.end], "<<<<<<< a\nx\n=======\ny\n>>>>>>> b\n");
    assert_eq!(r.start, 3);
    assert_eq!(r.char_start, 2);
    assert_eq!(r.ours, "x\n");
    assert_eq!(r.theirs, "y\n");
    assert_eq!(markers.start_offsets(), vec![3]);
}

#[test]
fn scan_ignores_a_block_that_never_ends() {
    assert_eq!(ConflictMarkers::scan("<<<<<<< a\nx\n=======\ny\n").count(), 0);
    assert_eq!(ConflictMarkers::scan("=======\n>>>>>>> b\n").count(), 0);
}

#[test]
fn both_sides_of_a_region_have_a_blank_line_between_them() {
    let text = sample_conflict();
    let out = resolve_region_in_editor(&text, 0, EditorResolution::Both).unwrap();
    assert_eq!(out, "alpha\nours-1\nours-2\n\ntheirs-1\nomega\n");
    assert!(resolve_region_in_editor(&text, 1, EditorResolution::Both).is_none());
}

#[test]
fn resolving_all_regions_leaves_none() {
    let text = "A\n<<<<<<<\nO1\n=======\nT1\n>>>>>>>\nB\n<<<<<<<\nO2\n=======\nT2\n>>>>>>>\nC\n";
    let ours = resolve_all_regions_in_editor(text, EditorResolution::Ours);
    assert_eq!(ours, "A\nO1\nB\nO2\nC\n");
    assert_eq!(ConflictMarkers::scan(&ours).count(), 0);
    let theirs = resolve_all_regions_in_editor(text, EditorResolution::Theirs);
    assert_eq!(theirs, "A\nT1\nB\nT2\nC\n");
}

#[test]
fn both_editors_resolve_alike() {
    let text = sample_conflict();
    let segs = ThreeWaySegment::parse(&text);
    assert_eq!(
        compose_three_way_resolution(&segs, &[(true, false)]),
        resolve_all_regions_in_editor(&text, EditorResolution::Ours)
    );
    assert_eq!(
        compose_three_way_resolution(&segs, &[(true, true)]),
        resolve_all_regions_in_editor(&text, EditorResolution::Both)
    );
}

#[test]
fn navigation_wraps() {
    let text = "<<<<<<<\nO1\n=======\nT1\n>>>>>>>\n<<<<<<<\nO2\n=======\nT2\n>>>>>>>\n";
    let markers = ConflictMarkers::scan(text);
    let starts = markers.start_offsets();
    assert_eq!(starts.len(), 2);
    assert_eq!(pick_marker(&markers, 0, NavIntent::NextConflict), Some(starts[1]));
    assert_eq!(pick_marker(&markers, starts[1], NavIntent::NextConflict), Some(starts[0]));
    assert_eq!(pick_marker(&markers, 0, NavIntent::PrevConflict), Some(starts[1]));
    let none = ConflictMarkers::scan("plain\n");
    assert_eq!(pick_marker(&none, 0, NavIntent::NextConflict), None);
}

#[test]
fn three_way_state_follows_the_regions() {
    let segs = ThreeWaySegment::parse(&sample_conflict());
    let n = region_count(&segs);
    assert_eq!(n, 1);
    let mut state = ThreeWayState::default();
    state.sync(n);
    assert_eq!(state.selections, vec![(true, false)]);
    state.pick(0, true, true);
    state.pick(0, false, false);
    assert_eq!(compose_three_way_resolution(&segs, &state.selections), "alpha\ntheirs-1\nomega\n");
    state.reset(n);
    assert_eq!(
        compose_three_way_resolution(&segs, &state.selections),
        "alpha\nours-1\nours-2\nomega\n"
    );
}

#[test]
fn window_texts() {
    assert_eq!(conflict_title(RepoState::Merge, None), "Conflict Resolver · Merge");
    assert_eq!(conflict_title(RepoState::Merge, Some("x")), "Conflict Resolver · Rebase");
    assert_eq!(
        rebase_summary("topic", 1, 3),
        "Interactive rebase on topic · step 2 of 3"
    );
    assert_eq!(rebase_summary("topic", 7, 3), "Interactive rebase on topic · step 3 of 3");
    assert_eq!(region_badge(0), "✓ Ready to save");
    assert_eq!(region_badge(1), "⚠ 1 conflict region");
    assert_eq!(region_badge(2), "⚠ 2 conflict regions");
    assert!(operation_summary(RepoState::Revert, 1).contains("1"));
    assert_eq!(
        abort_tip(RepoState::CherryPick),
        "Cancel the cherry-pick and restore the pre-operation state."
    );
    assert!(save_tip(1).contains("markers are still present"));
    assert!(!save_tip(0).contains("markers"));
    assert_eq!(snippet(""), "(empty)");
}

#[test]
fn rebase_swaps_what_the_sides_mean() {
    let merge = SideLabels::resolve(RepoState::Merge, Some("main"));
    let rebase = SideLabels::resolve(RepoState::Rebase, Some("main"));
    assert_ne!(merge.ours_long, rebase.ours_long);
    assert!(rebase.op_hint.is_some());
}

#[test]
fn selection_stays_or_moves_to_the_first() {
    let entries = vec![entry("a.txt", Some("A\n")), entry("b.txt", None)];
    let mut ws = pane();
    sync_selected_conflict(&mut ws, &entries);
    assert_eq!(ws.selected_conflict.as_deref(), Some("a.txt"));
    assert_eq!(ws.conflict_editor_text, "A\n");
    ws.selected_conflict = Some("b.txt".to_string());
    sync_selected_conflict(&mut ws, &entries);
    assert_eq!(ws.selected_conflict.as_deref(), Some("b.txt"));
    assert_eq!(ws.conflict_editor_text, "our");
    ws.conflict_editor_text = "edited".to_string();
    sync_selected_conflict(&mut ws, &entries);
    assert_eq!(ws.conflict_editor_text, "edited");
    sync_selected_conflict(&mut ws, &[]);
    assert_eq!(ws.selected_conflict, None);
    assert_eq!(ws.conflict_editor_text, "");
}

#[test]
fn an_open_file_is_known_by_its_components() {
    let entries = vec![entry("a.txt", Some("A\n")), entry("d/b.txt", Some("B\n"))];
    let mut ws = pane();
    ws.selected_conflict = Some("d//b.txt".to_string());
    sync_selected_conflict(&mut ws, &entries);
    assert_eq!(ws.selected_conflict.as_deref(), Some("d//b.txt"));
    assert_eq!(ws.conflict_editor_path.as_deref(), Some("d//b.txt"));
    assert_eq!(ws.conflict_editor_text, "B\n");
    ws.conflict_editor_text = "edited".to_string();
    ws.selected_conflict = Some("d/b.txt".to_string());
    sync_selected_conflict(&mut ws, &entries);
    assert_eq!(ws.conflict_editor_path.as_deref(), Some("d//b.txt"));
    assert_eq!(ws.conflict_editor_text, "edited");
}

#[test]
fn detail_is_there_while_conflicts_are() {
    let entries = vec![entry("a.txt", None)];
    let mut ws = pane();
    assert_eq!(open_detail(&mut ws, &entries), Some(0));
    assert_eq!(open_detail(&mut ws, &[]), None);
}

#[test]
fn rows_show_badges() {
    let mut binary = entry("img.bin", None);
    binary.is_binary = true;
    let entries = vec![entry("a.txt", Some(&sample_conflict())), entry("b.txt", Some("x")), binary];
    let rows = file_rows(&entries, &Some("b.txt".to_string()));
    assert_eq!(rows.len(), 3);
    assert_eq!(rows[0].badge, FileBadge::Blocks(1));
    assert_eq!(rows[1].badge, FileBadge::Nothing);
    assert!(rows[1].selected && !rows[0].selected);
    assert_eq!(rows[2].badge, FileBadge::Binary);
}

#[test]
fn buttons_ask_only_where_they_work() {
    let e = entry("a.txt", None);
    let text = sample_conflict();
    let view = file_view(&e, &text);
    assert_eq!(view.blocks, 1);
    assert!(view.can_use_ours && !view.can_use_theirs && view.can_save && !view.editor_open);
    assert!(matches!(
        click(ConflictButton::Use(ConflictChoice::Ours), Some(&e), &text, 1),
        Some(ConflictIntent::UseFile(p, ConflictChoice::Ours)) if p == "a.txt"
    ));
    assert!(click(ConflictButton::Use(ConflictChoice::Theirs), Some(&e), &text, 1).is_none());
    assert!(matches!(
        click(ConflictButton::Save, Some(&e), "done", 1),
        Some(ConflictIntent::SaveManual(p, t)) if p == "a.txt" && t == "done"
    ));
    assert!(matches!(
        click(ConflictButton::OneRegion(0, EditorResolution::Ours), Some(&e), &text, 1),
        Some(ConflictIntent::ResolveEditorRegion(_, 0, _))
    ));
    assert!(
        click(ConflictButton::OneRegion(1, EditorResolution::Ours), Some(&e), &text, 1).is_none()
    );
    assert!(click(ConflictButton::Continue, Some(&e), &text, 1).is_none());
    assert!(matches!(click(ConflictButton::Continue, None, "", 0), Some(ConflictIntent::Continue)));
    assert!(matches!(click(ConflictButton::Abort, None, "", 2), Some(ConflictIntent::Abort)));
    assert!(click(ConflictButton::Mergetool, None, "", 0).is_none());
}

#[test]
fn cards_say_whether_a_side_is_there() {
    let (title, chip, tip) = card_texts("Local", "main", true);
    assert_eq!(title, "Local (main)");
    assert_eq!(chip, "modified");
    assert_eq!(tip, "Resolve the whole file to this side");
    assert_eq!(card_texts("Remote", "x", false).1, "absent");
}

#[test]
fn editor_resolution_reports_what_it_did() {
    let mut ws = pane();
    ws.conflict_editor_path = Some("a.txt".to_string());
    ws.conflict_editor_text = sample_conflict();
    assert!(apply_editor_resolution(&mut ws, "a.txt", Some(0), EditorResolution::Theirs).is_ok());
    assert_eq!(ws.conflict_editor_text, "alpha\ntheirs-1\nomega\n");
    assert!(apply_editor_resolution(&mut ws, "a.txt", Some(0), EditorResolution::Theirs).is_err());
}
