//! What the panels and windows decide, apart from how they are drawn.

pub mod markers;
pub mod marker_laws;
pub mod three_way;
pub mod three_way_laws;
pub mod conflicts;
pub mod conflict_hunks_view;
pub mod conflict_window;
pub mod conflict_laws;
pub mod file_preview;
pub mod panel_laws;
pub mod preview_cache;
pub mod preview_laws;
pub mod thumbnailer;
pub mod window_laws;
pub mod file_snapshot;
pub mod binary_conflict_view;
pub mod basket_focus;
pub mod diff_minimap;
pub mod blame;
pub mod line_bounds;
pub mod file_groups;
pub mod diff_view;
pub mod diff_laws;
pub mod diff_images;
pub mod diff_pane;
pub mod commit_modal;
pub mod commit_modal_laws;
pub mod columns;
pub mod activity_log;
pub mod basket_squash;
pub mod bisect;
pub mod commit_basket;
pub mod find_fix;
pub mod forge;
pub mod forge_labels;
pub mod chrome;
pub mod fonts;
pub mod icon;
pub mod graph;
pub mod graph_laws;
pub mod graph_menu;
pub mod smart_branches;
pub mod hud;
pub mod graph_lanes;
