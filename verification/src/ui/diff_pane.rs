//! What is selected in the diff panel.

use std::sync::Arc;

use vstd::prelude::*;

use crate::git::{oid_bytes, same_oid, Oid, RepoDiff};
use crate::paths::{is_path, opt_plain, plain};
use crate::shared::share;
use crate::text::opt_view;
use crate::ui::diff_images::SelectedImageCache;

verus! {

/// Whether a file is shown by its diff or as a whole.
#[derive(Debug, Clone, Copy, PartialEq, Eq, Structural)]
pub enum SelectedFileView {
    Diff,
    File,
}

/// What is selected in the diff panel.
pub struct DiffPane {
    pub selected_commit: Option<Oid>,
    pub current_diff: Option<Arc<RepoDiff>>,
    pub selected_file_idx: Option<usize>,
    pub selected_file_view: SelectedFileView,
    pub image_cache: Option<SelectedImageCache>,
    /// The whole diff over several commits, while only one file of it is
    /// shown.
    pub combined_diff_full: Option<Arc<RepoDiff>>,
    pub combined_diff_focus_path: Option<String>,
    pub selected_working_tree: bool,
    pub selected_working_file: Option<String>,
    pub working_file_diff: Option<String>,
}

impl DiffPane {
    /// Whether the selected file of the commit is there.
    pub open spec fn has_commit_file(&self) -> bool {
        &&& self.current_diff is Some
        &&& self.selected_file_idx is Some
        &&& self.selected_file_idx->0 < self.current_diff->0.files@.len()
    }

    /// Whether a file is selected, of the commit or of the working tree.
    pub fn has_selected_file(&self) -> (r: bool)
        ensures
            r == (self.has_commit_file() || (self.selected_working_tree
                && self.selected_working_file is Some)),
    {
        let commit_file: bool = match (&self.current_diff, self.selected_file_idx) {
            (Some(diff), Some(idx)) => idx < diff.files.len(),
            _ => false,
        };
        commit_file || (self.selected_working_tree && self.selected_working_file.is_some())
    }

    /// Whether the panel is shown: with changes, with a diff, or while a diff
    /// is computed.
    pub fn is_visible(&self, computing: bool) -> (r: bool)
        ensures
            r == (self.selected_working_tree || self.current_diff is Some || computing),
    {
        self.selected_working_tree || self.current_diff.is_some() || computing
    }

    /// A click on a file of the commit. A second click on it closes it.
    pub fn toggle_file(&mut self, index: usize)
        ensures
            *final(self) == (DiffPane {
                selected_file_idx: if old(self).selected_file_idx == Some(index) {
                    None
                } else {
                    Some(index)
                },
                selected_file_view: SelectedFileView::Diff,
                image_cache: None,
                ..*old(self)
            }),
    {
        let selected: bool = match self.selected_file_idx {
            Some(i) => i == index,
            None => false,
        };
        self.selected_file_idx = if selected {
            None
        } else {
            Some(index)
        };
        self.selected_file_view = SelectedFileView::Diff;
        self.image_cache = None;
    }

    /// A click on a file of the working tree, whose diff is `diff`. A second
    /// click on it closes it.
    pub fn toggle_working_file(&mut self, path: &str, diff: Option<String>)
        ensures
            final(self).selected_file_view == SelectedFileView::Diff,
            final(self).image_cache is None,
            if opt_plain(opt_view(old(self).selected_working_file)) == Some(plain(path@)) {
                &&& final(self).selected_working_file is None
                &&& final(self).working_file_diff is None
            } else {
                &&& opt_view(final(self).selected_working_file) == Some(path@)
                &&& final(self).working_file_diff == diff
            },
            *final(self) == (DiffPane {
                selected_working_file: final(self).selected_working_file,
                working_file_diff: final(self).working_file_diff,
                selected_file_view: SelectedFileView::Diff,
                image_cache: None,
                ..*old(self)
            }),
    {
        if is_path(&self.selected_working_file, path) {
            self.selected_working_file = None;
            self.working_file_diff = None;
        } else {
            self.selected_working_file = Some(path.to_owned());
            self.working_file_diff = diff;
        }
        self.selected_file_view = SelectedFileView::Diff;
        self.image_cache = None;
    }

    /// Closes the diff of a commit.
    pub fn close_diff(&mut self)
        ensures
            *final(self) == (DiffPane {
                selected_commit: None,
                current_diff: None,
                selected_file_idx: None,
                selected_file_view: SelectedFileView::Diff,
                image_cache: None,
                ..*old(self)
            }),
    {
        self.selected_commit = None;
        self.current_diff = None;
        self.selected_file_idx = None;
        self.selected_file_view = SelectedFileView::Diff;
        self.image_cache = None;
    }

    /// Closes the list of changes.
    pub fn close_changes(&mut self)
        ensures
            *final(self) == (DiffPane {
                selected_working_tree: false,
                selected_working_file: None,
                image_cache: None,
                working_file_diff: None,
                ..*old(self)
            }),
    {
        self.selected_working_tree = false;
        self.selected_working_file = None;
        self.image_cache = None;
        self.working_file_diff = None;
    }

    /// Goes back from the selected file of the working tree to the changes.
    pub fn back_to_changes(&mut self)
        ensures
            *final(self) == (DiffPane {
                selected_working_file: None,
                image_cache: None,
                working_file_diff: None,
                ..*old(self)
            }),
    {
        self.selected_working_file = None;
        self.image_cache = None;
        self.working_file_diff = None;
    }

    /// Gives up the selected file of the working tree, which has no changes
    /// any more.
    pub fn forget_working_file(&mut self)
        ensures
            *final(self) == (DiffPane {
                selected_working_file: None,
                working_file_diff: None,
                ..*old(self)
            }),
    {
        self.selected_working_file = None;
        self.working_file_diff = None;
    }

    /// Gives up the selected file of the commit, which is not there.
    pub fn forget_file(&mut self)
        ensures
            *final(self) == (DiffPane { selected_file_idx: None, ..*old(self) }),
    {
        self.selected_file_idx = None;
    }

    /// Goes back from the selected file to the list of files.
    pub fn back_to_history(&mut self)
        ensures
            *final(self) == (DiffPane {
                selected_file_idx: None,
                image_cache: None,
                ..*old(self)
            }),
    {
        self.selected_file_idx = None;
        self.image_cache = None;
    }

    /// Shows the whole diff over several commits again. Nothing changes when
    /// it is not narrowed to one file.
    pub fn clear_focus(&mut self)
        ensures
            *final(self) == (if old(self).combined_diff_focus_path is Some {
                DiffPane {
                    combined_diff_focus_path: None,
                    current_diff: if old(self).combined_diff_full is Some {
                        old(self).combined_diff_full
                    } else {
                        old(self).current_diff
                    },
                    selected_file_idx: None,
                    image_cache: None,
                    ..*old(self)
                }
            } else {
                *old(self)
            }),
    {
        if self.combined_diff_focus_path.is_some() {
            self.combined_diff_focus_path = None;
            if let Some(full) = &self.combined_diff_full {
                self.current_diff = Some(share(full));
            }
            self.selected_file_idx = None;
            self.image_cache = None;
        }
    }
}

/// The text of a file that is shown as a whole, by the blob it was read from.
pub struct SnapshotCache {
    pub oid: Option<Oid>,
    pub text: String,
    pub line_bounds: Vec<(u32, u32)>,
}

/// Whether the text of a blob has to be read: unless it was read already.
pub fn needs_snapshot(cache: &Option<SnapshotCache>, oid: &Option<Oid>) -> (r: bool)
    ensures
        r == (match *cache {
            Some(c) => oid_bytes(c.oid) != oid_bytes(*oid),
            None => true,
        }),
{
    match cache {
        Some(c) => !same_oid(&c.oid, oid),
        None => true,
    }
}

/// What is kept of a blob once it was read. `None` when it could not be.
pub fn build_snapshot(oid: Option<Oid>, text: Option<String>) -> (out: Option<SnapshotCache>)
    ensures
        out is Some == text is Some,
        out matches Some(c) ==> {
            &&& c.oid == oid
            &&& c.text == text->0
            &&& c.line_bounds@ == crate::ui::line_bounds::narrowed(
                crate::ui::line_bounds::line_bounds(vstd::utf8::encode_utf8(text->0@)),
            )
        },
{
    match text {
        Some(text) => {
            let line_bounds = crate::ui::line_bounds::compute_line_bounds(text.as_str());
            Some(SnapshotCache { oid, text, line_bounds })
        },
        None => None,
    }
}

} // verus!
