//! A whole file, as it is at a commit or in the working tree, and the small
//! picture in front of a file of a list.

use vstd::prelude::*;

use crate::git::{FileDiff, FileKind, Oid};
use crate::text::{decimal, digits};
use crate::ui::file_preview::{PreviewMode, PreviewState};
use crate::ui::preview_cache::{PreviewIdentity, PreviewKey};

verus! {

/// The blob of a file that is shown: the new one, or else the old one.
pub fn shown_oid(file: &FileDiff) -> (oid: Option<Oid>)
    ensures
        oid == (if file.new_oid is Some {
            file.new_oid
        } else {
            file.old_oid
        }),
{
    match file.new_oid {
        Some(o) => Some(o),
        None => file.old_oid,
    }
}

/// What is shown of a whole file.
#[derive(Debug, Clone)]
pub enum SnapshotView {
    Text,
    /// A picture, under a caption.
    Image { caption: &'static str },
    /// Words in its place.
    Notice(String),
}

/// What is said of a file that is too large.
pub open spec fn too_large_text(max_bytes: nat) -> Seq<char> {
    "File snapshot is too large to render inline (>"@ + digits(max_bytes / 1048576) + " MB)."@
}

fn too_large(max_bytes: usize) -> (out: String)
    ensures
        out@ == too_large_text(max_bytes as nat),
{
    let mut out: String = "File snapshot is too large to render inline (>".to_string();
    out.append(decimal((max_bytes / 1048576) as u64).as_str());
    out.append(" MB).");
    out
}

/// What is shown of a file at a commit.
pub fn commit_snapshot(file: &FileDiff, max_bytes: usize) -> (v: SnapshotView)
    ensures
        match file.kind {
            FileKind::Text { .. } => v is Text,
            FileKind::Image { .. } => v matches SnapshotView::Image { caption } && caption@ == (
            if file.new_oid is Some {
                "File at selected commit"@
            } else {
                "Deleted file (previous contents)"@
            }),
            FileKind::Binary => v matches SnapshotView::Notice(text) && text@
                == "Binary file snapshot is not shown inline."@,
            FileKind::TooLarge => v matches SnapshotView::Notice(text) && text@ == too_large_text(
                max_bytes as nat,
            ),
        },
{
    match &file.kind {
        FileKind::Text { .. } => SnapshotView::Text,
        FileKind::Image { .. } => SnapshotView::Image {
            caption: if file.new_oid.is_some() {
                "File at selected commit"
            } else {
                "Deleted file (previous contents)"
            },
        },
        FileKind::Binary => SnapshotView::Notice(
            "Binary file snapshot is not shown inline.".to_string(),
        ),
        FileKind::TooLarge => SnapshotView::Notice(too_large(max_bytes)),
    }
}

/// What is shown of a file of the working tree.
pub fn working_snapshot(file: &FileDiff, max_bytes: usize) -> (v: SnapshotView)
    ensures
        match file.kind {
            FileKind::Text { .. } => v is Text,
            FileKind::Image { .. } => v matches SnapshotView::Image { caption } && caption@ == (
            if file.new_path is Some {
                "Current working tree file"@
            } else {
                "Deleted file (last committed contents)"@
            }),
            FileKind::Binary => v matches SnapshotView::Notice(text) && text@
                == "Binary working tree file snapshot is not shown inline."@,
            FileKind::TooLarge => v matches SnapshotView::Notice(text) && text@ == too_large_text(
                max_bytes as nat,
            ),
        },
{
    match &file.kind {
        FileKind::Text { .. } => SnapshotView::Text,
        FileKind::Image { .. } => SnapshotView::Image {
            caption: if file.new_path.is_some() {
                "Current working tree file"
            } else {
                "Deleted file (last committed contents)"
            },
        },
        FileKind::Binary => SnapshotView::Notice(
            "Binary working tree file snapshot is not shown inline.".to_string(),
        ),
        FileKind::TooLarge => SnapshotView::Notice(too_large(max_bytes)),
    }
}

/// The sizes of a file before and after.
pub fn sizes_text(file: &FileDiff) -> (out: String)
    ensures
        out@ == "old: "@ + digits(file.old_size as nat) + " bytes   new: "@ + digits(
            file.new_size as nat,
        ) + " bytes"@,
{
    let mut out: String = "old: ".to_string();
    out.append(decimal(file.old_size as u64).as_str());
    out.append(" bytes   new: ");
    out.append(decimal(file.new_size as u64).as_str());
    out.append(" bytes");
    out
}

/// The text of a file of the working tree: that on disk, or else that of the
/// repository under its old path.
pub fn working_text(
    file: &FileDiff,
    on_disk: Option<String>,
    in_repository: Option<String>,
) -> (out: Option<String>)
    ensures
        out == (if file.new_path is Some && on_disk is Some {
            on_disk
        } else if file.old_path is Some {
            in_repository
        } else {
            None
        }),
{
    if file.new_path.is_some() && on_disk.is_some() {
        on_disk
    } else if file.old_path.is_some() {
        in_repository
    } else {
        None
    }
}

/// The size that is named below a picture.
pub fn named_size(file: &FileDiff) -> (n: usize)
    ensures
        n == (if file.new_size >= file.old_size {
            file.new_size
        } else {
            file.old_size
        }),
{
    if file.new_size >= file.old_size {
        file.new_size
    } else {
        file.old_size
    }
}

/// The small picture in front of a file: that of its shown blob. Files that
/// are no images have none.
pub fn thumbnail_key(file: &FileDiff) -> (key: Option<PreviewKey>)
    ensures
        key is Some <==> file.kind is Image && (file.new_oid is Some || file.old_oid is Some),
        key matches Some(k) ==> k.mode == PreviewMode::Thumb && k.identity == PreviewIdentity::Blob(
            if file.new_oid is Some {
                file.new_oid->0
            } else {
                file.old_oid->0
            },
        ),
{
    match &file.kind {
        FileKind::Image { .. } => match shown_oid(file) {
            Some(oid) => Some(
                PreviewKey { identity: PreviewIdentity::Blob(oid), mode: PreviewMode::Thumb },
            ),
            None => None,
        },
        _ => None,
    }
}

/// What stands in front of a file.
#[derive(Debug, Clone, Copy, PartialEq, Eq, Structural)]
pub enum ThumbnailSlot {
    Blank,
    /// A faint square, until the picture is there.
    Placeholder,
    Picture,
}

/// What stands in front of a file, by what is known of its picture. Why there
/// is none is said elsewhere.
pub fn thumbnail_slot(state: Option<&PreviewState>) -> (s: ThumbnailSlot)
    ensures
        s == (match state {
            Some(PreviewState::Ready(_)) => ThumbnailSlot::Picture,
            Some(PreviewState::Pending) => ThumbnailSlot::Placeholder,
            _ => ThumbnailSlot::Blank,
        }),
{
    match state {
        Some(PreviewState::Ready(_)) => ThumbnailSlot::Picture,
        Some(PreviewState::Pending) => ThumbnailSlot::Placeholder,
        _ => ThumbnailSlot::Blank,
    }
}

} // verus!
