//! Asking the thumbnailer of the platform, which is a program that writes its
//! picture to a file.

use vstd::prelude::*;

use crate::git::Oid;
use crate::paths::{extension, extension_of, file_name, file_name_of, join, joined};
use crate::text::{decimal, digits, opt_view, same, views};
use crate::ui::file_preview::{thumbnailer_size, PreviewMode};

verus! {

/// How long the thumbnailer may take, in milliseconds.
pub const TIMEOUT_MS: u64 = 5000;

/// How long to wait between two looks at it, in milliseconds.
pub const POLL_INTERVAL_MS: u64 = 50;

/// The name of the file that the bytes of a blob are written to. It keeps the
/// extension, by which the thumbnailer knows the format.
pub fn source_name(oid: &Oid, ext: &str) -> (out: String)
    ensures
        out@ == (if ext@.len() == 0 {
            oid.text()
        } else {
            oid.text() + "."@ + ext@
        }),
{
    let mut out = oid.to_hex();
    if !ext.is_empty() {
        out.append(".");
        out.append(ext);
    }
    out
}

/// How the thumbnailer is called: with the size of the picture, the directory
/// for its file, and the file to look at.
pub fn arguments(mode: PreviewMode, out_dir: &str, source: &str) -> (args: Vec<String>)
    ensures
        views(args@) == seq![
            "-t"@,
            "-s"@,
            digits(
                match mode {
                    PreviewMode::Thumb => crate::ui::file_preview::THUMB_MAX_DIM as nat,
                    PreviewMode::Full => 512,
                },
            ),
            "-o"@,
            out_dir@,
            source@,
        ],
{
    let mut args: Vec<String> = Vec::new();
    args.push("-t".to_string());
    args.push("-s".to_string());
    args.push(decimal(thumbnailer_size(mode) as u64));
    args.push("-o".to_string());
    args.push(out_dir.to_string());
    args.push(source.to_string());
    proof {
        assert(views(args@) =~= seq![
            "-t"@,
            "-s"@,
            digits(
                match mode {
                    PreviewMode::Thumb => crate::ui::file_preview::THUMB_MAX_DIM as nat,
                    PreviewMode::Full => 512,
                },
            ),
            "-o"@,
            out_dir@,
            source@,
        ]);
    }
    args
}

/// What a look at the thumbnailer shows.
#[derive(Debug, Clone, Copy, PartialEq, Eq, Structural)]
pub enum Look {
    /// It has ended, with success or not.
    Ended(bool),
    Running,
    /// It cannot be looked at.
    Lost,
}

/// What is done after a look.
#[derive(Debug, Clone, Copy, PartialEq, Eq, Structural)]
pub enum WaitStep {
    /// Look again after the interval.
    Sleep,
    /// End it, and give up.
    Kill,
    /// Read its picture.
    Read,
    GiveUp,
}

/// What is done after a look, so long after the start.
pub fn after_look(look: Look, elapsed_ms: u64) -> (s: WaitStep)
    ensures
        s == (match look {
            Look::Ended(ok) => if ok {
                WaitStep::Read
            } else {
                WaitStep::GiveUp
            },
            Look::Lost => WaitStep::GiveUp,
            Look::Running => if elapsed_ms >= 5000 {
                WaitStep::Kill
            } else {
                WaitStep::Sleep
            },
        }),
{
    match look {
        Look::Ended(ok) => if ok {
            WaitStep::Read
        } else {
            WaitStep::GiveUp
        },
        Look::Lost => WaitStep::GiveUp,
        Look::Running => if elapsed_ms >= TIMEOUT_MS {
            WaitStep::Kill
        } else {
            WaitStep::Sleep
        },
    }
}

/// Where the thumbnailer puts its picture: under the name of the file, with
/// `.png` behind it.
pub fn expected_output(out_dir: &str, source: &str) -> (out: Option<String>)
    ensures
        opt_view(out) == (match file_name(source@) {
            Some(name) => Some(joined(out_dir@, name + ".png"@)),
            None => None,
        }),
{
    match file_name_of(source) {
        Some(name) => {
            let mut file = name;
            file.append(".png");
            Some(join(out_dir, file.as_str()))
        },
        None => None,
    }
}

/// Whether a path is that of a PNG file.
pub open spec fn is_png(path: Seq<char>) -> bool {
    extension(path) == Some("png"@)
}

/// The first PNG file of a directory, for a picture under another name.
pub fn find_first_png(paths: &[String]) -> (at: Option<usize>)
    ensures
        at matches Some(i) ==> i < paths@.len() && is_png(paths@[i as int]@) && forall|k: int|
            0 <= k < i ==> !is_png((#[trigger] paths@[k])@),
        at is None ==> forall|k: int| 0 <= k < paths@.len() ==> !is_png((#[trigger] paths@[k])@),
{
    let mut i: usize = 0;
    while i < paths.len()
        invariant
            i <= paths@.len(),
            forall|k: int| 0 <= k < i ==> !is_png((#[trigger] paths@[k])@),
        decreases paths.len() - i,
    {
        if let Some(ext) = extension_of(paths[i].as_str()) {
            if same(ext.as_str(), "png") {
                return Some(i);
            }
        }
        i += 1;
    }
    None
}

} // verus!
