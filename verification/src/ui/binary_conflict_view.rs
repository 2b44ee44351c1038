//! The card for a conflicted binary file: which of its actions are offered,
//! and under which name the side that is not kept goes to disk.

use vstd::prelude::*;

use crate::git::{ConflictBlob, ConflictChoice, ConflictEntry};
use crate::paths::{
    body, directory, directory_of, extension, extension_of, extension_start, file_name,
    file_name_of, join, joined, last_index, last_part, last_start, lemma_last_index, split_name,
    stem,
};
use crate::text::{format_size, lower_ascii, size_text, to_lower_ascii};
use crate::ui::file_preview::{format_of, is_decoded, Format, FormatKind};

verus! {

/// What the card asks for.
#[derive(Debug, Clone, PartialEq, Eq)]
pub enum BinaryConflictIntent {
    /// Keep our side and discard theirs.
    UseOurs,
    /// Keep their side and discard ours.
    UseTheirs,
    /// Keep both: one side under the original path, the other beside it.
    KeepBoth { keep_as_main: ConflictChoice },
    /// Open one side with another program.
    OpenExternal { side: ConflictChoice },
}

/// Short labels of the two sides.
#[derive(Debug, Clone, PartialEq, Eq)]
pub struct SideLabels {
    pub ours_short: String,
    pub theirs_short: String,
}

/// The extension of a path in small letters, empty where there is none.
pub open spec fn lower_extension(path: Seq<char>) -> Seq<char> {
    match extension(path) {
        Some(ext) => lower_ascii(ext),
        None => Seq::empty(),
    }
}

/// The extension of a path in small letters, empty where there is none.
pub fn lower_extension_of(path: &str) -> (out: String)
    ensures
        out@ == lower_extension(path@),
{
    match extension_of(path) {
        Some(ext) => to_lower_ascii(ext.as_str()),
        None => String::new(),
    }
}

/// Whether a file is shown as a picture, by its extension.
pub fn is_image_like(path: &str) -> (r: bool)
    ensures
        r == is_decoded(format_of(lower_extension(path@))),
{
    FormatKind::from_ext(lower_extension_of(path).as_str()).has_inprocess_decoder()
}

/// The word that marks a side in a file name.
pub open spec fn side_tag(side: ConflictChoice) -> Seq<char> {
    match side {
        ConflictChoice::Ours => "ours"@,
        ConflictChoice::Theirs => "theirs"@,
    }
}

/// The file name of a side: the tag goes in front of the extension, or to the
/// end where there is none.
pub open spec fn sibling_name(name: Option<Seq<char>>, side: ConflictChoice) -> Seq<char> {
    match name {
        Some(n) => if extension_start(n) >= 0 && extension_start(n) < n.len() {
            stem(n) + seq!['.'] + side_tag(side) + seq!['.'] + n.skip(extension_start(n))
        } else {
            n + seq!['.'] + side_tag(side)
        },
        None => "file."@ + side_tag(side),
    }
}

/// The path of a side, beside the original path.
pub open spec fn sibling_path(path: Seq<char>, side: ConflictChoice) -> Seq<char> {
    joined(directory(path), sibling_name(file_name(path), side))
}

/// The path under which a side is kept beside the original path:
/// `foo.theirs.psd` for `foo.psd`, `README.ours` for `README`.
pub fn sibling_side_name(path: &str, side: ConflictChoice) -> (out: String)
    ensures
        out@ == sibling_path(path@, side),
{
    let tag: &str = match side {
        ConflictChoice::Ours => "ours",
        ConflictChoice::Theirs => "theirs",
    };
    let name: String = match file_name_of(path) {
        Some(n) => {
            let (stem, ext) = split_name(n.as_str());
            proof {
                lemma_last_index(n@, '.');
            }
            match ext {
                Some(ext) => if !ext.as_str().is_empty() {
                    let mut out = stem;
                    out.push('.');
                    out.append(tag);
                    out.push('.');
                    out.append(ext.as_str());
                    proof {
                        assert(out@ =~= sibling_name(Some(n@), side));
                    }
                    out
                } else {
                    let mut out = n;
                    out.push('.');
                    out.append(tag);
                    proof {
                        assert(out@ =~= sibling_name(Some(n@), side));
                    }
                    out
                },
                None => {
                    let mut out = n;
                    out.push('.');
                    out.append(tag);
                    proof {
                        assert(out@ =~= sibling_name(Some(n@), side));
                    }
                    out
                },
            }
        },
        None => {
            let mut out: String = "file.".to_string();
            out.append(tag);
            out
        },
    };
    let dir = directory_of(path);
    join(dir.as_str(), name.as_str())
}

pub open spec fn blob_size_text(blob: Option<ConflictBlob>) -> Seq<char> {
    match blob {
        Some(b) => size_text(b.size as nat),
        None => "absent"@,
    }
}

fn blob_size(blob: &Option<ConflictBlob>) -> (out: String)
    ensures
        out@ == blob_size_text(*blob),
{
    match blob {
        Some(b) => format_size(b.size as u64),
        None => "absent".to_string(),
    }
}

/// The sizes of both sides.
pub fn format_size_summary(ours: &Option<ConflictBlob>, theirs: &Option<ConflictBlob>) -> (out:
    String)
    ensures
        out@ == "ours "@ + blob_size_text(*ours) + "  ·  theirs "@ + blob_size_text(*theirs),
{
    let mut out: String = "ours ".to_string();
    out.append(blob_size(ours).as_str());
    out.append("  ·  theirs ");
    out.append(blob_size(theirs).as_str());
    out
}

/// Whether an action is offered: a side has to be there to be used, both to be
/// kept, and only a file without a preview is opened elsewhere.
pub open spec fn is_offered(entry: ConflictEntry, intent: BinaryConflictIntent) -> bool {
    match intent {
        BinaryConflictIntent::UseOurs => entry.ours is Some,
        BinaryConflictIntent::UseTheirs => entry.theirs is Some,
        BinaryConflictIntent::KeepBoth { .. } => entry.ours is Some && entry.theirs is Some,
        BinaryConflictIntent::OpenExternal { side } => {
            &&& !is_decoded(format_of(lower_extension(entry.path@)))
            &&& match side {
                ConflictChoice::Ours => entry.ours is Some,
                ConflictChoice::Theirs => entry.theirs is Some,
            }
        },
    }
}

/// Whether an action is offered.
pub fn offers(entry: &ConflictEntry, intent: &BinaryConflictIntent) -> (r: bool)
    ensures
        r == is_offered(*entry, *intent),
{
    match intent {
        BinaryConflictIntent::UseOurs => entry.ours.is_some(),
        BinaryConflictIntent::UseTheirs => entry.theirs.is_some(),
        BinaryConflictIntent::KeepBoth { .. } => entry.ours.is_some() && entry.theirs.is_some(),
        BinaryConflictIntent::OpenExternal { side } => !is_image_like(entry.path.as_str())
            && match side {
            ConflictChoice::Ours => entry.ours.is_some(),
            ConflictChoice::Theirs => entry.theirs.is_some(),
        },
    }
}

/// What stands in the pane of a side that has no picture yet.
pub fn pane_label(path: &str) -> (out: &'static str)
    ensures
        out@ == (match format_of(lower_extension(path@)) {
            Format::Image | Format::Psd => "image preview not loaded"@,
            Format::OpaqueAsset(label) => label,
            Format::Unknown => "binary file"@,
        }),
{
    match FormatKind::from_ext(lower_extension_of(path).as_str()) {
        FormatKind::Image | FormatKind::Psd => "image preview not loaded",
        FormatKind::OpaqueAsset(label) => label,
        FormatKind::Unknown => "binary file",
    }
}

/// The two sides never get the same path.
pub proof fn law_siblings_differ(path: Seq<char>)
    ensures
        sibling_path(path, ConflictChoice::Ours) != sibling_path(path, ConflictChoice::Theirs),
{
    reveal_strlit("ours");
    reveal_strlit("theirs");
    let a = sibling_path(path, ConflictChoice::Ours);
    let b = sibling_path(path, ConflictChoice::Theirs);
    assert(a.len() + 2 == b.len());
}

/// A path keeps its directory and gets the given file name.
proof fn lemma_joined(path: Seq<char>, name: Seq<char>)
    requires
        name.len() > 0,
        name != seq!['.'],
        name != seq!['.', '.'],
        forall|i: int| 0 <= i < name.len() ==> name[i] != '/',
    ensures
        file_name(joined(directory(path), name)) == Some(name),
        directory(joined(directory(path), name)) == directory(path),
{
    let dir = directory(path);
    let j = joined(dir, name);
    let at = j.len() - name.len();
    let head = body(path).take(last_start(path));
    crate::paths::lemma_body(path);
    crate::paths::lemma_body(head);
    assert(j.skip(at) =~= name);
    assert(j.last() == name.last());
    assert(body(j) == j) by {
        if name.len() == 1 {
            assert(name =~= seq![name[0]]);
        } else {
            assert(j[j.len() - 2] == name[name.len() - 2]);
        }
    }
    lemma_last_index(j, '/');
    assert(last_index(j, '/') == at - 1) by {
        if at > 0 {
            assert(j[at - 1] == '/');
        }
        if last_index(j, '/') >= at {
            assert(j[last_index(j, '/')] == name[last_index(j, '/') - at]);
        }
    }
    assert(last_part(j) == name);
    let front = j.take(at);
    if dir.len() == 0 {
        assert(front =~= Seq::empty());
    } else if dir.last() == '/' {
        assert(dir == seq!['/']);
        assert(front =~= seq!['/']);
        assert(front.drop_last() =~= Seq::empty());
        assert(body(front.drop_last()) == front.drop_last());
    } else {
        assert(front =~= dir + seq!['/']);
        assert(front.drop_last() =~= dir);
        assert(body(front) == body(dir));
        assert(body(dir) == dir);
    }
}

/// A side stays in the directory of the original file, and keeps its
/// extension, and with it the program that opens it.
pub proof fn law_sibling_stays_beside(path: Seq<char>, side: ConflictChoice)
    requires
        file_name(path) is Some,
    ensures
        directory(sibling_path(path, side)) == directory(path),
        file_name(sibling_path(path, side)) == Some(sibling_name(file_name(path), side)),
        extension(path) is Some && extension(path)->0.len() > 0 ==> extension(
            sibling_path(path, side),
        ) == extension(path),
        sibling_path(path, side) != path,
{
    reveal_strlit("ours");
    reveal_strlit("theirs");
    let n = file_name(path)->0;
    let name = sibling_name(Some(n), side);
    lemma_last_index(body(path), '/');
    lemma_last_index(n, '.');
    assert forall|i: int| 0 <= i < n.len() implies n[i] != '/' by {
        assert(n[i] == body(path)[last_start(path) + i]);
    }
    let tag = side_tag(side);
    assert(tag.len() >= 4);
    assert(name.len() > 2);
    assert(tag[0] != '.');
    assert forall|i: int| 0 <= i < name.len() implies name[i] != '/' by {}
    lemma_joined(path, name);
    if extension(path) is Some && extension(path)->0.len() > 0 {
        let ext = extension(path)->0;
        lemma_last_index(name, '.');
        let dot = name.len() - ext.len() - 1;
        assert(name[dot] == '.');
        assert forall|i: int| dot < i < name.len() implies name[i] != '.' by {
            assert(name[i] == ext[i - dot - 1]);
            assert(ext[i - dot - 1] == n[extension_start(n) + i - dot - 1]);
        }
        assert(last_index(name, '.') == dot);
        assert(name.skip(dot + 1) =~= ext);
    }
    if sibling_path(path, side) == path {
        assert(name == n);
        assert(name.len() > n.len());
    }
}

/// A side can be used where it has the file, both can be kept where each can
/// be used, and a side can be opened elsewhere only where it can be used.
pub proof fn law_offered_actions(entry: ConflictEntry)
    ensures
        is_offered(entry, BinaryConflictIntent::UseOurs) <==> entry.ours is Some,
        is_offered(entry, BinaryConflictIntent::UseTheirs) <==> entry.theirs is Some,
        is_offered(
            entry,
            BinaryConflictIntent::KeepBoth { keep_as_main: ConflictChoice::Ours },
        ) <==> is_offered(entry, BinaryConflictIntent::UseOurs) && is_offered(
            entry,
            BinaryConflictIntent::UseTheirs,
        ),
        is_offered(
            entry,
            BinaryConflictIntent::KeepBoth { keep_as_main: ConflictChoice::Theirs },
        ) <==> is_offered(entry, BinaryConflictIntent::UseOurs) && is_offered(
            entry,
            BinaryConflictIntent::UseTheirs,
        ),
        is_offered(entry, BinaryConflictIntent::OpenExternal { side: ConflictChoice::Ours })
            ==> entry.ours is Some,
        is_offered(entry, BinaryConflictIntent::OpenExternal { side: ConflictChoice::Theirs })
            ==> entry.theirs is Some,
        entry.ours is Some && entry.theirs is Some ==> (is_offered(
            entry,
            BinaryConflictIntent::OpenExternal { side: ConflictChoice::Ours },
        ) <==> is_offered(
            entry,
            BinaryConflictIntent::OpenExternal { side: ConflictChoice::Theirs },
        )),
{
}

/// The name of a side is that of the file with the side in it: in front of
/// the extension, or at the end of a name that has none.
pub proof fn law_sibling_names(stem: Seq<char>, ext: Seq<char>)
    requires
        stem.len() > 0,
        forall|i: int| 0 <= i < ext.len() ==> ext[i] != '.',
    ensures
        ext.len() > 0 ==> sibling_name(Some(stem + seq!['.'] + ext), ConflictChoice::Ours) == stem
            + ".ours."@ + ext,
        ext.len() > 0 ==> sibling_name(Some(stem + seq!['.'] + ext), ConflictChoice::Theirs) == stem
            + ".theirs."@ + ext,
        (forall|i: int| 0 <= i < stem.len() ==> stem[i] != '.') ==> sibling_name(
            Some(stem),
            ConflictChoice::Ours,
        ) == stem + ".ours"@,
        (forall|i: int| 0 <= i < stem.len() ==> stem[i] != '.') ==> sibling_name(
            Some(stem),
            ConflictChoice::Theirs,
        ) == stem + ".theirs"@,
{
    reveal_strlit("ours");
    reveal_strlit("theirs");
    reveal_strlit(".ours.");
    reveal_strlit(".theirs.");
    reveal_strlit(".ours");
    reveal_strlit(".theirs");
    let name = stem + seq!['.'] + ext;
    lemma_last_index(name, '.');
    lemma_last_index(stem, '.');
    let at = last_index(name, '.');
    if ext.len() > 0 {
        assert(name[stem.len() as int] == '.');
        if at > stem.len() {
            assert(name[at] == ext[at - stem.len() - 1]);
        }
        assert(at == stem.len());
        assert(name.take(at) =~= stem);
        assert(name.skip(at + 1) =~= ext);
        assert(sibling_name(Some(name), ConflictChoice::Ours) =~= stem + ".ours."@ + ext);
        assert(sibling_name(Some(name), ConflictChoice::Theirs) =~= stem + ".theirs."@ + ext);
    }
    if forall|i: int| 0 <= i < stem.len() ==> stem[i] != '.' {
        assert(sibling_name(Some(stem), ConflictChoice::Ours) =~= stem + ".ours"@);
        assert(sibling_name(Some(stem), ConflictChoice::Theirs) =~= stem + ".theirs"@);
    }
}

} // verus!
