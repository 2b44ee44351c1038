//! What the windows hold and say, over all that they are given.

use vstd::prelude::*;
use vstd::utf8::encode_utf8;

use crate::git::{
    oid_bytes, ConflictBlob, ConflictChoice, ConflictEntry, FileDiff, FileKind,
};
use crate::paths::{extension, plain};
use crate::text::{digits, lemma_text_bytes, padded, size_text, text_bytes};
use crate::ui::binary_conflict_view::blob_size_text;
use crate::ui::columns::{all_columns, Column};
use crate::ui::commit_modal::{
    intent_message, suggestion_text, CommitIntent, CommitModal, CommitSuggestion,
};
use crate::ui::conflict_hunks_view::without_feed;
use crate::ui::conflict_window::{is_row_of, FileRow};
use crate::ui::conflicts::{
    choice_text, entry_text, is_conflicted, is_entry, plural, resolution_action, ConflictPane,
};
use crate::ui::diff_images::{image_ext, is_current, SelectedImageCache};
use crate::ui::diff_minimap::{file_rows, hunks_rows};
use crate::ui::diff_pane::DiffPane;
use crate::ui::diff_view::{file_stats, gutter_text};
use crate::ui::file_preview::{is_psd_failure, psd_thumbnail, DecodedImage, Failure};
use crate::ui::file_snapshot::too_large_text;
use crate::ui::find_fix::{is_boundary, is_hit, WorkingTreeMatch};
use crate::ui::fonts::{known_fonts, Platform};
use crate::ui::graph::{avatar_bits, avatar_key, cell_filled, cell_index, fnv32};
use crate::ui::markers::{
    are_regions, is_target, regions, replaced, side, ConflictMarkers, ConflictRegion, EditorResolution, NavIntent,
    Region,
};
use crate::ui::thumbnailer::is_png;

verus! {

/// Whether blocks stand one behind the other.
pub open spec fn starts_grow(list: Seq<ConflictRegion>) -> bool {
    forall|i: int, j: int|
        0 <= i < j < list.len() ==> (#[trigger] list[i]).start < (#[trigger] list[j]).start
}

/// A jump forward goes to the nearest block behind the cursor, and to the very
/// first one where none is behind it. A jump back goes to the nearest block
/// before the cursor, and to the very last one where none is before it.
pub proof fn law_jumps_go_to_the_nearest_block(list: Seq<ConflictRegion>, current: int, i: int, j: int)
    requires
        starts_grow(list),
        0 <= j < list.len(),
    ensures
        is_target(list, current, NavIntent::NextConflict, i) && list[j].start > current ==> current
            < list[i].start <= list[j].start,
        is_target(list, current, NavIntent::PrevConflict, i) && list[j].start < current
            ==> list[j].start <= list[i].start < current,
        is_target(list, current, NavIntent::NextConflict, i) && list[list.len() - 1].start
            <= current ==> i == 0,
        is_target(list, current, NavIntent::PrevConflict, i) && list[0].start >= current ==> i
            == list.len() - 1,
        is_target(list, current, NavIntent::NextConflict, i) || is_target(
            list,
            current,
            NavIntent::PrevConflict,
            i,
        ) ==> 0 <= i < list.len(),
{
    if is_target(list, current, NavIntent::NextConflict, i) {
        if i < j {
            assert(list[i].start < list[j].start);
        }
        if i < list.len() - 1 {
            assert(list[i].start < list[list.len() - 1].start);
        }
    }
    if is_target(list, current, NavIntent::PrevConflict, i) {
        if j < i {
            assert(list[j].start < list[i].start);
        }
        if 0 < i {
            assert(list[0].start < list[i].start);
        }
    }
}

/// A jump back from the block that a jump forward went to goes to the block
/// before it.
pub proof fn law_jumps_go_back(list: Seq<ConflictRegion>, i: int, k: int)
    requires
        starts_grow(list),
        0 < i < list.len(),
        is_target(list, list[i].start as int, NavIntent::PrevConflict, k),
    ensures
        k == i - 1,
        is_target(list, list[k].start as int, NavIntent::NextConflict, i),
{
    assert(list[i - 1].start < list[i].start);
    if k < i - 1 {
        assert(list[k].start < list[i - 1].start);
    }
    if k >= i {
        if k > i {
            assert(list[i].start < list[k].start);
        }
        assert(list[0].start < list[i].start);
    }
}

/// The blocks of a text are all there, in their order, each with the text of
/// both sides. Their places are counted in bytes and in characters.
pub proof fn law_blocks_are_placed(list: Seq<ConflictRegion>, text: Seq<char>, rs: Seq<Region>, i: int)
    requires
        are_regions(list, text, rs),
        0 <= i < rs.len(),
    ensures
        list.len() == rs.len(),
        list[i].char_start == rs[i].start,
        list[i].char_end == rs[i].end,
        list[i].start == encode_utf8(text.take(list[i].char_start as int)).len(),
        list[i].end == encode_utf8(text.take(list[i].char_end as int)).len(),
        list[i].ours@ == rs[i].ours,
        list[i].theirs@ == rs[i].theirs,
{
    assert(list[i].is_region(text, rs[i]));
    lemma_text_bytes(text.take(rs[i].start));
    lemma_text_bytes(text.take(rs[i].end));
}

/// What is known of an editor's text is known of all its blocks.
pub proof fn law_markers_hold_all_blocks(markers: ConflictMarkers, text: Seq<char>)
    requires
        markers.describes(text),
    ensures
        markers.regions@.len() == regions(text).len(),
        are_regions(markers.regions@, text, regions(text)),
{
}

/// A text takes as many bytes as its encoding in UTF-8.
pub proof fn law_bytes_of_texts(s: Seq<char>)
    ensures
        text_bytes(s) == encode_utf8(s).len(),
{
    lemma_text_bytes(s);
}

/// A hit begins and ends between characters of its line.
pub proof fn law_hits_lie_between_characters(hit: WorkingTreeMatch, at: nat)
    ensures
        is_hit(hit) ==> hit.match_start <= hit.match_end,
        is_boundary(hit.line@, at) ==> exists|i: int|
            0 <= i <= hit.line@.len() && #[trigger] encode_utf8(hit.line@.take(i)).len() == at,
        is_boundary(hit.line@, 0),
        is_boundary(hit.line@, encode_utf8(hit.line@).len()),
{
    let s = hit.line@;
    if is_boundary(s, at) {
        let i = choose|i: int| 0 <= i <= s.len() && #[trigger] text_bytes(s.take(i)) == at;
        lemma_text_bytes(s.take(i));
        assert(encode_utf8(s.take(i)).len() == at);
    }
    assert(s.take(0) =~= Seq::empty());
    assert(text_bytes(s.take(0)) == 0);
    assert(s.take(s.len() as int) =~= s);
    lemma_text_bytes(s);
    assert(text_bytes(s.take(s.len() as int)) == encode_utf8(s).len());
}

/// A file is open in the editor under any spelling of its path. Opening it
/// again keeps what was edited, and opening another shows that one's text.
pub proof fn law_editor_keeps_what_is_edited(
    pane: ConflictPane,
    conflicts: Seq<ConflictEntry>,
    path: Seq<char>,
    text: Seq<char>,
    i: int,
)
    requires
        pane.text_for(conflicts, path, text),
    ensures
        pane.is_open(path) <==> (pane.conflict_editor_path matches Some(p) && plain(p@) == plain(
            path,
        )),
        pane.is_open(path) ==> text == pane.conflict_editor_text@ && pane.path_for(path)
            == pane.conflict_editor_path->0@,
        !pane.is_open(path) ==> pane.path_for(path) == path,
        !pane.is_open(path) && 0 <= i < conflicts.len() && plain(conflicts[i].path@) == plain(path)
            && (forall|j: int| 0 <= j < i ==> plain((#[trigger] conflicts[j]).path@) != plain(path))
            ==> text == entry_text(conflicts[i]),
        !pane.is_open(path) && (forall|j: int|
            0 <= j < conflicts.len() ==> plain((#[trigger] conflicts[j]).path@) != plain(path))
            ==> text.len() == 0,
{
    if !pane.is_open(path) && 0 <= i < conflicts.len() && plain(conflicts[i].path@) == plain(path)
        && (forall|j: int| 0 <= j < i ==> plain((#[trigger] conflicts[j]).path@) != plain(path)) {
        assert(is_entry(conflicts, path, i));
        assert(is_conflicted(conflicts, path));
    }
}

/// The row of a conflicted file names it, and is marked just where the file is
/// selected, under any spelling of its path.
pub proof fn law_rows_of_files(row: FileRow, entry: ConflictEntry, selected: Seq<char>)
    ensures
        is_row_of(row, entry, Some(selected)) ==> row.path@ == entry.path@ && (row.selected <==> plain(
            selected,
        ) == plain(entry.path@)),
        is_row_of(row, entry, None) ==> row.path@ == entry.path@ && !row.selected,
        is_row_of(row, entry, None) && entry.is_binary ==> row.badge is Binary,
{
}

/// Both sides, and all that can be done with them, have names of their own.
pub proof fn law_resolutions_have_own_names(
    one: bool,
    a: EditorResolution,
    other: bool,
    b: EditorResolution,
    c: ConflictChoice,
)
    ensures
        resolution_action(one, a) == resolution_action(other, b) <==> one == other && a == b,
        choice_text(c) == "ours"@ <==> c is Ours,
        choice_text(c) == "theirs"@ <==> c is Theirs,
{
    reveal_strlit("ours");
    reveal_strlit("theirs");
    reveal_strlit("Applied ours to one region");
    reveal_strlit("Applied theirs to one region");
    reveal_strlit("Applied both sides to one region");
    reveal_strlit("Applied ours to all regions");
    reveal_strlit("Applied theirs to all regions");
    reveal_strlit("Applied both sides to all regions");
    assert("ours"@.len() == 4 && "theirs"@.len() == 6);
    assert("Applied ours to one region"@.len() == 26 && "Applied theirs to one region"@.len() == 28
        && "Applied both sides to one region"@.len() == 32
        && "Applied ours to all regions"@.len() == 27 && "Applied theirs to all regions"@.len()
        == 29 && "Applied both sides to all regions"@.len() == 33);
}

/// The ending of a noun is left out just for one.
pub proof fn law_plurals(n: nat)
    ensures
        n == 1 ==> plural(n).len() == 0,
        n != 1 ==> plural(n) == seq!['s'],
{
    reveal_strlit("");
    reveal_strlit("s");
    assert("s"@ =~= seq!['s']);
}

/// Only one line feed at the end of a text is left out.
pub proof fn law_feeds_at_the_end(s: Seq<char>)
    ensures
        without_feed(s.push('\n')) == s,
        s.len() > 0 && s.last() != '\n' ==> without_feed(s) == s,
        without_feed(Seq::empty()).len() == 0,
{
    assert(s.push('\n').drop_last() =~= s);
}

/// A proposed message is its title, and its body below a blank line where it
/// has one.
pub proof fn law_proposed_messages(s: CommitSuggestion)
    ensures
        s.body is None ==> suggestion_text(s) == s.title@,
        s.body matches Some(body) ==> suggestion_text(s) == s.title@ + seq!['\n', '\n'] + body@,
{
    reveal_strlit("\n\n");
    assert("\n\n"@ =~= seq!['\n', '\n']);
}

/// A commit carries its message, however it is made.
pub proof fn law_messages_of_commits(intent: CommitIntent)
    ensures
        intent matches CommitIntent::CommitStaged(m) ==> intent_message(intent) == m@,
        intent matches CommitIntent::StageAllAndCommit(m) ==> intent_message(intent) == m@,
        intent matches CommitIntent::Amend { message, author } ==> intent_message(intent)
            == message@,
{
}

/// What is known of the commit to amend is given up as a whole, and kept as a
/// whole.
pub proof fn law_amended_commit(a: CommitModal, b: CommitModal)
    ensures
        a.amend_is_reset() ==> a.amend_author_repo_path is None && !a.amend_head_available
            && !a.amend_author_override && a.amend_author_name@.len() == 0
            && a.amend_author_email@.len() == 0 && a.amend_head_author_name@.len() == 0
            && a.amend_head_author_email@.len() == 0,
        a.same_amend(&b) ==> a.amend_author_repo_path == b.amend_author_repo_path
            && a.amend_head_available == b.amend_head_available && a.amend_author_override
            == b.amend_author_override && a.amend_author_name == b.amend_author_name
            && a.amend_author_email == b.amend_author_email && a.amend_head_author_name
            == b.amend_head_author_name && a.amend_head_author_email == b.amend_head_author_email,
        a.same_rest(&b) ==> a.message == b.message && a.selection == b.selection
            && a.selection_anchor == b.selection_anchor && a.last_error == b.last_error
            && a.ai_error == b.ai_error,
        a.same_amend(&b) && a.amend_is_reset() ==> b.amend_is_reset(),
{
}

/// Pictures that were fetched are used again just for the same two versions of
/// an image of the same kind.
pub proof fn law_fetched_pictures(cache: SelectedImageCache, file: FileDiff)
    ensures
        is_current(Some(cache), file) <==> image_ext(file.kind) == Some(cache.ext@) && oid_bytes(
            cache.old_oid,
        ) == oid_bytes(file.old_oid) && oid_bytes(cache.new_oid) == oid_bytes(file.new_oid),
        !is_current(None, file),
        image_ext(file.kind) is Some <==> file.kind is Image,
        file.kind matches FileKind::Image { ext } ==> image_ext(file.kind) == Some(ext@),
{
}

/// Objects are told apart by their bytes.
pub proof fn law_objects(a: crate::git::Oid, b: crate::git::Oid)
    ensures
        oid_bytes(Some(a)) == oid_bytes(Some(b)) <==> a.bytes@ == b.bytes@,
        oid_bytes(Some(a)) != oid_bytes(None),
{
}

/// The minimap shows the hunks of a text, and nothing of another file.
pub proof fn law_minimap_of_a_file(file: FileDiff)
    ensures
        file.kind matches FileKind::Text { hunks, .. } ==> file_rows(file) == hunks_rows(hunks@),
        !(file.kind is Text) ==> file_rows(file).len() == 0,
{
}

/// A file is selected only where it is one of the diff that is shown.
pub proof fn law_selected_file(pane: DiffPane)
    ensures
        pane.current_diff is None || pane.selected_file_idx is None ==> !pane.has_commit_file(),
        pane.current_diff is Some && pane.selected_file_idx is Some ==> (pane.has_commit_file()
            <==> pane.selected_file_idx->0 < pane.current_diff->0.files@.len()),
{
}

/// Behind a file stands how many lines came and went, or what it is.
pub proof fn law_file_statistics(kind: FileKind)
    ensures
        kind matches FileKind::Text { lines_added, lines_removed, truncated, .. } ==> file_stats(
            kind,
        ) == "+"@ + digits(lines_added as nat) + " −"@ + digits(lines_removed as nat) + (
        if truncated {
            " …"@
        } else {
            Seq::empty()
        }),
        kind matches FileKind::Image { ext } ==> file_stats(kind) == "["@ + ext@ + "]"@,
        kind is Binary ==> file_stats(kind) == "[bin]"@,
        kind is TooLarge ==> file_stats(kind) == "[large]"@,
{
}

/// A line's number stands at the right of four places, and nothing where it
/// has none.
pub proof fn law_gutters(n: u32)
    ensures
        gutter_text(Some(n)).len() >= 4,
        digits(n as nat).len() <= 4 ==> gutter_text(Some(n)).len() == 4,
        gutter_text(Some(n)).skip(gutter_text(Some(n)).len() - digits(n as nat).len()) == digits(
            n as nat,
        ),
        gutter_text(None) == seq![' ', ' ', ' ', ' '],
{
    reveal_strlit("    ");
    assert("    "@ =~= seq![' ', ' ', ' ', ' ']);
    let d = digits(n as nat);
    let t = padded(d, ' ', 4);
    assert(t.skip(t.len() - d.len()) =~= d);
}

/// A decoded picture holds four bytes for each of its points.
pub proof fn law_packed_pictures(img: DecodedImage)
    ensures
        img.is_packed() <==> img.rgba@.len() == 4 * (img.width * img.height),
{
    assert(img.width * img.height * 4 == 4 * (img.width * img.height)) by (nonlinear_arith);
}

/// A Photoshop file fails as its thumbnail could not be found, or as what was
/// found could not be decoded.
pub proof fn law_photoshop_failures(f: Failure, bytes: Seq<u8>)
    requires
        is_psd_failure(f, bytes),
    ensures
        psd_thumbnail(bytes) is Ok ==> f is GuessFormat || f is Decode,
        psd_thumbnail(bytes) matches Err(e) ==> f == e,
{
}

/// A limit is told in whole megabytes.
pub proof fn law_limits_in_words(megabytes: nat)
    ensures
        too_large_text(megabytes * 1048576) == "File snapshot is too large to render inline (>"@
            + digits(megabytes) + " MB)."@,
{
    assert((megabytes * 1048576) / 1048576 == megabytes);
}

/// Every column has one place.
pub proof fn law_places_of_columns(column: Column)
    ensures
        all_columns().contains(column),
        all_columns().no_duplicates(),
        all_columns()[0] == Column::Graph,
        all_columns().last() == Column::Sha,
{
    let all = all_columns();
    assert(all[0] == Column::Graph && all[1] == Column::Refs && all[2] == Column::Message && all[3]
        == Column::Author && all[4] == Column::Date && all[5] == Column::Sha);
}

/// A side that is there is told by its size.
pub proof fn law_sizes_of_sides(blob: ConflictBlob)
    ensures
        blob_size_text(Some(blob)) == size_text(blob.size as nat),
        blob_size_text(None) == "absent"@,
{
}

/// The picture of an author goes by the address, and by the name only where
/// there is no address. It is the same on both sides of its middle.
pub proof fn law_pictures_of_authors(email: Seq<char>, name: Seq<char>, bits: u64, row: int, col: int)
    requires
        0 <= row < 5,
        0 <= col < 5,
    ensures
        email.len() > 0 ==> avatar_key(email, name) == email,
        email.len() == 0 ==> avatar_key(email, name) == name,
        cell_filled(bits, row, col) == cell_filled(bits, row, 4 - col),
        cell_index(row, col) / 5 == row,
        cell_index(row, col) % 5 == col,
{
}

/// The bits of a picture are two hashes, one of the bytes and one of the bytes
/// from behind.
pub proof fn law_bits_of_pictures(bytes: Seq<u8>)
    ensures
        avatar_bits(bytes) == fnv32(bytes, 0xcbf2_9ce4) * 0x1_0000_0000 + fnv32(
            bytes.reverse(),
            0x01eb_5c5b,
        ),
{
    let a = fnv32(bytes, 0xcbf2_9ce4);
    let b = fnv32(bytes.reverse(), 0x01eb_5c5b);
    assert((((a as u64) << 32u64) | (b as u64)) == a * 0x1_0000_0000 + b) by (bit_vector);
}

/// A picture is looked for among the files that end in `.png`.
pub proof fn law_pictures_among_files(path: Seq<char>)
    ensures
        is_png(path) <==> extension(path) == Some(seq!['p', 'n', 'g']),
{
    reveal_strlit("png");
    assert("png"@ =~= seq!['p', 'n', 'g']);
}

/// Fonts are known for every platform, the first face of each file.
pub proof fn law_known_fonts(platform: Platform, i: int)
    requires
        0 <= i < known_fonts(platform).len(),
    ensures
        known_fonts(platform).len() > 0,
        known_fonts(platform)[i].2 == 0,
        platform is Windows <==> known_fonts(platform)[i].1[0] == 'C',
        !(platform is Windows) ==> known_fonts(platform)[i].1[0] == '/',
        platform is MacOs <==> known_fonts(platform)[i].1[1] == 'S',
{
    reveal_strlit("/System/Library/Fonts/Supplemental/AppleGothic.ttf");
    reveal_strlit("/System/Library/Fonts/Supplemental/Arial Unicode.ttf");
    reveal_strlit("/System/Library/Fonts/Hiragino Sans GB.ttc");
    reveal_strlit("/System/Library/Fonts/PingFang.ttc");
    reveal_strlit("/System/Library/Fonts/AppleSDGothicNeo.ttc");
    reveal_strlit("C:\\Windows\\Fonts\\malgun.ttf");
    reveal_strlit("C:\\Windows\\Fonts\\YuGothM.ttc");
    reveal_strlit("C:\\Windows\\Fonts\\msyh.ttc");
    reveal_strlit("C:\\Windows\\Fonts\\meiryo.ttc");
    reveal_strlit("/usr/share/fonts/opentype/noto/NotoSansKR-Regular.otf");
    reveal_strlit("/usr/share/fonts/opentype/noto/NotoSansJP-Regular.otf");
    reveal_strlit("/usr/share/fonts/opentype/noto/NotoSansSC-Regular.otf");
    reveal_strlit("/usr/share/fonts/truetype/nanum/NanumGothic.ttf");
    reveal_strlit("/usr/share/fonts/opentype/noto/NotoSansCJK-Regular.ttc");
}

/// Where there are blocks, a jump goes to just one of them.
pub proof fn law_jumps_have_one_target(list: Seq<ConflictRegion>, current: int, nav: NavIntent)
    requires
        starts_grow(list),
        list.len() > 0,
    ensures
        exists|i: int| is_target(list, current, nav, i),
        forall|i: int, j: int|
            is_target(list, current, nav, i) && is_target(list, current, nav, j) ==> i == j,
{
    match nav {
        NavIntent::NextConflict => {
            let i = lemma_first_behind(list, current, list.len() as int);
            if i < list.len() {
                assert(is_target(list, current, nav, i));
            } else {
                assert(is_target(list, current, nav, 0));
            }
        },
        NavIntent::PrevConflict => {
            let i = lemma_last_before(list, current, 0);
            if i >= 0 {
                assert(is_target(list, current, nav, i));
            } else {
                assert(is_target(list, current, nav, list.len() - 1));
            }
        },
    }
    assert forall|i: int, j: int|
        is_target(list, current, nav, i) && is_target(list, current, nav, j) implies i == j by {
        law_jumps_go_to_the_nearest_block(list, current, i, j);
        law_jumps_go_to_the_nearest_block(list, current, j, i);
        if i < j {
            assert(list[i].start < list[j].start);
        }
        if j < i {
            assert(list[j].start < list[i].start);
        }
    }
}

proof fn lemma_first_behind(list: Seq<ConflictRegion>, current: int, n: int) -> (i: int)
    requires
        0 <= n <= list.len(),
    ensures
        0 <= i <= n,
        i < n ==> list[i].start > current,
        forall|j: int| 0 <= j < i ==> (#[trigger] list[j]).start <= current,
    decreases n,
{
    if n == 0 {
        0
    } else {
        let i = lemma_first_behind(list, current, n - 1);
        if i < n - 1 {
            i
        } else if list[n - 1].start > current {
            n - 1
        } else {
            n
        }
    }
}

proof fn lemma_last_before(list: Seq<ConflictRegion>, current: int, from: int) -> (i: int)
    requires
        0 <= from <= list.len(),
    ensures
        i == -1 || from <= i < list.len(),
        i >= 0 ==> list[i].start < current,
        forall|j: int| from <= j < list.len() && j > i ==> (#[trigger] list[j]).start >= current,
    decreases list.len() - from,
{
    if from == list.len() {
        -1
    } else {
        let i = lemma_last_before(list, current, from + 1);
        if i >= 0 {
            i
        } else if list[from].start < current {
            from
        } else {
            -1
        }
    }
}

/// A hit is one whose ends, so far as they lie in its line, lie between
/// characters, the first not behind the second.
pub proof fn law_hits(hit: WorkingTreeMatch, i: int, j: int)
    requires
        0 <= i <= j <= hit.line@.len(),
        hit.match_start == encode_utf8(hit.line@.take(i)).len(),
        hit.match_end == encode_utf8(hit.line@.take(j)).len(),
        hit.match_start <= hit.match_end <= encode_utf8(hit.line@).len(),
    ensures
        is_hit(hit),
{
    let s = hit.line@;
    lemma_text_bytes(s.take(i));
    lemma_text_bytes(s.take(j));
    lemma_text_bytes(s);
    assert(text_bytes(s.take(i)) == hit.match_start);
    assert(text_bytes(s.take(j)) == hit.match_end);
}

/// What can be done with both sides, in words.
pub proof fn law_resolutions_in_words(one: bool)
    ensures
        resolution_action(one, EditorResolution::Ours) == "Applied ours to "@ + scope_text(one),
        resolution_action(one, EditorResolution::Theirs) == "Applied theirs to "@ + scope_text(one),
        resolution_action(one, EditorResolution::Both) == "Applied both sides to "@ + scope_text(
            one,
        ),
{
    reveal_strlit("one region");
    reveal_strlit("all regions");
    reveal_strlit("Applied ours to ");
    reveal_strlit("Applied theirs to ");
    reveal_strlit("Applied both sides to ");
    reveal_strlit("Applied ours to one region");
    reveal_strlit("Applied theirs to one region");
    reveal_strlit("Applied both sides to one region");
    reveal_strlit("Applied ours to all regions");
    reveal_strlit("Applied theirs to all regions");
    reveal_strlit("Applied both sides to all regions");
    assert(resolution_action(one, EditorResolution::Ours) =~= "Applied ours to "@ + scope_text(one));
    assert(resolution_action(one, EditorResolution::Theirs) =~= "Applied theirs to "@ + scope_text(
        one,
    ));
    assert(resolution_action(one, EditorResolution::Both) =~= "Applied both sides to "@
        + scope_text(one));
}

/// How much is resolved at once, in words.
pub open spec fn scope_text(one: bool) -> Seq<char> {
    if one {
        "one region"@
    } else {
        "all regions"@
    }
}

/// What replaces a block is the side that was chosen. Both sides stand one
/// below the other, ours first, with a blank line between them where ours is
/// not empty.
pub proof fn law_blocks_become_the_chosen_side(r: Region, text: Seq<char>, choice: EditorResolution)
    requires
        0 <= r.start <= r.end <= text.len(),
    ensures
        side(r, EditorResolution::Ours) == r.ours,
        side(r, EditorResolution::Theirs) == r.theirs,
        r.ours.len() > 0 ==> side(r, EditorResolution::Both) == r.ours + seq!['\n'] + r.theirs,
        r.ours.len() == 0 ==> side(r, EditorResolution::Both) == r.theirs,
        replaced(text, r, side(r, choice)).take(r.start) == text.take(r.start),
        replaced(text, r, side(r, choice)).skip(r.start + side(r, choice).len()) == text.skip(
            r.end,
        ),
{
    let new = replaced(text, r, side(r, choice));
    assert(new.take(r.start) =~= text.take(r.start));
    assert(new.skip(r.start + side(r, choice).len()) =~= text.skip(r.end));
}

/// An author without any bit has no cell filled, and with all bits every one.
pub proof fn law_cells_follow_bits(row: int, col: int)
    requires
        0 <= row < 5,
        0 <= col < 5,
    ensures
        !cell_filled(0, row, col),
        cell_filled(u64::MAX, row, col),
{
    let c = if col < 3 {
        col
    } else {
        4 - col
    };
    let k = (row * 3 + c) as u64;
    assert(k < 64);
    assert((0u64 >> k) & 1 == 0) by (bit_vector);
    assert((0xffff_ffff_ffff_ffffu64 >> k) & 1 == 1) by (bit_vector)
        requires
            k < 64,
    ;
}

} // verus!
