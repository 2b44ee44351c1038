//! What previews are of: where a Photoshop file keeps its thumbnail, which
//! formats are decoded, and what is shown of them.

use vstd::prelude::*;

use crate::git::hex_digit;
use crate::text::digits;
use crate::ui::diff_images::{
    as_png, hex_number, image_footer_text, image_notice_text, is_extended, picture_of, shown_bytes,
};
use crate::ui::diff_view::is_picture_ext;
use crate::ui::file_preview::{
    be16, be32, decoded, failure_text, format_of, full_picture, has_tag, is_decoded,
    is_decoding_failure, is_oversized, placeholder,
    psd_picture, psd_thumbnail, thumbnail, Failure, Format, Picture, PreviewMode, State, THUMB_MAX_DIM,
};

verus! {

/// A number below 65536 as two bytes, the high one first.
pub open spec fn two_bytes(n: nat) -> Seq<u8> {
    seq![(n / 256) as u8, (n % 256) as u8]
}

/// A number below 2^32 as four bytes, the high ones first.
pub open spec fn four_bytes(n: nat) -> Seq<u8> {
    two_bytes(n / 65536) + two_bytes(n % 65536)
}

/// What makes a length even.
pub open spec fn padding(n: nat) -> Seq<u8> {
    if n % 2 == 0 {
        Seq::empty()
    } else {
        seq![0u8]
    }
}

/// An image resource as a Photoshop file holds it: `8BIM`, a number, a name
/// behind its length, and a payload behind its length, both made even.
pub open spec fn resource(id: nat, name: Seq<u8>, payload: Seq<u8>) -> Seq<u8> {
    seq![0x38u8, 0x42, 0x49, 0x4D] + two_bytes(id) + seq![name.len() as u8] + name + padding(
        1 + name.len(),
    ) + four_bytes(payload.len()) + payload + padding(payload.len())
}

proof fn lemma_two_bytes(bytes: Seq<u8>, i: int, n: nat)
    requires
        n < 65536,
        0 <= i,
        i + 2 <= bytes.len(),
        bytes.subrange(i, i + 2) == two_bytes(n),
    ensures
        be16(bytes, i) == n,
{
    let s = bytes.subrange(i, i + 2);
    assert(s[0] == bytes[i]);
    assert(s[1] == bytes[i + 1]);
    assert(two_bytes(n)[0] == n / 256);
    assert(two_bytes(n)[1] == n % 256);
}

proof fn lemma_four_bytes(bytes: Seq<u8>, i: int, n: nat)
    requires
        n < 0x1_0000_0000,
        0 <= i,
        i + 4 <= bytes.len(),
        bytes.subrange(i, i + 4) == four_bytes(n),
    ensures
        be32(bytes, i) == n,
{
    let s = bytes.subrange(i, i + 4);
    assert(bytes.subrange(i, i + 2) =~= two_bytes(n / 65536)) by {
        assert(s.take(2) =~= bytes.subrange(i, i + 2));
        assert(four_bytes(n).take(2) =~= two_bytes(n / 65536));
    }
    assert(bytes.subrange(i + 2, i + 4) =~= two_bytes(n % 65536)) by {
        assert(s.skip(2) =~= bytes.subrange(i + 2, i + 4));
        assert(four_bytes(n).skip(2) =~= two_bytes(n % 65536));
    }
    lemma_two_bytes(bytes, i, n / 65536);
    lemma_two_bytes(bytes, i + 2, n % 65536);
}

/// Among the image resources of a Photoshop file, one that is no thumbnail is
/// passed over, and of one that is, the picture is what follows a header of 28
/// bytes in its payload.
pub proof fn law_resources_are_read_back(
    bytes: Seq<u8>,
    pos: int,
    end: int,
    id: nat,
    name: Seq<u8>,
    payload: Seq<u8>,
)
    requires
        0 <= pos,
        pos + resource(id, name, payload).len() <= end <= bytes.len(),
        bytes.subrange(pos, pos + resource(id, name, payload).len()) == resource(id, name, payload),
        id < 65536,
        name.len() < 256,
        payload.len() < 0x1_0000_0000,
    ensures
        id == 1036 && payload.len() > 28 ==> (thumbnail(bytes, pos, end) matches Some(range)
            && bytes.subrange(range.0, range.1) == payload.skip(28)),
        id != 1036 || payload.len() <= 28 ==> thumbnail(bytes, pos, end) == thumbnail(
            bytes,
            pos + resource(id, name, payload).len(),
            end,
        ),
{
    let r = resource(id, name, payload);
    let part = bytes.subrange(pos, pos + r.len());
    let n = name.len() as int;
    let pad = padding(1 + name.len()).len() as int;
    let at = 7 + n + pad;
    assert forall|k: int| 0 <= k < r.len() implies bytes[pos + k] == r[k] by {
        assert(part[k] == bytes[pos + k]);
    }
    assert(has_tag(bytes, pos, 0x38, 0x42, 0x49, 0x4D)) by {
        assert(r[0] == 0x38u8 && r[1] == 0x42u8 && r[2] == 0x49u8 && r[3] == 0x4Du8);
        assert(bytes[pos + 0] == r[0] && bytes[pos + 1] == r[1] && bytes[pos + 2] == r[2]
            && bytes[pos + 3] == r[3]);
    }
    assert(bytes.subrange(pos + 4, pos + 6) =~= two_bytes(id)) by {
        assert(bytes[pos + 4] == r[4] && bytes[pos + 5] == r[5]);
        assert(r[4] == two_bytes(id)[0] && r[5] == two_bytes(id)[1]);
    }
    lemma_two_bytes(bytes, pos + 4, id);
    assert(bytes[pos + 6] == r[6]);
    assert(r[6] == name.len() as u8);
    assert(bytes.subrange(pos + at, pos + at + 4) =~= four_bytes(payload.len())) by {
        assert forall|k: int| 0 <= k < 4 implies bytes[pos + at + k] == four_bytes(
            payload.len(),
        )[k] by {
            assert(bytes[pos + (at + k)] == r[at + k]);
            assert(r[at + k] == four_bytes(payload.len())[k]);
        }
    }
    lemma_four_bytes(bytes, pos + at, payload.len());
    let from = pos + at + 4;
    if payload.len() > 28 {
        let picture = bytes.subrange(from + 28, from + payload.len());
        assert forall|k: int| 0 <= k < payload.len() - 28 implies picture[k] == payload.skip(28)[k] by {
            assert(bytes[pos + (at + 32 + k)] == r[at + 32 + k]);
            assert(r[at + 32 + k] == payload[28 + k]);
        }
        assert(picture =~= payload.skip(28));
    }
    assert(r.len() == at + 4 + payload.len() + padding(payload.len()).len());
}

/// A Photoshop file as it begins: `8BPS` and the rest of a header of 26 bytes,
/// the colour data behind their length, and the resources behind theirs.
pub open spec fn photoshop_file(
    header: Seq<u8>,
    colours: Seq<u8>,
    resources: Seq<u8>,
    rest: Seq<u8>,
) -> Seq<u8> {
    seq![0x38u8, 0x42, 0x50, 0x53] + header + four_bytes(colours.len()) + colours + four_bytes(
        resources.len(),
    ) + resources + rest
}

/// The thumbnail of a Photoshop file is looked for in its resources and
/// nowhere else.
pub proof fn law_photoshop_files_are_read_back(
    header: Seq<u8>,
    colours: Seq<u8>,
    resources: Seq<u8>,
    rest: Seq<u8>,
)
    requires
        header.len() == 22,
        colours.len() < 0x1_0000_0000,
        resources.len() < 0x1_0000_0000,
    ensures
        ({
            let bytes = photoshop_file(header, colours, resources, rest);
            let start = 34 + colours.len() as int;
            match thumbnail(bytes, start, start + resources.len()) {
                Some(range) => psd_thumbnail(bytes) == Ok::<(int, int), Failure>(range),
                None => psd_thumbnail(bytes) == Err::<(int, int), Failure>(
                    Failure::NoEmbeddedPreview,
                ),
            }
        }),
{
    let bytes = photoshop_file(header, colours, resources, rest);
    let c = colours.len() as int;
    assert(bytes[0] == 0x38u8 && bytes[1] == 0x42u8 && bytes[2] == 0x50u8 && bytes[3] == 0x53u8);
    assert(bytes.subrange(26, 30) =~= four_bytes(colours.len()));
    lemma_four_bytes(bytes, 26, colours.len());
    assert(bytes.subrange(30 + c, 34 + c) =~= four_bytes(resources.len()));
    lemma_four_bytes(bytes, 30 + c, resources.len());
}

/// A file that does not begin as a Photoshop file does is none, and one that
/// ends before its resources do is cut off.
pub proof fn law_other_files_are_no_photoshop_files(bytes: Seq<u8>)
    ensures
        bytes.len() < 30 ==> psd_thumbnail(bytes) == Err::<(int, int), Failure>(Failure::NotPsd),
        bytes.len() > 0 && bytes[0] != 0x38 ==> psd_thumbnail(bytes) == Err::<(int, int), Failure>(
            Failure::NotPsd,
        ),
        psd_thumbnail(bytes) matches Ok(range) ==> bytes.len() >= 30 && bytes.take(4) == seq![
            0x38u8,
            0x42,
            0x50,
            0x53,
        ],
        psd_thumbnail(bytes) is Err ==> psd_picture(bytes) is Err,
        psd_thumbnail(bytes) matches Ok(range) ==> psd_picture(bytes) == decoded(
            bytes.subrange(range.0, range.1),
        ),
{
    if psd_thumbnail(bytes) is Ok {
        assert(bytes.take(4) =~= seq![0x38u8, 0x42, 0x50, 0x53]);
    }
}

/// Every format that the diff panel shows is decoded, those that become PNG
/// files too. Nothing is a picture and something else.
pub proof fn law_shown_formats_are_decoded(ext: Seq<char>)
    ensures
        is_extended(ext) ==> is_decoded(format_of(ext)),
        is_picture_ext(ext) ==> format_of(ext) is Image,
        is_picture_ext(ext) ==> !is_extended(ext),
        format_of(ext) is Psd <==> ext == "psd"@,
        is_extended(ext) || is_picture_ext(ext) <==> is_decoded(format_of(ext)),
        is_decoded(format_of(ext)) ==> !(format_of(ext) is OpaqueAsset) && !(format_of(ext)
            is Unknown),
{
    lemma_extensions();
}

proof fn lemma_extensions()
    ensures
        "psd"@.len() == 3 && "psd"@[0] == 'p' && "psd"@[1] == 's',
        "png"@.len() == 3 && "png"@[0] == 'p' && "png"@[1] == 'n',
        "jpg"@.len() == 3 && "jpg"@[0] == 'j',
        "jpeg"@.len() == 4 && "jpeg"@[0] == 'j',
        "gif"@.len() == 3 && "gif"@[0] == 'g',
        "bmp"@.len() == 3 && "bmp"@[0] == 'b',
        "tga"@.len() == 3 && "tga"@[0] == 't' && "tga"@[1] == 'g',
        "tif"@.len() == 3 && "tif"@[0] == 't' && "tif"@[1] == 'i',
        "tiff"@.len() == 4 && "tiff"@[0] == 't',
        "webp"@.len() == 4 && "webp"@[0] == 'w',
        "ico"@.len() == 3 && "ico"@[0] == 'i',
        "exr"@.len() == 3 && "exr"@[0] == 'e',
        "hdr"@.len() == 3 && "hdr"@[0] == 'h',
        "qoi"@.len() == 3 && "qoi"@[0] == 'q',
{
    reveal_strlit("psd");
    reveal_strlit("png");
    reveal_strlit("jpg");
    reveal_strlit("jpeg");
    reveal_strlit("gif");
    reveal_strlit("bmp");
    reveal_strlit("tga");
    reveal_strlit("tif");
    reveal_strlit("tiff");
    reveal_strlit("webp");
    reveal_strlit("ico");
    reveal_strlit("exr");
    reveal_strlit("hdr");
    reveal_strlit("qoi");
}

/// What browsers know is shown as it is; what they do not know is shown as a
/// PNG file of its picture, and not at all where there is none.
pub proof fn law_shown_bytes(bytes: Seq<u8>, ext: Seq<char>)
    ensures
        shown_bytes(None, ext) is None,
        is_picture_ext(ext) ==> shown_bytes(Some(bytes), ext) == Some(bytes),
        is_extended(ext) && ext != "psd"@ ==> shown_bytes(Some(bytes), ext) == as_png(
            decoded(bytes),
        ),
        ext == "psd"@ ==> shown_bytes(Some(bytes), ext) == as_png(psd_picture(bytes)),
        is_extended(ext) && picture_of(bytes, ext) is Err ==> shown_bytes(Some(bytes), ext) is None,
{
    lemma_extensions();
}

/// An image that cannot be decoded is a failure. A Photoshop file without a
/// thumbnail has no preview, and neither have other files.
pub proof fn law_pictures_of_formats(format: Format, bytes: Seq<u8>)
    ensures
        format is Image ==> (full_picture(format, bytes) matches Ok(Some(p)) ==> decoded(bytes)
            == Ok::<Picture, Failure>(p)),
        format is Image ==> (full_picture(format, bytes) is Err <==> decoded(bytes) is Err),
        format is Image ==> full_picture(format, bytes) != Ok::<Option<Picture>, Failure>(None),
        format is Psd ==> full_picture(format, bytes) is Ok,
        format is Psd ==> (full_picture(format, bytes) matches Ok(Some(p)) ==> psd_picture(bytes)
            == Ok::<Picture, Failure>(p)),
        format is Psd && psd_picture(bytes) is Ok ==> (full_picture(format, bytes) matches Ok(Some(
            _,
        ))),
        !is_decoded(format) ==> full_picture(format, bytes) == Ok::<Option<Picture>, Failure>(None),
        format matches Format::OpaqueAsset(label) ==> placeholder(format) == label,
{
}

/// The number that a text of small hexadecimal digits stands for.
pub open spec fn hex_value(s: Seq<char>) -> int
    decreases s.len(),
{
    if s.len() == 0 {
        0
    } else {
        16 * hex_value(s.drop_last()) + (if s.last() <= '9' {
            s.last() as int - '0' as int
        } else {
            s.last() as int - 'a' as int + 10
        })
    }
}

/// A number in hexadecimal reads as that number.
pub proof fn law_hexadecimals_are_read_back(n: nat)
    ensures
        hex_value(hex_number(n)) == n,
        hex_number(n).len() > 0,
    decreases n,
{
    if n < 16 {
        assert(hex_number(n).drop_last() =~= Seq::empty());
        assert(hex_value(hex_number(n).drop_last()) == 0);
        assert(hex_number(n).last() == hex_digit(n));
    } else {
        law_hexadecimals_are_read_back(n / 16);
        assert(hex_number(n).drop_last() =~= hex_number(n / 16));
        assert(hex_number(n).last() == hex_digit(n % 16));
    }
}

/// The line below an image says the same as before once it is decoded, behind
/// its width and its height.
pub proof fn law_image_footers(p: Picture, state: State, size: nat, ext: Seq<char>)
    requires
        !(state is Ready),
    ensures
        image_footer_text(State::Ready(p), size, ext) == digits(p.width as nat) + " × "@ + digits(
            p.height as nat,
        ) + " · "@ + image_footer_text(state, size, ext),
        image_footer_text(state, size, ext) == digits(size) + " bytes · ."@ + ext,
{
}

/// Nothing stands in the place of an image that is there, and something does
/// while it is decoded or if that failed.
pub proof fn law_image_notices(state: State)
    ensures
        state is Ready ==> image_notice_text(state).len() == 0,
        state is Pending || state is Failed || state is TooLarge ==> image_notice_text(state).len()
            > 0,
        state matches State::Unsupported(label) ==> image_notice_text(state) == label,
        state matches State::Failed(reason) ==> reason.len() <= image_notice_text(state).len()
            && image_notice_text(state).skip(image_notice_text(state).len() - reason.len())
            == reason,
{
    reveal_strlit("Decoding…");
    reveal_strlit("Preview failed: ");
    reveal_strlit("Image too large to preview (");
    if let State::Failed(reason) = state {
        assert(image_notice_text(state).skip(image_notice_text(state).len() - reason.len())
            =~= reason);
    }
}

/// Failures of decoding carry what the decoder said.
pub proof fn law_failures_in_words(text: Seq<char>)
    ensures
        failure_text(Failure::Decode(text)) == "image decode: "@ + text,
        failure_text(Failure::GuessFormat(text)) == "guess image format: "@ + text,
        failure_text(Failure::NotPsd) != failure_text(Failure::NoEmbeddedPreview),
        failure_text(Failure::TruncatedPsd) != failure_text(Failure::NotPsd),
        failure_text(Failure::TruncatedPsd) != failure_text(Failure::NoEmbeddedPreview),
{
    reveal_strlit("not a PSD file");
    reveal_strlit("truncated PSD");
    reveal_strlit("no embedded preview in PSD");
    assert("not a PSD file"@.len() == 14 && "truncated PSD"@.len() == 13
        && "no embedded preview in PSD"@.len() == 26);
}

/// Only decoding makes a failure of decoding.
pub proof fn law_failures_of_decoding(f: Failure)
    ensures
        is_decoding_failure(f) <==> f is GuessFormat || f is Decode,
{
}

/// A thumbnail is made of a picture just where it is larger than that on one
/// side. The full picture is never made smaller.
pub proof fn law_large_pictures(mode: PreviewMode, width: u32, height: u32)
    ensures
        is_oversized(PreviewMode::Thumb, width, height) <==> width > THUMB_MAX_DIM || height
            > THUMB_MAX_DIM,
        mode != PreviewMode::Thumb ==> !is_oversized(mode, width, height),
        is_oversized(mode, width, height) == is_oversized(mode, height, width),
{
}

/// A file that cannot be shown is named by what it is.
pub proof fn law_names_of_formats(label: Seq<char>)
    ensures
        placeholder(Format::OpaqueAsset(label)) == label,
        placeholder(Format::Image) == "image"@,
        placeholder(Format::Unknown).len() == 0,
        placeholder(Format::Psd) == "Photoshop (no embedded preview)"@,
{
    reveal_strlit("");
}

/// Models, videos and sounds are known by their extensions, but not decoded.
pub proof fn law_other_formats(ext: Seq<char>)
    ensures
        ext == "mp4"@ || ext == "mov"@ || ext == "webm"@ <==> format_of(ext) == Format::OpaqueAsset(
            "Video"@,
        ),
        ext == "wav"@ || ext == "mp3"@ || ext == "ogg"@ || ext == "flac"@ <==> format_of(ext)
            == Format::OpaqueAsset("Audio"@),
        ext == "gltf"@ || ext == "glb"@ <==> format_of(ext) == Format::OpaqueAsset("glTF model"@),
        ext == "unity"@ || ext == "prefab"@ <==> format_of(ext) == Format::OpaqueAsset(
            "Unity asset"@,
        ),
        ext == "fbx"@ <==> format_of(ext) == Format::OpaqueAsset("FBX model"@),
        ext == "blend"@ <==> format_of(ext) == Format::OpaqueAsset("Blender scene"@),
        ext == "spine"@ <==> format_of(ext) == Format::OpaqueAsset("Spine skeleton"@),
        ext == "obj"@ <==> format_of(ext) == Format::OpaqueAsset("OBJ model"@),
        ext == "uasset"@ <==> format_of(ext) == Format::OpaqueAsset("Unreal asset"@),
{
    lemma_extensions();
    lemma_other_extensions();
    lemma_labels();
}

proof fn lemma_other_extensions()
    ensures
        "fbx"@.len() == 3 && "fbx"@[0] == 'f',
        "blend"@.len() == 5 && "blend"@[0] == 'b',
        "spine"@.len() == 5 && "spine"@[0] == 's',
        "obj"@.len() == 3 && "obj"@[0] == 'o' && "obj"@[1] == 'b',
        "gltf"@.len() == 4 && "gltf"@[0] == 'g',
        "glb"@.len() == 3 && "glb"@[0] == 'g' && "glb"@[1] == 'l',
        "gif"@[1] == 'i',
        "uasset"@.len() == 6 && "uasset"@[0] == 'u',
        "unity"@.len() == 5 && "unity"@[0] == 'u',
        "prefab"@.len() == 6 && "prefab"@[0] == 'p',
        "mp4"@.len() == 3 && "mp4"@[0] == 'm' && "mp4"@[1] == 'p' && "mp4"@[2] == '4',
        "mov"@.len() == 3 && "mov"@[0] == 'm' && "mov"@[1] == 'o',
        "webm"@.len() == 4 && "webm"@[0] == 'w' && "webm"@[3] == 'm',
        "webp"@[3] == 'p',
        "wav"@.len() == 3 && "wav"@[0] == 'w',
        "mp3"@.len() == 3 && "mp3"@[0] == 'm' && "mp3"@[1] == 'p' && "mp3"@[2] == '3',
        "ogg"@.len() == 3 && "ogg"@[0] == 'o' && "ogg"@[1] == 'g',
        "flac"@.len() == 4 && "flac"@[0] == 'f',
{
    reveal_strlit("fbx");
    reveal_strlit("blend");
    reveal_strlit("spine");
    reveal_strlit("obj");
    reveal_strlit("gltf");
    reveal_strlit("glb");
    reveal_strlit("gif");
    reveal_strlit("uasset");
    reveal_strlit("unity");
    reveal_strlit("prefab");
    reveal_strlit("mp4");
    reveal_strlit("mov");
    reveal_strlit("webm");
    reveal_strlit("webp");
    reveal_strlit("wav");
    reveal_strlit("mp3");
    reveal_strlit("ogg");
    reveal_strlit("flac");
}

proof fn lemma_labels()
    ensures
        "FBX model"@.len() == 9 && "FBX model"@[0] == 'F',
        "Blender scene"@.len() == 13,
        "Spine skeleton"@.len() == 14,
        "OBJ model"@.len() == 9 && "OBJ model"@[0] == 'O',
        "glTF model"@.len() == 10,
        "Unreal asset"@.len() == 12,
        "Unity asset"@.len() == 11,
        "Video"@.len() == 5 && "Video"@[0] == 'V',
        "Audio"@.len() == 5 && "Audio"@[0] == 'A',
{
    reveal_strlit("FBX model");
    reveal_strlit("Blender scene");
    reveal_strlit("Spine skeleton");
    reveal_strlit("OBJ model");
    reveal_strlit("glTF model");
    reveal_strlit("Unreal asset");
    reveal_strlit("Unity asset");
    reveal_strlit("Video");
    reveal_strlit("Audio");
}

} // verus!
