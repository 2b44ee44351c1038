//! The images that the diff panel shows: what it keeps of the selected file,
//! and under which names.

use vstd::prelude::*;

use crate::git::{oid_bytes, same_oid, FileDiff, FileKind, Oid};
use crate::text::{decimal, digits, same};
use crate::ui::file_preview::{
    decode_image_for_diff_pane, decode_psd_for_diff_pane, decoded, psd_picture, DecodedImage,
    Failure, Picture, PreviewState, State, MAX_INPUT_BYTES,
};

verus! {

/// The PNG file that the `image` crate makes of pixels.
pub uninterp spec fn png_file(width: u32, height: u32, rgba: Seq<u8>) -> Option<Seq<u8>>;

/// What optional bytes hold.
pub open spec fn opt_bytes(bytes: Option<Vec<u8>>) -> Option<Seq<u8>> {
    match bytes {
        Some(b) => Some(b@),
        None => None,
    }
}

/// `image::RgbaImage::from_raw` and `DynamicImage::write_to`, in the PNG
/// format: what comes out depends on the size and the pixels alone. `None`
/// when they cannot be encoded.
#[verifier::external_body]
fn encode_png(img: DecodedImage) -> (out: Option<Vec<u8>>)
    requires
        img.is_packed(),
    ensures
        opt_bytes(out) == png_file(img@.width, img@.height, img@.rgba),
{
    let raw = image::RgbaImage::from_raw(img.width, img.height, img.rgba)?;
    let mut out = Vec::new();
    image::DynamicImage::ImageRgba8(raw).write_to(
        &mut std::io::Cursor::new(&mut out),
        image::ImageFormat::Png,
    ).ok()?;
    Some(out)
}

/// The formats that are shown as PNG files made from them.
pub open spec fn is_extended(ext: Seq<char>) -> bool {
    ext == "tga"@ || ext == "psd"@ || ext == "exr"@ || ext == "hdr"@ || ext == "qoi"@
}

fn extended(ext: &str) -> (r: bool)
    ensures
        r == is_extended(ext@),
{
    same(ext, "tga") || same(ext, "psd") || same(ext, "exr") || same(ext, "hdr") || same(ext, "qoi")
}

/// The picture in a file of some extension.
pub open spec fn picture_of(bytes: Seq<u8>, ext: Seq<char>) -> Result<Picture, Failure> {
    if ext == "psd"@ {
        psd_picture(bytes)
    } else {
        decoded(bytes)
    }
}

/// A picture as a PNG file.
pub open spec fn as_png(picture: Result<Picture, Failure>) -> Option<Seq<u8>> {
    match picture {
        Ok(p) => png_file(p.width, p.height, p.rgba),
        Err(_) => None,
    }
}

/// Makes a PNG file of a file of another format. `None` when it cannot be
/// decoded.
pub fn convert_extended_to_png(bytes: &[u8], ext: &str) -> (out: Option<Vec<u8>>)
    ensures
        opt_bytes(out) == as_png(picture_of(bytes@, ext@)),
{
    let decoded = if same(ext, "psd") {
        decode_psd_for_diff_pane(bytes)
    } else {
        decode_image_for_diff_pane(bytes)
    };
    match decoded {
        Ok(img) => encode_png(img),
        Err(_) => None,
    }
}

/// Both sides of an image that is selected.
#[derive(Debug, Clone, PartialEq, Eq)]
pub struct SelectedImageCache {
    pub old_oid: Option<Oid>,
    pub new_oid: Option<Oid>,
    pub old_bytes: Option<Vec<u8>>,
    pub new_bytes: Option<Vec<u8>>,
    pub ext: String,
}

/// The extension of an image, where a file is one.
pub open spec fn image_ext(kind: FileKind) -> Option<Seq<char>> {
    match kind {
        FileKind::Image { ext } => Some(ext@),
        _ => None,
    }
}

/// Whether what is kept is of the selected file.
pub open spec fn is_current(cache: Option<SelectedImageCache>, file: FileDiff) -> bool {
    match (cache, file.kind) {
        (Some(c), FileKind::Image { ext }) => {
            &&& oid_bytes(c.old_oid) == oid_bytes(file.old_oid)
            &&& oid_bytes(c.new_oid) == oid_bytes(file.new_oid)
            &&& c.ext@ == ext@
        },
        _ => false,
    }
}

/// Whether what is kept is of the selected file.
pub fn cache_matches(cache: &Option<SelectedImageCache>, file: &FileDiff) -> (r: bool)
    ensures
        r == is_current(*cache, *file),
{
    match (cache, &file.kind) {
        (Some(c), FileKind::Image { ext }) => same_oid(&c.old_oid, &file.old_oid) && same_oid(
            &c.new_oid,
            &file.new_oid,
        ) && same(c.ext.as_str(), ext.as_str()),
        _ => false,
    }
}

/// What is shown of the bytes of an image.
pub open spec fn shown_bytes(raw: Option<Seq<u8>>, ext: Seq<char>) -> Option<Seq<u8>> {
    match raw {
        Some(b) => if is_extended(ext) {
            as_png(picture_of(b, ext))
        } else {
            Some(b)
        },
        None => None,
    }
}

fn shown(raw: Option<Vec<u8>>, ext: &str) -> (out: Option<Vec<u8>>)
    ensures
        opt_bytes(out) == shown_bytes(opt_bytes(raw), ext@),
{
    match raw {
        Some(b) => if extended(ext) {
            convert_extended_to_png(b.as_slice(), ext)
        } else {
            Some(b)
        },
        None => None,
    }
}

/// What is kept of the selected file, from the bytes of its two sides. `None`
/// for a file that is no image.
pub fn selected_image_cache(
    file: &FileDiff,
    old_raw: Option<Vec<u8>>,
    new_raw: Option<Vec<u8>>,
) -> (out: Option<SelectedImageCache>)
    ensures
        out is Some == image_ext(file.kind) is Some,
        out matches Some(c) ==> {
            let ext = image_ext(file.kind)->0;
            &&& c.old_oid == file.old_oid
            &&& c.new_oid == file.new_oid
            &&& opt_bytes(c.old_bytes) == shown_bytes(opt_bytes(old_raw), ext)
            &&& opt_bytes(c.new_bytes) == shown_bytes(opt_bytes(new_raw), ext)
            &&& c.ext@ == (if is_extended(ext) {
                "png"@
            } else {
                ext
            })
        },
{
    match &file.kind {
        FileKind::Image { ext } => {
            let stored: String = if extended(ext.as_str()) {
                "png".to_string()
            } else {
                ext.clone()
            };
            Some(
                SelectedImageCache {
                    old_oid: file.old_oid,
                    new_oid: file.new_oid,
                    old_bytes: shown(old_raw, ext.as_str()),
                    new_bytes: shown(new_raw, ext.as_str()),
                    ext: stored,
                },
            )
        },
        _ => None,
    }
}

/// What is kept of an image of the working tree: the committed bytes, and
/// those on disk, or else those that were staged.
pub fn working_tree_image_cache(
    file: &FileDiff,
    committed: Option<Vec<u8>>,
    on_disk: Option<Vec<u8>>,
    staged: Option<Vec<u8>>,
) -> (out: Option<SelectedImageCache>)
    ensures
        out is Some == image_ext(file.kind) is Some,
        out matches Some(c) ==> {
            &&& c.old_oid is None
            &&& c.new_oid is None
            &&& c.old_bytes == (if file.old_path is Some {
                committed
            } else {
                None
            })
            &&& c.new_bytes == (if file.new_path is Some {
                if on_disk is Some {
                    on_disk
                } else {
                    staged
                }
            } else {
                None
            })
            &&& c.ext@ == image_ext(file.kind)->0
        },
{
    match &file.kind {
        FileKind::Image { ext } => {
            let old_bytes = if file.old_path.is_some() {
                committed
            } else {
                None
            };
            let new_bytes = if file.new_path.is_some() {
                if on_disk.is_some() {
                    on_disk
                } else {
                    staged
                }
            } else {
                None
            };
            Some(
                SelectedImageCache {
                    old_oid: None,
                    new_oid: None,
                    old_bytes,
                    new_bytes,
                    ext: ext.clone(),
                },
            )
        },
        _ => None,
    }
}

/// How Git names the content of a path: as it is staged, and as it is
/// committed.
pub fn snapshot_specs(path: &str) -> (out: (String, String))
    ensures
        out.0@ == ":"@ + path@,
        out.1@ == "HEAD:"@ + path@,
{
    let mut staged: String = ":".to_string();
    staged.append(path);
    let mut committed: String = "HEAD:".to_string();
    committed.append(path);
    (staged, committed)
}

/// The content of a path: the first that there is, staged before committed,
/// if it is not larger than `max` bytes.
pub fn load_git_snapshot_bytes(
    staged: Option<Vec<u8>>,
    committed: Option<Vec<u8>>,
    max: usize,
) -> (out: Option<Vec<u8>>)
    ensures
        out == (match staged {
            Some(b) => if b@.len() > max {
                None
            } else {
                Some(b)
            },
            None => match committed {
                Some(b) => if b@.len() > max {
                    None
                } else {
                    Some(b)
                },
                None => None,
            },
        }),
{
    let found = match staged {
        Some(b) => Some(b),
        None => committed,
    };
    match found {
        Some(b) => if b.len() > max {
            None
        } else {
            Some(b)
        },
        None => None,
    }
}

/// Byte `i` of a number, the lowest first.
pub open spec fn byte_of(n: u64, i: int) -> u8 {
    if i == 0 {
        (n % 256) as u8
    } else if i == 1 {
        (n / 256 % 256) as u8
    } else if i == 2 {
        (n / 65536 % 256) as u8
    } else if i == 3 {
        (n / 16777216 % 256) as u8
    } else if i == 4 {
        (n / 4294967296 % 256) as u8
    } else if i == 5 {
        (n / 1099511627776 % 256) as u8
    } else if i == 6 {
        (n / 281474976710656 % 256) as u8
    } else {
        (n / 72057594037927936) as u8
    }
}

/// A name for bytes that are no Git object: their address, and a mark that no
/// real name carries.
pub open spec fn synthetic_bytes(ptr: u64) -> Seq<u8> {
    Seq::new(8, |i: int| byte_of(ptr, i)) + seq![
        0x4Du8,
        0x45,
        0x52,
        0x47,
        0x45,
        0x46,
        0x4F,
        0x58,
        0x53,
        0x59,
        0x4E,
        0x54,
    ]
}

/// A name for bytes that are no Git object.
pub fn synthetic_oid_for_ptr(ptr: u64) -> (oid: Oid)
    ensures
        oid.bytes@ == synthetic_bytes(ptr),
{
    let bytes: [u8; 20] = [
        (ptr % 256) as u8,
        (ptr / 256 % 256) as u8,
        (ptr / 65536 % 256) as u8,
        (ptr / 16777216 % 256) as u8,
        (ptr / 4294967296 % 256) as u8,
        (ptr / 1099511627776 % 256) as u8,
        (ptr / 281474976710656 % 256) as u8,
        (ptr / 72057594037927936) as u8,
        0x4D,
        0x45,
        0x52,
        0x47,
        0x45,
        0x46,
        0x4F,
        0x58,
        0x53,
        0x59,
        0x4E,
        0x54,
    ];
    proof {
        assert(bytes@ =~= synthetic_bytes(ptr));
    }
    Oid { bytes }
}

/// Bytes at different addresses get different names.
pub proof fn law_synthetic_names_differ(a: u64, b: u64)
    requires
        synthetic_bytes(a) == synthetic_bytes(b),
    ensures
        a == b,
{
    let x = synthetic_bytes(a);
    let y = synthetic_bytes(b);
    assert forall|i: int| 0 <= i < 8 implies byte_of(a, i) == byte_of(b, i) by {
        assert(x[i] == byte_of(a, i));
        assert(y[i] == byte_of(b, i));
    }
    assert(byte_of(a, 0) == byte_of(b, 0) && byte_of(a, 1) == byte_of(b, 1) && byte_of(a, 2)
        == byte_of(b, 2) && byte_of(a, 3) == byte_of(b, 3) && byte_of(a, 4) == byte_of(b, 4)
        && byte_of(a, 5) == byte_of(b, 5) && byte_of(a, 6) == byte_of(b, 6) && byte_of(a, 7)
        == byte_of(b, 7));
    lemma_from_bytes(a);
    lemma_from_bytes(b);
}

/// A number from its bytes.
proof fn lemma_from_bytes(n: u64)
    ensures
        n == byte_of(n, 0) + 256 * (byte_of(n, 1) + 256 * (byte_of(n, 2) + 256 * (byte_of(n, 3) + 256
            * (byte_of(n, 4) + 256 * (byte_of(n, 5) + 256 * (byte_of(n, 6) + 256 * byte_of(
            n,
            7,
        ))))))),
{
    let a = n / 256;
    let b = n / 65536;
    let c = n / 16777216;
    let d = n / 4294967296;
    let e = n / 1099511627776;
    let f = n / 281474976710656;
    let g = n / 72057594037927936;
    assert(b == a / 256);
    assert(c == b / 256);
    assert(d == c / 256);
    assert(e == d / 256);
    assert(f == e / 256);
    assert(g == f / 256);
    assert(f == byte_of(n, 6) + 256 * byte_of(n, 7));
    assert(e == byte_of(n, 5) + 256 * f);
    assert(d == byte_of(n, 4) + 256 * e);
    assert(c == byte_of(n, 3) + 256 * d);
    assert(b == byte_of(n, 2) + 256 * c);
    assert(a == byte_of(n, 1) + 256 * b);
    assert(n == byte_of(n, 0) + 256 * a);
}

/// A number in hexadecimal.
pub open spec fn hex_number(n: nat) -> Seq<char>
    decreases n,
{
    if n < 16 {
        seq![crate::git::hex_digit(n)]
    } else {
        hex_number(n / 16).push(crate::git::hex_digit(n % 16))
    }
}

fn hex_text(n: u64) -> (out: String)
    ensures
        out@ == hex_number(n as nat),
    decreases n,
{
    let d: u8 = (n % 16) as u8;
    if n < 16 {
        let mut out: String = String::new();
        out.push(crate::git::hex_char(d));
        proof {
            assert(out@ =~= hex_number(n as nat));
        }
        out
    } else {
        let mut out: String = hex_text(n / 16);
        out.push(crate::git::hex_char(d));
        out
    }
}

/// Under which address an image is cached: by its name, or else by where its
/// bytes are.
pub fn image_uri(oid: &Option<Oid>, ptr: u64, ext: &str) -> (out: String)
    ensures
        out@ == (match *oid {
            Some(o) => "bytes://diff/"@ + o.text() + "."@ + ext@,
            None => "bytes://diff/anon-"@ + hex_number(ptr as nat) + "."@ + ext@,
        }),
{
    match oid {
        Some(o) => {
            let mut out: String = "bytes://diff/".to_string();
            out.append(o.to_hex().as_str());
            out.append(".");
            out.append(ext);
            out
        },
        None => {
            let mut out: String = "bytes://diff/anon-".to_string();
            out.append(hex_text(ptr).as_str());
            out.append(".");
            out.append(ext);
            out
        },
    }
}

/// The line below an image: its size in pixels, once it is known, its bytes
/// and its format.
pub open spec fn image_footer_text(state: State, size: nat, ext: Seq<char>) -> Seq<char> {
    let tail = digits(size) + " bytes · ."@ + ext;
    match state {
        State::Ready(p) => digits(p.width as nat) + " × "@ + digits(p.height as nat) + " · "@
            + tail,
        _ => tail,
    }
}

/// The line below an image.
pub fn image_footer(state: &PreviewState, size: usize, ext: &str) -> (out: String)
    ensures
        out@ == image_footer_text(state@, size as nat, ext@),
{
    let mut tail: String = decimal(size as u64);
    tail.append(" bytes · .");
    tail.append(ext);
    match state {
        PreviewState::Ready(img) => {
            let mut out: String = decimal(img.width as u64);
            out.append(" × ");
            out.append(decimal(img.height as u64).as_str());
            out.append(" · ");
            out.append(tail.as_str());
            out
        },
        _ => tail,
    }
}

/// What stands in place of an image that is not there. Empty for one that is.
pub open spec fn image_notice_text(state: State) -> Seq<char> {
    match state {
        State::Ready(_) => Seq::empty(),
        State::Pending => "Decoding…"@,
        State::Failed(reason) => "Preview failed: "@ + reason,
        State::TooLarge(n) => "Image too large to preview ("@ + digits(n as nat) + " bytes > "@
            + digits((MAX_INPUT_BYTES / 1048576) as nat) + " MB cap)"@,
        State::Unsupported(label) => label,
    }
}

/// What stands in place of an image that is not there.
pub fn image_notice(state: &PreviewState) -> (out: String)
    ensures
        out@ == image_notice_text(state@),
{
    match state {
        PreviewState::Ready(_) => String::new(),
        PreviewState::Pending => "Decoding…".to_string(),
        PreviewState::Failed { reason } => {
            let mut out: String = "Preview failed: ".to_string();
            out.append(reason.as_str());
            out
        },
        PreviewState::TooLarge { bytes } => {
            let mut out: String = "Image too large to preview (".to_string();
            out.append(decimal(*bytes).as_str());
            out.append(" bytes > ");
            out.append(decimal(MAX_INPUT_BYTES / 1048576).as_str());
            out.append(" MB cap)");
            out
        },
        PreviewState::Unsupported { label } => (*label).to_string(),
    }
}

} // verus!
