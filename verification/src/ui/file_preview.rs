//! Previews of binary assets: which formats have one, where a Photoshop file
//! keeps its embedded thumbnail, how large a preview gets, and which state a
//! preview is in.

use std::sync::Arc;

use vstd::prelude::*;

use crate::text::{lower_ascii, same, to_lower_ascii};

verus! {

/// Maximum width and height of thumbnails rendered inline.
pub const THUMB_MAX_DIM: u32 = 64;

/// The largest file, in bytes, that is loaded for a preview.
pub const MAX_INPUT_BYTES: u64 = 67_108_864;

/// How a format is previewed.
#[derive(Debug, Clone, Copy, PartialEq, Eq)]
pub enum FormatKind {
    /// Decoded by the `image` crate.
    Image,
    /// Photoshop: decoded from the embedded thumbnail.
    Psd,
    /// A model or another opaque binary, with the words that stand for it.
    OpaqueAsset(&'static str),
    Unknown,
}

/// How a format is previewed.
pub enum Format {
    Image,
    Psd,
    OpaqueAsset(Seq<char>),
    Unknown,
}

impl View for FormatKind {
    type V = Format;

    open spec fn view(&self) -> Format {
        match self {
            FormatKind::Image => Format::Image,
            FormatKind::Psd => Format::Psd,
            FormatKind::OpaqueAsset(label) => Format::OpaqueAsset(label@),
            FormatKind::Unknown => Format::Unknown,
        }
    }
}

/// The extensions that the `image` crate is asked to decode.
pub open spec fn is_image_ext(ext: Seq<char>) -> bool {
    ||| ext == "png"@
    ||| ext == "jpg"@
    ||| ext == "jpeg"@
    ||| ext == "gif"@
    ||| ext == "bmp"@
    ||| ext == "tga"@
    ||| ext == "tif"@
    ||| ext == "tiff"@
    ||| ext == "webp"@
    ||| ext == "ico"@
    ||| ext == "exr"@
    ||| ext == "hdr"@
    ||| ext == "qoi"@
}

/// The format of an extension in small letters.
pub open spec fn format_of(ext: Seq<char>) -> Format {
    if is_image_ext(ext) {
        Format::Image
    } else if ext == "psd"@ {
        Format::Psd
    } else if ext == "fbx"@ {
        Format::OpaqueAsset("FBX model"@)
    } else if ext == "blend"@ {
        Format::OpaqueAsset("Blender scene"@)
    } else if ext == "spine"@ {
        Format::OpaqueAsset("Spine skeleton"@)
    } else if ext == "obj"@ {
        Format::OpaqueAsset("OBJ model"@)
    } else if ext == "gltf"@ || ext == "glb"@ {
        Format::OpaqueAsset("glTF model"@)
    } else if ext == "uasset"@ {
        Format::OpaqueAsset("Unreal asset"@)
    } else if ext == "unity"@ || ext == "prefab"@ {
        Format::OpaqueAsset("Unity asset"@)
    } else if ext == "mp4"@ || ext == "mov"@ || ext == "webm"@ {
        Format::OpaqueAsset("Video"@)
    } else if ext == "wav"@ || ext == "mp3"@ || ext == "ogg"@ || ext == "flac"@ {
        Format::OpaqueAsset("Audio"@)
    } else {
        Format::Unknown
    }
}

/// Whether previews of a format are decoded by this program.
pub open spec fn is_decoded(format: Format) -> bool {
    format is Image || format is Psd
}

/// The words that stand for a format without a preview.
pub open spec fn placeholder(format: Format) -> Seq<char> {
    match format {
        Format::OpaqueAsset(label) => label,
        Format::Psd => "Photoshop (no embedded preview)"@,
        Format::Unknown => ""@,
        Format::Image => "image"@,
    }
}

impl FormatKind {
    /// The format of an extension, which is given in small letters.
    pub fn from_ext(ext: &str) -> (out: Self)
        ensures
            out@ == format_of(ext@),
    {
        if same(ext, "png") || same(ext, "jpg") || same(ext, "jpeg") || same(ext, "gif") || same(
            ext,
            "bmp",
        ) || same(ext, "tga") || same(ext, "tif") || same(ext, "tiff") || same(ext, "webp") || same(
            ext,
            "ico",
        ) || same(ext, "exr") || same(ext, "hdr") || same(ext, "qoi") {
            FormatKind::Image
        } else if same(ext, "psd") {
            FormatKind::Psd
        } else if same(ext, "fbx") {
            FormatKind::OpaqueAsset("FBX model")
        } else if same(ext, "blend") {
            FormatKind::OpaqueAsset("Blender scene")
        } else if same(ext, "spine") {
            FormatKind::OpaqueAsset("Spine skeleton")
        } else if same(ext, "obj") {
            FormatKind::OpaqueAsset("OBJ model")
        } else if same(ext, "gltf") || same(ext, "glb") {
            FormatKind::OpaqueAsset("glTF model")
        } else if same(ext, "uasset") {
            FormatKind::OpaqueAsset("Unreal asset")
        } else if same(ext, "unity") || same(ext, "prefab") {
            FormatKind::OpaqueAsset("Unity asset")
        } else if same(ext, "mp4") || same(ext, "mov") || same(ext, "webm") {
            FormatKind::OpaqueAsset("Video")
        } else if same(ext, "wav") || same(ext, "mp3") || same(ext, "ogg") || same(ext, "flac") {
            FormatKind::OpaqueAsset("Audio")
        } else {
            FormatKind::Unknown
        }
    }

    /// Whether previews of the format are decoded by this program.
    pub fn has_inprocess_decoder(self) -> (r: bool)
        ensures
            r == is_decoded(self@),
    {
        match self {
            FormatKind::Image | FormatKind::Psd => true,
            FormatKind::OpaqueAsset(_) | FormatKind::Unknown => false,
        }
    }

    /// The words that stand for the format where there is no preview.
    pub fn placeholder_label(self) -> (out: &'static str)
        ensures
            out@ == placeholder(self@),
    {
        match self {
            FormatKind::OpaqueAsset(l) => l,
            FormatKind::Psd => "Photoshop (no embedded preview)",
            FormatKind::Unknown => "",
            FormatKind::Image => "image",
        }
    }
}

/// Whether previews of an extension are decoded by this program. Capitals do
/// not matter.
pub fn is_previewable_ext(ext: &str) -> (r: bool)
    ensures
        r == is_decoded(format_of(lower_ascii(ext@))),
{
    FormatKind::from_ext(to_lower_ascii(ext).as_str()).has_inprocess_decoder()
}

#[derive(Debug, Clone, Copy, PartialEq, Eq, Hash, Structural)]
pub enum PreviewMode {
    /// Small inline thumbnail.
    Thumb,
    /// Full-resolution preview for the side pane.
    Full,
}

/// Width, height and pixels of an image, four bytes per pixel.
pub struct Picture {
    pub width: u32,
    pub height: u32,
    pub rgba: Seq<u8>,
}

#[derive(Debug, PartialEq, Eq)]
pub struct DecodedImage {
    pub width: u32,
    pub height: u32,
    /// Tightly packed rows of RGBA pixels, four bytes each.
    pub rgba: Vec<u8>,
}

impl View for DecodedImage {
    type V = Picture;

    open spec fn view(&self) -> Picture {
        Picture { width: self.width, height: self.height, rgba: self.rgba@ }
    }
}

impl DecodedImage {
    /// Whether there are as many bytes as the size asks for.
    pub open spec fn is_packed(&self) -> bool {
        self.rgba@.len() == self.width * self.height * 4
    }
}

/// Why a preview could not be decoded.
#[derive(Debug, Clone, PartialEq, Eq)]
pub enum PreviewError {
    NotPsd,
    TruncatedPsd,
    TruncatedResources,
    NoEmbeddedPreview,
    /// The bytes could not be looked at to guess their format.
    GuessFormat(String),
    /// The `image` crate could not decode the bytes.
    Decode(String),
}

/// Why a preview could not be decoded.
pub enum Failure {
    NotPsd,
    TruncatedPsd,
    TruncatedResources,
    NoEmbeddedPreview,
    GuessFormat(Seq<char>),
    Decode(Seq<char>),
}

impl View for PreviewError {
    type V = Failure;

    open spec fn view(&self) -> Failure {
        match self {
            PreviewError::NotPsd => Failure::NotPsd,
            PreviewError::TruncatedPsd => Failure::TruncatedPsd,
            PreviewError::TruncatedResources => Failure::TruncatedResources,
            PreviewError::NoEmbeddedPreview => Failure::NoEmbeddedPreview,
            PreviewError::GuessFormat(s) => Failure::GuessFormat(s@),
            PreviewError::Decode(s) => Failure::Decode(s@),
        }
    }
}

/// A failure in words.
pub open spec fn failure_text(failure: Failure) -> Seq<char> {
    match failure {
        Failure::NotPsd => "not a PSD file"@,
        Failure::TruncatedPsd => "truncated PSD"@,
        Failure::TruncatedResources => "PSD resources section truncated"@,
        Failure::NoEmbeddedPreview => "no embedded preview in PSD"@,
        Failure::GuessFormat(s) => "guess image format: "@ + s,
        Failure::Decode(s) => "image decode: "@ + s,
    }
}

impl PreviewError {
    /// The failure in words.
    pub fn message(&self) -> (out: String)
        ensures
            out@ == failure_text(self@),
    {
        match self {
            PreviewError::NotPsd => "not a PSD file".to_string(),
            PreviewError::TruncatedPsd => "truncated PSD".to_string(),
            PreviewError::TruncatedResources => "PSD resources section truncated".to_string(),
            PreviewError::NoEmbeddedPreview => "no embedded preview in PSD".to_string(),
            PreviewError::GuessFormat(s) => {
                let mut out: String = "guess image format: ".to_string();
                out.append(s.as_str());
                out
            },
            PreviewError::Decode(s) => {
                let mut out: String = "image decode: ".to_string();
                out.append(s.as_str());
                out
            },
        }
    }
}

/// What a decoding yields, by its contents.
pub open spec fn outcome(r: Result<DecodedImage, PreviewError>) -> Result<Picture, Failure> {
    match r {
        Ok(img) => Ok(img@),
        Err(e) => Err(e@),
    }
}

/// The picture that the `image` crate decodes from some bytes.
pub uninterp spec fn decoded(bytes: Seq<u8>) -> Result<Picture, Failure>;

/// Whether a failure is one of decoding, and not of a file's structure.
pub open spec fn is_decoding_failure(f: Failure) -> bool {
    f is GuessFormat || f is Decode
}

/// `image::ImageReader::decode`, on a reader that guesses the format from the
/// bytes, and `DynamicImage::to_rgba8`: what comes out depends on the bytes
/// alone, as long as no decoding hook is registered with the crate, and has
/// four bytes for each pixel. What fails is the guess or the decoding.
#[verifier::external_body]
fn decode_rgba8(bytes: &[u8]) -> (r: Result<DecodedImage, PreviewError>)
    ensures
        outcome(r) == decoded(bytes@),
        r matches Ok(img) ==> img.is_packed(),
        r matches Err(e) ==> is_decoding_failure(e@),
{
    let cursor = std::io::Cursor::new(bytes);
    let reader = image::ImageReader::new(cursor).with_guessed_format().map_err(
        |e| PreviewError::GuessFormat(format!("{:#}", anyhow::Error::new(e))),
    )?;
    let img = reader.decode().map_err(
        |e| PreviewError::Decode(format!("{:#}", anyhow::Error::new(e))),
    )?;
    let rgba = img.to_rgba8();
    Ok(DecodedImage { width: rgba.width(), height: rgba.height(), rgba: rgba.into_raw() })
}

/// Whether `n` is the side of a picture whose longest side was scaled to
/// `max`: in proportion, to the nearest number of pixels, and at least one.
pub open spec fn is_scaled_side(n: int, side: int, longest: int, max: int) -> bool {
    &&& n >= 1
    &&& 2 * (side * max) <= (2 * n + 1) * longest
    &&& n == 1 || (2 * n - 1) * longest <= 2 * (side * max)
}

/// The longest side of a picture.
pub open spec fn longest_side(p: Picture) -> u32 {
    if p.width >= p.height {
        p.width
    } else {
        p.height
    }
}

/// Whether a picture is another one scaled so that its longest side is `max`.
pub open spec fn is_scaled(small: Picture, large: Picture, max: u32) -> bool {
    let longest = longest_side(large) as int;
    &&& is_scaled_side(small.width as int, large.width as int, longest, max as int)
    &&& is_scaled_side(small.height as int, large.height as int, longest, max as int)
}

/// The same with `DynamicImage::resize` in between, by the Lanczos filter:
/// the image is scaled, with its aspect ratio kept, to fit the square as well
/// as it can. What is claimed of the pixels is how many there are: the filter
/// is computed with the sine of the machine, which fixes no colour to the last
/// bit.
#[verifier::external_body]
fn decode_rgba8_to_fit(bytes: &[u8], max_dim: u32) -> (r: Result<DecodedImage, PreviewError>)
    requires
        0 < max_dim <= 65536,
    ensures
        match decoded(bytes@) {
            Ok(p) => {
                &&& r matches Ok(img)
                &&& img.is_packed()
                &&& longest_side(p) > 0 ==> is_scaled(img@, p, max_dim)
            },
            Err(e) => outcome(r) == Err::<Picture, Failure>(e),
        },
{
    let cursor = std::io::Cursor::new(bytes);
    let reader = image::ImageReader::new(cursor).with_guessed_format().map_err(
        |e| PreviewError::GuessFormat(format!("{:#}", anyhow::Error::new(e))),
    )?;
    let img = reader.decode().map_err(
        |e| PreviewError::Decode(format!("{:#}", anyhow::Error::new(e))),
    )?;
    let rgba = img.resize(max_dim, max_dim, image::imageops::FilterType::Lanczos3).to_rgba8();
    Ok(DecodedImage { width: rgba.width(), height: rgba.height(), rgba: rgba.into_raw() })
}

/// Whether a picture of some size is scaled down: a thumbnail that is too wide
/// or too high.
pub open spec fn is_oversized(mode: PreviewMode, width: u32, height: u32) -> bool {
    mode == PreviewMode::Thumb && (width > THUMB_MAX_DIM || height > THUMB_MAX_DIM)
}

/// Whether a picture of some size is scaled down.
pub fn needs_downscale(mode: PreviewMode, width: u32, height: u32) -> (r: bool)
    ensures
        r == is_oversized(mode, width, height),
{
    match mode {
        PreviewMode::Thumb => width > THUMB_MAX_DIM || height > THUMB_MAX_DIM,
        PreviewMode::Full => false,
    }
}

/// Whether a preview is what it should be, for what was decoded in full size:
/// a thumbnail that is too large is scaled, and all else is left as it is.
pub open spec fn is_preview(
    shown: Result<Picture, Failure>,
    full: Result<Picture, Failure>,
    mode: PreviewMode,
) -> bool {
    match full {
        Ok(p) => if is_oversized(mode, p.width, p.height) {
            shown matches Ok(small) && is_scaled(small, p, THUMB_MAX_DIM)
        } else {
            shown == full
        },
        Err(_) => shown == full,
    }
}

proof fn lemma_scaled_side(n: int, side: int, longest: int, max: int)
    requires
        is_scaled_side(n, side, longest, max),
        0 <= side <= longest,
        0 < longest,
        0 < max,
    ensures
        n <= max,
        side == longest ==> n == max,
{
    assert(side * max <= longest * max) by (nonlinear_arith)
        requires
            side <= longest,
            0 < max,
    ;
    if n > max {
        assert((2 * n - 1) * longest > 2 * (longest * max)) by (nonlinear_arith)
            requires
                n > max,
                0 < longest,
        ;
    }
    if side == longest && n < max {
        assert((2 * n + 1) * longest < 2 * (longest * max)) by (nonlinear_arith)
            requires
                n < max,
                0 < longest,
        ;
    }
}

/// A thumbnail fits its square. Where it was scaled, its longest side is as
/// long as that of the square.
pub proof fn law_thumbnail_fits(shown: Picture, full: Picture)
    requires
        is_preview(Ok(shown), Ok(full), PreviewMode::Thumb),
    ensures
        shown.width <= THUMB_MAX_DIM,
        shown.height <= THUMB_MAX_DIM,
        is_oversized(PreviewMode::Thumb, full.width, full.height) ==> longest_side(shown)
            == THUMB_MAX_DIM,
{
    if is_oversized(PreviewMode::Thumb, full.width, full.height) {
        let longest = longest_side(full) as int;
        let max = THUMB_MAX_DIM as int;
        lemma_scaled_side(shown.width as int, full.width as int, longest, max);
        lemma_scaled_side(shown.height as int, full.height as int, longest, max);
    }
}

/// A full-size preview is what was decoded, unchanged.
pub proof fn law_full_preview(shown: Result<Picture, Failure>, full: Result<Picture, Failure>)
    ensures
        is_preview(shown, full, PreviewMode::Full) <==> shown == full,
{
}

/// Decodes the preview of an image file.
pub fn decode_image_crate(bytes: &[u8], mode: PreviewMode) -> (r: Result<
    DecodedImage,
    PreviewError,
>)
    ensures
        is_preview(outcome(r), decoded(bytes@), mode),
        r matches Ok(img) ==> img.is_packed(),
        r matches Err(e) ==> is_decoding_failure(e@),
{
    match decode_rgba8(bytes) {
        Ok(img) => if needs_downscale(mode, img.width, img.height) {
            decode_rgba8_to_fit(bytes, THUMB_MAX_DIM)
        } else {
            Ok(img)
        },
        Err(e) => Err(e),
    }
}

/// Two bytes as a number, the high one first.
pub open spec fn be16(bytes: Seq<u8>, i: int) -> int {
    bytes[i] * 256 + bytes[i + 1]
}

/// Four bytes as a number, the high ones first.
pub open spec fn be32(bytes: Seq<u8>, i: int) -> int {
    be16(bytes, i) * 65536 + be16(bytes, i + 2)
}

/// Whether four bytes spell a tag.
pub open spec fn has_tag(bytes: Seq<u8>, i: int, a: u8, b: u8, c: u8, d: u8) -> bool {
    bytes[i] == a && bytes[i + 1] == b && bytes[i + 2] == c && bytes[i + 3] == d
}

/// A length made even.
pub open spec fn even(n: int) -> int {
    n + n % 2
}

/// The JPEG data of the thumbnail, among the image resources in
/// `bytes[pos..end]`, as the range of its bytes. Each resource is the tag
/// `8BIM`, a number, a name with its length in front, padded to even length,
/// and a payload with its length in front, padded likewise. The thumbnail is
/// the first one with the number 1036 whose payload goes on behind a header of
/// 28 bytes.
pub open spec fn thumbnail(bytes: Seq<u8>, pos: int, end: int) -> Option<(int, int)>
    decreases end + 1 - pos,
{
    if pos + 8 >= end || !has_tag(bytes, pos, 0x38, 0x42, 0x49, 0x4D) {
        None
    } else {
        let at = pos + 6 + even(1 + bytes[pos + 6]);
        let from = at + 4;
        if from > end || from + be32(bytes, at) > end {
            None
        } else if be16(bytes, pos + 4) == 1036 && be32(bytes, at) > 28 {
            Some((from + 28, from + be32(bytes, at)))
        } else {
            thumbnail(bytes, from + even(be32(bytes, at)), end)
        }
    }
}

/// The JPEG data of the thumbnail that a Photoshop file embeds. The file is
/// the tag `8BPS`, a header, the colour mode data with their length in front,
/// and the image resources with their length in front.
pub open spec fn psd_thumbnail(bytes: Seq<u8>) -> Result<(int, int), Failure> {
    if bytes.len() < 30 || !has_tag(bytes, 0, 0x38, 0x42, 0x50, 0x53) {
        Err(Failure::NotPsd)
    } else {
        let pos = 30 + be32(bytes, 26);
        if bytes.len() < pos + 4 {
            Err(Failure::TruncatedPsd)
        } else {
            let end = pos + 4 + be32(bytes, pos);
            if bytes.len() < end {
                Err(Failure::TruncatedResources)
            } else {
                match thumbnail(bytes, pos + 4, end) {
                    Some(range) => Ok(range),
                    None => Err(Failure::NoEmbeddedPreview),
                }
            }
        }
    }
}

/// The picture in a Photoshop file: the thumbnail that it embeds.
pub open spec fn psd_picture(bytes: Seq<u8>) -> Result<Picture, Failure> {
    match psd_thumbnail(bytes) {
        Ok(range) => decoded(bytes.subrange(range.0, range.1)),
        Err(e) => Err(e),
    }
}

/// Whether a failure is that of a Photoshop file: what its structure lacks,
/// or else one of decoding the thumbnail.
pub open spec fn is_psd_failure(f: Failure, bytes: Seq<u8>) -> bool {
    match psd_thumbnail(bytes) {
        Ok(_) => is_decoding_failure(f),
        Err(e) => f == e && !is_decoding_failure(f),
    }
}

fn read_be32(bytes: &[u8], i: usize) -> (n: u64)
    requires
        i + 4 <= bytes@.len(),
    ensures
        n == be32(bytes@, i as int),
        n < 0x1_0000_0000,
{
    (bytes[i] as u64 * 256 + bytes[i + 1] as u64) * 65536 + (bytes[i + 2] as u64 * 256 + bytes[i
        + 3] as u64)
}

fn is_tag(bytes: &[u8], i: usize, a: u8, b: u8, c: u8, d: u8) -> (r: bool)
    requires
        i + 4 <= bytes@.len(),
    ensures
        r == has_tag(bytes@, i as int, a, b, c, d),
{
    bytes[i] == a && bytes[i + 1] == b && bytes[i + 2] == c && bytes[i + 3] == d
}

/// Finds the JPEG data of the thumbnail that a Photoshop file embeds.
pub fn find_psd_thumbnail(bytes: &[u8]) -> (r: Result<(usize, usize), PreviewError>)
    ensures
        match r {
            Ok(range) => psd_thumbnail(bytes@) == Ok::<(int, int), Failure>(
                (range.0 as int, range.1 as int),
            ) && range.0 <= range.1 <= bytes@.len(),
            Err(e) => psd_thumbnail(bytes@) == Err::<(int, int), Failure>(e@),
        },
{
    let len: u64 = bytes.len() as u64;
    if bytes.len() < 30 || !is_tag(bytes, 0, 0x38, 0x42, 0x50, 0x53) {
        return Err(PreviewError::NotPsd);
    }
    let start: u64 = 30 + read_be32(bytes, 26);
    if len < start + 4 {
        return Err(PreviewError::TruncatedPsd);
    }
    let end: u64 = start + 4 + read_be32(bytes, start as usize);
    if len < end {
        return Err(PreviewError::TruncatedResources);
    }
    let mut pos: u64 = start + 4;
    while pos + 8 < end && is_tag(bytes, pos as usize, 0x38, 0x42, 0x49, 0x4D)
        invariant
            len == bytes@.len() <= usize::MAX,
            end <= len,
            end < 0x3_0000_0000,
            pos < 0x3_0000_0000,
            bytes@.len() >= 30,
            has_tag(bytes@, 0, 0x38, 0x42, 0x50, 0x53),
            start == 30 + be32(bytes@, 26),
            end == start + 4 + be32(bytes@, start as int),
            thumbnail(bytes@, start + 4, end as int) == thumbnail(bytes@, pos as int, end as int),
        decreases end + 1 - pos,
    {
        let p: usize = pos as usize;
        let id: u64 = bytes[p + 4] as u64 * 256 + bytes[p + 5] as u64;
        let name: u64 = 1 + bytes[p + 6] as u64;
        let at: u64 = pos + 6 + name + name % 2;
        if at + 4 > end {
            return Err(PreviewError::NoEmbeddedPreview);
        }
        let payload: u64 = read_be32(bytes, at as usize);
        let from: u64 = at + 4;
        if from + payload > end {
            return Err(PreviewError::NoEmbeddedPreview);
        }
        if id == 1036 && payload > 28 {
            return Ok(((from + 28) as usize, (from + payload) as usize));
        }
        pos = from + payload + payload % 2;
    }
    Err(PreviewError::NoEmbeddedPreview)
}

/// Decodes the thumbnail that a Photoshop file embeds.
pub fn decode_psd_embedded(bytes: &[u8], mode: PreviewMode) -> (r: Result<
    DecodedImage,
    PreviewError,
>)
    ensures
        is_preview(outcome(r), psd_picture(bytes@), mode),
        r matches Ok(img) ==> img.is_packed(),
        r matches Err(e) ==> is_psd_failure(e@, bytes@),
{
    match find_psd_thumbnail(bytes) {
        Ok(range) => decode_image_crate(
            vstd::slice::slice_subrange(bytes, range.0, range.1),
            mode,
        ),
        Err(e) => Err(e),
    }
}

/// Decodes an image for the diff pane, in full size.
pub fn decode_image_for_diff_pane(bytes: &[u8]) -> (r: Result<DecodedImage, PreviewError>)
    ensures
        outcome(r) == decoded(bytes@),
        r matches Ok(img) ==> img.is_packed(),
        r matches Err(e) ==> is_decoding_failure(e@),
{
    decode_image_crate(bytes, PreviewMode::Full)
}

/// Decodes the thumbnail of a Photoshop file for the diff pane.
pub fn decode_psd_for_diff_pane(bytes: &[u8]) -> (r: Result<DecodedImage, PreviewError>)
    ensures
        outcome(r) == psd_picture(bytes@),
        r matches Ok(img) ==> img.is_packed(),
        r matches Err(e) ==> is_psd_failure(e@, bytes@),
{
    decode_psd_embedded(bytes, PreviewMode::Full)
}

/// State of a single preview.
#[derive(Debug, Clone)]
pub enum PreviewState {
    Pending,
    Ready(Arc<DecodedImage>),
    /// No preview of this format; `label` stands for it.
    Unsupported { label: &'static str },
    /// The file is larger than `MAX_INPUT_BYTES`.
    TooLarge { bytes: u64 },
    Failed { reason: String },
}

/// State of a single preview, by its contents.
pub enum State {
    Pending,
    Ready(Picture),
    Unsupported(Seq<char>),
    TooLarge(u64),
    Failed(Seq<char>),
}

impl View for PreviewState {
    type V = State;

    open spec fn view(&self) -> State {
        match self {
            PreviewState::Pending => State::Pending,
            PreviewState::Ready(img) => State::Ready(img@),
            PreviewState::Unsupported { label } => State::Unsupported(label@),
            PreviewState::TooLarge { bytes } => State::TooLarge(*bytes),
            PreviewState::Failed { reason } => State::Failed(reason@),
        }
    }
}

/// What is done for a preview first.
#[derive(Debug, Clone, Copy, PartialEq, Eq)]
pub enum JobPlan {
    /// Ask the platform's thumbnailer; `label` stands for the format.
    Thumbnailer { label: &'static str },
    /// Get the bytes and decode them.
    Decode { kind: FormatKind },
}

/// Plans the preview of a file by its extension.
pub fn plan_job(ext: &str) -> (plan: JobPlan)
    ensures
        match plan {
            JobPlan::Thumbnailer { label } => format_of(ext@) == Format::OpaqueAsset(label@),
            JobPlan::Decode { kind } => kind@ == format_of(ext@) && !(kind@ is OpaqueAsset),
        },
{
    let kind = FormatKind::from_ext(ext);
    match kind {
        FormatKind::OpaqueAsset(label) => JobPlan::Thumbnailer { label },
        FormatKind::Image | FormatKind::Psd | FormatKind::Unknown => JobPlan::Decode { kind },
    }
}

/// What the platform's thumbnailer came back with: nothing, or the bytes of an
/// image.
pub fn finish_thumbnailer(
    label: &'static str,
    png: Option<Vec<u8>>,
    mode: PreviewMode,
) -> (state: PreviewState)
    ensures
        match png {
            None => state@ == State::Unsupported(label@),
            Some(bytes) => match decoded(bytes@) {
                Ok(full) => state@ matches State::Ready(p) && is_preview(Ok(p), Ok(full), mode),
                Err(e) => state@ == State::Failed("qlmanage output decode: "@ + failure_text(e)),
            },
        },
{
    match png {
        None => PreviewState::Unsupported { label },
        Some(bytes) => match decode_image_crate(bytes.as_slice(), mode) {
            Ok(img) => PreviewState::Ready(Arc::new(img)),
            Err(e) => {
                let mut reason: String = "qlmanage output decode: ".to_string();
                reason.append(e.message().as_str());
                PreviewState::Failed { reason }
            },
        },
    }
}

/// How large a picture the platform's thumbnailer is asked for.
pub fn thumbnailer_size(mode: PreviewMode) -> (n: u32)
    ensures
        n == (match mode {
            PreviewMode::Thumb => THUMB_MAX_DIM,
            PreviewMode::Full => 512,
        }),
{
    match mode {
        PreviewMode::Thumb => THUMB_MAX_DIM,
        PreviewMode::Full => 512,
    }
}

/// Why the bytes of a file are not there.
#[derive(Debug, Clone, Copy, PartialEq, Eq, Structural)]
pub enum PathReadError {
    Missing,
    TooLarge(u64),
    Io,
}

/// Whether a file of some size is read at all.
pub fn admit_size(size: u64) -> (r: Result<(), PathReadError>)
    ensures
        r is Ok == (size <= MAX_INPUT_BYTES),
        r matches Err(e) ==> e == PathReadError::TooLarge(size),
{
    if size > MAX_INPUT_BYTES {
        Err(PathReadError::TooLarge(size))
    } else {
        Ok(())
    }
}

/// The picture in a file of some format, where it has one. A Photoshop file
/// without a thumbnail has none.
pub open spec fn full_picture(format: Format, bytes: Seq<u8>) -> Result<Option<Picture>, Failure> {
    match format {
        Format::Image => match decoded(bytes) {
            Ok(p) => Ok(Some(p)),
            Err(e) => Err(e),
        },
        Format::Psd => match psd_picture(bytes) {
            Ok(p) => Ok(Some(p)),
            Err(_) => Ok(None),
        },
        Format::OpaqueAsset(_) | Format::Unknown => Ok(None),
    }
}

/// Decodes the preview of a format, where it has one.
pub fn decode(kind: FormatKind, bytes: &[u8], mode: PreviewMode) -> (r: Result<
    Option<DecodedImage>,
    PreviewError,
>)
    ensures
        match full_picture(kind@, bytes@) {
            Ok(Some(full)) => r matches Ok(Some(img)) && is_preview(Ok(img@), Ok(full), mode)
                && img.is_packed(),
            Ok(None) => r matches Ok(None),
            Err(e) => r matches Err(x) && x@ == e,
        },
{
    match kind {
        FormatKind::Image => match decode_image_crate(bytes, mode) {
            Ok(img) => Ok(Some(img)),
            Err(e) => Err(e),
        },
        FormatKind::Psd => match decode_psd_embedded(bytes, mode) {
            Ok(img) => Ok(Some(img)),
            Err(_) => Ok(None),
        },
        FormatKind::OpaqueAsset(_) | FormatKind::Unknown => Ok(None),
    }
}

/// The state of a preview once its bytes are there, or are not.
pub fn finish_decode(
    kind: FormatKind,
    bytes: Result<Vec<u8>, PathReadError>,
    mode: PreviewMode,
) -> (state: PreviewState)
    ensures
        match bytes {
            Ok(b) => match full_picture(kind@, b@) {
                Ok(Some(full)) => state@ matches State::Ready(p) && is_preview(
                    Ok(p),
                    Ok(full),
                    mode,
                ),
                Ok(None) => state@ == State::Unsupported(placeholder(kind@)),
                Err(e) => state@ == State::Failed(failure_text(e)),
            },
            Err(PathReadError::TooLarge(n)) => state@ == State::TooLarge(n),
            Err(_) => state@ == State::Failed("could not read file"@),
        },
{
    match bytes {
        Ok(b) => match decode(kind, b.as_slice(), mode) {
            Ok(Some(img)) => PreviewState::Ready(Arc::new(img)),
            Ok(None) => PreviewState::Unsupported { label: kind.placeholder_label() },
            Err(e) => PreviewState::Failed { reason: e.message() },
        },
        Err(PathReadError::TooLarge(n)) => PreviewState::TooLarge { bytes: n },
        Err(PathReadError::Missing) | Err(PathReadError::Io) => PreviewState::Failed {
            reason: "could not read file".to_string(),
        },
    }
}

} // verus!
