//! The icon of the program.

use vstd::prelude::*;

use crate::ui::file_preview::{DecodedImage, Picture};

verus! {

/// The picture that the `image` crate decodes from a PNG file.
pub uninterp spec fn png_picture(bytes: Seq<u8>) -> Option<Picture>;

/// What an optional picture holds.
pub open spec fn opt_picture(img: Option<DecodedImage>) -> Option<Picture> {
    match img {
        Some(i) => Some(i@),
        None => None,
    }
}

/// `image::load_from_memory_with_format` for PNG, and
/// `DynamicImage::to_rgba8`: what comes out depends on the bytes alone, as
/// long as no decoding hook is registered with the crate, and has four bytes
/// for each pixel. `None` when the bytes cannot be decoded.
#[verifier::external_body]
fn decode_png(bytes: &[u8]) -> (out: Option<DecodedImage>)
    ensures
        opt_picture(out) == png_picture(bytes@),
        out matches Some(img) ==> img.is_packed(),
{
    let img = image::load_from_memory_with_format(bytes, image::ImageFormat::Png).ok()?;
    let rgba = img.to_rgba8();
    Some(DecodedImage { width: rgba.width(), height: rgba.height(), rgba: rgba.into_raw() })
}

/// The icon: what was decoded, or else one pixel that cannot be seen.
pub fn icon_or_blank(decoded: Option<DecodedImage>) -> (icon: DecodedImage)
    ensures
        decoded matches Some(img) ==> icon == img,
        decoded is None ==> icon.width == 1 && icon.height == 1 && icon.rgba@ == seq![
            0u8,
            0u8,
            0u8,
            0u8,
        ],
        (decoded matches Some(img) ==> img.is_packed()) ==> icon.is_packed(),
{
    match decoded {
        Some(img) => img,
        None => {
            let mut rgba: Vec<u8> = Vec::new();
            rgba.push(0);
            rgba.push(0);
            rgba.push(0);
            rgba.push(0);
            proof {
                assert(rgba@ =~= seq![0u8, 0u8, 0u8, 0u8]);
            }
            DecodedImage { width: 1, height: 1, rgba }
        },
    }
}

/// The icon in a PNG file. A file that cannot be decoded gives one pixel that
/// cannot be seen.
pub fn app_icon(png: &[u8]) -> (icon: DecodedImage)
    ensures
        icon.is_packed(),
        icon@ == (match png_picture(png@) {
            Some(p) => p,
            None => (Picture { width: 1, height: 1, rgba: seq![0u8, 0u8, 0u8, 0u8] }),
        }),
{
    icon_or_blank(decode_png(png))
}

} // verus!
