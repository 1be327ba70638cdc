//! The logo.

use vstd::prelude::*;

verus! {

/// A picture: its width and height, and four bytes for each pixel.
pub struct Icon {
    pub width: u32,
    pub height: u32,
    pub rgba: Vec<u8>,
}

/// What `image::load_from_memory_with_format` reads out of a PNG file, as red,
/// green, blue and opacity: the picture's width and height, and its bytes.
pub uninterp spec fn png_rgba(data: Seq<u8>) -> Option<(u32, u32, Seq<u8>)>;

/// A picture, with its bytes as a sequence.
pub open spec fn picture(icon: Option<(u32, u32, Vec<u8>)>) -> Option<(u32, u32, Seq<u8>)> {
    match icon {
        Some((width, height, rgba)) => Some((width, height, rgba@)),
        None => None,
    }
}

/// There are four bytes for each pixel.
pub open spec fn is_whole(picture: Option<(u32, u32, Seq<u8>)>) -> bool {
    match picture {
        Some((width, height, rgba)) => rgba.len() == width * height * 4,
        None => true,
    }
}

/// `image::load_from_memory_with_format`, for PNG: the picture in a file, or
/// `None` if it cannot be read. Whether it can, and what it shows, depends on
/// the file alone; there are four bytes for each pixel.
#[verifier::external_body]
fn decode_png(data: &[u8]) -> (icon: Option<(u32, u32, Vec<u8>)>)
    ensures
        picture(icon) == png_rgba(data@),
        is_whole(picture(icon)),
{
    let img = image::load_from_memory_with_format(data, image::ImageFormat::Png).ok()?.into_rgba8();
    let (width, height) = img.dimensions();
    Some((width, height, img.into_raw()))
}

/// The logo in a PNG file. `None` on any failure: a file that cannot be read
/// just hides the logo and leaves the window its default icon.
pub fn load_icon(data: &[u8]) -> (icon: Option<Icon>)
    ensures
        png_rgba(data@) == (match icon {
            Some(icon) => Some((icon.width, icon.height, icon.rgba@)),
            None => None,
        }),
        icon matches Some(icon) ==> icon.rgba@.len() == icon.width * icon.height * 4,
{
    match decode_png(data) {
        Some((width, height, rgba)) => Some(Icon { width, height, rgba }),
        None => None,
    }
}

} // verus!
