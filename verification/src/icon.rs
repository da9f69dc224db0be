//! The icon of the window.

use vstd::prelude::*;

verus! {

/// A picture in four bytes for each pixel: red, green, blue and opacity, row by row.
pub struct WindowIcon {
    pub rgba: Vec<u8>,
    pub width: u32,
    pub height: u32,
}

/// The picture that the bytes of a PNG file stand for, as
/// `image::load_from_memory_with_format` and `to_rgba8` give it: its pixels in four bytes
/// each, its width and its height. Nothing where the bytes are no such picture.
pub uninterp spec fn decoded_picture(bytes: Seq<u8>) -> Option<(Seq<u8>, u32, u32)>;

/// Calls `image::load_from_memory_with_format` for PNG, and `to_rgba8`, `dimensions` and
/// `into_raw` on what it gives. With the format named, the decoder is the built-in one, and
/// the result depends on the bytes alone; it has four bytes for each pixel. How pictures are
/// encoded is left unsaid.
#[verifier::external_body]
fn decode_picture(bytes: &[u8]) -> (picture: Option<(Vec<u8>, u32, u32)>)
    ensures
        match picture {
            Some((rgba, width, height)) => {
                &&& decoded_picture(bytes@) == Some((rgba@, width, height))
                &&& rgba@.len() == 4 * width * height
            },
            None => decoded_picture(bytes@) is None,
        },
{
    let png = image::ImageFormat::Png;
    let rgba = image::load_from_memory_with_format(bytes, png).ok()?.to_rgba8();
    let (width, height) = rgba.dimensions();
    Some((rgba.into_raw(), width, height))
}

impl WindowIcon {
    /// The icon that a decoded picture makes.
    pub fn from_picture(picture: Option<(Vec<u8>, u32, u32)>) -> (icon: Option<WindowIcon>)
        ensures
            match picture {
                Some((rgba, width, height)) => {
                    &&& icon matches Some(icon)
                    &&& icon.rgba@ == rgba@
                    &&& icon.width == width
                    &&& icon.height == height
                },
                None => icon is None,
            },
    {
        match picture {
            Some((rgba, width, height)) => Some(WindowIcon { rgba, width, height }),
            None => None,
        }
    }

    /// The icon in the bytes of a PNG file.
    pub fn decode(bytes: &[u8]) -> (icon: Option<WindowIcon>)
        ensures
            match decoded_picture(bytes@) {
                Some((rgba, width, height)) => {
                    &&& icon matches Some(icon)
                    &&& icon.rgba@ == rgba
                    &&& icon.width == width
                    &&& icon.height == height
                    &&& icon.rgba@.len() == 4 * icon.width * icon.height
                },
                None => icon is None,
            },
    {
        WindowIcon::from_picture(decode_picture(bytes))
    }
}

} // verus!
