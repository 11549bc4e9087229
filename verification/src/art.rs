//! Cover art for the local cache: pictures are decoded, shrunk to a small
//! thumbnail and stored as JPEG; oversized or unreadable pictures are skipped.
//! A picture travels between the steps as `(width, height, RGBA bytes)`.
use vstd::prelude::*;

verus! {

/// Pictures larger than this many bytes are not cached.
pub const MAX_ART_BYTES: usize = 4 * 1024 * 1024;

/// The side of the cached thumbnails, in pixels.
pub const THUMB_SIDE: u32 = 220;

/// What `image::load_from_memory` followed by `to_rgba8` gives for the bytes:
/// width, height and RGBA pixel bytes, or `None` when they do not decode.
pub uninterp spec fn decoded_rgba(bytes: Seq<u8>) -> Option<(u32, u32, Seq<u8>)>;

/// The RGBA pixels of `image::imageops::thumbnail` of a `w` x `h` RGBA picture
/// at `side` x `side`.
pub uninterp spec fn thumbnail_pixels(w: u32, h: u32, pixels: Seq<u8>, side: u32) -> Seq<u8>;

/// The bytes `DynamicImage::write_to` writes for a `w` x `h` RGBA picture in
/// the JPEG format, or `None` when encoding fails.
pub uninterp spec fn jpeg_bytes(w: u32, h: u32, pixels: Seq<u8>) -> Option<Seq<u8>>;

/// A `w` x `h` RGBA picture holds four bytes per pixel.
pub open spec fn is_rgba(w: u32, h: u32, pixels: Seq<u8>) -> bool {
    pixels.len() == w * h * 4
}

/// Calls `image::load_from_memory` and converts the picture with `to_rgba8`:
/// the result is named `decoded_rgba(bytes)`, and holds four bytes per pixel
/// (`to_rgba8` makes a buffer of exactly that size).
#[verifier::external_body]
fn decode_rgba(bytes: &[u8]) -> (r: Option<(u32, u32, Vec<u8>)>)
    ensures
        r matches Some(d) ==> decoded_rgba(bytes@) == Some((d.0, d.1, d.2@)) && is_rgba(d.0, d.1, d.2@),
        r is None ==> decoded_rgba(bytes@) is None,
{
    match image::load_from_memory(bytes) {
        Ok(img) => {
            let rgba = img.to_rgba8();
            Some((rgba.width(), rgba.height(), rgba.into_raw()))
        },
        Err(_) => None,
    }
}

/// Calls `image::imageops::thumbnail` at `side` x `side` on the RGBA picture:
/// its pixels are named `thumbnail_pixels`, and the result is exactly
/// `side` x `side` (the function resizes to the dimensions asked for).
#[verifier::external_body]
fn thumbnail(w: u32, h: u32, pixels: &Vec<u8>, side: u32) -> (r: Vec<u8>)
    requires
        is_rgba(w, h, pixels@),
    ensures
        r@ == thumbnail_pixels(w, h, pixels@, side),
        is_rgba(side, side, r@),
{
    let img = image::RgbaImage::from_raw(w, h, pixels.clone()).unwrap();
    image::imageops::thumbnail(&img, side, side).into_raw()
}

/// Calls `DynamicImage::write_to` with the JPEG format on the RGBA picture;
/// the bytes written are named `jpeg_bytes`, `None` when encoding fails.
#[verifier::external_body]
fn encode_jpeg(w: u32, h: u32, pixels: &Vec<u8>) -> (r: Option<Vec<u8>>)
    requires
        is_rgba(w, h, pixels@),
    ensures
        r matches Some(b) ==> jpeg_bytes(w, h, pixels@) == Some(b@),
        r is None ==> jpeg_bytes(w, h, pixels@) is None,
{
    let img = image::RgbaImage::from_raw(w, h, pixels.clone()).unwrap();
    let mut out = std::io::Cursor::new(Vec::new());
    match image::DynamicImage::ImageRgba8(img).write_to(&mut out, image::ImageFormat::Jpeg) {
        Ok(()) => Some(out.into_inner()),
        Err(_) => None,
    }
}

/// The cached form of a cover picture: the JPEG of its `THUMB_SIDE`-pixel
/// square thumbnail; `None` for pictures over `MAX_ART_BYTES`, pictures that
/// do not decode, and thumbnails that do not encode.
pub open spec fn normalized_art(bytes: Seq<u8>) -> Option<Seq<u8>> {
    if bytes.len() > MAX_ART_BYTES {
        None
    } else {
        match decoded_rgba(bytes) {
            Some(d) => jpeg_bytes(THUMB_SIDE, THUMB_SIDE, thumbnail_pixels(d.0, d.1, d.2, THUMB_SIDE)),
            None => None,
        }
    }
}

/// The picture shown for a cover: its `THUMB_SIDE`-pixel square RGBA
/// thumbnail, `None` when the bytes do not decode.
pub fn art_thumbnail(bytes: &[u8]) -> (r: Option<(u32, u32, Vec<u8>)>)
    ensures
        match decoded_rgba(bytes@) {
            Some(d) => r matches Some(t) && t.0 == THUMB_SIDE && t.1 == THUMB_SIDE
                && t.2@ == thumbnail_pixels(d.0, d.1, d.2, THUMB_SIDE) && is_rgba(t.0, t.1, t.2@),
            None => r is None,
        },
{
    match decode_rgba(bytes) {
        Some((w, h, pixels)) => Some((THUMB_SIDE, THUMB_SIDE, thumbnail(w, h, &pixels, THUMB_SIDE))),
        None => None,
    }
}

pub fn normalize_art(bytes: &[u8]) -> (r: Option<Vec<u8>>)
    ensures
        r matches Some(v) ==> normalized_art(bytes@) == Some(v@),
        r is None ==> normalized_art(bytes@) is None,
{
    if bytes.len() > MAX_ART_BYTES {
        return None;
    }
    match decode_rgba(bytes) {
        Some((w, h, pixels)) => {
            let thumb = thumbnail(w, h, &pixels, THUMB_SIDE);
            encode_jpeg(THUMB_SIDE, THUMB_SIDE, &thumb)
        },
        None => None,
    }
}

} // verus!
