use mediaplayerofdoom::art::{art_thumbnail, normalize_art, MAX_ART_BYTES, THUMB_SIDE};

fn small_png() -> Vec<u8> {
    let img = image::RgbaImage::from_pixel(10, 6, image::Rgba([200, 10, 10, 255]));
    let mut out = std::io::Cursor::new(Vec::new());
    image::DynamicImage::ImageRgba8(img).write_to(&mut out, image::ImageFormat::Png).unwrap();
    out.into_inner()
}

#[test]
fn covers_become_small_jpegs() {
    let jpeg = normalize_art(&small_png()).expect("a thumbnail");
    assert_eq!(&jpeg[0..2], &[0xFF, 0xD8]);
    let back = image::load_from_memory(&jpeg).unwrap();
    assert_eq!((back.width(), back.height()), (THUMB_SIDE, THUMB_SIDE));
}

#[test]
fn unreadable_or_huge_pictures_are_skipped() {
    assert_eq!(normalize_art(b"not a picture"), None);
    assert_eq!(normalize_art(&vec![0u8; MAX_ART_BYTES + 1]), None);
}

#[test]
fn shown_covers_are_square_thumbnails() {
    let (w, h, px) = art_thumbnail(&small_png()).expect("a thumbnail");
    assert_eq!((w, h), (THUMB_SIDE, THUMB_SIDE));
    assert_eq!(px.len(), (THUMB_SIDE * THUMB_SIDE * 4) as usize);
    assert_eq!(&px[0..4], &[200, 10, 10, 255]);
    assert_eq!(art_thumbnail(b"not a picture"), None);
}
