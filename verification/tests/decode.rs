use apod_wallpaper::update_run::{still_from_decoded, still_from_download, FetchFailure};
use apod_wallpaper::updater::{decode_bytes, ImageKind};
use image::{DynamicImage, ImageFormat, RgbImage};
use std::io::Cursor;

fn encoded(format: ImageFormat, w: u32, h: u32) -> Vec<u8> {
    let mut bytes = Cursor::new(Vec::new());
    DynamicImage::ImageRgb8(RgbImage::from_pixel(w, h, image::Rgb([1, 2, 3])))
        .write_to(&mut bytes, format)
        .unwrap();
    bytes.into_inner()
}

#[test]
fn decodes_a_payload_still_in_memory() {
    let bytes = encoded(ImageFormat::Jpeg, 6, 3);
    let decoded = decode_bytes(&bytes).expect("a JPEG payload must decode from memory");
    assert_eq!((decoded.width(), decoded.height()), (6, 3));

    assert!(decode_bytes(b"<html>404 not found</html>").is_err());
    assert!(decode_bytes(&bytes[..bytes.len() / 2]).is_err());
}

#[test]
fn a_download_that_decodes_is_a_still_named_by_its_content() {
    let bytes = encoded(ImageFormat::Png, 4, 2);
    let (kept, picture, kind) = still_from_download(bytes.clone()).expect("a PNG must decode");
    assert_eq!(kept, bytes);
    assert_eq!((picture.width(), picture.height()), (4, 2));
    assert_eq!(kind, ImageKind::Png);

    let (_, _, kind) = still_from_download(encoded(ImageFormat::Jpeg, 4, 2)).unwrap();
    assert_eq!(kind, ImageKind::Other);
}

#[test]
fn a_download_that_does_not_decode_sends_the_run_to_the_next_candidate() {
    match still_from_download(b"<html>404 not found</html>".to_vec()) {
        Err(FetchFailure::Decode(m)) => assert!(m.starts_with("The downloaded file is unusable: ")),
        other => panic!("expected a decode failure, got {:?}", other.map(|(b, _, k)| (b, k))),
    }
    match still_from_decoded(vec![1, 2, 3], Err("Not a usable image: no".into())) {
        Err(FetchFailure::Decode(m)) => {
            assert_eq!(m, "The downloaded file is unusable: Not a usable image: no")
        }
        other => panic!("expected a decode failure, got {:?}", other.map(|(b, _, k)| (b, k))),
    }
}
