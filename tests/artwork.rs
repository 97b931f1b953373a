use tunes::artwork::{
    crop_to_square, finish_cover, normalize_cover, plan_artwork, square_cover, ArtworkError,
    CacheAction, CoverFormat, CoverImage, RgbPixels,
};
use tunes::geometry::{center_square, find_offset_to_center, CropRegion};

fn encoded(w: u32, h: u32, format: image::ImageFormat) -> Vec<u8> {
    let img = image::RgbImage::from_fn(w, h, |x, y| image::Rgb([(x * 30) as u8, (y * 30) as u8, 7]));
    let mut out = Vec::new();
    img.write_to(&mut std::io::Cursor::new(&mut out), format).unwrap();
    out
}

fn dimensions_of_jpeg(bytes: &[u8]) -> (u32, u32) {
    let img = image::load_from_memory_with_format(bytes, image::ImageFormat::Jpeg).unwrap();
    (img.width(), img.height())
}

#[test]
fn offset_to_center_values() {
    assert_eq!(find_offset_to_center(400, 300), 50);
    assert_eq!(find_offset_to_center(1280, 720), 280);
    assert_eq!(find_offset_to_center(5, 2), 1);
    assert_eq!(find_offset_to_center(7, 7), 0);
}

#[test]
fn center_square_wide_tall_and_square() {
    assert_eq!(center_square(1280, 720), Some(CropRegion { x: 280, y: 0, side: 720 }));
    assert_eq!(center_square(300, 500), Some(CropRegion { x: 0, y: 100, side: 300 }));
    assert_eq!(center_square(64, 64), None);
}

#[test]
fn crop_to_square_takes_the_middle() {
    // 3 x 1 image: pixels (1,2,3) (4,5,6) (7,8,9); the middle one is kept.
    let img = RgbPixels { width: 3, height: 1, pixels: vec![1, 2, 3, 4, 5, 6, 7, 8, 9] };
    let r = crop_to_square(img);
    assert_eq!((r.width, r.height), (1, 1));
    assert_eq!(r.pixels, vec![4, 5, 6]);
}

#[test]
fn crop_to_square_keeps_square_images() {
    let img = RgbPixels { width: 1, height: 1, pixels: vec![9, 8, 7] };
    let r = crop_to_square(img);
    assert_eq!((r.width, r.height, r.pixels), (1, 1, vec![9, 8, 7]));
}

#[test]
fn jpeg_cover_passes_through_unchanged() {
    let data = encoded(6, 4, image::ImageFormat::Jpeg);
    let out = normalize_cover(&CoverImage { data: data.clone(), format: CoverFormat::Jpeg }).unwrap();
    assert_eq!(out, data);
}

#[test]
fn png_cover_is_reencoded_as_jpeg() {
    let data = encoded(6, 4, image::ImageFormat::Png);
    let out = normalize_cover(&CoverImage { data: data.clone(), format: CoverFormat::Png }).unwrap();
    assert_ne!(out, data);
    assert_eq!(&out[..2], &[0xFF, 0xD8]);
    assert_eq!(dimensions_of_jpeg(&out), (6, 4));
}

#[test]
fn corrupt_cover_is_a_decode_error() {
    let r = normalize_cover(&CoverImage { data: vec![1, 2, 3], format: CoverFormat::Png });
    assert!(matches!(r, Err(ArtworkError::Decode(_))));
}

#[test]
fn square_cover_crops_wide_images() {
    let data = encoded(8, 4, image::ImageFormat::Png);
    let out = square_cover(&CoverImage { data, format: CoverFormat::Png }).unwrap().unwrap();
    assert_eq!(dimensions_of_jpeg(&out), (4, 4));
}

#[test]
fn square_cover_is_a_no_op_on_square_art() {
    let data = encoded(5, 5, image::ImageFormat::Png);
    let out = square_cover(&CoverImage { data, format: CoverFormat::Png }).unwrap();
    assert!(out.is_none());
    let data = encoded(5, 5, image::ImageFormat::Jpeg);
    let out = square_cover(&CoverImage { data, format: CoverFormat::Jpeg }).unwrap();
    assert!(out.is_none());
}

#[test]
fn square_cover_crops_tall_images() {
    let data = encoded(3, 9, image::ImageFormat::Bmp);
    let out = square_cover(&CoverImage { data, format: CoverFormat::Bmp }).unwrap().unwrap();
    assert_eq!(dimensions_of_jpeg(&out), (3, 3));
}

#[test]
fn finish_cover_needs_a_cover() {
    assert!(matches!(finish_cover(None), Err(ArtworkError::MissingCover)));
    let data = encoded(4, 2, image::ImageFormat::Png);
    let out = finish_cover(Some(CoverImage { data, format: CoverFormat::Png })).unwrap().unwrap();
    assert_eq!(dimensions_of_jpeg(&out), (2, 2));
}

#[test]
fn cache_skips_when_entry_exists() {
    let cover = Some(CoverImage { data: vec![1, 2, 3], format: CoverFormat::Png });
    assert!(matches!(plan_artwork(true, &cover), Ok(CacheAction::Skip)));
}

#[test]
fn cache_skips_tracks_without_cover() {
    assert!(matches!(plan_artwork(false, &None), Ok(CacheAction::Skip)));
}

#[test]
fn cache_stores_jpeg_without_retagging() {
    let data = encoded(4, 4, image::ImageFormat::Jpeg);
    let cover = Some(CoverImage { data: data.clone(), format: CoverFormat::Jpeg });
    match plan_artwork(false, &cover) {
        Ok(CacheAction::Store(b)) => assert_eq!(b, data),
        _ => panic!("a JPEG cover is stored as it is"),
    }
}

#[test]
fn cache_retags_non_jpeg_covers() {
    let data = encoded(4, 3, image::ImageFormat::Gif);
    let cover = Some(CoverImage { data: data.clone(), format: CoverFormat::Gif });
    match plan_artwork(false, &cover) {
        Ok(CacheAction::StoreAndRetag(b)) => {
            assert_ne!(b, data);
            assert_eq!(dimensions_of_jpeg(&b), (4, 3));
        }
        _ => panic!("a GIF cover is normalized and retagged"),
    }
}

#[test]
fn cache_population_twice_works_once() {
    let data = encoded(4, 3, image::ImageFormat::Png);
    let cover = Some(CoverImage { data, format: CoverFormat::Png });
    let mut cached = false;
    let mut writes = 0;
    for _ in 0..2 {
        match plan_artwork(cached, &cover) {
            Ok(CacheAction::Store(_)) | Ok(CacheAction::StoreAndRetag(_)) => {
                writes += 1;
                cached = true;
            }
            Ok(CacheAction::Skip) => {}
            Err(e) => panic!("{:?}", e),
        }
    }
    assert_eq!(writes, 1);
    // With the entry in place, even an undecodable cover is not looked at.
    let broken = Some(CoverImage { data: vec![0], format: CoverFormat::Png });
    assert!(matches!(plan_artwork(true, &broken), Ok(CacheAction::Skip)));
}

#[test]
fn cache_reports_decode_failures() {
    let cover = Some(CoverImage { data: vec![0, 1], format: CoverFormat::Tiff });
    assert!(matches!(plan_artwork(false, &cover), Err(ArtworkError::Decode(_))));
}
