use scene_viewer::cache::ImageCache;
use scene_viewer::errors::ViewerError;
use scene_viewer::image_loader::{compute_fit_dimensions, load_image, load_image_cached};

#[test]
fn test_load_image_missing_file_is_io_error() {
    let r = load_image("definitely_not_here.png");
    match r {
        Err(e) => assert_eq!(e, ViewerError::IoError),
        Ok(_) => panic!("expected an error for a missing file"),
    }
}

#[test]
fn test_load_image_cached_miss_leaves_cache_empty_on_error() {
    let mut cache = ImageCache::new(4);
    let r = load_image_cached("definitely_not_here.png", &mut cache);
    match r {
        Err(e) => assert_eq!(e, ViewerError::IoError),
        Ok(_) => panic!("expected an error for a missing file"),
    }
    assert_eq!(cache.size(), 0);
}

#[test]
fn test_fit_dimensions_landscape() {
    // 4000x3000 into 1920x1920: the width ratio is the smaller one
    assert_eq!(compute_fit_dimensions(4000, 3000, 1920, 1920), (1920, 1440));
}

#[test]
fn test_fit_dimensions_portrait() {
    assert_eq!(compute_fit_dimensions(3000, 4000, 1920, 1920), (1440, 1920));
}

#[test]
fn test_fit_dimensions_truncates_toward_zero() {
    // 1000x999 into 500x500: 999 * 500 / 1000 = 499.5 truncates to 499
    assert_eq!(compute_fit_dimensions(1000, 999, 500, 500), (500, 499));
}

#[test]
fn test_fit_dimensions_never_zero() {
    // an extreme aspect ratio clamps the thin dimension to one pixel
    assert_eq!(compute_fit_dimensions(1000000, 1, 1920, 1920), (1920, 1));
}

#[test]
fn test_image_to_base64_jpeg_produces_data_uri() {
    let bitmap = image::DynamicImage::new_rgb8(4, 4);
    let img = scene_viewer::image_loader::DecodedImage {
        bitmap: std::sync::Arc::new(bitmap),
        width: 4,
        height: 4,
    };
    let uri = scene_viewer::image_loader::image_to_base64_jpeg(&img, 75).unwrap();
    assert!(uri.starts_with("data:image/jpeg;base64,"));
    assert!(uri.len() > "data:image/jpeg;base64,".len());
}

#[test]
fn test_image_to_base64_png_produces_data_uri() {
    let bitmap = image::DynamicImage::new_rgb8(2, 2);
    let img = scene_viewer::image_loader::DecodedImage {
        bitmap: std::sync::Arc::new(bitmap),
        width: 2,
        height: 2,
    };
    let uri = scene_viewer::image_loader::image_to_base64_png(&img).unwrap();
    assert!(uri.starts_with("data:image/png;base64,"));
}

#[test]
fn test_resize_to_fit_shrinks_preserving_aspect() {
    let bitmap = image::DynamicImage::new_rgb8(100, 50);
    let img = scene_viewer::image_loader::DecodedImage {
        bitmap: std::sync::Arc::new(bitmap),
        width: 100,
        height: 50,
    };
    let small = scene_viewer::image_loader::resize_to_fit(&img, 10, 10);
    assert_eq!((small.width, small.height), (10, 5));
}

#[test]
fn test_resize_to_fit_keeps_images_within_bounds() {
    let bitmap = image::DynamicImage::new_rgb8(100, 50);
    let img = scene_viewer::image_loader::DecodedImage {
        bitmap: std::sync::Arc::new(bitmap),
        width: 100,
        height: 50,
    };
    let same = scene_viewer::image_loader::resize_to_fit(&img, 200, 200);
    assert_eq!((same.width, same.height), (100, 50));
}

#[test]
fn test_encode_error_on_oversized_jpeg() {
    // JPEG cannot represent a width beyond 65535 pixels
    let bitmap = image::DynamicImage::new_rgb8(70000, 1);
    let img = scene_viewer::image_loader::DecodedImage {
        bitmap: std::sync::Arc::new(bitmap),
        width: 70000,
        height: 1,
    };
    let r = scene_viewer::image_loader::image_to_base64_jpeg(&img, 75);
    match r {
        Err(e) => assert_eq!(e, ViewerError::EncodeError),
        Ok(_) => panic!("expected an encode error"),
    }
}
