use scene_viewer::errors::ViewerError;
use scene_viewer::scene::{ImageSize, Page, Scene, SceneCollection, SceneMetadata};

fn make_scene(name: &str, paths: &[&str]) -> Scene {
    Scene {
        metadata: SceneMetadata {
            version: "1.0".to_string(),
            scene_name: name.to_string(),
            image_size: ImageSize { width: 1920, height: 1080 },
            thumbnail_size: ImageSize { width: 320, height: 180 },
        },
        pages: paths.iter().map(|p| Page { image: p.to_string() }).collect(),
    }
}

#[test]
fn test_thumbnail_path() {
    let scene = Scene {
        metadata: SceneMetadata {
            version: "1.0".to_string(),
            scene_name: "Test".to_string(),
            image_size: ImageSize { width: 1920, height: 1080 },
            thumbnail_size: ImageSize { width: 320, height: 180 },
        },
        pages: vec![],
    };

    let main_path = "/path/to/images/image.jpg";
    let thumb_path = scene.get_thumbnail_path(main_path);

    assert_eq!(thumb_path, "/path/to/images/thumbnail/image.jpg");
}

#[test]
fn test_thumbnail_path_edge_cases() {
    let scene = make_scene("t", &[]);
    assert_eq!(scene.get_thumbnail_path("image.jpg"), "thumbnail/image.jpg");
    assert_eq!(scene.get_thumbnail_path(""), "");
    assert_eq!(scene.get_thumbnail_path("/img.png"), "/thumbnail/img.png");
    assert_eq!(scene.get_thumbnail_path("a/b/c.png"), "a/b/thumbnail/c.png");
}

#[test]
fn test_page_count_and_get_page_image() {
    let scene = make_scene("s", &["a.jpg", "b.jpg", "c.jpg"]);
    assert_eq!(scene.page_count(), 3);
    assert_eq!(scene.get_page_image(0), Some("a.jpg"));
    assert_eq!(scene.get_page_image(2), Some("c.jpg"));
    assert_eq!(scene.get_page_image(3), None);
}

#[test]
fn test_collection_construction_and_load() {
    let scenes = vec![make_scene("one", &["a.jpg"]), make_scene("two", &["b.jpg", "c.jpg"])];
    let files = vec!["scene_001.json".to_string(), "scene_002.json".to_string()];
    let coll = SceneCollection::new("base".to_string(), files, scenes).unwrap();
    assert_eq!(coll.scene_count(), 2);
    let s = coll.load_scene(1).unwrap();
    assert_eq!(s.metadata.scene_name, "two");
    assert_eq!(s.page_count(), 2);
    assert_eq!(coll.load_scene(2).unwrap_err(), ViewerError::OutOfBounds);
}

#[test]
fn test_collection_rejects_zero_page_scene() {
    let scenes = vec![make_scene("empty", &[])];
    let files = vec!["scene_001.json".to_string()];
    let r = SceneCollection::new("base".to_string(), files, scenes);
    assert_eq!(r.unwrap_err(), ViewerError::CollectionError);
}

#[test]
fn test_collection_rejects_mismatched_lists() {
    let scenes = vec![make_scene("one", &["a.jpg"])];
    let files = vec!["scene_001.json".to_string(), "scene_002.json".to_string()];
    let r = SceneCollection::new("base".to_string(), files, scenes);
    assert_eq!(r.unwrap_err(), ViewerError::CollectionError);
}

#[test]
fn test_error_messages() {
    assert_eq!(ViewerError::IoError.message(), "failed to read file");
    assert_eq!(ViewerError::DecodeError.message(), "failed to decode image data");
    assert_eq!(ViewerError::EncodeError.message(), "failed to encode image");
    assert_eq!(ViewerError::OutOfBounds.message(), "index out of bounds");
    assert_eq!(ViewerError::NotLoaded.message(), "no scene loaded");
    assert_eq!(ViewerError::CollectionError.message(), "invalid scene collection");
}
