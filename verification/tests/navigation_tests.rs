use scene_viewer::commands::{
    get_image, get_scene_info, get_scene_loop_enabled, load_scene_collection, next_page,
    next_scene, plan_prefetch, prefetch_one, perform_upgrade, prev_page, prev_scene,
    set_scene_loop_enabled, AppState,
};
use scene_viewer::errors::ViewerError;
use scene_viewer::scene::{ImageSize, Page, Scene, SceneCollection, SceneMetadata};

fn make_scene(name: &str, paths: &[&str]) -> Scene {
    Scene {
        metadata: SceneMetadata {
            version: "1.0".to_string(),
            scene_name: name.to_string(),
            image_size: ImageSize { width: 1920, height: 1080 },
            thumbnail_size: ImageSize { width: 320, height: 180 },
        },
        pages: paths.iter().map(|p| Page { image: p.to_string() }).collect(),
    }
}

/// A loaded state with 2 scenes of 3 and 2 pages, every page's
/// high-resolution payload already in the encoded cache.
fn seeded_state() -> AppState {
    let scenes = vec![
        make_scene("first", &["s0p0.jpg", "s0p1.jpg", "s0p2.jpg"]),
        make_scene("second", &["s1p0.jpg", "s1p1.jpg"]),
    ];
    let files = vec!["scene_001.json".to_string(), "scene_002.json".to_string()];
    let coll = SceneCollection::new("base".to_string(), files, scenes).unwrap();
    let mut state = AppState::new();
    let n = load_scene_collection(&mut state, coll);
    assert_eq!(n, 2);
    for p in ["s0p0.jpg", "s0p1.jpg", "s0p2.jpg", "s1p0.jpg", "s1p1.jpg"] {
        state
            .encoded_cache
            .insert(format!("{}@1920", p), format!("data:image/jpeg;base64,{}", p));
    }
    state
}

#[test]
fn test_load_collection_initializes_state() {
    let state = seeded_state();
    assert_eq!(state.current_scene_index, 0);
    assert_eq!(state.current_page_index, 0);
    assert!(!get_scene_loop_enabled(&state));
    let info = get_scene_info(&state).unwrap();
    assert_eq!(info.scene_name, "first");
    assert_eq!(info.scene_index, 0);
    assert_eq!(info.total_pages, 3);
    assert_eq!(info.current_page, 0);
}

#[test]
fn test_scene_info_requires_loaded_collection() {
    let state = AppState::new();
    assert_eq!(get_scene_info(&state).unwrap_err(), ViewerError::NotLoaded);
}

#[test]
fn test_get_image_returns_resolved_identity() {
    let mut state = seeded_state();
    let (data, upgrade) = get_image(&mut state, Some(1), 1).unwrap();
    assert_eq!(data.scene_index, 1);
    assert_eq!(data.page_index, 1);
    assert_eq!(data.image_path, "s1p1.jpg");
    assert!(!data.is_preview);
    assert_eq!(data.main_image.unwrap(), "data:image/jpeg;base64,s1p1.jpg");
    assert!(upgrade.is_none());
    assert_eq!(state.current_scene_index, 1);
    assert_eq!(state.current_page_index, 1);
}

#[test]
fn test_get_image_out_of_bounds_leaves_state_unchanged() {
    let mut state = seeded_state();
    let e = get_image(&mut state, None, 99).unwrap_err();
    assert_eq!(e, ViewerError::OutOfBounds);
    assert_eq!(state.current_scene_index, 0);
    assert_eq!(state.current_page_index, 0);
    let e2 = get_image(&mut state, Some(7), 0).unwrap_err();
    assert_eq!(e2, ViewerError::OutOfBounds);
    assert_eq!(state.current_scene_index, 0);
    assert_eq!(state.current_page_index, 0);
}

#[test]
fn test_get_image_not_loaded() {
    let mut state = AppState::new();
    assert_eq!(get_image(&mut state, None, 0).unwrap_err(), ViewerError::NotLoaded);
}

#[test]
fn test_scene_boundary_walk() {
    // 2 scenes (3 pages, 2 pages), loop off, starting at (0, 0):
    // next -> (0,1), next -> (0,2), next -> (1,0), prev -> (0,2).
    let mut state = seeded_state();
    let (d1, _) = next_page(&mut state).unwrap();
    assert_eq!((d1.scene_index, d1.page_index), (0, 1));
    let (d2, _) = next_page(&mut state).unwrap();
    assert_eq!((d2.scene_index, d2.page_index), (0, 2));
    let (d3, _) = next_page(&mut state).unwrap();
    assert_eq!((d3.scene_index, d3.page_index), (1, 0));
    let (d4, _) = prev_page(&mut state).unwrap();
    assert_eq!((d4.scene_index, d4.page_index), (0, 2));
    assert_eq!(state.current_scene_index, 0);
    assert_eq!(state.current_page_index, 2);
}

#[test]
fn test_scene_wraps_around_collection() {
    // from the last page of the last scene, next_page wraps to scene 0
    let mut state = seeded_state();
    get_image(&mut state, Some(1), 1).unwrap();
    let (d, _) = next_page(&mut state).unwrap();
    assert_eq!((d.scene_index, d.page_index), (0, 0));
    // and from page 0 of scene 0, prev_page wraps to the last page of
    // the last scene
    let (d2, _) = prev_page(&mut state).unwrap();
    assert_eq!((d2.scene_index, d2.page_index), (1, 1));
}

#[test]
fn test_loop_mode_wraps_within_scene() {
    let mut state = seeded_state();
    set_scene_loop_enabled(&mut state, true);
    assert!(get_scene_loop_enabled(&state));
    let (d1, _) = next_page(&mut state).unwrap();
    assert_eq!((d1.scene_index, d1.page_index), (0, 1));
    let (d2, _) = next_page(&mut state).unwrap();
    assert_eq!((d2.scene_index, d2.page_index), (0, 2));
    // wraps to page 0, same scene
    let (d3, _) = next_page(&mut state).unwrap();
    assert_eq!((d3.scene_index, d3.page_index), (0, 0));
    // and back
    let (d4, _) = prev_page(&mut state).unwrap();
    assert_eq!((d4.scene_index, d4.page_index), (0, 2));
}

#[test]
fn test_loop_mode_next_then_prev_returns() {
    let mut state = seeded_state();
    set_scene_loop_enabled(&mut state, true);
    for start in 0..3usize {
        get_image(&mut state, Some(0), start).unwrap();
        next_page(&mut state).unwrap();
        prev_page(&mut state).unwrap();
        assert_eq!(state.current_scene_index, 0);
        assert_eq!(state.current_page_index, start);
    }
}

#[test]
fn test_next_and_prev_scene_reset_page() {
    let mut state = seeded_state();
    get_image(&mut state, Some(0), 2).unwrap();
    let info = next_scene(&mut state).unwrap();
    assert_eq!(info.scene_index, 1);
    assert_eq!(info.current_page, 0);
    assert_eq!(info.scene_name, "second");
    let info2 = next_scene(&mut state).unwrap();
    assert_eq!(info2.scene_index, 0);
    let info3 = prev_scene(&mut state).unwrap();
    assert_eq!(info3.scene_index, 1);
    assert_eq!(info3.current_page, 0);
}

#[test]
fn test_cached_highres_is_served_without_preview() {
    // simulate a completed upgrade: the payload sits under the
    // resolution-tagged key, so the request is answered from the cache
    // with no preview and no new upgrade job
    let mut state = seeded_state();
    let (data, upgrade) = get_image(&mut state, None, 0).unwrap();
    assert!(!data.is_preview);
    assert!(upgrade.is_none());
    assert_eq!(data.main_image.unwrap(), "data:image/jpeg;base64,s0p0.jpg");
}

#[test]
fn test_missing_image_fails_without_moving() {
    // a page whose file does not exist and whose payload is not cached
    // fails the request and leaves the position alone
    let scenes = vec![make_scene("only", &["missing_file.jpg", "other.jpg"])];
    let files = vec!["scene_001.json".to_string()];
    let coll = SceneCollection::new("b".to_string(), files, scenes).unwrap();
    let mut state = AppState::new();
    load_scene_collection(&mut state, coll);
    let e = get_image(&mut state, None, 1).unwrap_err();
    assert_eq!(e, ViewerError::IoError);
    assert_eq!(state.current_page_index, 0);
}

#[test]
fn test_perform_upgrade_missing_file_is_silent() {
    let mut state = seeded_state();
    let before = state.encoded_cache.size();
    let r = perform_upgrade(&mut state, "no_such_image.jpg", 0, 0);
    assert!(r.is_none());
    assert_eq!(state.encoded_cache.size(), before);
}

#[test]
fn test_plan_prefetch_lists_next_pages() {
    let scene = make_scene("s", &["a.jpg", "b.jpg", "c.jpg"]);
    let plan = plan_prefetch(&scene, 0, 3);
    let got: Vec<(String, u8)> = plan;
    assert_eq!(
        got,
        vec![
            ("b.jpg".to_string(), 85),
            ("thumbnail/b.jpg".to_string(), 75),
            ("c.jpg".to_string(), 85),
            ("thumbnail/c.jpg".to_string(), 75),
            ("a.jpg".to_string(), 85),
            ("thumbnail/a.jpg".to_string(), 75),
        ]
    );
}

#[test]
fn test_prefetch_one_skips_cached_and_fails_gracefully() {
    let mut state = seeded_state();
    state.encoded_cache.insert("warm.jpg".to_string(), "data:x".to_string());
    assert!(prefetch_one(&mut state, "warm.jpg", 85));
    let before = state.encoded_cache.size();
    assert!(!prefetch_one(&mut state, "cold_missing.jpg", 85));
    assert_eq!(state.encoded_cache.size(), before);
}
