//! The viewer's operations over its shared state.
//!
//! [`AppState`] is the single owner of the two caches and of the
//! navigation state (current collection, scene, page, loop mode).  The
//! operations here are the logical commands of the viewer: loading a
//! collection, reading scene information, fetching a page image with
//! progressive delivery, page and scene navigation, and the loop-mode
//! switch.  Every operation takes the state by mutable reference; an
//! embedding process serializes access and performs the asynchronous
//! work that an operation hands back.

use vstd::arithmetic::div_mod::{lemma_mod_self_0, lemma_small_mod};
use vstd::prelude::*;

use crate::cache::{EncodedImageCache, ImageCache};
use crate::errors::ViewerError;
use crate::image_loader::{
    image_to_base64_jpeg, is_jpeg_data_uri, load_image_cached, load_image_cached_with_size,
};
use crate::lru_model::{
    has_key, lemma_get_promotes_without_eviction, lemma_put, lru_promote, lru_put, value_of,
};
use crate::scene::{Scene, SceneCollection, SceneView, thumbnail_path_spec};

verus! {

/// Application state shared across commands: the two cache tiers and the
/// navigation state, owned in one place.
pub struct AppState {
    pub cache: ImageCache,
    pub encoded_cache: EncodedImageCache,
    pub current_scene: Option<Scene>,
    pub current_collection: Option<SceneCollection>,
    pub current_scene_index: usize,
    pub current_page_index: usize,
    pub scene_loop_enabled: bool,
}

/// The current scene information handed to the display.
#[derive(Debug)]
pub struct SceneInfo {
    pub scene_name: String,
    pub scene_index: usize,
    pub total_pages: usize,
    pub current_page: usize,
}

/// The payload answering one image request.  `is_preview` is true for a
/// fast low-resolution payload that a high-resolution upgrade will
/// follow, false for a full-resolution payload.
#[derive(Debug)]
pub struct ImageData {
    pub main_image: Option<String>,
    pub thumbnail_image: Option<String>,
    pub page_index: usize,
    pub scene_index: usize,
    pub image_path: String,
    pub is_preview: bool,
}

/// The one-shot notification that a high-resolution payload is ready,
/// carrying the identity of the request it answers.
#[derive(Debug)]
pub struct ImageUpgradeEvent {
    pub main_image: String,
    pub page_index: usize,
    pub scene_index: usize,
    pub image_path: String,
}

/// One discovered collection, by name and location.
#[derive(Debug)]
pub struct SceneListItem {
    pub name: String,
    pub path: String,
}

/// A high-resolution upgrade job that the caller must run in the
/// background: produce the 1920-pixel version of `image_path` and
/// republish it for the identified page.
#[derive(Debug)]
pub struct UpgradeRequest {
    pub image_path: String,
    pub scene_index: usize,
    pub page_index: usize,
}

impl AppState {
    /// Whether a collection has been loaded.
    pub open spec fn loaded(&self) -> bool {
        self.current_collection is Some
    }

    /// The scenes of the loaded collection.
    pub open spec fn scenes(&self) -> Seq<SceneView> {
        self.current_collection->Some_0@.scenes
    }

    /// The page paths of the current scene.
    pub open spec fn cur_pages(&self) -> Seq<Seq<char>> {
        self.scenes()[self.current_scene_index as int].pages
    }

    /// The state invariant: both caches are well formed and, once a
    /// collection is loaded, the current scene is the collection's scene
    /// at the current index and the page index is in range.
    pub open spec fn wf(&self) -> bool {
        &&& self.cache.wf()
        &&& self.encoded_cache.wf()
        &&& match self.current_collection {
            Some(c) => {
                &&& c.wf()
                &&& self.current_scene is Some
                &&& (self.current_scene_index as int) < c@.scenes.len()
                &&& self.current_scene->Some_0@ == c@.scenes[self.current_scene_index as int]
                &&& (self.current_page_index as int) < c@.scenes[
                    self.current_scene_index as int
                ].pages.len()
            },
            None => self.current_scene is None,
        }
    }

    /// A fresh, empty state: no collection, loop mode off, a decoded
    /// cache of 8 entries and an encoded cache of 16.
    pub fn new() -> (r: Self)
        ensures
            r.wf(),
            !r.loaded(),
            r.current_scene_index == 0,
            r.current_page_index == 0,
            r.scene_loop_enabled == false,
            r.cache.model().len() == 0,
            r.encoded_cache.model().len() == 0,
            r.cache.capacity() == 8,
            r.encoded_cache.capacity() == 16,
    {
        AppState {
            cache: ImageCache::new(8),  // cache up to 8 decoded images
            encoded_cache: EncodedImageCache::new(16),  // cache up to 16 encoded images
            current_scene: None,
            current_collection: None,
            current_scene_index: 0,
            current_page_index: 0,
            scene_loop_enabled: false,  // default off
        }
    }
}

/// Whether two states agree on everything but the caches.
pub open spec fn same_nav(a: &AppState, b: &AppState) -> bool {
    &&& a.current_scene_index == b.current_scene_index
    &&& a.current_page_index == b.current_page_index
    &&& a.scene_loop_enabled == b.scene_loop_enabled
    &&& (a.current_scene is Some <==> b.current_scene is Some)
    &&& (a.current_scene is Some ==> a.current_scene->Some_0@ == b.current_scene->Some_0@)
    &&& (a.current_collection is Some <==> b.current_collection is Some)
    &&& (a.current_collection is Some ==> a.current_collection->Some_0@
        == b.current_collection->Some_0@)
}

/// The page after `page` when looping within a scene of `total` pages.
pub open spec fn next_position(page: int, total: int) -> int {
    (page + 1) % total
}

/// The page before `page` when looping within a scene of `total` pages.
pub open spec fn prev_position(page: int, total: int) -> int {
    if page == 0 {
        total - 1
    } else {
        page - 1
    }
}

/// The scene after `scene` among `scene_count` scenes.
pub open spec fn next_scene_index(scene: int, scene_count: int) -> int {
    (scene + 1) % scene_count
}

/// The scene before `scene` among `scene_count` scenes.
pub open spec fn prev_scene_index(scene: int, scene_count: int) -> int {
    if scene == 0 {
        scene_count - 1
    } else {
        scene - 1
    }
}

/// With loop mode on, one page forward and then one page back is where
/// one started, for any page of the scene.
pub proof fn lemma_next_then_prev_returns(page: int, total: int)
    requires
        0 <= page < total,
    ensures
        prev_position(next_position(page, total), total) == page,
{
    if page + 1 == total {
        lemma_mod_self_0(total);
        assert(next_position(page, total) == 0);
    } else {
        lemma_small_mod((page + 1) as nat, total as nat);
        assert(next_position(page, total) == page + 1);
    }
}

/// With loop mode on, one page back and then one page forward is where
/// one started, for any page of the scene.
pub proof fn lemma_prev_then_next_returns(page: int, total: int)
    requires
        0 <= page < total,
    ensures
        next_position(prev_position(page, total), total) == page,
{
    if page == 0 {
        lemma_mod_self_0(total);
    } else {
        lemma_small_mod(page as nat, total as nat);
    }
}

/// With loop mode on, `next_page` then `prev_page` from any page of any
/// loaded state comes back to the starting scene and page: a state that
/// sits at the next-page target of `s1` has `s1`'s position as its
/// prev-page target.
pub proof fn lemma_page_round_trip(s1: &AppState, s2: &AppState)
    requires
        s1.wf(),
        s1.loaded(),
        s1.scene_loop_enabled,
        s2.wf(),
        s2.loaded(),
        s2.scene_loop_enabled,
        s2.scenes() == s1.scenes(),
        (s2.current_scene_index as int, s2.current_page_index as int) == next_page_target(s1),
    ensures
        prev_page_target(s2) == (s1.current_scene_index as int, s1.current_page_index as int),
{
    let page = s1.current_page_index as int;
    let total = s1.cur_pages().len() as int;
    assert(s2.current_scene_index == s1.current_scene_index);
    assert(s2.cur_pages() == s1.cur_pages());
    lemma_next_then_prev_returns(page, total);
}

/// Install a freshly discovered collection: its first scene becomes
/// current at page 0.  An empty collection leaves the state untouched.
/// Returns the number of scenes.
pub fn load_scene_collection(state: &mut AppState, collection: SceneCollection) -> (r: usize)
    requires
        old(state).wf(),
        collection.wf(),
    ensures
        final(state).wf(),
        r == collection@.scenes.len(),
        r > 0 ==> {
            &&& final(state).loaded()
            &&& final(state).current_collection->Some_0@ == collection@
            &&& final(state).current_scene_index == 0
            &&& final(state).current_page_index == 0
            &&& final(state).current_scene->Some_0@ == collection@.scenes[0]
            &&& final(state).scene_loop_enabled == old(state).scene_loop_enabled
        },
        r == 0 ==> same_nav(old(state), final(state)),
        final(state).cache.model() == old(state).cache.model(),
        final(state).encoded_cache.model() == old(state).encoded_cache.model(),
{
    let scene_count = collection.scene_count();
    if scene_count > 0 {
        let scene = match collection.load_scene(0) {
            Ok(s) => s,
            Err(_) => {
                proof {
                    assert(false);
                }
                return scene_count;
            },
        };
        state.current_scene = Some(scene);
        state.current_collection = Some(collection);
        state.current_scene_index = 0;
        state.current_page_index = 0;
    }
    scene_count
}

/// Get the current scene information.
pub fn get_scene_info(state: &AppState) -> (r: Result<SceneInfo, ViewerError>)
    requires
        state.wf(),
    ensures
        match r {
            Ok(info) => {
                &&& state.loaded()
                &&& info.scene_name@ == state.scenes()[state.current_scene_index as int].scene_name
                &&& info.scene_index == state.current_scene_index
                &&& info.total_pages == state.cur_pages().len()
                &&& info.current_page == state.current_page_index
            },
            Err(e) => !state.loaded() && e == ViewerError::NotLoaded,
        },
{
    match &state.current_scene {
        Some(scene) => Ok(
            SceneInfo {
                scene_name: scene.metadata.scene_name.clone(),
                scene_index: state.current_scene_index,
                total_pages: scene.page_count(),
                current_page: state.current_page_index,
            },
        ),
        None => Err(ViewerError::NotLoaded),
    }
}

/// Navigate to the next scene, ignoring loop mode; the page index resets
/// to 0.
pub fn next_scene(state: &mut AppState) -> (r: Result<SceneInfo, ViewerError>)
    requires
        old(state).wf(),
    ensures
        final(state).wf(),
        final(state).cache.model() == old(state).cache.model(),
        final(state).encoded_cache.model() == old(state).encoded_cache.model(),
        final(state).scene_loop_enabled == old(state).scene_loop_enabled,
        match r {
            Ok(info) => {
                &&& old(state).loaded()
                &&& final(state).loaded()
                &&& final(state).current_collection->Some_0@
                    == old(state).current_collection->Some_0@
                &&& final(state).current_scene_index as int == next_scene_index(
                    old(state).current_scene_index as int,
                    old(state).scenes().len() as int,
                )
                &&& final(state).current_page_index == 0
                &&& final(state).current_scene->Some_0@ == final(state).scenes()[
                    final(state).current_scene_index as int
                ]
                &&& info.scene_index == final(state).current_scene_index
                &&& info.current_page == 0
                &&& info.total_pages == final(state).cur_pages().len()
                &&& info.scene_name@ == final(state).scenes()[
                    final(state).current_scene_index as int
                ].scene_name
            },
            Err(e) => {
                &&& !old(state).loaded()
                &&& e == ViewerError::NotLoaded
                &&& same_nav(old(state), final(state))
            },
        },
{
    let (new_index, scene) = match &state.current_collection {
        Some(c) => {
            let count = c.scene_count();
            let new_index = (state.current_scene_index + 1) % count;
            let scene = match c.load_scene(new_index) {
                Ok(s) => s,
                Err(_) => {
                    proof {
                        assert(false);
                    }
                    return Err(ViewerError::NotLoaded);
                },
            };
            (new_index, scene)
        },
        None => {
            return Err(ViewerError::NotLoaded);
        },
    };
    state.current_scene = Some(scene);
    state.current_scene_index = new_index;
    state.current_page_index = 0;
    get_scene_info(state)
}

/// Navigate to the previous scene, ignoring loop mode; the page index
/// resets to 0.
pub fn prev_scene(state: &mut AppState) -> (r: Result<SceneInfo, ViewerError>)
    requires
        old(state).wf(),
    ensures
        final(state).wf(),
        final(state).cache.model() == old(state).cache.model(),
        final(state).encoded_cache.model() == old(state).encoded_cache.model(),
        final(state).scene_loop_enabled == old(state).scene_loop_enabled,
        match r {
            Ok(info) => {
                &&& old(state).loaded()
                &&& final(state).loaded()
                &&& final(state).current_collection->Some_0@
                    == old(state).current_collection->Some_0@
                &&& final(state).current_scene_index as int == prev_scene_index(
                    old(state).current_scene_index as int,
                    old(state).scenes().len() as int,
                )
                &&& final(state).current_page_index == 0
                &&& final(state).current_scene->Some_0@ == final(state).scenes()[
                    final(state).current_scene_index as int
                ]
                &&& info.scene_index == final(state).current_scene_index
                &&& info.current_page == 0
                &&& info.total_pages == final(state).cur_pages().len()
                &&& info.scene_name@ == final(state).scenes()[
                    final(state).current_scene_index as int
                ].scene_name
            },
            Err(e) => {
                &&& !old(state).loaded()
                &&& e == ViewerError::NotLoaded
                &&& same_nav(old(state), final(state))
            },
        },
{
    let (new_index, scene) = match &state.current_collection {
        Some(c) => {
            let count = c.scene_count();
            let new_index = if state.current_scene_index == 0 {
                count - 1
            } else {
                state.current_scene_index - 1
            };
            let scene = match c.load_scene(new_index) {
                Ok(s) => s,
                Err(_) => {
                    proof {
                        assert(false);
                    }
                    return Err(ViewerError::NotLoaded);
                },
            };
            (new_index, scene)
        },
        None => {
            return Err(ViewerError::NotLoaded);
        },
    };
    state.current_scene = Some(scene);
    state.current_scene_index = new_index;
    state.current_page_index = 0;
    get_scene_info(state)
}

/// The resolution-tagged cache key of the high-resolution variant of a
/// path: the path with `@1920` appended, keeping high-resolution
/// payloads apart from the plain path keys of thumbnails.
pub open spec fn highres_key_spec(p: Seq<char>) -> Seq<char> {
    p + "@1920"@
}

/// Distinct paths get distinct resolution-tagged keys: the tag only
/// appends, so the key determines the path and each `(path, variant)`
/// pair owns exactly one cache slot.
pub proof fn lemma_highres_key_injective(p1: Seq<char>, p2: Seq<char>)
    requires
        highres_key_spec(p1) == highres_key_spec(p2),
    ensures
        p1 == p2,
{
    reveal_strlit("@1920");
    assert(highres_key_spec(p1).len() == p1.len() + 5);
    assert(highres_key_spec(p2).len() == p2.len() + 5);
    assert(p1 =~= highres_key_spec(p1).take(p1.len() as int));
    assert(p2 =~= highres_key_spec(p2).take(p2.len() as int));
}

/// The high-resolution cache key of a path.
fn highres_key(path: &str) -> (r: String)
    ensures
        r@ == highres_key_spec(path@),
{
    let mut s = path.to_owned();
    s.append("@1920");
    s
}

/// The scene index an image request resolves to: the one asked for, or
/// the current one.
pub open spec fn resolved_scene(state: &AppState, scene_index: Option<usize>) -> int {
    match scene_index {
        Some(s) => s as int,
        None => state.current_scene_index as int,
    }
}

/// Whether a request names a scene and page that exist.
pub open spec fn valid_target(state: &AppState, scene_index: Option<usize>, page_index: usize) -> bool {
    &&& resolved_scene(state, scene_index) < state.scenes().len()
    &&& (page_index as int) < state.scenes()[resolved_scene(state, scene_index)].pages.len()
}

/// The page path a request resolves to.
pub open spec fn target_path(state: &AppState, scene_index: Option<usize>, page_index: usize) -> Seq<char> {
    state.scenes()[resolved_scene(state, scene_index)].pages[page_index as int]
}

/// Get the image at a page with progressive loading: a cached
/// high-resolution payload is returned directly; otherwise a 640-pixel
/// preview is produced synchronously and a high-resolution upgrade job is
/// handed back for the caller to run in the background.  The thumbnail is
/// a parallel concern: served from the encoded cache by plain path key,
/// else loaded and encoded, and missing thumbnails degrade to none.
///
/// On success the resolved page becomes current (switching scene first if
/// one was asked for); every failure leaves the navigation state as it
/// was.
pub fn get_image(state: &mut AppState, scene_index: Option<usize>, page_index: usize) -> (r:
    Result<(ImageData, Option<UpgradeRequest>), ViewerError>)
    requires
        old(state).wf(),
    ensures
        final(state).wf(),
        final(state).scene_loop_enabled == old(state).scene_loop_enabled,
        (r matches Err(e) && e == ViewerError::NotLoaded) <==> !old(state).loaded(),
        (r matches Err(e) && e == ViewerError::OutOfBounds) <==> (old(state).loaded()
            && !valid_target(old(state), scene_index, page_index)),
        !old(state).loaded() ==> *final(state) == *old(state),
        old(state).loaded() && !valid_target(old(state), scene_index, page_index) ==> *final(state)
            == *old(state),
        old(state).loaded() ==> final(state).loaded() && final(state).current_collection->Some_0@
            == old(state).current_collection->Some_0@,
        final(state).cache.capacity() == old(state).cache.capacity(),
        final(state).encoded_cache.capacity() == old(state).encoded_cache.capacity(),
        r matches Err(e) ==> {
            &&& (e == ViewerError::NotLoaded || e == ViewerError::OutOfBounds || e
                == ViewerError::IoError || e == ViewerError::DecodeError || e
                == ViewerError::EncodeError)
            &&& same_nav(old(state), final(state))
            &&& final(state).encoded_cache.model() == old(state).encoded_cache.model()
        },
        old(state).loaded() && valid_target(old(state), scene_index, page_index) && has_key(
            old(state).encoded_cache.model(),
            highres_key_spec(target_path(old(state), scene_index, page_index)),
        ) ==> r is Ok,
        r matches Ok((data, up)) ==> {
            let target = resolved_scene(old(state), scene_index);
            let path = target_path(old(state), scene_index, page_index);
            let thumb = thumbnail_path_spec(path);
            &&& old(state).loaded() && valid_target(old(state), scene_index, page_index)
            &&& final(state).current_scene_index as int == target
            &&& final(state).current_page_index == page_index
            &&& final(state).current_scene->Some_0@ == old(state).scenes()[target]
            &&& data.page_index == page_index
            &&& data.scene_index as int == target
            &&& data.image_path@ == path
            &&& data.is_preview == !has_key(
                old(state).encoded_cache.model(),
                highres_key_spec(path),
            )
            &&& !data.is_preview ==> (data.main_image matches Some(m) && m@ == value_of(
                old(state).encoded_cache.model(),
                highres_key_spec(path),
            ) && up is None)
            &&& data.is_preview ==> (data.main_image is Some && is_jpeg_data_uri(
                data.main_image->Some_0@,
            ) && (up matches Some(u) && u.image_path@ == path && u.scene_index as int == target
                && u.page_index == page_index))
            &&& has_key(old(state).encoded_cache.model(), thumb)
                ==> (data.thumbnail_image matches Some(t) && t@ == value_of(
                old(state).encoded_cache.model(),
                thumb,
            ))
            &&& data.thumbnail_image matches Some(t) ==> (t@ == value_of(
                old(state).encoded_cache.model(),
                thumb,
            ) || is_jpeg_data_uri(t@))
            &&& !data.is_preview && has_key(old(state).encoded_cache.model(), thumb)
                ==> final(state).cache.model() == old(state).cache.model()
            &&& {
                let mid = if has_key(old(state).encoded_cache.model(), highres_key_spec(path)) {
                    lru_promote(old(state).encoded_cache.model(), highres_key_spec(path))
                } else {
                    old(state).encoded_cache.model()
                };
                final(state).encoded_cache.model() == (if has_key(
                    old(state).encoded_cache.model(),
                    thumb,
                ) {
                    lru_promote(mid, thumb)
                } else if data.thumbnail_image is Some {
                    lru_put(
                        mid,
                        old(state).encoded_cache.capacity(),
                        thumb,
                        data.thumbnail_image->Some_0@,
                    )
                } else {
                    mid
                })
            }
        },
{
    let target_scene: usize = match scene_index {
        Some(s) => s,
        None => state.current_scene_index,
    };

    // Resolve and validate the target before any mutation, so that a
    // failed request leaves the state exactly as it was.
    let (main_path, thumbnail_path): (String, String) = match &state.current_collection {
        Some(c) => {
            if target_scene >= c.scene_count() {
                return Err(ViewerError::OutOfBounds);
            }
            let sc = &c.scenes[target_scene];
            if page_index >= sc.page_count() {
                return Err(ViewerError::OutOfBounds);
            }
            let mp: String = match sc.get_page_image(page_index) {
                Some(s) => s.to_owned(),
                None => {
                    proof {
                        assert(false);
                    }
                    return Err(ViewerError::OutOfBounds);
                },
            };
            let tp = sc.get_thumbnail_path(mp.as_str());
            (mp, tp)
        },
        None => {
            return Err(ViewerError::NotLoaded);
        },
    };

    // Progressive loading: a cached high-resolution payload wins;
    // otherwise serve a fast preview and hand back an upgrade job.
    let key = highres_key(main_path.as_str());
    let is_preview: bool;
    let main_image: Option<String>;
    let mut upgrade: Option<UpgradeRequest> = None;
    let ghost enc0 = state.encoded_cache.model();
    match state.encoded_cache.get(key.as_str()) {
        Some(cached) => {
            proof {
                lemma_get_promotes_without_eviction(enc0, key@);
            }
            main_image = Some(cached);
            is_preview = false;
        },
        None => {
            let img = match load_image_cached_with_size(main_path.as_str(), &mut state.cache, 640) {
                Ok(img) => img,
                Err(e) => {
                    return Err(e);
                },
            };
            match image_to_base64_jpeg(&img, 75) {
                Ok(b64) => {
                    main_image = Some(b64);
                    is_preview = true;
                    upgrade = Some(
                        UpgradeRequest {
                            image_path: main_path.clone(),
                            scene_index: target_scene,
                            page_index,
                        },
                    );
                },
                Err(e) => {
                    return Err(e);
                },
            }
        },
    }

    // The thumbnail never participates in the preview split: cached by
    // plain path key, else loaded and encoded at quality 75; a missing
    // thumbnail degrades to none.
    let thumbnail_image: Option<String> = match state.encoded_cache.get(thumbnail_path.as_str()) {
        Some(cached) => Some(cached),
        None => {
            match load_image_cached(thumbnail_path.as_str(), &mut state.cache) {
                Ok(timg) => {
                    match image_to_base64_jpeg(&timg, 75) {
                        Ok(b64) => {
                            state.encoded_cache.insert(thumbnail_path.clone(), b64.clone());
                            Some(b64)
                        },
                        Err(_) => None,
                    }
                },
                Err(_) => None,
            }
        },
    };

    // Commit the navigation only now that the image is in hand.
    let needs_switch = match scene_index {
        Some(s) => s != state.current_scene_index,
        None => false,
    };
    if needs_switch {
        let scene = match &state.current_collection {
            Some(c) => {
                match c.load_scene(target_scene) {
                    Ok(s) => s,
                    Err(_) => {
                        proof {
                            assert(false);
                        }
                        return Err(ViewerError::OutOfBounds);
                    },
                }
            },
            None => {
                proof {
                    assert(false);
                }
                return Err(ViewerError::NotLoaded);
            },
        };
        state.current_scene = Some(scene);
        state.current_scene_index = target_scene;
    }
    state.current_page_index = page_index;

    Ok(
        (
            ImageData {
                main_image,
                thumbnail_image,
                page_index,
                scene_index: target_scene,
                image_path: main_path,
                is_preview,
            },
            upgrade,
        ),
    )
}

/// The position one page forward of the current one: with loop mode on,
/// the next page of the scene wrapping at the end; with loop mode off,
/// page 0 of the next scene once the last page is passed.
pub open spec fn next_page_target(state: &AppState) -> (int, int) {
    let page = state.current_page_index as int;
    let total = state.cur_pages().len() as int;
    if state.scene_loop_enabled {
        (state.current_scene_index as int, next_position(page, total))
    } else if page + 1 >= total {
        (next_scene_index(state.current_scene_index as int, state.scenes().len() as int), 0)
    } else {
        (state.current_scene_index as int, page + 1)
    }
}

/// The position one page back of the current one: with loop mode on, the
/// previous page of the scene wrapping at the front; with loop mode off,
/// the last page of the previous scene once page 0 is passed.
pub open spec fn prev_page_target(state: &AppState) -> (int, int) {
    let page = state.current_page_index as int;
    let total = state.cur_pages().len() as int;
    if state.scene_loop_enabled {
        (state.current_scene_index as int, prev_position(page, total))
    } else if page == 0 {
        let ps = prev_scene_index(state.current_scene_index as int, state.scenes().len() as int);
        (ps, state.scenes()[ps].pages.len() - 1)
    } else {
        (state.current_scene_index as int, page - 1)
    }
}

/// The page path at a scene and page of the loaded collection.
pub open spec fn scene_page_path(state: &AppState, scene: int, page: int) -> Seq<char> {
    state.scenes()[scene].pages[page]
}

/// Navigate to the next page and deliver its image, switching scene at
/// the boundary when loop mode is off.
pub fn next_page(state: &mut AppState) -> (r: Result<
    (ImageData, Option<UpgradeRequest>),
    ViewerError,
>)
    requires
        old(state).wf(),
    ensures
        final(state).wf(),
        final(state).scene_loop_enabled == old(state).scene_loop_enabled,
        (r matches Err(e) && e == ViewerError::NotLoaded) <==> !old(state).loaded(),
        !old(state).loaded() ==> *final(state) == *old(state),
        r matches Err(e) ==> {
            &&& (e == ViewerError::NotLoaded || e == ViewerError::IoError || e
                == ViewerError::DecodeError || e == ViewerError::EncodeError)
            &&& same_nav(old(state), final(state))
            &&& final(state).encoded_cache.model() == old(state).encoded_cache.model()
        },
        old(state).loaded() ==> {
            let (ts, tp) = next_page_target(old(state));
            &&& final(state).loaded()
            &&& final(state).current_collection->Some_0@ == old(state).current_collection->Some_0@
            &&& (has_key(
                old(state).encoded_cache.model(),
                highres_key_spec(scene_page_path(old(state), ts, tp)),
            ) ==> r is Ok)
            &&& (r matches Ok((data, up)) ==> {
                &&& final(state).current_scene_index as int == ts
                &&& final(state).current_page_index as int == tp
                &&& data.scene_index as int == ts
                &&& data.page_index as int == tp
                &&& data.image_path@ == scene_page_path(old(state), ts, tp)
                &&& data.is_preview == !has_key(
                    old(state).encoded_cache.model(),
                    highres_key_spec(scene_page_path(old(state), ts, tp)),
                )
                &&& (data.is_preview <==> up is Some)
            })
        },
{
    let (target_scene, target_page): (usize, usize) = match &state.current_scene {
        Some(scene) => {
            let total = scene.page_count();
            let current = state.current_page_index;
            if state.scene_loop_enabled {
                // loop within the scene
                (state.current_scene_index, (current + 1) % total)
            } else if current + 1 >= total {
                // at the last page: move to the next scene
                let count = match &state.current_collection {
                    Some(c) => c.scene_count(),
                    None => {
                        proof {
                            assert(false);
                        }
                        return Err(ViewerError::NotLoaded);
                    },
                };
                ((state.current_scene_index + 1) % count, 0)
            } else {
                (state.current_scene_index, current + 1)
            }
        },
        None => {
            return Err(ViewerError::NotLoaded);
        },
    };
    get_image(state, Some(target_scene), target_page)
}

/// Navigate to the previous page and deliver its image, switching to the
/// last page of the previous scene at the boundary when loop mode is
/// off.
pub fn prev_page(state: &mut AppState) -> (r: Result<
    (ImageData, Option<UpgradeRequest>),
    ViewerError,
>)
    requires
        old(state).wf(),
    ensures
        final(state).wf(),
        final(state).scene_loop_enabled == old(state).scene_loop_enabled,
        (r matches Err(e) && e == ViewerError::NotLoaded) <==> !old(state).loaded(),
        !old(state).loaded() ==> *final(state) == *old(state),
        r matches Err(e) ==> {
            &&& (e == ViewerError::NotLoaded || e == ViewerError::IoError || e
                == ViewerError::DecodeError || e == ViewerError::EncodeError)
            &&& same_nav(old(state), final(state))
            &&& final(state).encoded_cache.model() == old(state).encoded_cache.model()
        },
        old(state).loaded() ==> {
            let (ts, tp) = prev_page_target(old(state));
            &&& final(state).loaded()
            &&& final(state).current_collection->Some_0@ == old(state).current_collection->Some_0@
            &&& (has_key(
                old(state).encoded_cache.model(),
                highres_key_spec(scene_page_path(old(state), ts, tp)),
            ) ==> r is Ok)
            &&& (r matches Ok((data, up)) ==> {
                &&& final(state).current_scene_index as int == ts
                &&& final(state).current_page_index as int == tp
                &&& data.scene_index as int == ts
                &&& data.page_index as int == tp
                &&& data.image_path@ == scene_page_path(old(state), ts, tp)
                &&& data.is_preview == !has_key(
                    old(state).encoded_cache.model(),
                    highres_key_spec(scene_page_path(old(state), ts, tp)),
                )
                &&& (data.is_preview <==> up is Some)
            })
        },
{
    let (target_scene, target_page): (usize, usize) = match &state.current_scene {
        Some(scene) => {
            let total = scene.page_count();
            let current = state.current_page_index;
            if state.scene_loop_enabled {
                // loop within the scene
                let tp = if current == 0 {
                    total - 1
                } else {
                    current - 1
                };
                (state.current_scene_index, tp)
            } else if current == 0 {
                // at the first page: move to the last page of the
                // previous scene
                match &state.current_collection {
                    Some(c) => {
                        let count = c.scene_count();
                        let ps = if state.current_scene_index == 0 {
                            count - 1
                        } else {
                            state.current_scene_index - 1
                        };
                        proof {
                            assert(c@.scenes[ps as int] == c.scenes@[ps as int]@);
                            assert(c@.scenes[ps as int].pages.len() >= 1);
                        }
                        let last = c.scenes[ps].page_count() - 1;
                        (ps, last)
                    },
                    None => {
                        proof {
                            assert(false);
                        }
                        return Err(ViewerError::NotLoaded);
                    },
                }
            } else {
                (state.current_scene_index, current - 1)
            }
        },
        None => {
            return Err(ViewerError::NotLoaded);
        },
    };
    get_image(state, Some(target_scene), target_page)
}

/// Run one high-resolution upgrade job: decode the image capped at 1920
/// pixels, encode it at quality 85, store it under the resolution-tagged
/// key, and hand back the notification to publish.  A failure is
/// terminal for this job alone: nothing is stored, nothing is published,
/// and the encoded cache keeps what it had.
pub fn perform_upgrade(state: &mut AppState, path: &str, scene_index: usize, page_index: usize) -> (r:
    Option<ImageUpgradeEvent>)
    requires
        old(state).wf(),
    ensures
        final(state).wf(),
        same_nav(old(state), final(state)),
        match r {
            Some(ev) => {
                &&& ev.page_index == page_index
                &&& ev.scene_index == scene_index
                &&& ev.image_path@ == path@
                &&& is_jpeg_data_uri(ev.main_image@)
                &&& final(state).encoded_cache.model() == lru_put(
                    old(state).encoded_cache.model(),
                    old(state).encoded_cache.capacity(),
                    highres_key_spec(path@),
                    ev.main_image@,
                )
                &&& has_key(final(state).encoded_cache.model(), highres_key_spec(path@))
                &&& value_of(final(state).encoded_cache.model(), highres_key_spec(path@))
                    == ev.main_image@
            },
            None => final(state).encoded_cache.model() == old(state).encoded_cache.model(),
        },
{
    let img = match load_image_cached(path, &mut state.cache) {
        Ok(img) => img,
        Err(_) => {
            return None;
        },
    };
    let b64 = match image_to_base64_jpeg(&img, 85) {
        Ok(b) => b,
        Err(_) => {
            return None;
        },
    };
    let key = highres_key(path);
    proof {
        lemma_put(state.encoded_cache.model(), state.encoded_cache.capacity(), key@, b64@);
    }
    state.encoded_cache.insert(key, b64.clone());
    Some(ImageUpgradeEvent { main_image: b64, page_index, scene_index, image_path: path.to_owned() })
}

/// The warm-ahead plan from a page: for each step, the main image of the
/// step's page at quality 85, then its thumbnail at quality 75, wrapping
/// within the scene.
pub open spec fn prefetch_plan(pages: Seq<Seq<char>>, page: int, count: int) -> Seq<(Seq<char>, u8)>
    decreases count,
{
    if count <= 0 {
        Seq::<(Seq<char>, u8)>::empty()
    } else {
        let tgt = (page + count) % (pages.len() as int);
        prefetch_plan(pages, page, count - 1) + seq![
            (pages[tgt], 85u8),
            (thumbnail_path_spec(pages[tgt]), 75u8),
        ]
    }
}

/// The paths and qualities of a prefetch list.
pub open spec fn plan_views(v: Seq<(String, u8)>) -> Seq<(Seq<char>, u8)> {
    v.map_values(|e: (String, u8)| (e.0@, e.1))
}

/// The pages to warm after a successful navigation: the next `count`
/// pages of the scene, each as its main image and its thumbnail.  The
/// caller runs one independent background job per entry.
pub fn plan_prefetch(scene: &Scene, page_index: usize, count: usize) -> (r: Vec<(String, u8)>)
    requires
        scene@.pages.len() >= 1,
        page_index + count <= usize::MAX,
    ensures
        plan_views(r@) == prefetch_plan(scene@.pages, page_index as int, count as int),
{
    let mut out: Vec<(String, u8)> = Vec::new();
    let total = scene.page_count();
    assert(plan_views(out@) =~= prefetch_plan(scene@.pages, page_index as int, 0));
    let mut i: usize = 0;
    while i < count
        invariant
            i <= count,
            page_index + count <= usize::MAX,
            total == scene@.pages.len(),
            total >= 1,
            plan_views(out@) == prefetch_plan(scene@.pages, page_index as int, i as int),
        decreases count - i,
    {
        let step = i + 1;
        let tgt = (page_index + step) % total;
        let mp: String = match scene.get_page_image(tgt) {
            Some(s) => s.to_owned(),
            None => {
                proof {
                    assert(false);
                }
                return out;
            },
        };
        let tp = scene.get_thumbnail_path(mp.as_str());
        out.push((mp, 85));
        out.push((tp, 75));
        proof {
            assert(plan_views(out@) =~= prefetch_plan(
                scene@.pages,
                page_index as int,
                step as int,
            ));
        }
        i = step;
    }
    out
}

/// Warm one path at the given quality: skipped when the encoded cache
/// already holds it, else loaded (capped at 1920 pixels), encoded and
/// stored.  Returns whether the path is warm afterwards; a failure
/// leaves the encoded cache as it was.
pub fn prefetch_one(state: &mut AppState, path: &str, quality: u8) -> (r: bool)
    requires
        old(state).wf(),
    ensures
        final(state).wf(),
        same_nav(old(state), final(state)),
        has_key(old(state).encoded_cache.model(), path@) ==> r && final(state).encoded_cache.model()
            == lru_promote(old(state).encoded_cache.model(), path@),
        !has_key(old(state).encoded_cache.model(), path@) ==> {
            &&& (r ==> exists|payload: Seq<char>|
                is_jpeg_data_uri(payload) && final(state).encoded_cache.model() == lru_put(
                    old(state).encoded_cache.model(),
                    old(state).encoded_cache.capacity(),
                    path@,
                    payload,
                ))
            &&& (!r ==> final(state).encoded_cache.model() == old(state).encoded_cache.model())
        },
{
    let ghost enc0 = state.encoded_cache.model();
    let ghost cap0 = state.encoded_cache.capacity();
    if state.encoded_cache.get(path).is_some() {
        return true;
    }
    let img = match load_image_cached(path, &mut state.cache) {
        Ok(i) => i,
        Err(_) => {
            return false;
        },
    };
    let b64 = match image_to_base64_jpeg(&img, quality) {
        Ok(b) => b,
        Err(_) => {
            return false;
        },
    };
    let ghost payload = b64@;
    state.encoded_cache.insert(path.to_owned(), b64);
    proof {
        assert(state.encoded_cache.model() == lru_put(enc0, cap0, path@, payload));
        assert(is_jpeg_data_uri(payload));
    }
    true
}

/// Get the scene loop mode.
pub fn get_scene_loop_enabled(state: &AppState) -> (r: bool)
    ensures
        r == state.scene_loop_enabled,
{
    state.scene_loop_enabled
}

/// Set the scene loop mode; nothing else changes.
pub fn set_scene_loop_enabled(state: &mut AppState, enabled: bool)
    requires
        old(state).wf(),
    ensures
        final(state).wf(),
        final(state).scene_loop_enabled == enabled,
        final(state).current_scene_index == old(state).current_scene_index,
        final(state).current_page_index == old(state).current_page_index,
        final(state).current_scene == old(state).current_scene,
        final(state).current_collection == old(state).current_collection,
        final(state).cache.model() == old(state).cache.model(),
        final(state).encoded_cache.model() == old(state).encoded_cache.model(),
{
    state.scene_loop_enabled = enabled;
}

} // verus!
