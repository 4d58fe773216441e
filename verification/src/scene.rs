//! Scenes and scene collections.
//!
//! A scene is an ordered sequence of page image paths plus its metadata;
//! a collection is an ordered sequence of scenes discovered under one
//! base directory.  Discovery and descriptor parsing are the business of
//! an outside collaborator: the collection is handed in already parsed
//! and is validated and then immutable here.

use vstd::prelude::*;

use crate::base64::chars_to_string;
use crate::errors::ViewerError;

verus! {

/// Pixel dimensions named by a scene descriptor.
#[derive(Debug, Clone, Copy)]
pub struct ImageSize {
    pub width: u32,
    pub height: u32,
}

/// The metadata block of a scene descriptor.
#[derive(Debug)]
pub struct SceneMetadata {
    pub version: String,
    pub scene_name: String,
    pub image_size: ImageSize,
    pub thumbnail_size: ImageSize,
}

/// One page of a scene: the path of its image.
#[derive(Debug)]
pub struct Page {
    pub image: String,
}

/// An ordered sequence of page images sharing one descriptor.
#[derive(Debug)]
pub struct Scene {
    pub metadata: SceneMetadata,
    pub pages: Vec<Page>,
}

/// The mathematical content of a [`Scene`].
pub struct SceneView {
    pub version: Seq<char>,
    pub scene_name: Seq<char>,
    pub image_size: (u32, u32),
    pub thumbnail_size: (u32, u32),
    pub pages: Seq<Seq<char>>,
}

impl View for Scene {
    type V = SceneView;

    open spec fn view(&self) -> SceneView {
        SceneView {
            version: self.metadata.version@,
            scene_name: self.metadata.scene_name@,
            image_size: (self.metadata.image_size.width, self.metadata.image_size.height),
            thumbnail_size: (
                self.metadata.thumbnail_size.width,
                self.metadata.thumbnail_size.height,
            ),
            pages: self.pages@.map_values(|p: Page| p.image@),
        }
    }
}

impl Clone for Page {
    /// A deep copy with the same path.
    fn clone(&self) -> (r: Self)
        ensures
            r.image@ == self.image@,
    {
        Page { image: self.image.clone() }
    }
}

impl Clone for SceneMetadata {
    /// A deep copy with the same fields.
    fn clone(&self) -> (r: Self)
        ensures
            r.version@ == self.version@,
            r.scene_name@ == self.scene_name@,
            r.image_size == self.image_size,
            r.thumbnail_size == self.thumbnail_size,
    {
        SceneMetadata {
            version: self.version.clone(),
            scene_name: self.scene_name.clone(),
            image_size: self.image_size,
            thumbnail_size: self.thumbnail_size,
        }
    }
}

impl Clone for Scene {
    /// A deep copy with the same content.
    fn clone(&self) -> (r: Self)
        ensures
            r@ == self@,
    {
        let mut pages: Vec<Page> = Vec::new();
        let mut i: usize = 0;
        while i < self.pages.len()
            invariant
                i <= self.pages.len(),
                pages@.len() == i,
                forall|j: int| 0 <= j < i ==> #[trigger] pages@[j].image@ == self.pages@[j].image@,
            decreases self.pages.len() - i,
        {
            pages.push(self.pages[i].clone());
            i += 1;
        }
        proof {
            assert(pages@.map_values(|p: Page| p.image@) =~= self.pages@.map_values(
                |p: Page| p.image@,
            ));
        }
        Scene { metadata: self.metadata.clone(), pages }
    }
}

/// The characters `thumbnail/`, the sibling directory of every thumbnail.
pub open spec fn thumbnail_prefix() -> Seq<char> {
    seq!['t', 'h', 'u', 'm', 'b', 'n', 'a', 'i', 'l', '/']
}

/// The index of the last `/` of `p`, or -1 when `p` has none.
pub open spec fn last_slash_index(p: Seq<char>) -> int
    decreases p.len(),
{
    if p.len() == 0 {
        -1
    } else if p[p.len() - 1] == '/' {
        p.len() - 1
    } else {
        last_slash_index(p.drop_last())
    }
}

/// Where the thumbnail of a main image lives: same filename, sibling
/// `thumbnail` directory.  An empty path stays empty.
///
/// The rule is purely textual on the last slash: a path without one is
/// treated as a bare filename (`thumbnail/` is prefixed), and a
/// degenerate path that ends in a slash gets `thumbnail/` appended after
/// it.  Page paths name image files, so only the first two shapes occur.
pub open spec fn thumbnail_path_spec(p: Seq<char>) -> Seq<char> {
    if p.len() == 0 {
        p
    } else {
        let j = last_slash_index(p);
        if j == -1 {
            thumbnail_prefix() + p
        } else {
            p.take(j + 1) + thumbnail_prefix() + p.skip(j + 1)
        }
    }
}

/// `last_slash_index` names the last slash exactly.
proof fn lemma_last_slash_index(p: Seq<char>)
    ensures
        -1 <= last_slash_index(p) < p.len(),
        last_slash_index(p) == -1 ==> forall|i: int| 0 <= i < p.len() ==> p[i] != '/',
        last_slash_index(p) >= 0 ==> {
            &&& last_slash_index(p) < p.len()
            &&& p[last_slash_index(p)] == '/'
            &&& forall|i: int| last_slash_index(p) < i < p.len() ==> p[i] != '/'
        },
    decreases p.len(),
{
    if p.len() == 0 {
    } else if p[p.len() - 1] == '/' {
    } else {
        lemma_last_slash_index(p.drop_last());
        let q = p.drop_last();
        assert forall|i: int| 0 <= i < q.len() implies q[i] == p[i] by {}
        if last_slash_index(p) == -1 {
            assert forall|i: int| 0 <= i < p.len() implies p[i] != '/' by {
                if i < q.len() {
                    assert(q[i] != '/');
                }
            }
        }
    }
}

/// A position that is a slash with none after it is the last slash.
proof fn lemma_last_slash_at(p: Seq<char>, l: int)
    requires
        0 <= l < p.len(),
        p[l] == '/',
        forall|m: int| l < m < p.len() ==> p[m] != '/',
    ensures
        last_slash_index(p) == l,
    decreases p.len(),
{
    if l == p.len() - 1 {
    } else {
        assert(p[p.len() - 1] != '/');
        let q = p.drop_last();
        assert forall|m: int| l < m < q.len() implies q[m] != '/' by {}
        lemma_last_slash_at(q, l);
    }
}

impl Scene {
    /// A scene is navigable only when it has at least one page.
    pub open spec fn wf(&self) -> bool {
        self@.pages.len() >= 1
    }

    /// Get total number of pages in the scene.
    pub fn page_count(&self) -> (r: usize)
        ensures
            r == self@.pages.len(),
    {
        self.pages.len()
    }

    /// Get image path for a specific page index.
    pub fn get_page_image(&self, index: usize) -> (r: Option<&str>)
        ensures
            match r {
                Some(s) => index < self@.pages.len() && s@ == self@.pages[index as int],
                None => index >= self@.pages.len(),
            },
    {
        if index < self.pages.len() {
            Some(self.pages[index].image.as_str())
        } else {
            None
        }
    }

    /// Get thumbnail path for a specific page image: the same filename in
    /// a sibling `thumbnail` directory.
    pub fn get_thumbnail_path(&self, main_path: &str) -> (r: String)
        ensures
            r@ == thumbnail_path_spec(main_path@),
    {
        let ghost p = main_path@;
        let n = main_path.unicode_len();
        if n == 0 {
            let r = String::new();
            assert(r@ =~= thumbnail_path_spec(p));
            return r;
        }

        let mut found = false;
        let mut last: usize = 0;
        let mut i: usize = 0;
        while i < n
            invariant
                p == main_path@,
                n == p.len(),
                i <= n,
                !found ==> forall|m: int| 0 <= m < i ==> p[m] != '/',
                found ==> last < i && p[last as int] == '/' && (forall|m: int|
                    last < m < i ==> p[m] != '/'),
            decreases n - i,
        {
            let c = main_path.get_char(i);
            if c == '/' {
                found = true;
                last = i;
            }
            i += 1;
        }

        let mut out: Vec<char> = Vec::new();
        let start: usize;
        let ghost head: Seq<char>;
        if found {
            proof {
                lemma_last_slash_at(p, last as int);
                head = p.take(last + 1);
            }
            let mut j: usize = 0;
            while j <= last
                invariant
                    p == main_path@,
                    n == p.len(),
                    last < n,
                    j <= last + 1,
                    out@ =~= p.take(j as int),
                decreases last + 1 - j,
            {
                out.push(main_path.get_char(j));
                j += 1;
            }
            start = last + 1;
        } else {
            proof {
                lemma_last_slash_index(p);
                if last_slash_index(p) >= 0 {
                    assert(p[last_slash_index(p)] == '/');
                    assert(false);
                }
                head = Seq::<char>::empty();
            }
            start = 0;
        }
        assert(out@ =~= head);

        out.push('t');
        out.push('h');
        out.push('u');
        out.push('m');
        out.push('b');
        out.push('n');
        out.push('a');
        out.push('i');
        out.push('l');
        out.push('/');
        assert(out@ =~= head + thumbnail_prefix());

        let mut k: usize = start;
        while k < n
            invariant
                p == main_path@,
                n == p.len(),
                start <= k <= n,
                out@ =~= head + thumbnail_prefix() + p.subrange(start as int, k as int),
            decreases n - k,
        {
            out.push(main_path.get_char(k));
            k += 1;
        }

        assert(out@ =~= thumbnail_path_spec(p)) by {
            if found {
                assert(p.subrange(start as int, n as int) =~= p.skip(last + 1));
            } else {
                assert(p.subrange(0, n as int) =~= p);
            }
        }
        chars_to_string(out)
    }
}

/// The mathematical content of a [`SceneCollection`].
pub struct SceneCollectionView {
    pub base_path: Seq<char>,
    pub scene_files: Seq<Seq<char>>,
    pub scenes: Seq<SceneView>,
}

/// An ordered collection of scenes under one base directory, immutable
/// once built.
#[derive(Debug)]
pub struct SceneCollection {
    pub base_path: String,
    pub scene_files: Vec<String>,
    pub scenes: Vec<Scene>,
}

impl View for SceneCollection {
    type V = SceneCollectionView;

    open spec fn view(&self) -> SceneCollectionView {
        SceneCollectionView {
            base_path: self.base_path@,
            scene_files: self.scene_files@.map_values(|f: String| f@),
            scenes: self.scenes@.map_values(|s: Scene| s@),
        }
    }
}

impl SceneCollection {
    /// One descriptor location per scene, and no scene without pages:
    /// navigation may divide by a scene's page count.
    pub open spec fn wf(&self) -> bool {
        &&& self@.scene_files.len() == self@.scenes.len()
        &&& forall|i: int| 0 <= i < self@.scenes.len() ==> self@.scenes[i].pages.len() >= 1
    }

    /// Create a collection from discovered descriptor locations and the
    /// scenes parsed from them, in the same order.  A collection whose
    /// lists disagree, or with a scene that has no pages, is rejected.
    pub fn new(base_path: String, scene_files: Vec<String>, scenes: Vec<Scene>) -> (r: Result<
        SceneCollection,
        ViewerError,
    >)
        ensures
            match r {
                Ok(c) => {
                    &&& c.wf()
                    &&& c@.base_path == base_path@
                    &&& c@.scene_files == scene_files@.map_values(|f: String| f@)
                    &&& c@.scenes == scenes@.map_values(|s: Scene| s@)
                },
                Err(e) => {
                    &&& e == ViewerError::CollectionError
                    &&& (scene_files@.len() != scenes@.len() || exists|i: int|
                        0 <= i < scenes@.len() && #[trigger] scenes@[i]@.pages.len() == 0)
                },
            },
    {
        if scene_files.len() != scenes.len() {
            return Err(ViewerError::CollectionError);
        }
        let mut i: usize = 0;
        while i < scenes.len()
            invariant
                i <= scenes.len(),
                forall|j: int| 0 <= j < i ==> #[trigger] scenes@[j]@.pages.len() >= 1,
            decreases scenes.len() - i,
        {
            if scenes[i].pages.len() == 0 {
                assert(scenes@[i as int]@.pages.len() == 0);
                return Err(ViewerError::CollectionError);
            }
            i += 1;
        }
        Ok(SceneCollection { base_path, scene_files, scenes })
    }

    /// Get total number of scenes.
    pub fn scene_count(&self) -> (r: usize)
        ensures
            r == self@.scenes.len(),
    {
        self.scenes.len()
    }

    /// Load a specific scene by index.
    pub fn load_scene(&self, index: usize) -> (r: Result<Scene, ViewerError>)
        ensures
            match r {
                Ok(s) => index < self@.scenes.len() && s@ == self@.scenes[index as int],
                Err(e) => index >= self@.scenes.len() && e == ViewerError::OutOfBounds,
            },
    {
        if index < self.scenes.len() {
            Ok(self.scenes[index].clone())
        } else {
            Err(ViewerError::OutOfBounds)
        }
    }
}

} // verus!
