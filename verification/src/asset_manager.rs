//! Assets that the engine loads or creates at run time: the textures it
//! holds, and which image file each loaded texture came from, so that a
//! file is loaded once however often it is asked for.
use vstd::prelude::*;

pub mod texture;

use crate::event_manager::str_eq;
use texture::{Texture, TextureLoadType};

verus! {

/// Identifies a texture held by the asset manager: its position among
/// the textures, in the order they were added.
#[derive(Clone, Copy, Debug, PartialEq, Eq, Hash, Structural)]
pub struct TextureId(pub u32);

impl TextureId {
    /// The plain white texture that the asset manager creates first.
    pub fn white() -> (res: TextureId)
        ensures
            res == TextureId(0),
    {
        TextureId(0)
    }
}

/// The textures of the engine, and the image file behind each texture
/// loaded from one.
pub struct AssetManager {
    textures: Vec<Texture>,
    path_to_texture: Vec<(String, TextureId)>,
}

impl AssetManager {
    /// The textures, by id.
    pub closed spec fn textures(&self) -> Seq<Texture> {
        self.textures@
    }

    /// The texture that each image file was loaded into.
    pub closed spec fn paths(&self) -> Map<Seq<char>, TextureId> {
        Map::new(
            |p: Seq<char>| exists|i: int| 0 <= i < self.path_to_texture@.len() && (#[trigger] self.path_to_texture@[i]).0@ == p,
            |p: Seq<char>| {
                let i = choose|i: int| 0 <= i < self.path_to_texture@.len() && (#[trigger] self.path_to_texture@[i]).0@ == p;
                self.path_to_texture@[i].1
            },
        )
    }

    /// No file is recorded twice, and every recorded file names an existing
    /// texture that was decoded from it.
    pub closed spec fn wf(&self) -> bool {
        &&& forall|i: int, j: int|
            0 <= i < j < self.path_to_texture@.len() ==> (#[trigger] self.path_to_texture@[i]).0@
                != (#[trigger] self.path_to_texture@[j]).0@
        &&& forall|i: int|
            0 <= i < self.path_to_texture@.len() ==> (#[trigger] self.path_to_texture@[i]).1.0
                < self.textures@.len()
        &&& forall|i: int|
            0 <= i < self.path_to_texture@.len() ==> Self::loaded_from(
                self.textures@[(#[trigger] self.path_to_texture@[i]).1.0 as int],
                self.path_to_texture@[i].0@,
            )
    }

    /// `t` was decoded from the image file at `path`.
    pub open spec fn loaded_from(t: Texture, path: Seq<char>) -> bool {
        t.spec_load_type() matches TextureLoadType::Image(p) && p@ == path
    }

    /// No textures and no files.
    pub fn new() -> (res: Self)
        ensures
            res.wf(),
            res.textures() == Seq::<Texture>::empty(),
            res.paths() == Map::<Seq<char>, TextureId>::empty(),
    {
        let res = AssetManager { textures: Vec::new(), path_to_texture: Vec::new() };
        assert(res.paths() =~= Map::<Seq<char>, TextureId>::empty());
        res
    }

    /// Number of textures.
    pub fn len(&self) -> (res: usize)
        ensures
            res == self.textures().len(),
    {
        self.textures.len()
    }

    /// The texture `id`, which must exist.
    pub fn texture(&self, id: TextureId) -> (res: &Texture)
        requires
            id.0 < self.textures().len(),
        ensures
            *res == self.textures()[id.0 as int],
    {
        &self.textures[id.0 as usize]
    }

    /// The texture that the image file at `path` was loaded into, if it
    /// was.
    pub fn cached(&self, path: &str) -> (res: Option<TextureId>)
        requires
            self.wf(),
        ensures
            res == (if self.paths().contains_key(path@) {
                Some(self.paths()[path@])
            } else {
                None
            }),
    {
        let mut i: usize = 0;
        while i < self.path_to_texture.len()
            invariant
                self.wf(),
                i <= self.path_to_texture@.len(),
                forall|j: int| 0 <= j < i ==> (#[trigger] self.path_to_texture@[j]).0@ != path@,
            decreases self.path_to_texture@.len() - i,
        {
            if str_eq(self.path_to_texture[i].0.as_str(), path) {
                let ghost m = self.paths();
                assert(m.contains_key(path@));
                let ghost k = choose|k: int|
                    0 <= k < self.path_to_texture@.len() && (#[trigger] self.path_to_texture@[k]).0@ == path@;
                assert(k == i as int);
                return Some(self.path_to_texture[i].1);
            }
            i = i + 1;
        }
        assert(!self.paths().contains_key(path@));
        None
    }

    /// Adds `texture` under the next id.
    pub fn push(&mut self, texture: Texture) -> (id: TextureId)
        requires
            old(self).wf(),
            old(self).textures().len() < u32::MAX,
        ensures
            final(self).wf(),
            id.0 == old(self).textures().len(),
            final(self).textures() == old(self).textures().push(texture),
            final(self).paths() == old(self).paths(),
    {
        self.push_texture(texture)
    }

    fn push_texture(&mut self, texture: Texture) -> (id: TextureId)
        requires
            old(self).wf(),
            old(self).textures().len() < u32::MAX,
        ensures
            final(self).wf(),
            id.0 == old(self).textures().len(),
            final(self).textures() == old(self).textures().push(texture),
            final(self).paths() == old(self).paths(),
            final(self).path_to_texture@ == old(self).path_to_texture@,
    {
        let id = TextureId(self.textures.len() as u32);
        self.textures.push(texture);
        assert forall|i: int|
            0 <= i < self.path_to_texture@.len() implies Self::loaded_from(
            self.textures@[(#[trigger] self.path_to_texture@[i]).1.0 as int],
            self.path_to_texture@[i].0@,
        ) by {
            assert(self.textures@[self.path_to_texture@[i].1.0 as int] == old(self).textures@[self.path_to_texture@[
                i].1.0 as int]);
        }
        assert(self.paths() =~= old(self).paths());
        id
    }

    /// Adds the texture that the back end holds under `image`, decoded from
    /// the image file at `path`, and records the file, so that looking the
    /// file up finds this texture from now on.
    pub fn add_image(&mut self, image: u32, path: &str) -> (id: TextureId)
        requires
            old(self).wf(),
            old(self).textures().len() < u32::MAX,
        ensures
            final(self).wf(),
            id.0 == old(self).textures().len(),
            final(self).textures().len() == old(self).textures().len() + 1,
            forall|i: int|
                0 <= i < old(self).textures().len() ==> #[trigger] final(self).textures()[i]
                    == old(self).textures()[i],
            final(self).textures()[id.0 as int].spec_image() == image,
            Self::loaded_from(final(self).textures()[id.0 as int], path@),
            final(self).paths() == old(self).paths().insert(path@, id),
    {
        let id = self.push_texture(Texture::from_image_id(image));
        self.record_image(id, path);
        id
    }

    /// The texture of the image file at `path`.  A file loaded before gives
    /// the texture made from it then, and nothing changes.  Otherwise
    /// `load` opens and decodes the file and creates its image on the
    /// graphics back end: where it fails (`None`) nothing changes; where it
    /// returns the image, that image is added as a new texture under the
    /// next id, recorded as decoded from `path`.
    pub fn from_image<F: FnOnce(&str) -> Option<u32>>(&mut self, path: &str, load: F) -> (res: Option<
        TextureId,
    >)
        requires
            old(self).wf(),
            !old(self).paths().contains_key(path@) ==> old(self).textures().len() < u32::MAX
                && load.requires((path,)),
        ensures
            final(self).wf(),
            old(self).paths().contains_key(path@) ==> res == Some(old(self).paths()[path@])
                && final(self).textures() == old(self).textures() && final(self).paths() == old(
                self,
            ).paths(),
            !old(self).paths().contains_key(path@) && res is None ==> load.ensures((path,), None)
                && final(self).textures() == old(self).textures() && final(self).paths() == old(
                self,
            ).paths(),
            !old(self).paths().contains_key(path@) && res is Some ==> {
                let id = res->0;
                &&& id.0 == old(self).textures().len()
                &&& final(self).textures().len() == old(self).textures().len() + 1
                &&& forall|i: int|
                    0 <= i < old(self).textures().len() ==> #[trigger] final(self).textures()[i]
                        == old(self).textures()[i]
                &&& load.ensures((path,), Some(final(self).textures()[id.0 as int].spec_image()))
                &&& Self::loaded_from(final(self).textures()[id.0 as int], path@)
                &&& final(self).paths() == old(self).paths().insert(path@, id)
            },
            res matches Some(id) ==> final(self).paths().contains_key(path@) && final(self).paths()[path@]
                == id,
    {
        if let Some(id) = self.cached(path) {
            return Some(id);
        }
        match load(path) {
            None => None,
            Some(image) => Some(self.add_image(image, path)),
        }
    }

    /// Records that texture `id`, which no other file is recorded for, was
    /// loaded from the image file at `path`.
    fn record_image(&mut self, id: TextureId, path: &str)
        requires
            old(self).wf(),
            id.0 < old(self).textures().len(),
            forall|i: int|
                0 <= i < old(self).path_to_texture@.len() && (#[trigger] old(self).path_to_texture@[i]).1 == id
                    ==> old(self).path_to_texture@[i].0@ == path@,
        ensures
            final(self).wf(),
            final(self).paths() == old(self).paths().insert(path@, id),
            final(self).textures().len() == old(self).textures().len(),
            forall|i: int|
                0 <= i < old(self).textures().len() && i != id.0 ==> #[trigger] final(self).textures()[i]
                    == old(self).textures()[i],
            final(self).textures()[id.0 as int].spec_image() == old(self).textures()[id.0 as int].spec_image(),
            final(self).textures()[id.0 as int].spec_load_type() matches TextureLoadType::Image(s) && s@ == path@,
    {
        let mut texture = self.textures.remove(id.0 as usize);
        texture.set_load_type(TextureLoadType::Image(String::from_str(path)));
        self.textures.insert(id.0 as usize, texture);
        assert(self.textures@ =~= old(self).textures@.update(id.0 as int, self.textures@[id.0 as int]));
        let ghost new_textures = self.textures@;
        let ghost old_paths = self.paths();
        let mut i: usize = 0;
        while i < self.path_to_texture.len()
            invariant
                self.path_to_texture@ == old(self).path_to_texture@,
                self.textures@ == new_textures,
                new_textures == old(self).textures@.update(id.0 as int, new_textures[id.0 as int]),
                id.0 < new_textures.len(),
                id.0 < old(self).textures@.len(),
                new_textures[id.0 as int].spec_image() == old(self).textures@[id.0 as int].spec_image(),
                new_textures[id.0 as int].spec_load_type() matches TextureLoadType::Image(s) && s@ == path@,
                old(self).wf(),
                forall|j: int|
                    0 <= j < old(self).path_to_texture@.len() && (#[trigger] old(self).path_to_texture@[j]).1
                        == id ==> old(self).path_to_texture@[j].0@ == path@,
                old_paths == old(self).paths(),
                i <= self.path_to_texture@.len(),
                forall|j: int| 0 <= j < i ==> (#[trigger] self.path_to_texture@[j]).0@ != path@,
            decreases self.path_to_texture@.len() - i,
        {
            if str_eq(self.path_to_texture[i].0.as_str(), path) {
                let entry = (String::from_str(path), id);
                self.path_to_texture.set(i, entry);
                proof {
                    assert forall|j: int| 0 <= j < self.path_to_texture@.len() implies (#[trigger] self.path_to_texture@[j]).1.0 < self.textures@.len() by {
                        if j != i {
                            assert(self.path_to_texture@[j] == old(self).path_to_texture@[j]);
                        }
                    }
                    assert forall|a: int, b: int|
                        0 <= a < b < self.path_to_texture@.len() implies (#[trigger] self.path_to_texture@[a]).0@
                            != (#[trigger] self.path_to_texture@[b]).0@ by {
                        assert(old(self).path_to_texture@[a].0@ != old(self).path_to_texture@[b].0@);
                        if a == i {
                            assert(self.path_to_texture@[a].0@ == old(self).path_to_texture@[a].0@);
                        }
                        if b == i {
                            assert(self.path_to_texture@[b].0@ == old(self).path_to_texture@[b].0@);
                        }
                    }
                    assert(self.paths() =~= old_paths.insert(path@, id)) by {
                        assert forall|p: Seq<char>| #[trigger] self.paths().contains_key(p) == old_paths.insert(path@, id).contains_key(p) by {
                            if old_paths.contains_key(p) {
                                let k = choose|k: int| 0 <= k < old(self).path_to_texture@.len() && (#[trigger] old(self).path_to_texture@[k]).0@ == p;
                                assert(self.path_to_texture@[k].0@ == p);
                            }
                            if self.paths().contains_key(p) {
                                let k = choose|k: int| 0 <= k < self.path_to_texture@.len() && (#[trigger] self.path_to_texture@[k]).0@ == p;
                                assert(old(self).path_to_texture@[k].0@ == p);
                            }
                        }
                        assert forall|p: Seq<char>| #[trigger] self.paths().contains_key(p) implies self.paths()[p] == old_paths.insert(path@, id)[p] by {
                            let k = choose|k: int| 0 <= k < self.path_to_texture@.len() && (#[trigger] self.path_to_texture@[k]).0@ == p;
                            assert(old(self).path_to_texture@[k].0@ == p);
                            if p != path@ {
                                let k2 = choose|k2: int| 0 <= k2 < old(self).path_to_texture@.len() && (#[trigger] old(self).path_to_texture@[k2]).0@ == p;
                                assert(k2 == k);
                            }
                        }
                    }
                    assert(self.textures@ == new_textures);
                    assert(self.textures@.len() == old(self).textures@.len());
                    assert forall|j: int|
                        0 <= j < self.path_to_texture@.len() implies Self::loaded_from(
                        self.textures@[(#[trigger] self.path_to_texture@[j]).1.0 as int],
                        self.path_to_texture@[j].0@,
                    ) by {
                        if j != i {
                            let e = old(self).path_to_texture@[j];
                            assert(self.path_to_texture@[j] == e);
                            if e.1 != id {
                                assert(new_textures[e.1.0 as int] == old(self).textures@[e.1.0 as int]);
                            }
                        }
                    }
                    assert forall|j: int| 0 <= j < old(self).textures@.len() && j != id.0 implies self.textures@[j] == old(self).textures@[j] by {
                        assert(new_textures[j] == old(self).textures@[j]);
                    }
                }
                return;
            }
            i = i + 1;
        }
        self.path_to_texture.push((String::from_str(path), id));
        proof {
            assert forall|j: int|
                0 <= j < self.path_to_texture@.len() implies Self::loaded_from(
                self.textures@[(#[trigger] self.path_to_texture@[j]).1.0 as int],
                self.path_to_texture@[j].0@,
            ) by {
                if j < old(self).path_to_texture@.len() {
                    let e = old(self).path_to_texture@[j];
                    assert(self.path_to_texture@[j] == e);
                    if e.1 != id {
                        assert(new_textures[e.1.0 as int] == old(self).textures@[e.1.0 as int]);
                    }
                }
            }
            assert forall|a: int, b: int|
                0 <= a < b < self.path_to_texture@.len() implies (#[trigger] self.path_to_texture@[a]).0@
                    != (#[trigger] self.path_to_texture@[b]).0@ by {
                if b < old(self).path_to_texture@.len() {
                    assert(old(self).path_to_texture@[a].0@ != old(self).path_to_texture@[b].0@);
                }
            }
            assert(self.paths() =~= old_paths.insert(path@, id)) by {
                assert forall|p: Seq<char>| #[trigger] self.paths().contains_key(p) == old_paths.insert(path@, id).contains_key(p) by {
                    if old_paths.contains_key(p) {
                        let k = choose|k: int| 0 <= k < old(self).path_to_texture@.len() && (#[trigger] old(self).path_to_texture@[k]).0@ == p;
                        assert(self.path_to_texture@[k].0@ == p);
                    }
                    if p == path@ {
                        let n = old(self).path_to_texture@.len() as int;
                        assert(self.path_to_texture@[n].0@ == p);
                    }
                    if self.paths().contains_key(p) && p != path@ {
                        let k = choose|k: int| 0 <= k < self.path_to_texture@.len() && (#[trigger] self.path_to_texture@[k]).0@ == p;
                        assert(old(self).path_to_texture@[k].0@ == p);
                    }
                }
                assert forall|p: Seq<char>| #[trigger] self.paths().contains_key(p) implies self.paths()[p] == old_paths.insert(path@, id)[p] by {
                    let k = choose|k: int| 0 <= k < self.path_to_texture@.len() && (#[trigger] self.path_to_texture@[k]).0@ == p;
                    if p != path@ {
                        assert(old(self).path_to_texture@[k].0@ == p);
                        let k2 = choose|k2: int| 0 <= k2 < old(self).path_to_texture@.len() && (#[trigger] old(self).path_to_texture@[k2]).0@ == p;
                        assert(self.path_to_texture@[k2].0@ == p);
                    } else {
                        let n = old(self).path_to_texture@.len() as int;
                        assert(self.path_to_texture@[n].0@ == p);
                    }
                }
            }
        }
    }
}

/// An image file is loaded once: once `add_image` has recorded the
/// texture of a file, looking the file up finds that texture, and the
/// other files keep theirs.
pub proof fn recorded_image_is_found(before: AssetManager, after: AssetManager, id: TextureId, path: Seq<char>)
    requires
        after.paths() == before.paths().insert(path, id),
    ensures
        after.paths().contains_key(path),
        after.paths()[path] == id,
        forall|p: Seq<char>|
            p != path ==> (#[trigger] after.paths().contains_key(p) == before.paths().contains_key(p) && (
            before.paths().contains_key(p) ==> after.paths()[p] == before.paths()[p])),
{
}

/// What a file's lookup finds is the texture decoded from that file.
pub proof fn cached_texture_came_from_its_file(am: AssetManager, path: Seq<char>)
    requires
        am.wf(),
        am.paths().contains_key(path),
    ensures
        am.paths()[path].0 < am.textures().len(),
        AssetManager::loaded_from(am.textures()[am.paths()[path].0 as int], path),
{
    let i = choose|i: int|
        0 <= i < am.path_to_texture@.len() && (#[trigger] am.path_to_texture@[i]).0@ == path;
    assert(am.path_to_texture@[i].0@ == path);
}

} // verus!
