//! The editor's state: the meshes placed in the level, their textures, the
//! brushes of the last compilation and the names of the current map.
use vstd::prelude::*;
use crate::map_info::FurnaceFileData;
use crate::mesh::{is_box_brush, Mesh};
use crate::round_trip::present;

verus! {

/// The editor's state. `C` is the type of a coordinate.
pub struct FurnaceData<C> {
    pub path: String,
    pub path_compiler: String,
    pub brushes: Vec<Mesh<C>>,
    pub meshes: Vec<Option<[[C; 3]; 2]>>,
    pub texture_map: Vec<String>,
    pub current_map: String,
    pub last_compiled: String,
}

/// The corners of the present meshes, two per mesh, in order.
pub open spec fn mesh_corners<C>(ms: Seq<Option<[[C; 3]; 2]>>) -> Seq<[C; 3]>
    decreases ms.len(),
{
    if ms.len() == 0 {
        Seq::empty()
    } else {
        mesh_corners(ms.drop_last()) + match ms.last() {
            Some(m) => seq![m[0], m[1]],
            None => Seq::empty(),
        }
    }
}

/// `bs` holds one box brush per present mesh of `ms`, in order, the `k`-th
/// spanning the corners `cs[k]`, which `bounds` gives for the `k`-th present mesh.
pub open spec fn brushes_follow<C, F: Fn([[C; 3]; 2]) -> ([C; 3], [C; 3])>(
    bounds: F,
    ms: Seq<Option<[[C; 3]; 2]>>,
    bs: Seq<Mesh<C>>,
    cs: Seq<([C; 3], [C; 3])>,
) -> bool {
    &&& bs.len() == present(ms).len()
    &&& cs.len() == bs.len()
    &&& forall|k: int|
        0 <= k < bs.len() ==> bounds.ensures((present(ms)[k],), #[trigger] cs[k]) && is_box_brush(
            bs[k],
            cs[k].0,
            cs[k].1,
        )
}

/// `bs` holds one box brush per present mesh of `ms`, in order, each spanning
/// the lowest and highest corner that `bounds` gives for the mesh.
pub open spec fn brushes_of_meshes<C, F: Fn([[C; 3]; 2]) -> ([C; 3], [C; 3])>(
    bounds: F,
    ms: Seq<Option<[[C; 3]; 2]>>,
    bs: Seq<Mesh<C>>,
) -> bool {
    exists|cs: Seq<([C; 3], [C; 3])>| #[trigger] brushes_follow(bounds, ms, bs, cs)
}

/// `n` is the mesh `m` with both corners moved by `shift`.
pub open spec fn moved_by<C, F: Fn([C; 3]) -> [C; 3]>(
    shift: F,
    m: [[C; 3]; 2],
    n: [[C; 3]; 2],
) -> bool {
    shift.ensures((m[0],), n[0]) && shift.ensures((m[1],), n[1])
}

/// The name of the map that a fresh editor works on.
pub open spec fn default_map() -> Seq<char> {
    "mp_default"@
}

impl<C: Copy> FurnaceData<C> {
    /// A fresh editor for the mod folder `path` and the map compiler `path_compiler`:
    /// nothing placed, and the default map as the current and last compiled one.
    pub fn new(path: String, path_compiler: String) -> (r: Self)
        ensures
            r.path == path,
            r.path_compiler == path_compiler,
            r.brushes@.len() == 0,
            r.meshes@.len() == 0,
            r.texture_map@.len() == 0,
            r.current_map@ == default_map(),
            r.last_compiled@ == default_map(),
    {
        FurnaceData {
            path,
            path_compiler,
            brushes: Vec::new(),
            meshes: Vec::new(),
            texture_map: Vec::new(),
            current_map: "mp_default".to_owned(),
            last_compiled: "mp_default".to_owned(),
        }
    }

    /// Makes `map_name` the current map.
    pub fn set_current_map(&mut self, map_name: String)
        ensures
            final(self).current_map == map_name,
            final(self).path == old(self).path,
            final(self).path_compiler == old(self).path_compiler,
            final(self).brushes == old(self).brushes,
            final(self).meshes == old(self).meshes,
            final(self).texture_map == old(self).texture_map,
            final(self).last_compiled == old(self).last_compiled,
    {
        self.current_map = map_name;
    }

    /// Places a mesh spanning `point1` and `point2` with the white texture
    /// shorthand `$w`, and gives its index (as the scripts see it, an `i32`).
    pub fn push_mesh(&mut self, point1: [C; 3], point2: [C; 3]) -> (r: i32)
        ensures
            final(self).meshes@ == old(self).meshes@.push(Some([point1, point2])),
            final(self).texture_map@.len() == old(self).texture_map@.len() + 1,
            final(self).texture_map@.drop_last() == old(self).texture_map@,
            final(self).texture_map@.last()@ == "$w"@,
            r == old(self).meshes@.len() as i32,
            final(self).path == old(self).path,
            final(self).path_compiler == old(self).path_compiler,
            final(self).brushes == old(self).brushes,
            final(self).current_map == old(self).current_map,
            final(self).last_compiled == old(self).last_compiled,
    {
        let ghost old_textures = self.texture_map@;
        self.meshes.push(Some([point1, point2]));
        self.texture_map.push("$w".to_owned());
        assert(self.texture_map@.drop_last() =~= old_textures);
        let n: usize = self.meshes.len() - 1;
        n as i32
    }

    /// Removes the mesh at `index`, leaving its slot empty; tells whether the slot exists.
    pub fn remove_mesh(&mut self, index: i32) -> (r: bool)
        ensures
            r == ((index as usize) < old(self).meshes@.len()),
            r ==> final(self).meshes@ == old(self).meshes@.update(index as usize as int, None),
            !r ==> final(self).meshes == old(self).meshes,
            final(self).path == old(self).path,
            final(self).path_compiler == old(self).path_compiler,
            final(self).brushes == old(self).brushes,
            final(self).texture_map == old(self).texture_map,
            final(self).current_map == old(self).current_map,
            final(self).last_compiled == old(self).last_compiled,
    {
        let i: usize = index as usize;
        if i < self.meshes.len() {
            self.meshes.set(i, None);
            true
        } else {
            false
        }
    }

    /// Moves both corners of the mesh at `index` by `shift`; gives 0 when a mesh
    /// was moved and 1 when the slot is empty or missing.
    pub fn move_mesh<F: Fn([C; 3]) -> [C; 3]>(&mut self, index: i32, shift: F) -> (r: i32)
        requires
            forall|p: [C; 3]| shift.requires((p,)),
        ensures
            r == 0 || r == 1,
            r == 0 <==> ((index as usize) < old(self).meshes@.len() && old(
                self,
            ).meshes@[index as usize as int] is Some),
            r == 0 ==> (exists|n: [[C; 3]; 2]|
                #[trigger] moved_by(shift, old(self).meshes@[index as usize as int]->0, n)
                    && final(self).meshes@ == old(self).meshes@.update(
                    index as usize as int,
                    Some(n),
                )),
            r == 1 ==> final(self).meshes == old(self).meshes,
            final(self).path == old(self).path,
            final(self).path_compiler == old(self).path_compiler,
            final(self).brushes == old(self).brushes,
            final(self).texture_map == old(self).texture_map,
            final(self).current_map == old(self).current_map,
            final(self).last_compiled == old(self).last_compiled,
    {
        let i: usize = index as usize;
        if i < self.meshes.len() {
            match self.meshes[i] {
                Some(m) => {
                    let a = shift(m[0]);
                    let b = shift(m[1]);
                    self.meshes.set(i, Some([a, b]));
                    assert(moved_by(shift, m, [a, b]));
                    0
                },
                None => 1,
            }
        } else {
            1
        }
    }

    /// Gives the mesh at `index` the texture `new_texture`; gives 0 when the
    /// texture slot exists and 1 when it does not.
    pub fn set_texture_for_mesh(&mut self, index: i32, new_texture: String) -> (r: i32)
        ensures
            r == 0 <==> (index as usize) < old(self).texture_map@.len(),
            r == 0 ==> final(self).texture_map@ == old(self).texture_map@.update(
                index as usize as int,
                new_texture,
            ),
            r == 1 <==> !((index as usize) < old(self).texture_map@.len()),
            r == 1 ==> final(self).texture_map == old(self).texture_map,
            final(self).path == old(self).path,
            final(self).path_compiler == old(self).path_compiler,
            final(self).brushes == old(self).brushes,
            final(self).meshes == old(self).meshes,
            final(self).current_map == old(self).current_map,
            final(self).last_compiled == old(self).last_compiled,
    {
        let i: usize = index as usize;
        if i < self.texture_map.len() {
            self.texture_map.set(i, new_texture);
            0
        } else {
            1
        }
    }

    /// The name of the last compiled map.
    pub fn get_last_compiled_map(&self) -> (r: String)
        ensures
            r@ == self.last_compiled@,
    {
        self.last_compiled.clone()
    }

    /// The corners of the present meshes, two per mesh, in order.
    pub fn mesh_points(&self) -> (r: Vec<[C; 3]>)
        ensures
            r@ == mesh_corners(self.meshes@),
    {
        let mut r: Vec<[C; 3]> = Vec::new();
        let mut i: usize = 0;
        while i < self.meshes.len()
            invariant
                i <= self.meshes.len(),
                r@ == mesh_corners(self.meshes@.take(i as int)),
            decreases self.meshes.len() - i,
        {
            assert(self.meshes@.take(i + 1).drop_last() =~= self.meshes@.take(i as int));
            match self.meshes[i] {
                Some(m) => {
                    r.push(m[0]);
                    r.push(m[1]);
                },
                None => {},
            }
            proof {
                let ms = self.meshes@.take(i + 1);
                assert(ms.last() == self.meshes@[i as int]);
            }
            assert(r@ =~= mesh_corners(self.meshes@.take(i + 1)));
            i += 1;
        }
        assert(self.meshes@.take(self.meshes.len() as int) =~= self.meshes@);
        r
    }

    /// Takes the meshes and textures of a loaded `.furnace` file.
    pub fn load_file_data(&mut self, data: FurnaceFileData<C>)
        ensures
            final(self).meshes == data.meshes,
            final(self).texture_map == data.texture_map,
            final(self).path == old(self).path,
            final(self).path_compiler == old(self).path_compiler,
            final(self).brushes == old(self).brushes,
            final(self).current_map == old(self).current_map,
            final(self).last_compiled == old(self).last_compiled,
    {
        self.meshes = data.meshes;
        self.texture_map = data.texture_map;
    }

    /// Replaces the brushes by one box brush per present mesh, in order; `bounds`
    /// gives the lowest and highest corner of the box that two corners span.
    pub fn compile_brushes<F: Fn([[C; 3]; 2]) -> ([C; 3], [C; 3])>(&mut self, bounds: F)
        requires
            forall|m: [[C; 3]; 2]| bounds.requires((m,)),
        ensures
            brushes_of_meshes(bounds, old(self).meshes@, final(self).brushes@),
            final(self).meshes == old(self).meshes,
            final(self).path == old(self).path,
            final(self).path_compiler == old(self).path_compiler,
            final(self).texture_map == old(self).texture_map,
            final(self).current_map == old(self).current_map,
            final(self).last_compiled == old(self).last_compiled,
    {
        let mut brushes: Vec<Mesh<C>> = Vec::new();
        let ghost mut corners: Seq<([C; 3], [C; 3])> = Seq::empty();
        let mut i: usize = 0;
        while i < self.meshes.len()
            invariant
                i <= self.meshes.len(),
                forall|m: [[C; 3]; 2]| bounds.requires((m,)),
                brushes@.len() == present(self.meshes@.take(i as int)).len(),
                corners.len() == brushes@.len(),
                forall|k: int|
                    0 <= k < brushes@.len() ==> bounds.ensures(
                        (present(self.meshes@.take(i as int))[k],),
                        #[trigger] corners[k],
                    ) && is_box_brush(brushes@[k], corners[k].0, corners[k].1),
            decreases self.meshes.len() - i,
        {
            let ghost before = present(self.meshes@.take(i as int));
            assert(self.meshes@.take(i + 1).drop_last() =~= self.meshes@.take(i as int));
            assert(self.meshes@.take(i + 1).last() == self.meshes@[i as int]);
            match self.meshes[i] {
                Some(m) => {
                    let (lo, hi) = bounds(m);
                    let b = Mesh::from_bounds(lo, hi);
                    brushes.push(b);
                    proof {
                        corners = corners.push((lo, hi));
                    }
                    assert(present(self.meshes@.take(i + 1)) =~= before.push(m));
                },
                None => {
                    assert(present(self.meshes@.take(i + 1)) =~= before);
                },
            }
            assert forall|k: int| 0 <= k < brushes@.len() implies bounds.ensures(
                (present(self.meshes@.take(i + 1))[k],),
                #[trigger] corners[k],
            ) && is_box_brush(brushes@[k], corners[k].0, corners[k].1) by {
                if k < before.len() {
                    assert(present(self.meshes@.take(i + 1))[k] == before[k]);
                }
            }
            i += 1;
        }
        assert(self.meshes@.take(self.meshes.len() as int) =~= self.meshes@);
        self.brushes = brushes;
        assert(brushes_follow(bounds, self.meshes@, self.brushes@, corners));
    }

    /// Forgets the meshes and the brushes (the textures stay).
    pub fn clear_geometry(&mut self)
        ensures
            final(self).brushes@.len() == 0,
            final(self).meshes@.len() == 0,
            final(self).texture_map == old(self).texture_map,
            final(self).path == old(self).path,
            final(self).path_compiler == old(self).path_compiler,
            final(self).current_map == old(self).current_map,
            final(self).last_compiled == old(self).last_compiled,
    {
        self.brushes = Vec::new();
        self.meshes = Vec::new();
    }
}

} // verus!

verus! {

/// The index that `push_mesh` gives back addresses the mesh it placed, as
/// `remove_mesh` and `move_mesh` read an index (as long as the number of
/// meshes fits in an `i32`).
pub proof fn lemma_push_index<C>(ms: Seq<Option<[[C; 3]; 2]>>, m: [[C; 3]; 2])
    requires
        ms.len() < i32::MAX,
    ensures
        ((ms.len() as i32) as usize) < ms.push(Some(m)).len(),
        ms.push(Some(m))[(ms.len() as i32) as usize as int] == Some(m),
{
}

/// The points that the editor reads back are two per mesh that compiling
/// turns into a brush.
pub proof fn lemma_points_per_brush<C>(ms: Seq<Option<[[C; 3]; 2]>>)
    ensures
        mesh_corners(ms).len() == 2 * present(ms).len(),
    decreases ms.len(),
{
    if ms.len() > 0 {
        lemma_points_per_brush(ms.drop_last());
    }
}

} // verus!

verus! {

/// The points read back are the corners of the present meshes: the `k`-th
/// present mesh gives the points at `2k` and `2k + 1`, its first corner and
/// then its second.
pub proof fn lemma_mesh_corners_pairs<C>(ms: Seq<Option<[[C; 3]; 2]>>)
    ensures
        mesh_corners(ms).len() == 2 * present(ms).len(),
        forall|k: int|
            0 <= k < present(ms).len() ==> mesh_corners(ms)[2 * k] == (#[trigger] present(ms)[k])[0]
                && mesh_corners(ms)[2 * k + 1] == present(ms)[k][1],
    decreases ms.len(),
{
    lemma_points_per_brush(ms);
    if ms.len() > 0 {
        let prev = ms.drop_last();
        lemma_mesh_corners_pairs(prev);
        lemma_points_per_brush(prev);
        assert forall|k: int| 0 <= k < present(ms).len() implies mesh_corners(ms)[2 * k] == (
        #[trigger] present(ms)[k])[0] && mesh_corners(ms)[2 * k + 1] == present(ms)[k][1] by {
            if k < present(prev).len() {
                assert(present(ms)[k] == present(prev)[k]);
                assert(mesh_corners(ms)[2 * k] == mesh_corners(prev)[2 * k]);
                assert(mesh_corners(ms)[2 * k + 1] == mesh_corners(prev)[2 * k + 1]);
            } else {
                match ms.last() {
                    Some(m) => {
                        assert(present(ms)[k] == m);
                    },
                    None => {},
                }
            }
        }
    }
}

} // verus!
