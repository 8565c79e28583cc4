//! Triangle meshes: vertices, and triangles that name their corners by
//! index.

use vstd::prelude::*;
use vstd::std_specs::cmp::PartialEqSpec;
use vstd::std_specs::convert::FromSpec;

verus! {

/// A mesh under construction.
#[derive(Debug, Clone)]
pub struct Data<V> {
    pub vertices: Vec<V>,
    pub triangles: Vec<[u32; 3]>,
}

impl<V> Data<V> {
    /// Every corner of every triangle names a vertex of the mesh.
    pub open spec fn closed_mesh(self) -> bool {
        forall|i: int, k: int|
            0 <= i < self.triangles@.len() && 0 <= k < 3 ==> (#[trigger] self.triangles@[i][k])
                < self.vertices@.len()
    }

    /// An empty mesh with room for `v` vertices and `t` triangles.
    pub fn with_capacity(v: usize, t: usize) -> (d: Data<V>)
        ensures
            d.vertices@.len() == 0,
            d.triangles@.len() == 0,
    {
        Data { vertices: Vec::with_capacity(v), triangles: Vec::with_capacity(t) }
    }

    /// Adds the mesh `other` to this one. Its vertices follow those that
    /// are here already, and its triangles name them at their new indices.
    pub fn append(&mut self, other: Data<V>)
        requires
            forall|i: int, k: int|
                0 <= i < other.triangles@.len() && 0 <= k < 3 ==> old(self).vertices@.len() + (
                #[trigger] other.triangles@[i][k]) <= u32::MAX,
        ensures
            final(self).vertices@ == old(self).vertices@ + other.vertices@,
            final(self).triangles@.len() == old(self).triangles@.len() + other.triangles@.len(),
            forall|i: int|
                0 <= i < old(self).triangles@.len()
                    ==> final(self).triangles@[i] == old(self).triangles@[i],
            forall|i: int, k: int|
                0 <= i < other.triangles@.len() && 0 <= k < 3 ==> (
                #[trigger] final(self).triangles@[old(self).triangles@.len() + i][k])
                    == old(self).vertices@.len() + other.triangles@[i][k],
            old(self).closed_mesh() && other.closed_mesh() ==> final(self).closed_mesh(),
    {
        let count: usize = self.vertices.len();
        let ghost first = self.triangles@;
        let ghost added = other.triangles@;
        let ghost added_vertices = other.vertices@;
        let mut rest = other;
        self.vertices.append(&mut rest.vertices);
        let mut i: usize = 0;
        while i < rest.triangles.len()
            invariant
                i <= added.len(),
                rest.triangles@ == added,
                self.vertices@ == old(self).vertices@ + added_vertices,
                count == old(self).vertices@.len(),
                first == old(self).triangles@,
                self.triangles@.len() == first.len() + i,
                forall|j: int, k: int|
                    0 <= j < added.len() && 0 <= k < 3 ==> count + (#[trigger] added[j][k])
                        <= u32::MAX,
                forall|j: int| 0 <= j < first.len() ==> self.triangles@[j] == first[j],
                forall|j: int, k: int|
                    0 <= j < i && 0 <= k < 3 ==> (#[trigger] self.triangles@[first.len() + j][k])
                        == count + added[j][k],
            decreases rest.triangles.len() - i,
        {
            let t: [u32; 3] = rest.triangles[i];
            assert(count + added[i as int][0] <= u32::MAX);
            assert(count + added[i as int][1] <= u32::MAX);
            assert(count + added[i as int][2] <= u32::MAX);
            let n: u32 = count as u32;
            let moved: [u32; 3] = [n + t[0], n + t[1], n + t[2]];
            self.triangles.push(moved);
            i += 1;
        }
        proof {
            if old(self).closed_mesh() && other.closed_mesh() {
                assert forall|j: int, k: int|
                    0 <= j < self.triangles@.len() && 0 <= k < 3 implies (
                #[trigger] self.triangles@[j][k]) < self.vertices@.len() by {
                    if j < first.len() {
                        assert(self.triangles@[j] == first[j]);
                        assert(first[j][k] < old(self).vertices@.len());
                    } else {
                        let a = j - first.len();
                        assert(self.triangles@[first.len() + a][k] == count + added[a][k]);
                        assert(added[a][k] < added_vertices.len());
                    }
                }
            }
        }
    }
}

impl<V: Copy> Data<V> {
    /// The same mesh with every vertex converted to another kind.
    pub fn vertex_converted<W: From<V>>(&self) -> (d: Data<W>)
        ensures
            d.triangles@ == self.triangles@,
            d.vertices@.len() == self.vertices@.len(),
            W::obeys_from_spec() ==> forall|i: int|
                0 <= i < self.vertices@.len() ==> d.vertices@[i] == W::from_spec(self.vertices@[i]),
    {
        let mut vertices: Vec<W> = Vec::with_capacity(self.vertices.len());
        let mut i: usize = 0;
        while i < self.vertices.len()
            invariant
                i <= self.vertices@.len(),
                vertices@.len() == i,
                W::obeys_from_spec() ==> forall|j: int|
                    0 <= j < i ==> vertices@[j] == W::from_spec(self.vertices@[j]),
            decreases self.vertices.len() - i,
        {
            let w: W = W::from(self.vertices[i]);
            vertices.push(w);
            i += 1;
        }
        let mut triangles: Vec<[u32; 3]> = Vec::with_capacity(self.triangles.len());
        let mut j: usize = 0;
        while j < self.triangles.len()
            invariant
                j <= self.triangles@.len(),
                triangles@ == self.triangles@.take(j as int),
            decreases self.triangles.len() - j,
        {
            triangles.push(self.triangles[j]);
            assert(triangles@ == self.triangles@.take(j + 1));
            j += 1;
        }
        assert(self.triangles@.take(j as int) == self.triangles@);
        Data { vertices, triangles }
    }
}

impl<V> Data<V> {
    /// Adds a face with corners of its own: the corners `face` follow the
    /// vertices that are here already, and the face is cut into a fan of
    /// triangles about its first corner.
    pub fn add_flat_face(&mut self, face: Vec<V>)
        requires
            face@.len() >= 1,
            old(self).vertices@.len() + face@.len() <= u32::MAX,
        ensures
            final(self).vertices@ == old(self).vertices@ + face@,
            final(self).triangles@.len() == old(self).triangles@.len() + (if face@.len() >= 2 {
                face@.len() - 2
            } else {
                0
            }),
            forall|i: int|
                0 <= i < old(self).triangles@.len()
                    ==> final(self).triangles@[i] == old(self).triangles@[i],
            forall|j: int|
                0 <= j < face@.len() - 2 ==> {
                    let t = #[trigger] final(self).triangles@[old(self).triangles@.len() + j];
                    &&& t[0] == old(self).vertices@.len()
                    &&& t[1] == old(self).vertices@.len() + j + 1
                    &&& t[2] == old(self).vertices@.len() + j + 2
                },
            old(self).closed_mesh() ==> final(self).closed_mesh(),
    {
        let base: u32 = self.vertices.len() as u32;
        let n: u32 = face.len() as u32;
        let ghost first = self.triangles@;
        let mut i: u32 = 1;
        while i < n - 1
            invariant
                1 <= i,
                n >= 1,
                n == face@.len(),
                i <= n - 1 || (n == 1 && i == 1),
                base + n <= u32::MAX,
                base == old(self).vertices@.len(),
                self.vertices@ == old(self).vertices@,
                first == old(self).triangles@,
                self.triangles@.len() == first.len() + i - 1,
                forall|j: int| 0 <= j < first.len() ==> self.triangles@[j] == first[j],
                forall|j: int|
                    0 <= j < i - 1 ==> {
                        let t = #[trigger] self.triangles@[first.len() + j];
                        &&& t[0] == base
                        &&& t[1] == base + j + 1
                        &&& t[2] == base + j + 2
                    },
            decreases n - i,
        {
            self.triangles.push([base, base + i, base + i + 1]);
            i += 1;
        }
        let mut corners = face;
        self.vertices.append(&mut corners);
        proof {
            if old(self).closed_mesh() {
                assert forall|j: int, k: int|
                    0 <= j < self.triangles@.len() && 0 <= k < 3 implies (
                #[trigger] self.triangles@[j][k]) < self.vertices@.len() by {
                    if j < first.len() {
                        assert(self.triangles@[j] == first[j]);
                        assert(first[j][k] < old(self).vertices@.len());
                    } else {
                        let t = self.triangles@[first.len() + (j - first.len())];
                        assert(t[0] == base && t[1] == base + (j - first.len()) + 1);
                        assert(t[2] == base + (j - first.len()) + 2);
                    }
                }
            }
        }
    }
}

/// The index of the first of `vertices` that `p` equals, if it equals any.
pub open spec fn first_equal<V: PartialEq>(vertices: Seq<V>, p: V) -> Option<int>
    decreases vertices.len(),
{
    if vertices.len() == 0 {
        None
    } else {
        match first_equal(vertices.drop_last(), p) {
            Some(i) => Some(i),
            None => if p.eq_spec(&vertices.last()) {
                Some(vertices.len() - 1)
            } else {
                None
            },
        }
    }
}

/// What [`first_equal`] finds lies within the vertices, is equalled by `p`,
/// and is the first that is.
pub proof fn lemma_first_equal<V: PartialEq>(vertices: Seq<V>, p: V)
    ensures
        match first_equal(vertices, p) {
            Some(i) => {
                &&& 0 <= i < vertices.len()
                &&& p.eq_spec(&vertices[i])
                &&& forall|j: int| 0 <= j < i ==> !p.eq_spec(&#[trigger] vertices[j])
            },
            None => forall|j: int| 0 <= j < vertices.len() ==> !p.eq_spec(&#[trigger] vertices[j]),
        },
    decreases vertices.len(),
{
    if vertices.len() > 0 {
        let front = vertices.drop_last();
        lemma_first_equal(front, p);
        assert(forall|j: int| 0 <= j < front.len() ==> front[j] == vertices[j]);
    }
}

/// The vertices with `p` among them: as they are if `p` equals one of them,
/// with `p` at their end if not.
pub open spec fn with_vertex<V: PartialEq>(vertices: Seq<V>, p: V) -> Seq<V> {
    if first_equal(vertices, p) is Some {
        vertices
    } else {
        vertices.push(p)
    }
}

/// The index at which `p` stands in [`with_vertex`].
pub open spec fn index_of<V: PartialEq>(vertices: Seq<V>, p: V) -> int {
    match first_equal(vertices, p) {
        Some(i) => i,
        None => vertices.len() as int,
    }
}

/// The vertices after a face has been added whose corners are shared with
/// what is there: after the first corner of `face`, and then the two further
/// corners of each of its first `k` triangles, have been looked up and,
/// where they were not found, added.
pub open spec fn fan_vertices<V: PartialEq>(vertices: Seq<V>, face: Seq<V>, k: nat) -> Seq<V>
    decreases k,
{
    if k == 0 {
        with_vertex(vertices, face[0])
    } else {
        with_vertex(
            with_vertex(fan_vertices(vertices, face, (k - 1) as nat), face[k as int]),
            face[k as int + 1],
        )
    }
}

/// The vertices without those that equal an earlier one that was kept.
pub open spec fn kept<V: PartialEq>(vertices: Seq<V>) -> Seq<V>
    decreases vertices.len(),
{
    if vertices.len() == 0 {
        Seq::empty()
    } else {
        with_vertex(kept(vertices.drop_last()), vertices.last())
    }
}

/// The index among the vertices that are kept at which vertex `i` stands,
/// or the vertex that it equals.
pub open spec fn renumbered<V: PartialEq>(vertices: Seq<V>, i: int) -> int {
    index_of(kept(vertices.take(i)), vertices[i])
}

/// No more vertices are kept than there are, and a vertex is renumbered to
/// an index that is not beyond its own and that is kept.
pub proof fn lemma_kept_is_shorter<V: PartialEq>(vertices: Seq<V>)
    ensures
        kept(vertices).len() <= vertices.len(),
        forall|i: int|
            0 <= i < vertices.len() ==> 0 <= #[trigger] renumbered(vertices, i) <= i && renumbered(
                vertices,
                i,
            ) < kept(vertices).len(),
    decreases vertices.len(),
{
    if vertices.len() > 0 {
        let front = vertices.drop_last();
        let n = front.len() as int;
        lemma_kept_is_shorter(front);
        lemma_first_equal(kept(front), vertices.last());
        assert(vertices.take(n) == front);
        assert forall|i: int| 0 <= i < vertices.len() implies 0 <= #[trigger] renumbered(
            vertices,
            i,
        ) <= i && renumbered(vertices, i) < kept(vertices).len() by {
            if i < n {
                assert(vertices.take(i) == front.take(i));
                assert(renumbered(vertices, i) == renumbered(front, i));
            }
        }
    }
}

impl<V: Copy + PartialEq> Data<V> {
    /// The index of the vertex that `p` equals, `p` having been added to the
    /// vertices if it equals none of them.
    pub fn push_vertex(&mut self, p: V) -> (i: u32)
        requires
            old(self).vertices@.len() < u32::MAX,
        ensures
            final(self).triangles@ == old(self).triangles@,
            i < final(self).vertices@.len(),
            final(self).vertices@ == old(self).vertices@ || final(self).vertices@ == old(
                self,
            ).vertices@.push(p),
            V::obeys_eq_spec() ==> final(self).vertices@ == with_vertex(old(self).vertices@, p),
            V::obeys_eq_spec() ==> i == index_of(old(self).vertices@, p),
    {
        match self.position(&p) {
            Some(found) => found as u32,
            None => {
                self.vertices.push(p);
                (self.vertices.len() - 1) as u32
            },
        }
    }

    /// Adds a face whose corners are shared with what is there: a corner
    /// that equals a vertex of the mesh is that vertex, any other is added.
    /// The face is cut into a fan of triangles about its first corner.
    pub fn add_shared_face(&mut self, face: &[V])
        requires
            face@.len() >= 1,
            old(self).vertices@.len() + 2 * face@.len() <= u32::MAX,
        ensures
            final(self).triangles@.len() == old(self).triangles@.len() + (if face@.len() >= 2 {
                face@.len() - 2
            } else {
                0
            }),
            forall|i: int|
                0 <= i < old(self).triangles@.len()
                    ==> final(self).triangles@[i] == old(self).triangles@[i],
            old(self).vertices@.len() <= final(self).vertices@.len(),
            old(self).closed_mesh() ==> final(self).closed_mesh(),
            V::obeys_eq_spec() ==> final(self).vertices@ == fan_vertices(
                old(self).vertices@,
                face@,
                (final(self).triangles@.len() - old(self).triangles@.len()) as nat,
            ),
            V::obeys_eq_spec() ==> forall|k: int|
                0 <= k < face@.len() - 2 ==> {
                    let t = #[trigger] final(self).triangles@[old(self).triangles@.len() + k];
                    let before = fan_vertices(old(self).vertices@, face@, k as nat);
                    &&& t[0] == index_of(old(self).vertices@, face@[0])
                    &&& t[1] == index_of(before, face@[k + 1])
                    &&& t[2] == index_of(with_vertex(before, face@[k + 1]), face@[k + 2])
                },
    {
        let ghost first = self.triangles@;
        let ghost start = self.vertices@;
        let n: usize = face.len();
        let i0: u32 = self.push_vertex(face[0]);
        let mut i: usize = 1;
        while i + 1 < n
            invariant
                1 <= i,
                n == face@.len(),
                n >= 1,
                i + 1 <= n || (n == 1 && i == 1),
                start == old(self).vertices@,
                first == old(self).triangles@,
                start.len() + 2 * n <= u32::MAX,
                start.len() <= self.vertices@.len() <= start.len() + 2 * i - 1,
                i0 < self.vertices@.len(),
                self.triangles@.len() == first.len() + i - 1,
                forall|j: int| 0 <= j < first.len() ==> self.triangles@[j] == first[j],
                forall|j: int, c: int|
                    first.len() <= j < self.triangles@.len() && 0 <= c < 3 ==> (
                    #[trigger] self.triangles@[j][c]) < self.vertices@.len(),
                V::obeys_eq_spec() ==> i0 == index_of(start, face@[0]),
                V::obeys_eq_spec() ==> self.vertices@ == fan_vertices(start, face@, (i - 1) as nat),
                V::obeys_eq_spec() ==> forall|k: int|
                    0 <= k < i - 1 ==> {
                        let t = #[trigger] self.triangles@[first.len() + k];
                        let before = fan_vertices(start, face@, k as nat);
                        &&& t[0] == index_of(start, face@[0])
                        &&& t[1] == index_of(before, face@[k + 1])
                        &&& t[2] == index_of(with_vertex(before, face@[k + 1]), face@[k + 2])
                    },
            decreases n - i,
        {
            let ghost before = self.vertices@;
            let ghost so_far = self.triangles@;
            let i1: u32 = self.push_vertex(face[i]);
            let i2: u32 = self.push_vertex(face[i + 1]);
            self.triangles.push([i0, i1, i2]);
            proof {
                assert forall|j: int, c: int|
                    first.len() <= j < self.triangles@.len() && 0 <= c < 3 implies (
                #[trigger] self.triangles@[j][c]) < self.vertices@.len() by {
                    if j < so_far.len() {
                        assert(self.triangles@[j] == so_far[j]);
                        assert(so_far[j][c] < before.len());
                    }
                }
                if V::obeys_eq_spec() {
                    assert(self.vertices@ == fan_vertices(start, face@, i as nat));
                    assert forall|k: int| 0 <= k < i implies ({
                        let t = #[trigger] self.triangles@[first.len() + k];
                        let was = fan_vertices(start, face@, k as nat);
                        &&& t[0] == index_of(start, face@[0])
                        &&& t[1] == index_of(was, face@[k + 1])
                        &&& t[2] == index_of(with_vertex(was, face@[k + 1]), face@[k + 2])
                    }) by {
                        if k < i - 1 {
                            assert(self.triangles@[first.len() + k] == so_far[first.len() + k]);
                        }
                    }
                }
            }
            i += 1;
        }
        proof {
            if old(self).closed_mesh() {
                assert forall|j: int, c: int|
                    0 <= j < self.triangles@.len() && 0 <= c < 3 implies (
                #[trigger] self.triangles@[j][c]) < self.vertices@.len() by {
                    if j < first.len() {
                        assert(self.triangles@[j] == first[j]);
                        assert(first[j][c] < start.len());
                    }
                }
            }
        }
    }

    /// The same mesh without the vertices that equal an earlier one: each
    /// triangle names, in place of such a vertex, the one that it equals.
    pub fn dedup(&self) -> (d: Data<V>)
        requires
            self.closed_mesh(),
        ensures
            d.triangles@.len() == self.triangles@.len(),
            d.vertices@.len() <= self.vertices@.len(),
            d.closed_mesh(),
            V::obeys_eq_spec() ==> d.vertices@ == kept(self.vertices@),
            V::obeys_eq_spec() ==> forall|t: int, k: int|
                0 <= t < self.triangles@.len() && 0 <= k < 3 ==> (#[trigger] d.triangles@[t][k])
                    == renumbered(self.vertices@, self.triangles@[t][k] as int),
    {
        let mut vertices: Vec<V> = Vec::new();
        let mut indices: Vec<usize> = Vec::new();
        let mut i: usize = 0;
        while i < self.vertices.len()
            invariant
                i <= self.vertices@.len(),
                indices@.len() == i,
                vertices@.len() <= i,
                forall|j: int| 0 <= j < i ==> (#[trigger] indices@[j]) < vertices@.len(),
                forall|j: int| 0 <= j < i ==> (#[trigger] indices@[j]) <= j,
                V::obeys_eq_spec() ==> vertices@ == kept(self.vertices@.take(i as int)),
                V::obeys_eq_spec() ==> forall|j: int|
                    0 <= j < i ==> (#[trigger] indices@[j]) == renumbered(self.vertices@, j),
            decreases self.vertices.len() - i,
        {
            let v: V = self.vertices[i];
            let ghost before = vertices@;
            assert(self.vertices@.take(i + 1).drop_last() == self.vertices@.take(i as int));
            assert(self.vertices@.take(i + 1).last() == v);
            let found = Data::<V>::find(&vertices, &v);
            match found {
                Some(at) => {
                    indices.push(at);
                },
                None => {
                    indices.push(vertices.len());
                    vertices.push(v);
                },
            }
            i += 1;
        }
        assert(self.vertices@.take(i as int) == self.vertices@);
        let mut triangles: Vec<[u32; 3]> = Vec::new();
        let mut t: usize = 0;
        while t < self.triangles.len()
            invariant
                t <= self.triangles@.len(),
                triangles@.len() == t,
                indices@.len() == self.vertices@.len(),
                self.closed_mesh(),
                forall|j: int|
                    0 <= j < indices@.len() ==> (#[trigger] indices@[j]) < vertices@.len(),
                forall|j: int| 0 <= j < indices@.len() ==> (#[trigger] indices@[j]) <= j,
                forall|s: int, k: int|
                    0 <= s < t && 0 <= k < 3 ==> (#[trigger] triangles@[s][k])
                        == indices@[self.triangles@[s][k] as int],
            decreases self.triangles.len() - t,
        {
            let corners: [u32; 3] = self.triangles[t];
            assert(self.triangles@[t as int][0] < self.vertices@.len());
            assert(self.triangles@[t as int][1] < self.vertices@.len());
            assert(self.triangles@[t as int][2] < self.vertices@.len());
            let a: usize = indices[corners[0] as usize];
            let b: usize = indices[corners[1] as usize];
            let c: usize = indices[corners[2] as usize];
            triangles.push([a as u32, b as u32, c as u32]);
            t += 1;
        }
        Data { vertices, triangles }
    }

    /// The index of the first of `vertices` that `p` equals, if it equals
    /// any.
    fn find(vertices: &Vec<V>, p: &V) -> (r: Option<usize>)
        ensures
            r matches Some(i) ==> i < vertices@.len(),
            V::obeys_eq_spec() ==> (match r {
                Some(i) => Some(i as int),
                None => None,
            }) == first_equal(vertices@, *p),
    {
        let mut i: usize = 0;
        while i < vertices.len()
            invariant
                i <= vertices@.len(),
                V::obeys_eq_spec() ==> first_equal(vertices@.take(i as int), *p) is None,
            decreases vertices.len() - i,
        {
            assert(vertices@.take(i + 1).drop_last() == vertices@.take(i as int));
            if *p == vertices[i] {
                proof {
                    if V::obeys_eq_spec() {
                        assert(vertices@.take(i + 1).last() == vertices@[i as int]);
                        lemma_found_stays(vertices@, *p, i as int);
                    }
                }
                return Some(i);
            }
            i += 1;
        }
        assert(vertices@.take(i as int) == vertices@);
        None
    }

    /// The index of the first vertex that `p` equals, if it equals any.
    pub fn position(&self, p: &V) -> (r: Option<usize>)
        ensures
            r matches Some(i) ==> i < self.vertices@.len(),
            V::obeys_eq_spec() ==> (match r {
                Some(i) => Some(i as int),
                None => None,
            }) == first_equal(self.vertices@, *p),
    {
        Data::<V>::find(&self.vertices, p)
    }
}

/// What is found among the first vertices is found among all of them.
proof fn lemma_found_stays<V: PartialEq>(vertices: Seq<V>, p: V, i: int)
    requires
        0 <= i < vertices.len(),
        first_equal(vertices.take(i + 1), p) == Some(i),
    ensures
        first_equal(vertices, p) == Some(i),
    decreases vertices.len(),
{
    if vertices.len() > i + 1 {
        let front = vertices.drop_last();
        assert(front.take(i + 1) == vertices.take(i + 1));
        lemma_found_stays(front, p, i);
    } else {
        assert(vertices.take(i + 1) == vertices);
    }
}

/// A mesh as it is handed to the graphics device.
#[derive(Debug)]
pub struct Shape<V> {
    vertices: Vec<V>,
    triangles: Vec<[u32; 3]>,
}

impl<V> Shape<V> {
    pub closed spec fn corners(self) -> Seq<V> {
        self.vertices@
    }

    pub closed spec fn faces(self) -> Seq<[u32; 3]> {
        self.triangles@
    }

    /// The mesh of the given vertices and triangles.
    pub fn new(vertices: Vec<V>, triangles: Vec<[u32; 3]>) -> (s: Shape<V>)
        ensures
            s.corners() == vertices@,
            s.faces() == triangles@,
    {
        Shape { vertices, triangles }
    }

    pub fn vertices(&self) -> (v: &Vec<V>)
        ensures
            v@ == self.corners(),
    {
        &self.vertices
    }

    pub fn triangles(&self) -> (t: &Vec<[u32; 3]>)
        ensures
            t@ == self.faces(),
    {
        &self.triangles
    }

    /// The number of indices that drawing the mesh takes: three for each
    /// triangle.
    pub fn elements_count(&self) -> (n: i32)
        requires
            3 * self.faces().len() <= i32::MAX,
        ensures
            n == 3 * self.faces().len(),
    {
        let count: usize = self.triangles.len();
        (count as i32) * 3
    }
}

} // verus!
