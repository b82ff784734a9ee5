//! Triangle meshes: reading binary STL data, merging repeated vertices, and ordering meshes
//! for loading. Coordinates are held as the bit patterns of their `f32` values.
use vstd::prelude::*;
use std::collections::hash_map::DefaultHasher;
use std::collections::HashMap;
use std::hash::Hasher;
use vstd::bytes::{
    lemma_auto_spec_u32_to_from_le_bytes, spec_u32_from_le_bytes, spec_u32_to_le_bytes, u32_from_le_bytes,
    u32_to_le_bytes,
};
use vstd::std_specs::hash::DefaultHasherAdditionalSpecFns;
use vstd::arithmetic::div_mod::{lemma_fundamental_div_mod, lemma_fundamental_div_mod_converse};
use crate::utils::swap_items;

verus! {

/// The little-endian bytes of the three components of `p`, in order: what `hash` writes.
pub open spec fn point_bytes(p: [u32; 3]) -> Seq<u8> {
    spec_u32_to_le_bytes(p[0]) + spec_u32_to_le_bytes(p[1]) + spec_u32_to_le_bytes(p[2])
}

/// The digest of a fresh `DefaultHasher` that was given `point_bytes(p)` in one write.
pub open spec fn point_hash(p: [u32; 3]) -> u64 {
    DefaultHasher::spec_finish(seq![point_bytes(p)])
}

/// Writes the twelve little-endian bytes of the point into `state`, in one write.
pub fn hash(data: [u32; 3], state: &mut DefaultHasher)
    ensures
        final(state)@ == old(state)@.push(point_bytes(data)),
{
    let mut combined_bytes = u32_to_le_bytes(data[0]);
    let mut bytes_y = u32_to_le_bytes(data[1]);
    let mut bytes_z = u32_to_le_bytes(data[2]);
    combined_bytes.append(&mut bytes_y);
    combined_bytes.append(&mut bytes_z);
    state.write(combined_bytes.as_slice());
}

/// The hash of a point, as used to recognise repeated vertices.
pub fn hash_point(p: &[u32; 3]) -> (r: u64)
    ensures
        r == point_hash(*p),
{
    let mut hasher = DefaultHasher::new();
    hash(*p, &mut hasher);
    hasher.finish()
}

/// A triangle given by the indices of its three vertices.
#[derive(Clone, Copy)]
pub struct Face {
    pub v1: u32,
    pub v2: u32,
    pub v3: u32,
}

impl Face {
    /// A face whose three indices all hold the "no vertex" marker `u32::MAX`.
    pub fn new() -> (r: Self)
        ensures
            r.v1 == u32::MAX && r.v2 == u32::MAX && r.v3 == u32::MAX,
    {
        Self { v1: u32::MAX, v2: u32::MAX, v3: u32::MAX }
    }
}

/// One triangle record of a binary STL file: normal, three vertices, two attribute bytes.
#[derive(Clone, Copy)]
pub struct Triangle {
    pub n: [u32; 3],
    pub v1: [u32; 3],
    pub v2: [u32; 3],
    pub v3: [u32; 3],
    pub padding_: [u8; 2],
}

impl Default for Triangle {
    /// All coordinates are `+0.0` (bit pattern 0) and the attribute bytes are zero.
    fn default() -> (r: Self)
        ensures
            r.n@ == seq![0u32, 0, 0] && r.v1@ == seq![0u32, 0, 0] && r.v2@ == seq![0u32, 0, 0]
                && r.v3@ == seq![0u32, 0, 0] && r.padding_@ == seq![0u8, 0],
    {
        Self { n: [0, 0, 0], v1: [0, 0, 0], v2: [0, 0, 0], v3: [0, 0, 0], padding_: [0, 0] }
    }
}

/// A triangle mesh: one normal per face, the vertex positions, and for each face the indices
/// of its three vertices.
#[derive(Clone)]
pub struct Mesh {
    pub normals: Vec<[u32; 3]>,
    pub vertices: Vec<[u32; 3]>,
    pub faces: Vec<[usize; 3]>,
    pub num_faces: u32,
    pub loaded: bool,
    pub processed: bool,
}

impl Mesh {
    /// A mesh with room for `num_faces` faces: zero normals and faces, three zero vertices a
    /// face; `num_faces` is recorded as `num_faces as u32`.
    pub fn new(num_faces: usize) -> (r: Self)
        requires
            num_faces * 3 <= usize::MAX,
        ensures
            r.normals@ == Seq::new(num_faces as nat, |i: int| [0u32, 0, 0]),
            r.vertices@ == Seq::new((num_faces * 3) as nat, |i: int| [0u32, 0, 0]),
            r.faces@ == Seq::new(num_faces as nat, |i: int| [0usize, 0, 0]),
            r.num_faces == num_faces as u32,
            !r.loaded,
            !r.processed,
    {
        let mut normals: Vec<[u32; 3]> = Vec::new();
        let mut faces: Vec<[usize; 3]> = Vec::new();
        for i in 0..num_faces
            invariant
                normals@ == Seq::new(i as nat, |j: int| [0u32, 0, 0]),
                faces@ == Seq::new(i as nat, |j: int| [0usize, 0, 0]),
        {
            normals.push([0, 0, 0]);
            faces.push([0, 0, 0]);
        }
        let mut vertices: Vec<[u32; 3]> = Vec::new();
        for i in 0..num_faces * 3
            invariant
                vertices@ == Seq::new(i as nat, |j: int| [0u32, 0, 0]),
        {
            vertices.push([0, 0, 0]);
        }
        let num_faces = num_faces as u32;
        Self { normals, vertices, faces, num_faces, loaded: false, processed: false }
    }

    /// A mesh with no faces.
    pub fn e_new() -> (r: Self)
        ensures
            r.normals@ == Seq::<[u32; 3]>::empty(),
            r.vertices@ == Seq::<[u32; 3]>::empty(),
            r.faces@ == Seq::<[usize; 3]>::empty(),
            r.num_faces == 0,
            !r.loaded,
            !r.processed,
    {
        Self {
            normals: Vec::new(),
            vertices: Vec::new(),
            faces: Vec::new(),
            num_faces: 0,
            loaded: false,
            processed: false,
        }
    }

    /// The number of faces held.
    pub fn len(&self) -> (r: usize)
        ensures
            r == self.faces@.len(),
    {
        self.faces.len()
    }
}

/// The little-endian `u32` stored at byte offset `at` of `data`.
pub open spec fn word_at(data: Seq<u8>, at: int) -> u32 {
    spec_u32_from_le_bytes(data.subrange(at, at + 4))
}

/// The three little-endian `u32`s stored from byte offset `at` of `data`.
pub open spec fn triple_at(data: Seq<u8>, at: int) -> [u32; 3] {
    [word_at(data, at), word_at(data, at + 4), word_at(data, at + 8)]
}

/// The triangle count in the header of binary STL data: the `u32` after the 80-byte title.
pub open spec fn stl_triangle_count(data: Seq<u8>) -> u32 {
    word_at(data, 80)
}

/// The `i`-th 50-byte triangle record of binary STL data, which follow the 84-byte header.
pub open spec fn stl_triangle(data: Seq<u8>, i: int) -> Triangle {
    let at = 84 + 50 * i;
    Triangle {
        n: triple_at(data, at),
        v1: triple_at(data, at + 12),
        v2: triple_at(data, at + 24),
        v3: triple_at(data, at + 36),
        padding_: [data[at + 48], data[at + 49]],
    }
}

/// The data after the header holds exactly as many triangle records as the header announces.
pub open spec fn stl_sized_right(data: Seq<u8>) -> bool {
    data.len() - 84 == 50 * stl_triangle_count(data)
}

/// `m` holds the triangles `tris`: face `i` has the normal of `tris[i]` and the three vertices
/// `3i`, `3i + 1`, `3i + 2`, which are the corners of `tris[i]` in order.
pub open spec fn mesh_holds(m: Mesh, tris: Seq<Triangle>) -> bool {
    &&& m.normals@.len() == tris.len()
    &&& m.vertices@.len() == 3 * tris.len()
    &&& m.faces@.len() == tris.len()
    &&& forall|i: int|
        #![trigger tris[i]]
        0 <= i < tris.len() ==> {
            &&& m.normals@[i] == tris[i].n
            &&& m.vertices@[3 * i] == tris[i].v1
            &&& m.vertices@[3 * i + 1] == tris[i].v2
            &&& m.vertices@[3 * i + 2] == tris[i].v3
            &&& m.faces@[i] == [(3 * i) as usize, (3 * i + 1) as usize, (3 * i + 2) as usize]
        }
}

/// The 50 bytes of one triangle record: the normal and the three vertices, each as three
/// little-endian `u32`s, then the two attribute bytes.
pub open spec fn record_bytes(t: Triangle) -> Seq<u8> {
    point_bytes(t.n) + point_bytes(t.v1) + point_bytes(t.v2) + point_bytes(t.v3) + seq![
        t.padding_[0],
        t.padding_[1],
    ]
}

/// The records of `tris`, one after another.
pub open spec fn records_bytes(tris: Seq<Triangle>) -> Seq<u8>
    decreases tris.len(),
{
    if tris.len() == 0 {
        Seq::empty()
    } else {
        records_bytes(tris.drop_last()) + record_bytes(tris.last())
    }
}

/// Binary STL data holding `tris`: the 80-byte `title`, the triangle count as a little-endian
/// `u32`, then the records.
pub open spec fn stl_bytes_of(title: Seq<u8>, tris: Seq<Triangle>) -> Seq<u8> {
    title + spec_u32_to_le_bytes(tris.len() as u32) + records_bytes(tris)
}

/// The four bytes of component `w` of `p` stand at `4w` in `point_bytes(p)`.
proof fn lemma_point_bytes_word(p: [u32; 3], w: int)
    requires
        0 <= w < 3,
    ensures
        point_bytes(p).len() == 12,
        point_bytes(p).subrange(4 * w, 4 * w + 4) == spec_u32_to_le_bytes(p[w]),
{
    lemma_auto_spec_u32_to_from_le_bytes();
    let b = point_bytes(p);
    if w == 0 {
        assert(b.subrange(0, 4) =~= spec_u32_to_le_bytes(p[0]));
    } else if w == 1 {
        assert(b.subrange(4, 8) =~= spec_u32_to_le_bytes(p[1]));
    } else {
        assert(b.subrange(8, 12) =~= spec_u32_to_le_bytes(p[2]));
    }
}

/// The bytes `hash` writes for a point hold each of its three components, in order: the
/// twelve bytes read back, four at a time, as `x`, `y` and `z`.
pub proof fn law_point_bytes_hold_every_component(p: [u32; 3])
    ensures
        point_bytes(p).len() == 12,
        spec_u32_from_le_bytes(point_bytes(p).subrange(0, 4)) == p[0],
        spec_u32_from_le_bytes(point_bytes(p).subrange(4, 8)) == p[1],
        spec_u32_from_le_bytes(point_bytes(p).subrange(8, 12)) == p[2],
{
    lemma_auto_spec_u32_to_from_le_bytes();
    lemma_point_bytes_word(p, 0);
    lemma_point_bytes_word(p, 1);
    lemma_point_bytes_word(p, 2);
}

/// Record `i` of `tris` stands at `50 i` in `records_bytes(tris)`.
proof fn lemma_records_layout(tris: Seq<Triangle>, i: int)
    requires
        0 <= i < tris.len(),
    ensures
        records_bytes(tris).len() == 50 * tris.len(),
        records_bytes(tris).subrange(50 * i, 50 * i + 50) == record_bytes(tris[i]),
    decreases tris.len(),
{
    lemma_auto_spec_u32_to_from_le_bytes();
    let d = tris.drop_last();
    if i < tris.len() - 1 {
        lemma_records_layout(d, i);
        assert(records_bytes(tris).subrange(50 * i, 50 * i + 50) =~= records_bytes(d).subrange(
            50 * i,
            50 * i + 50,
        ));
    } else {
        if d.len() > 0 {
            lemma_records_layout(d, 0);
        }
        lemma_record_word(tris.last(), 0, 0);
        assert(records_bytes(d).len() == 50 * i);
        assert(records_bytes(tris).subrange(50 * i, 50 * i + 50) =~= record_bytes(tris.last()));
    }
}

/// Component `w` of point `c` of a record (0 the normal, then the vertices) is read from bytes
/// `12c + 4w ..` of it.
proof fn lemma_record_word(t: Triangle, c: int, w: int)
    requires
        0 <= c < 4,
        0 <= w < 3,
    ensures
        record_bytes(t).len() == 50,
        spec_u32_from_le_bytes(record_bytes(t).subrange(12 * c + 4 * w, 12 * c + 4 * w + 4)) == (
        if c == 0 {
            t.n[w]
        } else if c == 1 {
            t.v1[w]
        } else if c == 2 {
            t.v2[w]
        } else {
            t.v3[w]
        }),
        record_bytes(t)[48] == t.padding_[0],
        record_bytes(t)[49] == t.padding_[1],
{
    lemma_auto_spec_u32_to_from_le_bytes();
    let p = if c == 0 {
        t.n
    } else if c == 1 {
        t.v1
    } else if c == 2 {
        t.v2
    } else {
        t.v3
    };
    lemma_point_bytes_word(p, w);
    lemma_point_bytes_word(t.n, 0);
    lemma_point_bytes_word(t.v1, 0);
    lemma_point_bytes_word(t.v2, 0);
    lemma_point_bytes_word(t.v3, 0);
    let b = record_bytes(t);
    assert(b.subrange(12 * c, 12 * c + 12) =~= point_bytes(p));
    assert(b.subrange(12 * c + 4 * w, 12 * c + 4 * w + 4) =~= point_bytes(p).subrange(4 * w, 4 * w + 4));
}

/// Bytes `at .. at + 50` of `data` that hold the record of `t` read back as `t`.
proof fn lemma_record_reads_back(data: Seq<u8>, at: int, t: Triangle)
    requires
        0 <= at,
        at + 50 <= data.len(),
        data.subrange(at, at + 50) == record_bytes(t),
    ensures
        (Triangle {
            n: triple_at(data, at),
            v1: triple_at(data, at + 12),
            v2: triple_at(data, at + 24),
            v3: triple_at(data, at + 36),
            padding_: [data[at + 48], data[at + 49]],
        }) == t,
{
    let rec = record_bytes(t);
    assert forall|c: int, w: int| 0 <= c < 4 && 0 <= w < 3 implies #[trigger] word_at(data, at + 12 * c + 4 * w)
        == spec_u32_from_le_bytes(rec.subrange(12 * c + 4 * w, 12 * c + 4 * w + 4)) by {
        lemma_record_word(t, c, w);
        assert(data.subrange(at + 12 * c + 4 * w, at + 12 * c + 4 * w + 4) =~= rec.subrange(
            12 * c + 4 * w,
            12 * c + 4 * w + 4,
        ));
    }
    lemma_record_word(t, 0, 0);
    assert(data[at + 48] == rec[48] && data[at + 49] == rec[49]);
    let n = triple_at(data, at);
    let v1 = triple_at(data, at + 12);
    let v2 = triple_at(data, at + 24);
    let v3 = triple_at(data, at + 36);
    assert forall|w: int| 0 <= w < 3 implies n[w] == t.n[w] && v1[w] == t.v1[w] && v2[w] == t.v2[w]
        && v3[w] == t.v3[w] by {
        lemma_record_word(t, 0, w);
        lemma_record_word(t, 1, w);
        lemma_record_word(t, 2, w);
        lemma_record_word(t, 3, w);
        assert(word_at(data, at + 12 * 0 + 4 * w) == t.n[w]);
        assert(word_at(data, at + 12 * 1 + 4 * w) == t.v1[w]);
        assert(word_at(data, at + 12 * 2 + 4 * w) == t.v2[w]);
        assert(word_at(data, at + 12 * 3 + 4 * w) == t.v3[w]);
    }
    assert(n =~= t.n);
    assert(v1 =~= t.v1);
    assert(v2 =~= t.v2);
    assert(v3 =~= t.v3);
    let pad: [u8; 2] = [data[at + 48], data[at + 49]];
    assert(pad =~= t.padding_);
}

/// Reading binary STL data gives back the triangles that were written into it: data made of an
/// 80-byte title, the count of `tris` and their records is the right size, announces
/// `tris.len()` triangles, and its record `i` reads as `tris[i]`.
#[verifier::spinoff_prover]
pub proof fn law_stl_records_read_back(title: Seq<u8>, tris: Seq<Triangle>)
    requires
        title.len() == 80,
        tris.len() <= u32::MAX,
    ensures
        stl_sized_right(stl_bytes_of(title, tris)),
        stl_triangle_count(stl_bytes_of(title, tris)) == tris.len(),
        forall|i: int| 0 <= i < tris.len() ==> #[trigger] stl_triangle(stl_bytes_of(title, tris), i) == tris[i],
{
    lemma_auto_spec_u32_to_from_le_bytes();
    let data = stl_bytes_of(title, tris);
    let rb = records_bytes(tris);
    if tris.len() > 0 {
        lemma_records_layout(tris, 0);
    } else {
        assert(rb.len() == 0);
    }
    assert(data.subrange(80, 84) =~= spec_u32_to_le_bytes(tris.len() as u32));
    assert forall|i: int| 0 <= i < tris.len() implies #[trigger] stl_triangle(data, i) == tris[i] by {
        lemma_records_layout(tris, i);
        let at = 84 + 50 * i;
        assert(data.subrange(at, at + 50) =~= rb.subrange(50 * i, 50 * i + 50));
        lemma_record_reads_back(data, at, tris[i]);
    }
}

/// Reads the little-endian `u32` at `at`.
fn read_word(data: &[u8], at: usize) -> (r: u32)
    requires
        data@.len() <= usize::MAX,
        at + 4 <= data@.len(),
    ensures
        r == word_at(data@, at as int),
{
    u32_from_le_bytes(&data[at..at + 4])
}

/// Reads the three little-endian `u32`s from `at`.
fn read_triple(data: &[u8], at: usize) -> (r: [u32; 3])
    requires
        data@.len() <= usize::MAX,
        at + 12 <= data@.len(),
    ensures
        r == triple_at(data@, at as int),
{
    [read_word(data, at), read_word(data, at + 4), read_word(data, at + 8)]
}

/// Reads the `i`-th triangle record of binary STL data.
fn read_triangle(data: &[u8], i: usize) -> (r: Triangle)
    requires
        data@.len() <= usize::MAX,
        84 + 50 * i + 50 <= data@.len(),
    ensures
        r == stl_triangle(data@, i as int),
{
    let at = 84 + 50 * i;
    Triangle {
        n: read_triple(data, at),
        v1: read_triple(data, at + 12),
        v2: read_triple(data, at + 24),
        v3: read_triple(data, at + 36),
        padding_: [data[at + 48], data[at + 49]],
    }
}

/// Builds a mesh from binary STL data (an 80-byte title, a `u32` triangle count, then 50-byte
/// triangle records). Data whose length disagrees with its count is refused with
/// `"Binary Data incorrect"`.
#[verifier::spinoff_prover]
pub fn parse_stl(data: &[u8]) -> (r: Result<Mesh, String>)
    requires
        data@.len() >= 84,
    ensures
        !stl_sized_right(data@) ==> (r matches Err(e) && e@ == "Binary Data incorrect"@),
        stl_sized_right(data@) ==> (r matches Ok(m) && {
            &&& mesh_holds(
                m,
                Seq::new(stl_triangle_count(data@) as nat, |i: int| stl_triangle(data@, i)),
            )
            &&& m.num_faces == stl_triangle_count(data@)
            &&& m.loaded
            &&& !m.processed
        }),
{
    assert(data@.len() == data.len());
    let num_triangles = read_word(data, 80);
    let len_data = (data.len() - 84) as u64;
    let expected_data_size = 50u64 * (num_triangles as u64);
    if len_data != expected_data_size {
        return Err("Binary Data incorrect".to_owned());
    }
    let ghost tris = Seq::new(num_triangles as nat, |i: int| stl_triangle(data@, i));
    let n = num_triangles as usize;
    let mut normals: Vec<[u32; 3]> = Vec::new();
    let mut vertices: Vec<[u32; 3]> = Vec::new();
    let mut faces: Vec<[usize; 3]> = Vec::new();
    for i in 0..n
        invariant
            n == num_triangles,
            data@.len() == 84 + 50 * n,
            data@.len() <= usize::MAX,
            tris == Seq::new(num_triangles as nat, |i: int| stl_triangle(data@, i)),
            normals@.len() == i,
            vertices@.len() == 3 * i,
            faces@.len() == i,
            forall|k: int|
                #![trigger tris[k]]
                0 <= k < i ==> {
                    &&& normals@[k] == tris[k].n
                    &&& vertices@[3 * k] == tris[k].v1
                    &&& vertices@[3 * k + 1] == tris[k].v2
                    &&& vertices@[3 * k + 2] == tris[k].v3
                    &&& faces@[k] == [(3 * k) as usize, (3 * k + 1) as usize, (3 * k + 2) as usize]
                },
    {
        assert(84 + 50 * i + 50 <= data@.len() && 3 * i + 2 <= usize::MAX) by (nonlinear_arith)
            requires
                i < n,
                data@.len() == 84 + 50 * n,
                data@.len() <= usize::MAX,
        ;
        let triangle = read_triangle(data, i);
        let ghost (n0, v0, f0) = (normals@, vertices@, faces@);
        normals.push(triangle.n);
        vertices.push(triangle.v1);
        vertices.push(triangle.v2);
        vertices.push(triangle.v3);
        faces.push([3 * i, 3 * i + 1, 3 * i + 2]);
        assert(tris[i as int] == triangle);
        proof {
            assert(normals@ == n0.push(triangle.n));
            assert(vertices@ == v0.push(triangle.v1).push(triangle.v2).push(triangle.v3));
            assert(faces@ == f0.push([(3 * i) as usize, (3 * i + 1) as usize, (3 * i + 2) as usize]));
            assert forall|k: int|
                #![trigger tris[k]]
                0 <= k < i + 1 implies {
                &&& normals@[k] == tris[k].n
                &&& vertices@[3 * k] == tris[k].v1
                &&& vertices@[3 * k + 1] == tris[k].v2
                &&& vertices@[3 * k + 2] == tris[k].v3
                &&& faces@[k] == [(3 * k) as usize, (3 * k + 1) as usize, (3 * k + 2) as usize]
            } by {
                if k < i {
                    assert(normals@[k] == n0[k] && faces@[k] == f0[k]);
                    assert(vertices@[3 * k] == v0[3 * k] && vertices@[3 * k + 1] == v0[3 * k + 1]
                        && vertices@[3 * k + 2] == v0[3 * k + 2]);
                } else {
                    assert(vertices@[3 * k] == triangle.v1);
                }
            }
        }
    }
    let mesh = Mesh { normals, vertices, faces, num_faces: num_triangles, loaded: true, processed: false };
    Ok(mesh)
}

/// The positions of first appearance of the keys of `keys`, in order, and for every key that
/// appears the number of distinct keys seen before its first appearance.
pub open spec fn first_seen(keys: Seq<u64>) -> (Seq<int>, Map<u64, usize>)
    decreases keys.len(),
{
    if keys.len() == 0 {
        (Seq::empty(), Map::empty())
    } else {
        let (firsts, slots) = first_seen(keys.drop_last());
        let k = keys.last();
        if slots.contains_key(k) {
            (firsts, slots)
        } else {
            (firsts.push(keys.len() - 1), slots.insert(k, firsts.len() as usize))
        }
    }
}

/// The position held by corner `j % 3` of face `j / 3` of `m`.
pub open spec fn corner(m: Mesh, j: int) -> [u32; 3] {
    m.vertices@[m.faces@[j / 3][j % 3] as int]
}

/// The corners of the first `num_faces` faces of `m`, three a face, in order.
pub open spec fn corners(m: Mesh) -> Seq<[u32; 3]> {
    Seq::new(3 * m.num_faces as nat, |j: int| corner(m, j))
}

/// The hashes of `corners(m)`, by which repeated positions are recognised.
pub open spec fn corner_keys(m: Mesh) -> Seq<u64> {
    corners(m).map_values(|p: [u32; 3]| point_hash(p))
}

/// Every face index of the first `num_faces` faces of `m` names a vertex of `m`.
pub open spec fn faces_in_range(m: Mesh) -> bool {
    &&& m.num_faces <= m.faces@.len()
    &&& forall|i: int, k: int|
        0 <= i < m.num_faces && 0 <= k < 3 ==> #[trigger] m.faces@[i][k] < m.vertices@.len()
}

proof fn lemma_first_seen_step(keys: Seq<u64>, j: int)
    requires
        0 <= j < keys.len(),
    ensures
        keys.take(j + 1).drop_last() == keys.take(j),
        keys.take(j + 1).last() == keys[j],
{
    assert(keys.take(j + 1).drop_last() =~= keys.take(j));
}

/// Numbering more keys never changes the number given to a key already seen.
proof fn lemma_first_seen_grows(keys: Seq<u64>, j: int)
    requires
        0 <= j <= keys.len(),
    ensures
        forall|k: u64|
            #[trigger] first_seen(keys.take(j)).1.contains_key(k) ==> first_seen(keys).1.contains_key(k)
                && first_seen(keys).1[k] == first_seen(keys.take(j)).1[k],
    decreases keys.len(),
{
    if j == keys.len() {
        assert(keys.take(j) =~= keys);
    } else {
        let d = keys.drop_last();
        assert(d.take(j) =~= keys.take(j));
        lemma_first_seen_grows(d, j);
    }
}

/// A first position lies before the end, and the numbers given are below the count of firsts.
proof fn lemma_first_seen_bounds(keys: Seq<u64>)
    ensures
        forall|s: int| 0 <= s < first_seen(keys).0.len() ==> 0 <= #[trigger] first_seen(keys).0[s] < keys.len(),
        forall|k: u64| #[trigger] first_seen(keys).1.contains_key(k) ==> first_seen(keys).1[k] < first_seen(keys).0.len(),
        first_seen(keys).0.len() <= keys.len(),
    decreases keys.len(),
{
    if keys.len() > 0 {
        lemma_first_seen_bounds(keys.drop_last());
    }
}

/// Gives the position `p` with hash `key` its number: the number of a position with the same
/// hash seen before, or else the next free number, appending `p` to `vertices`.
fn number_position(
    point_map: &mut HashMap<u64, usize>,
    vertices: &mut Vec<[u32; 3]>,
    key: u64,
    p: [u32; 3],
) -> (slot: usize)
    requires
        old(vertices)@.len() < usize::MAX,
        forall|k: u64| #[trigger] old(point_map)@.contains_key(k) ==> old(point_map)@[k] < old(vertices)@.len(),
    ensures
        old(point_map)@.contains_key(key) ==> {
            &&& slot == old(point_map)@[key]
            &&& final(point_map)@ == old(point_map)@
            &&& final(vertices)@ == old(vertices)@
        },
        !old(point_map)@.contains_key(key) ==> {
            &&& slot == old(vertices)@.len()
            &&& final(point_map)@ == old(point_map)@.insert(key, slot)
            &&& final(vertices)@ == old(vertices)@.push(p)
        },
{
    broadcast use vstd::std_specs::hash::group_hash_axioms;
    if let Some(index) = point_map.get(&key) {
        *index
    } else {
        let slot = vertices.len();
        point_map.insert(key, slot);
        vertices.push(p);
        slot
    }
}

/// Each first position is numbered by its own place in the list of firsts; every key that
/// appears is numbered, and the first position of its number holds that key.
proof fn lemma_first_seen_index(keys: Seq<u64>)
    requires
        keys.len() <= usize::MAX,
    ensures
        forall|s: int|
            0 <= s < first_seen(keys).0.len() ==> first_seen(keys).1.contains_key(
                keys[#[trigger] first_seen(keys).0[s]],
            ) && first_seen(keys).1[keys[first_seen(keys).0[s]]] == s,
        forall|k: u64|
            #[trigger] first_seen(keys).1.contains_key(k) ==> first_seen(keys).1[k] < first_seen(keys).0.len()
                && keys[first_seen(keys).0[first_seen(keys).1[k] as int]] == k,
        forall|j: int| 0 <= j < keys.len() ==> first_seen(keys).1.contains_key(#[trigger] keys[j]),
    decreases keys.len(),
{
    lemma_first_seen_bounds(keys);
    if keys.len() > 0 {
        let d = keys.drop_last();
        lemma_first_seen_index(d);
        lemma_first_seen_bounds(d);
        let (f0, s0) = first_seen(d);
        let (f1, s1) = first_seen(keys);
        let k = keys.last();
        assert(k == keys[keys.len() - 1]);
        if s0.contains_key(k) {
            assert(f1 == f0 && s1 == s0);
        } else {
            assert(f1 == f0.push(keys.len() - 1));
            assert(s1 == s0.insert(k, f0.len() as usize));
        }
        assert forall|s: int| 0 <= s < f1.len() implies s1.contains_key(keys[#[trigger] f1[s]])
            && s1[keys[f1[s]]] == s by {
            if s < f0.len() {
                assert(f1[s] == f0[s]);
                assert(keys[f0[s]] == d[f0[s]]);
                assert(s0.contains_key(d[f0[s]]));
            } else {
                assert(f1[s] == keys.len() - 1);
            }
        }
        assert forall|q: u64| #[trigger] s1.contains_key(q) implies s1[q] < f1.len()
            && keys[f1[s1[q] as int]] == q by {
            if s0.contains_key(q) {
                assert(f1[s0[q] as int] == f0[s0[q] as int]);
                assert(keys[f0[s0[q] as int]] == d[f0[s0[q] as int]]);
            }
        }
        assert forall|j: int| 0 <= j < keys.len() implies s1.contains_key(#[trigger] keys[j]) by {
            if j < d.len() {
                assert(keys[j] == d[j]);
            }
        }
    }
}

/// A merged mesh has every face index in range and no more faces than before.
proof fn lemma_merged_in_range(m: Mesh, a: Mesh)
    requires
        faces_in_range(m),
        3 * m.num_faces <= usize::MAX,
        merged_shape(m, a),
    ensures
        faces_in_range(a),
        3 * a.num_faces <= usize::MAX,
{
    let keys = corner_keys(m);
    lemma_first_seen_index(keys);
    assert forall|i: int, k: int| 0 <= i < a.num_faces && 0 <= k < 3 implies #[trigger] a.faces@[i][k]
        < a.vertices@.len() by {
        assert(keys.len() == 3 * m.num_faces);
        assert(first_seen(keys).1.contains_key(keys[3 * i + k]));
    }
}

/// Merging a merged mesh again changes nothing: from what `process_mesh` gives, `process_mesh`
/// gives the same vertices, faces, face count and flags back, and again no normals.
#[verifier::spinoff_prover]
pub proof fn law_process_mesh_is_idempotent(m: Mesh, a: Mesh, b: Mesh)
    requires
        faces_in_range(m),
        3 * m.num_faces <= usize::MAX,
        merged_from(m, a),
        merged_from(a, b),
    ensures
        b.vertices@ == a.vertices@,
        b.faces@ == a.faces@,
        b.normals@ == a.normals@,
        b.num_faces == a.num_faces,
        b.loaded == a.loaded,
        b.processed == a.processed,
{
    let n = m.num_faces as int;
    let keys = corner_keys(m);
    let pts = corners(m);
    let (f, sl) = first_seen(keys);
    lemma_first_seen_index(keys);
    lemma_first_seen_bounds(keys);
    lemma_merged_in_range(m, a);
    let ka = corner_keys(a);
    let pa = corners(a);
    assert(keys.len() == 3 * n && pts.len() == 3 * n);
    assert forall|j: int| 0 <= j < 3 * n implies #[trigger] pa[j] == pts[f[sl[keys[j]] as int]] by {
        let i = j / 3;
        let k = j % 3;
        assert(3 * i + k == j);
        assert(a.faces@[i][k] == sl[keys[3 * i + k]]);
        assert(sl.contains_key(keys[j]));
    }
    assert forall|j: int| 0 <= j < 3 * n implies #[trigger] ka[j] == keys[j] by {
        assert(sl.contains_key(keys[j]));
        let p = f[sl[keys[j]] as int];
        assert(0 <= p < keys.len());
        assert(keys[p] == point_hash(pts[p]));
        assert(pa[j] == pts[p]);
    }
    assert(ka =~= keys);
    assert forall|s: int| 0 <= s < f.len() implies #[trigger] b.vertices@[s] == a.vertices@[s] by {
        assert(sl.contains_key(keys[f[s]]) && sl[keys[f[s]]] == s);
        assert(pa[f[s]] == pts[f[sl[keys[f[s]]] as int]]);
    }
    assert(b.vertices@ =~= a.vertices@);
    assert forall|i: int| 0 <= i < n implies #[trigger] b.faces@[i] =~= a.faces@[i] by {
        assert forall|k: int| 0 <= k < 3 implies b.faces@[i][k] == a.faces@[i][k] by {
            assert(b.faces@[i][k] == sl[ka[3 * i + k]]);
        }
    }
    assert(b.faces@ =~= a.faces@);
    assert(b.normals@ =~= a.normals@);
}

/// `point_hash` tells apart every two distinct corner positions of the first `num_faces` faces
/// of `m`.
pub open spec fn hash_separates_corners(m: Mesh) -> bool {
    forall|i1: int, k1: int, i2: int, k2: int|
        0 <= i1 < m.num_faces && 0 <= k1 < 3 && 0 <= i2 < m.num_faces && 0 <= k2 < 3 && point_hash(
            #[trigger] m.vertices@[m.faces@[i1][k1] as int],
        ) == point_hash(#[trigger] m.vertices@[m.faces@[i2][k2] as int]) ==> m.vertices@[m.faces@[i1][k1] as int]
            == m.vertices@[m.faces@[i2][k2] as int]
}

/// Merging keeps the geometry: every face corner of the merged mesh stands at the position
/// the same corner had before, and where the hash tells the mesh's positions apart, two corners
/// share a vertex exactly when they stood at the same position.
#[verifier::spinoff_prover]
pub proof fn law_merging_keeps_positions(m: Mesh, out: Mesh)
    requires
        faces_in_range(m),
        3 * m.num_faces <= usize::MAX,
        merged_shape(m, out),
        hash_separates_corners(m),
    ensures
        forall|i: int, k: int|
            0 <= i < m.num_faces && 0 <= k < 3 ==> #[trigger] out.faces@[i][k] < out.vertices@.len()
                && out.vertices@[out.faces@[i][k] as int] == m.vertices@[m.faces@[i][k] as int],
        forall|i1: int, k1: int, i2: int, k2: int|
            0 <= i1 < m.num_faces && 0 <= k1 < 3 && 0 <= i2 < m.num_faces && 0 <= k2 < 3 ==> (
            #[trigger] out.faces@[i1][k1] == #[trigger] out.faces@[i2][k2] <==> m.vertices@[m.faces@[i1][k1] as int]
                == m.vertices@[m.faces@[i2][k2] as int]),
{
    let n = m.num_faces as int;
    let keys = corner_keys(m);
    let pts = corners(m);
    let (f, sl) = first_seen(keys);
    lemma_first_seen_index(keys);
    lemma_first_seen_bounds(keys);
    assert(keys.len() == 3 * n && pts.len() == 3 * n);
    assert forall|i: int, k: int| 0 <= i < n && 0 <= k < 3 implies pts[3 * i + k] == m.vertices@[m.faces@[i][k] as int]
        && keys[3 * i + k] == point_hash(m.vertices@[m.faces@[i][k] as int]) by {
        let j = 3 * i + k;
        assert(j / 3 == i && j % 3 == k);
    }
    assert forall|i: int, k: int|
        0 <= i < n && 0 <= k < 3 implies #[trigger] out.faces@[i][k] < out.vertices@.len()
            && out.vertices@[out.faces@[i][k] as int] == m.vertices@[m.faces@[i][k] as int] by {
        let j = 3 * i + k;
        assert(pts[j] == m.vertices@[m.faces@[i][k] as int]);
        assert(sl.contains_key(keys[j]));
        let p = f[sl[keys[j]] as int];
        assert(0 <= p < 3 * n);
        let ip = p / 3;
        let kp = p % 3;
        assert(3 * ip + kp == p && 0 <= ip < n && 0 <= kp < 3);
        assert(pts[p] == m.vertices@[m.faces@[ip][kp] as int]);
        assert(keys[p] == keys[j]);
        assert(point_hash(m.vertices@[m.faces@[ip][kp] as int]) == point_hash(m.vertices@[m.faces@[i][k] as int]));
        assert(out.vertices@[out.faces@[i][k] as int] == pts[p]);
    }
    assert forall|i1: int, k1: int, i2: int, k2: int|
        0 <= i1 < n && 0 <= k1 < 3 && 0 <= i2 < n && 0 <= k2 < 3 implies (#[trigger] out.faces@[i1][k1]
            == #[trigger] out.faces@[i2][k2] <==> m.vertices@[m.faces@[i1][k1] as int]
            == m.vertices@[m.faces@[i2][k2] as int]) by {
        let j1 = 3 * i1 + k1;
        let j2 = 3 * i2 + k2;
        assert(pts[j1] == m.vertices@[m.faces@[i1][k1] as int]);
        assert(pts[j2] == m.vertices@[m.faces@[i2][k2] as int]);
        assert(sl.contains_key(keys[j1]) && sl.contains_key(keys[j2]));
        if out.faces@[i1][k1] == out.faces@[i2][k2] {
            assert(keys[f[sl[keys[j1]] as int]] == keys[j1]);
            assert(keys[j1] == keys[j2]);
        }
    }
}

/// `out` is `mesh` with the vertices of its first `num_faces` faces merged by hash: each
/// distinct hash keeps the first position that had it, in order of first appearance, and every
/// face corner is renumbered to the position kept for its hash. There are no normals; the face
/// count and the `loaded` and `processed` flags are carried over.
pub open spec fn merged_from(mesh: Mesh, out: Mesh) -> bool {
    &&& merged_shape(mesh, out)
    &&& out.processed == mesh.processed
}

/// `out` has the vertices, faces, normals, face count and `loaded` flag that merging `mesh`
/// by hash gives (see `merged_from`), whatever its `processed` flag.
pub open spec fn merged_shape(mesh: Mesh, out: Mesh) -> bool {
    let keys = corner_keys(mesh);
    let (firsts, slots) = first_seen(keys);
    &&& out.vertices@ == firsts.map_values(|j: int| corners(mesh)[j])
    &&& out.faces@.len() == mesh.num_faces
    &&& forall|i: int, k: int|
        0 <= i < mesh.num_faces && 0 <= k < 3 ==> #[trigger] out.faces@[i][k] == slots[keys[3 * i + k]]
    &&& out.normals@.len() == 0
    &&& out.num_faces == mesh.num_faces
    &&& out.loaded == mesh.loaded
}

/// Merges the vertices of the first `num_faces` faces of `mesh` that have the same hash (see
/// `merged_from`). The normals are not carried over. The merged mesh again has every face
/// index in range, so it can be merged once more.
#[verifier::spinoff_prover]
pub fn process_mesh(mesh: &Mesh) -> (r: Result<Mesh, String>)
    requires
        faces_in_range(*mesh),
        3 * mesh.num_faces <= usize::MAX,
    ensures
        r matches Ok(out) && merged_from(*mesh, out) && faces_in_range(out),
{
    broadcast use vstd::std_specs::hash::group_hash_axioms;
    let ghost keys = corner_keys(*mesh);
    let ghost pts = corners(*mesh);
    let mut temp_mesh = Mesh::e_new();
    let mut point_map: HashMap<u64, usize> = HashMap::new();
    let n = mesh.num_faces as usize;
    assert(first_seen(keys.take(0)) == (Seq::<int>::empty(), Map::<u64, usize>::empty())) by {
        assert(keys.take(0).len() == 0);
    }
    for i in 0..n
        invariant
            n == mesh.num_faces,
            3 * n <= usize::MAX,
            faces_in_range(*mesh),
            keys == corner_keys(*mesh),
            pts == corners(*mesh),
            keys.len() == 3 * n,
            temp_mesh.faces@.len() == i,
            temp_mesh.normals@.len() == 0,
            temp_mesh.vertices@ == first_seen(keys.take(3 * i)).0.map_values(|j: int| pts[j]),
            point_map@ == first_seen(keys.take(3 * i)).1,
            forall|f: int, k: int|
                0 <= f < i && 0 <= k < 3 ==> #[trigger] temp_mesh.faces@[f][k] == first_seen(
                    keys.take(3 * i),
                ).1[keys[3 * f + k]],
            forall|f: int, k: int|
                0 <= f < i && 0 <= k < 3 ==> first_seen(keys.take(3 * i)).1.contains_key(#[trigger] keys[3 * f + k]),
    {
        let face = mesh.faces[i];
        let mut f: [usize; 3] = [0, 0, 0];
        let ghost before = first_seen(keys.take(3 * i));
        let ghost faces_before = temp_mesh.faces@;
        let mut k: usize = 0;
        while k < 3
            invariant
                0 <= k <= 3,
                i < n,
                n == mesh.num_faces,
                3 * n <= usize::MAX,
                face == mesh.faces@[i as int],
                faces_in_range(*mesh),
                keys == corner_keys(*mesh),
                pts == corners(*mesh),
                keys.len() == 3 * n,
                before == first_seen(keys.take(3 * i)),
                temp_mesh.faces@ == faces_before,
                temp_mesh.normals@.len() == 0,
                temp_mesh.vertices@ == first_seen(keys.take(3 * i + k)).0.map_values(|j: int| pts[j]),
                point_map@ == first_seen(keys.take(3 * i + k)).1,
                forall|q: int| 0 <= q < k ==> #[trigger] f[q] == first_seen(keys.take(3 * i + k)).1[keys[3 * i + q]],
                forall|q: int| 0 <= q < k ==> first_seen(keys.take(3 * i + k)).1.contains_key(#[trigger] keys[3 * i + q]),
                forall|g: u64| #[trigger] before.1.contains_key(g) ==> first_seen(keys.take(3 * i + k)).1.contains_key(g)
                    && first_seen(keys.take(3 * i + k)).1[g] == before.1[g],
            decreases 3 - k,
        {
            let j = 3 * i + k;
            assert(j / 3 == i && j % 3 == k);
            let p = mesh.vertices[face[k]];
            assert(p == pts[j as int]);
            let key = hash_point(&p);
            assert(key == keys[j as int]);
            proof {
                lemma_first_seen_step(keys, j as int);
                lemma_first_seen_bounds(keys.take(j as int));
                assert(keys.take(j as int).len() == j);
            }
            assert(temp_mesh.vertices@.len() < usize::MAX);
            let slot = number_position(&mut point_map, &mut temp_mesh.vertices, key, p);
            f[k] = slot;
            proof {
                let prev = first_seen(keys.take(j as int));
                let next = first_seen(keys.take(j + 1));
                assert(next.1.contains_key(keys[j as int]));
                assert(next.1[keys[j as int]] == slot);
                assert forall|g: u64| #[trigger] prev.1.contains_key(g) implies next.1.contains_key(g) && next.1[g] == prev.1[g] by {}
                assert(temp_mesh.vertices@ =~= next.0.map_values(|j: int| pts[j]));
            }
            k = k + 1;
        }
        temp_mesh.faces.push(f);
        proof {
            assert forall|ff: int, kk: int|
                0 <= ff < i + 1 && 0 <= kk < 3 implies #[trigger] temp_mesh.faces@[ff][kk] == first_seen(
                    keys.take(3 * (i + 1)),
                ).1[keys[3 * ff + kk]] by {
                if ff == i {
                    assert(temp_mesh.faces@[ff] == f);
                    assert(f[kk] == first_seen(keys.take(3 * i + 3)).1[keys[3 * i + kk]]);
                } else {
                    assert(before.1.contains_key(keys[3 * ff + kk]));
                }
            }
            assert forall|ff: int, kk: int|
                0 <= ff < i + 1 && 0 <= kk < 3 implies first_seen(keys.take(3 * (i + 1))).1.contains_key(#[trigger] keys[3 * ff + kk]) by {
                if ff < i {
                    assert(before.1.contains_key(keys[3 * ff + kk]));
                }
            }
        }
    }
    proof {
        assert(keys.take(3 * n) =~= keys);
    }
    temp_mesh.loaded = mesh.loaded;
    temp_mesh.num_faces = mesh.num_faces;
    temp_mesh.processed = mesh.processed;
    proof {
        lemma_merged_in_range(*mesh, temp_mesh);
    }
    Ok(temp_mesh)
}

/// Processes one entry of a mesh list: the mesh is replaced by its merged form (see
/// `merged_from`), or by an empty mesh should merging fail, and is marked processed.
pub fn process_entry(mesh: &mut Mesh)
    requires
        faces_in_range(*old(mesh)),
        3 * old(mesh).num_faces <= usize::MAX,
    ensures
        merged_shape(*old(mesh), *final(mesh)),
        final(mesh).processed,
        faces_in_range(*final(mesh)),
{
    let mut result = match process_mesh(mesh) {
        Ok(m) => m,
        Err(_) => Mesh::e_new(),
    };
    result.processed = true;
    *mesh = result;
}

/// Settles one entry of a mesh list after its file was read and parsed: the parsed mesh, or an
/// empty mesh where parsing failed, marked loaded.
pub fn loaded_entry(parsed: Result<Mesh, String>) -> (r: Mesh)
    ensures
        r.loaded,
        parsed matches Ok(m) ==> r.normals@ == m.normals@ && r.vertices@ == m.vertices@
            && r.faces@ == m.faces@ && r.num_faces == m.num_faces && r.processed == m.processed,
        parsed is Err ==> r.normals@.len() == 0 && r.vertices@.len() == 0 && r.faces@.len() == 0
            && r.num_faces == 0 && !r.processed,
{
    let mut result = match parsed {
        Ok(m) => m,
        Err(_) => Mesh::e_new(),
    };
    result.loaded = true;
    result
}

/// The first entry of a list of `len` meshes that processing on `threads` threads reaches when
/// asked to start at `start_idx`: with fewer meshes than threads every mesh gets a thread of
/// its own and the entries before `start_idx` are skipped; otherwise the list is cut into
/// chunks of `len / threads` meshes and every chunk is processed whole, from the first entry.
pub fn first_entry_to_process(len: usize, threads: usize, start_idx: usize) -> (r: usize)
    requires
        threads > 0,
    ensures
        r == (if len / threads == 0 { start_idx } else { 0 }),
{
    if len / threads == 0 {
        start_idx
    } else {
        0
    }
}

/// The number of meshes in each chunk when `len` meshes are shared out over `threads` threads:
/// `len / threads`, rounded up.
pub fn load_chunk_size(len: usize, threads: usize) -> (r: usize)
    requires
        threads > 0,
        len + threads - 1 <= usize::MAX,
    ensures
        r == (len + threads - 1) / threads as int,
{
    (len + (threads - 1)) / threads
}

/// The first entry that loading reaches when the list of `len` entries is cut into chunks of
/// `chunk_size` and the first `start_chunk` chunks are skipped: `start_chunk * chunk_size`, or
/// `len` when no chunk is left.
pub fn first_entry_to_load(len: usize, chunk_size: usize, start_chunk: usize) -> (r: usize)
    requires
        chunk_size > 0,
    ensures
        r == (if start_chunk * chunk_size < len { start_chunk * chunk_size } else { len as int }),
{
    let q = len / chunk_size;
    let rm = len % chunk_size;
    proof {
        lemma_fundamental_div_mod(len as int, chunk_size as int);
    }
    if start_chunk < q || (start_chunk == q && rm > 0) {
        proof {
            assert(start_chunk * chunk_size < len) by (nonlinear_arith)
                requires
                    start_chunk < q || (start_chunk == q && rm > 0),
                    chunk_size > 0,
                    len == chunk_size * q + rm,
                    0 <= rm < chunk_size,
            ;
        }
        start_chunk * chunk_size
    } else {
        proof {
            assert(start_chunk * chunk_size >= len) by (nonlinear_arith)
                requires
                    !(start_chunk < q || (start_chunk == q && rm > 0)),
                    chunk_size > 0,
                    len == chunk_size * q + rm,
                    0 <= rm < chunk_size,
            ;
        }
        len
    }
}

/// Index `a` goes before index `b` when ordering by face count from most to fewest, ties
/// keeping the order they came in.
pub open spec fn goes_before(keys: Seq<u32>, a: int, b: int) -> bool {
    keys[a] > keys[b] || (keys[a] == keys[b] && a < b)
}

/// `order` lists every index of `keys` once, from most faces to fewest, and indices with equal
/// face counts in the order they came in: the order a stable sort by descending count gives.
pub open spec fn by_faces_desc(keys: Seq<u32>, order: Seq<int>) -> bool {
    &&& order.len() == keys.len()
    &&& forall|k: int| 0 <= k < order.len() ==> 0 <= #[trigger] order[k] < keys.len()
    &&& forall|k1: int, k2: int|
        0 <= k1 < k2 < order.len() ==> goes_before(keys, #[trigger] order[k1], #[trigger] order[k2])
}

/// An order by face count lists every index exactly once, never puts a mesh with fewer faces
/// before one with more, and keeps meshes with equal face counts in the order they came in.
pub proof fn law_sorted_order_descends(keys: Seq<u32>, order: Seq<int>)
    requires
        by_faces_desc(keys, order),
    ensures
        forall|a: int, b: int|
            0 <= a < b < order.len() ==> keys[#[trigger] order[a]] >= keys[#[trigger] order[b]] && (
            keys[order[a]] == keys[order[b]] ==> order[a] < order[b]),
        order.no_duplicates(),
        forall|x: int| 0 <= x < keys.len() ==> #[trigger] order.contains(x),
{
    assert forall|a: int, b: int| 0 <= a < order.len() && 0 <= b < order.len() && a != b implies
        #[trigger] order[a] != #[trigger] order[b] by {
        if a < b {
            assert(goes_before(keys, order[a], order[b]));
        } else {
            assert(goes_before(keys, order[b], order[a]));
        }
    }
    lemma_distinct_indices_cover(order, keys.len() as int);
}

/// `order` lists the indices `0..i` of `keys` in the stable descending order.
spec fn sorted_prefix(keys: Seq<u32>, order: Seq<int>, i: int) -> bool {
    &&& order.len() == i
    &&& forall|k: int| 0 <= k < order.len() ==> 0 <= #[trigger] order[k] < i
    &&& forall|k1: int, k2: int|
        0 <= k1 < k2 < order.len() ==> goes_before(keys, #[trigger] order[k1], #[trigger] order[k2])
}

/// The indices of `keys`, stably sorted from the largest key to the smallest.
pub fn faces_desc_order(keys: &Vec<u32>) -> (order: Vec<usize>)
    ensures
        by_faces_desc(keys@, order@.map_values(|x: usize| x as int)),
{
    let n = keys.len();
    let mut order: Vec<usize> = Vec::new();
    for i in 0..n
        invariant
            n == keys@.len(),
            sorted_prefix(keys@, order@.map_values(|x: usize| x as int), i as int),
    {
        let ghost o = order@.map_values(|x: usize| x as int);
        assert forall|q: int| 0 <= q < order@.len() implies #[trigger] order@[q] < n by {
            assert(o[q] == order@[q]);
        }
        let mut p: usize = 0;
        while p < order.len() && keys[order[p]] >= keys[i]
            invariant
                p <= order@.len(),
                i < n,
                n == keys@.len(),
                o == order@.map_values(|x: usize| x as int),
                sorted_prefix(keys@, o, i as int),
                forall|q: int| 0 <= q < order@.len() ==> #[trigger] order@[q] < n,
                forall|q: int| 0 <= q < p ==> keys@[#[trigger] o[q]] >= keys@[i as int],
            decreases order@.len() - p,
        {
            p = p + 1;
        }
        proof {
            if p < order@.len() {
                assert(keys@[o[p as int]] < keys@[i as int]);
                assert forall|q: int| p <= q < o.len() implies keys@[#[trigger] o[q]] < keys@[i as int] by {
                    if q > p {
                        assert(goes_before(keys@, o[p as int], o[q]));
                    }
                }
            }
        }
        order.insert(p, i);
        proof {
            let o2 = order@.map_values(|x: usize| x as int);
            assert(o2 =~= o.insert(p as int, i as int));
            assert forall|k1: int, k2: int|
                0 <= k1 < k2 < o2.len() implies goes_before(keys@, #[trigger] o2[k1], #[trigger] o2[k2]) by {
                if k1 < p && k2 < p {
                    assert(o2[k1] == o[k1] && o2[k2] == o[k2]);
                } else if k1 < p && k2 == p {
                    assert(o2[k1] == o[k1]);
                } else if k1 < p {
                    assert(o2[k1] == o[k1] && o2[k2] == o[k2 - 1]);
                } else if k1 == p {
                    assert(o2[k2] == o[k2 - 1]);
                } else {
                    assert(o2[k1] == o[k1 - 1] && o2[k2] == o[k2 - 1]);
                }
            }
        }
    }
    order
}

/// The indices that thread `i` of `t` is dealt when `n` meshes are shared out: in round `j`
/// (for each of the `n / t` full rounds) index `i + j*t` when `j` is even and `(j + 1)*t - i - 1`
/// when `j` is odd, so that the rounds alternate direction; then, if `i < n % t`, the leftover
/// index `t*(n / t) + i`.
pub open spec fn thread_share(n: int, t: int, i: int) -> Seq<int> {
    Seq::new((n / t) as nat, |j: int| if j % 2 == 0 { i + j * t } else { (j + 1) * t - i - 1 })
        + if i < n % t {
        seq![t * (n / t) + i]
    } else {
        Seq::<int>::empty()
    }
}

/// How meshes are dealt to `t` threads: in the first round thread `i` gets index `i`; each full
/// round `j` deals the block `j*t .. (j+1)*t`, one index per thread; in each next round every
/// thread gets the index mirrored from its last one within the block (so the two add up to
/// `2*(j+1)*t - 1` and the rounds snake back and forth); the `n % t` leftover indices go to the
/// first threads in order.
pub proof fn law_dealing_snakes(n: int, t: int, i: int)
    requires
        0 < t,
        0 <= n,
        0 <= i < t,
    ensures
        ({
            let sh = thread_share(n, t, i);
            let rounds = n / t;
            &&& sh.len() == rounds + if i < n % t { 1int } else { 0int }
            &&& rounds > 0 ==> sh[0] == i
            &&& forall|j: int| 0 <= j < rounds ==> j * t <= #[trigger] sh[j] < (j + 1) * t
            &&& forall|j: int| 0 <= j < rounds - 1 ==> #[trigger] sh[j] + sh[j + 1] == 2 * (j + 1) * t - 1
            &&& i < n % t ==> sh[rounds] == t * rounds + i
        }),
{
    let sh = thread_share(n, t, i);
    let rounds = n / t;
    assert forall|j: int| 0 <= j < rounds implies j * t <= #[trigger] sh[j] < (j + 1) * t by {
        assert(sh[j] == if j % 2 == 0 { i + j * t } else { (j + 1) * t - i - 1 });
        assert((j + 1) * t == j * t + t) by (nonlinear_arith);
    }
    assert forall|j: int| 0 <= j < rounds - 1 implies #[trigger] sh[j] + sh[j + 1] == 2 * (j + 1) * t - 1 by {
        assert(sh[j] == if j % 2 == 0 { i + j * t } else { (j + 1) * t - i - 1 });
        assert(sh[j + 1] == if (j + 1) % 2 == 0 { i + (j + 1) * t } else { (j + 2) * t - i - 1 });
        assert((j + 1) * t == j * t + t && (j + 2) * t == j * t + 2 * t && 2 * (j + 1) * t == 2 * (j * t)
            + 2 * t) by (nonlinear_arith);
    }
}

/// The shares of the `t` threads, one after another.
pub open spec fn thread_order(n: int, t: int) -> Seq<int> {
    Seq::new(t as nat, |i: int| thread_share(n, t, i)).flatten()
}

/// The thread that is dealt index `v` in round `v / t` (of the full rounds).
spec fn dealt_to(t: int, v: int) -> int {
    if (v / t) % 2 == 0 {
        v % t
    } else {
        t - 1 - v % t
    }
}

/// Index `v` has already been dealt once threads `0..i` are done and thread `i` has had
/// `j` full rounds.
spec fn dealt_before(n: int, t: int, i: int, j: int, v: int) -> bool {
    if v < t * (n / t) {
        dealt_to(t, v) < i || (dealt_to(t, v) == i && v / t < j)
    } else {
        v - t * (n / t) < i
    }
}

proof fn lemma_round_value(n: int, t: int, i: int, j: int)
    requires
        t > 0,
        0 <= i < t,
        0 <= j < n / t,
    ensures
        ({
            let v = if j % 2 == 0 { i + j * t } else { (j + 1) * t - i - 1 };
            &&& 0 <= v < t * (n / t)
            &&& v / t == j
            &&& dealt_to(t, v) == i
        }),
{
    let v = if j % 2 == 0 { i + j * t } else { (j + 1) * t - i - 1 };
    if j % 2 == 0 {
        lemma_fundamental_div_mod_converse(v, t, j, i);
    } else {
        assert((j + 1) * t - i - 1 == j * t + (t - 1 - i)) by (nonlinear_arith);
        lemma_fundamental_div_mod_converse(v, t, j, t - 1 - i);
    }
    assert(j * t + t <= t * (n / t)) by (nonlinear_arith)
        requires
            j + 1 <= n / t,
            t > 0,
    ;
}

/// The order in which `n` meshes are dealt to `t` threads, as one list.
fn dealing_order(n: usize, t: usize) -> (r: Vec<usize>)
    requires
        t > 0,
    ensures
        r@.map_values(|x: usize| x as int) == thread_order(n as int, t as int),
        r@.len() == n,
        forall|k: int| 0 <= k < r@.len() ==> #[trigger] r@[k] < n,
        r@.no_duplicates(),
{
    let chunk_size = n / t;
    let extra = n % t;
    let ghost shares = Seq::new(t as nat, |i: int| thread_share(n as int, t as int, i));
    assert(t * chunk_size + extra == n) by {
        vstd::arithmetic::div_mod::lemma_fundamental_div_mod(n as int, t as int);
    }
    assert(t * chunk_size <= n);
    let mut r: Vec<usize> = Vec::new();
    let mut i: usize = 0;
    while i < t
        invariant
            0 <= i <= t,
            chunk_size == n / t,
            extra == n % t,
            t * chunk_size + extra == n,
            shares == Seq::new(t as nat, |i: int| thread_share(n as int, t as int, i)),
            r@.map_values(|x: usize| x as int) == shares.take(i as int).flatten_alt(),
            r@.len() == i * chunk_size + if i < extra { i as int } else { extra as int },
            forall|k: int| 0 <= k < r@.len() ==> #[trigger] r@[k] < n,
            forall|k: int| 0 <= k < r@.len() ==> dealt_before(n as int, t as int, i as int, 0, #[trigger] r@[k] as int),
            r@.no_duplicates(),
        decreases t - i,
    {
        let ghost before = r@.map_values(|x: usize| x as int);
        let ghost len_before = r@.len();
        let mut j: usize = 0;
        let mut reverse = false;
        while j < chunk_size
            invariant
                0 <= i < t,
                0 <= j <= chunk_size,
                chunk_size == n / t,
                extra == n % t,
                t * chunk_size + extra == n,
                reverse == (j % 2 == 1),
                r@.len() == len_before + j,
                r@.map_values(|x: usize| x as int) == before + Seq::new(j as nat, |q: int| if q % 2 == 0 { i + q * t } else { (q + 1) * t - i - 1 }),
                forall|k: int| 0 <= k < r@.len() ==> #[trigger] r@[k] < n,
                forall|k: int| 0 <= k < r@.len() ==> dealt_before(n as int, t as int, i as int, j as int, #[trigger] r@[k] as int),
                r@.no_duplicates(),
            decreases chunk_size - j,
        {
            proof {
                lemma_round_value(n as int, t as int, i as int, j as int);
                assert((j + 1) * t <= n) by (nonlinear_arith)
                    requires
                        j < chunk_size,
                        t * chunk_size <= n,
                ;
                assert(j * t <= (j + 1) * t) by (nonlinear_arith);
            }
            let v = if !reverse {
                i + j * t
            } else {
                (j + 1) * t - i - 1
            };
            proof {
                assert(!dealt_before(n as int, t as int, i as int, j as int, v as int));
                assert forall|k: int| 0 <= k < r@.len() implies r@[k] != v by {
                    assert(dealt_before(n as int, t as int, i as int, j as int, r@[k] as int));
                }
            }
            assert(v as int == if j % 2 == 0 { i + j * t } else { (j + 1) * t - i - 1 });
            let ghost old_r = r@;
            r.push(v);
            proof {
                assert forall|k: int| 0 <= k < r@.len() implies dealt_before(n as int, t as int, i as int, j + 1, #[trigger] r@[k] as int) by {
                    if k < old_r.len() {
                        assert(dealt_before(n as int, t as int, i as int, j as int, old_r[k] as int));
                    }
                }
                let g = |q: int| if q % 2 == 0 { i + q * t } else { (q + 1) * t - i - 1 };
                assert(r@.map_values(|x: usize| x as int) =~= old_r.map_values(|x: usize| x as int).push(v as int));
                assert(Seq::new((j + 1) as nat, g) =~= Seq::new(j as nat, g).push(g(j as int)));
                assert(r@.map_values(|x: usize| x as int) =~= before + Seq::new((j + 1) as nat, g));
            }
            reverse = !reverse;
            j = j + 1;
        }
        let ghost after_rounds = r@;
        if i < extra {
            let v = t * chunk_size + i;
            proof {
                assert forall|k: int| 0 <= k < r@.len() implies r@[k] != v by {
                    assert(dealt_before(n as int, t as int, i as int, chunk_size as int, r@[k] as int));
                }
            }
            r.push(v);
        }
        proof {
            let rounds = Seq::new(chunk_size as nat, |q: int| if q % 2 == 0 { i + q * t } else { (q + 1) * t - i - 1 });
            assert(thread_share(n as int, t as int, i as int) =~= rounds + if i < extra {
                seq![t * chunk_size + i]
            } else {
                Seq::<int>::empty()
            });
            assert(shares.take(i + 1).drop_last() =~= shares.take(i as int));
            assert(shares.take(i + 1).last() == thread_share(n as int, t as int, i as int));
            assert(after_rounds.map_values(|x: usize| x as int) =~= before + rounds);
            if i < extra {
                assert(r@.map_values(|x: usize| x as int) =~= after_rounds.map_values(|x: usize| x as int).push(t * chunk_size + i));
            }
            assert(r@.map_values(|x: usize| x as int) =~= before + thread_share(n as int, t as int, i as int));
            assert(shares.take(i + 1).flatten_alt() == shares.take(i + 1).drop_last().flatten_alt() + shares.take(i + 1).last());
            assert(r@.map_values(|x: usize| x as int) =~= shares.take(i + 1).flatten_alt());
            assert forall|k: int| 0 <= k < r@.len() implies dealt_before(n as int, t as int, i + 1, 0, #[trigger] r@[k] as int) by {
                let v = r@[k] as int;
                if v < t * chunk_size {
                    vstd::arithmetic::div_mod::lemma_div_pos_is_pos(v, t as int);
                    assert(v / (t as int) < chunk_size) by {
                        vstd::arithmetic::div_mod::lemma_div_is_ordered(v, t * chunk_size - 1, t as int);
                        assert(chunk_size >= 1 && t * chunk_size - 1 == (chunk_size - 1) * t + (t - 1)) by (nonlinear_arith)
                            requires
                                0 <= v < t * chunk_size,
                                t > 0,
                        ;
                        assert((t * chunk_size - 1) / (t as int) < chunk_size) by {
                            vstd::arithmetic::div_mod::lemma_fundamental_div_mod_converse(t * chunk_size - 1, t as int, chunk_size - 1, t - 1);
                        }
                    }
                }
            }
        }
        assert((i + 1) * chunk_size == i * chunk_size + chunk_size) by (nonlinear_arith);
        i = i + 1;
    }
    proof {
        assert(shares.take(t as int) =~= shares);
        shares.lemma_flatten_and_flatten_alt_are_equivalent();
    }
    r
}

/// A list of `n` distinct indices below `n` holds every index below `n`.
pub proof fn lemma_distinct_indices_cover(o: Seq<int>, n: int)
    requires
        o.len() == n,
        forall|k: int| 0 <= k < o.len() ==> 0 <= #[trigger] o[k] < n,
        o.no_duplicates(),
    ensures
        forall|v: int| 0 <= v < n ==> #[trigger] o.contains(v),
{
    broadcast use vstd::seq_lib::seq_to_set_is_finite;
    o.unique_seq_to_set();
    vstd::set_lib::lemma_int_range(0, n);
    let r = vstd::set_lib::set_int_range(0, n);
    assert(o.to_set().subset_of(r));
    vstd::set_lib::lemma_subset_equality(o.to_set(), r);
    assert forall|v: int| 0 <= v < n implies #[trigger] o.contains(v) by {
        assert(r.contains(v));
        assert(o.to_set().contains(v));
    }
}

/// The stable descending order by face count is unique: two lists that both are it are equal.
pub proof fn lemma_by_faces_desc_unique(keys: Seq<u32>, o1: Seq<int>, o2: Seq<int>)
    requires
        by_faces_desc(keys, o1),
        by_faces_desc(keys, o2),
    ensures
        o1 == o2,
{
    let n = keys.len() as int;
    assert(o1.no_duplicates()) by {
        assert forall|a: int, b: int| 0 <= a < o1.len() && 0 <= b < o1.len() && a != b implies o1[a] != o1[b] by {
            if a < b {
                assert(goes_before(keys, o1[a], o1[b]));
            } else {
                assert(goes_before(keys, o1[b], o1[a]));
            }
        }
    }
    assert(o2.no_duplicates()) by {
        assert forall|a: int, b: int| 0 <= a < o2.len() && 0 <= b < o2.len() && a != b implies o2[a] != o2[b] by {
            if a < b {
                assert(goes_before(keys, o2[a], o2[b]));
            } else {
                assert(goes_before(keys, o2[b], o2[a]));
            }
        }
    }
    lemma_distinct_indices_cover(o1, n);
    lemma_distinct_indices_cover(o2, n);
    if n > 0 {
        lemma_same_prefix(keys, o1, o2, n - 1);
    }
    assert(o1 =~= o2);
}

proof fn lemma_same_prefix(keys: Seq<u32>, o1: Seq<int>, o2: Seq<int>, k: int)
    requires
        by_faces_desc(keys, o1),
        by_faces_desc(keys, o2),
        o1.no_duplicates(),
        o2.no_duplicates(),
        forall|v: int| 0 <= v < keys.len() ==> #[trigger] o1.contains(v),
        forall|v: int| 0 <= v < keys.len() ==> #[trigger] o2.contains(v),
        0 <= k < keys.len(),
    ensures
        forall|q: int| 0 <= q <= k ==> o1[q] == o2[q],
    decreases k,
{
    if k > 0 {
        lemma_same_prefix(keys, o1, o2, k - 1);
    }
    if o1[k] != o2[k] {
        let a = o2[k];
        let b = o1[k];
        assert(o1.contains(a));
        let k1 = choose|k1: int| 0 <= k1 < o1.len() && o1[k1] == a;
        assert(o2.contains(b));
        let k2 = choose|k2: int| 0 <= k2 < o2.len() && o2[k2] == b;
        if k1 < k {
            assert(o2[k1] == a);
        }
        if k2 < k {
            assert(o1[k2] == b);
        }
        assert(goes_before(keys, o1[k], o1[k1]));
        assert(goes_before(keys, o2[k], o2[k2]));
    }
}

/// Puts `items` in the order `perm`: afterwards position `k` holds what position `perm[k]`
/// held before.
fn arrange<T>(items: &mut Vec<T>, perm: &Vec<usize>)
    requires
        perm@.len() == old(items)@.len(),
        forall|k: int| 0 <= k < perm@.len() ==> #[trigger] perm@[k] < perm@.len(),
        perm@.no_duplicates(),
    ensures
        final(items)@.len() == old(items)@.len(),
        forall|k: int| 0 <= k < perm@.len() ==> #[trigger] final(items)@[k] == old(items)@[perm@[k] as int],
        final(items)@.to_multiset() == old(items)@.to_multiset(),
{
    let n = items.len();
    let mut at: Vec<usize> = Vec::new();
    let mut pos: Vec<usize> = Vec::new();
    for p in 0..n
        invariant
            at@.len() == p,
            pos@.len() == p,
            forall|q: int| 0 <= q < p ==> #[trigger] at@[q] == q,
            forall|q: int| 0 <= q < p ==> #[trigger] pos@[q] == q,
    {
        at.push(p);
        pos.push(p);
    }
    assert forall|p: int| 0 <= p < n implies #[trigger] at@[p] < n && pos@[at@[p] as int] == p by {
        assert(at@[p] == p);
        assert(pos@[p] == p);
    }
    assert forall|x: int| 0 <= x < n implies #[trigger] pos@[x] < n && at@[pos@[x] as int] == x by {
        assert(at@[x] == x);
        assert(pos@[x] == x);
    }
    for k in 0..n
        invariant
            n == items@.len(),
            n == perm@.len(),
            forall|q: int| 0 <= q < n ==> #[trigger] perm@[q] < n,
            perm@.no_duplicates(),
            at@.len() == n,
            pos@.len() == n,
            forall|p: int| 0 <= p < n ==> #[trigger] at@[p] < n && pos@[at@[p] as int] == p,
            forall|x: int| 0 <= x < n ==> #[trigger] pos@[x] < n && at@[pos@[x] as int] == x,
            forall|p: int| 0 <= p < n ==> #[trigger] items@[p] == old(items)@[at@[p] as int],
            forall|q: int| 0 <= q < k ==> #[trigger] at@[q] == perm@[q],
            items@.to_multiset() == old(items)@.to_multiset(),
    {
        let x = perm[k];
        let j = pos[x];
        proof {
            if j < k {
                assert(at@[j as int] == perm@[j as int]);
                assert(perm@[j as int] == perm@[k as int]);
            }
        }
        let y = at[k];
        let ghost it = items@;
        proof {
            crate::utils::lemma_swap_keeps_items(it, k as int, j as int);
        }
        swap_items(items, k, j);
        at.set(k, x);
        at.set(j, y);
        pos.set(y, j);
        pos.set(x, k);
        proof {
            assert forall|p: int| 0 <= p < n implies #[trigger] items@[p] == old(items)@[at@[p] as int] by {
                if p == k || p == j {
                } else {
                    assert(items@[p] == it[p]);
                }
            }
        }
    }
}

/// The most threads a rayon thread pool supports on this target: `(1 << 16) - 1` where
/// pointers are 64 bits wide and `(1 << 8) - 1` where they are 32 bits wide.
pub open spec fn max_pool_threads() -> int {
    if usize::BITS == 64 {
        65535
    } else {
        255
    }
}

/// The most threads a rayon thread pool supports (`rayon::max_num_threads`). In the version
/// used it is `(1 << 16) - 1` on 64-bit targets and `(1 << 8) - 1` on 32-bit ones.
#[verifier::external_body]
fn max_threads() -> (r: usize)
    ensures
        usize::BITS == 64 ==> r == 65535,
        usize::BITS == 32 ==> r == 255,
{
    rayon::max_num_threads()
}

/// The face counts of `meshes`, in order.
pub open spec fn face_counts<P>(meshes: Seq<(P, Mesh)>) -> Seq<u32> {
    meshes.map_values(|e: (P, Mesh)| e.1.num_faces)
}

/// `after` holds the meshes of `before`, sorted by descending face count and then dealt out to
/// `threads` threads: position `k` holds the mesh at position `thread_order[k]` of the sorted list.
pub open spec fn arranged_for_threads<P>(before: Seq<(P, Mesh)>, after: Seq<(P, Mesh)>, threads: int) -> bool {
    exists|order: Seq<int>|
        {
            &&& by_faces_desc(face_counts(before), order)
            &&& after.len() == before.len()
            &&& forall|k: int|
                0 <= k < after.len() ==> #[trigger] after[k] == before[order[thread_order(
                    before.len() as int,
                    threads,
                )[k]]]
        }
}

/// Sorts `meshes` from most faces to fewest (equal counts keep their order) and then lays them
/// out as they are dealt to `threads` threads, each thread's share after the previous one's.
pub fn arrange_meshes<P>(meshes: &mut Vec<(P, Mesh)>, threads: usize)
    requires
        threads > 0,
    ensures
        arranged_for_threads(old(meshes)@, final(meshes)@, threads as int),
        final(meshes)@.to_multiset() == old(meshes)@.to_multiset(),
{
    let n = meshes.len();
    let mut keys: Vec<u32> = Vec::new();
    for i in 0..n
        invariant
            n == meshes@.len(),
            keys@ == face_counts(meshes@).take(i as int),
    {
        keys.push(meshes[i].1.num_faces);
        assert(keys@ =~= face_counts(meshes@).take(i + 1));
    }
    assert(keys@ =~= face_counts(meshes@));
    let sorted = faces_desc_order(&keys);
    let dealt = dealing_order(n, threads);
    let ghost order = sorted@.map_values(|x: usize| x as int);
    let ghost th = thread_order(n as int, threads as int);
    let mut perm: Vec<usize> = Vec::new();
    for k in 0..n
        invariant
            n == meshes@.len(),
            n == keys@.len(),
            by_faces_desc(keys@, order),
            order == sorted@.map_values(|x: usize| x as int),
            th == dealt@.map_values(|x: usize| x as int),
            dealt@.len() == n,
            forall|q: int| 0 <= q < n ==> #[trigger] dealt@[q] < n,
            dealt@.no_duplicates(),
            perm@.len() == k,
            forall|q: int| 0 <= q < k ==> #[trigger] perm@[q] == order[th[q]] && perm@[q] < n,
    {
        let d = dealt[k];
        assert(th[k as int] == d);
        let s = sorted[d];
        assert(order[d as int] == s);
        perm.push(s);
    }
    proof {
        assert forall|a: int, b: int| 0 <= a < n && 0 <= b < n && a != b implies perm@[a] != perm@[b] by {
            assert(perm@[a] == order[th[a]] && perm@[b] == order[th[b]]);
            assert(th[a] == dealt@[a] && th[b] == dealt@[b]);
            assert(dealt@[a] != dealt@[b]);
            if th[a] < th[b] {
                assert(goes_before(keys@, order[th[a]], order[th[b]]));
            } else {
                assert(goes_before(keys@, order[th[b]], order[th[a]]));
            }
        }
    }
    let ghost before = meshes@;
    arrange(meshes, &perm);
    proof {
        assert(face_counts(before) == keys@);
        assert forall|k: int| 0 <= k < n implies #[trigger] meshes@[k] == before[order[thread_order(n as int, threads as int)[k]]] by {
            assert(perm@[k] == order[th[k]]);
        }
    }
}

/// Sorts `meshes` from most faces to fewest and lays them out in the order they are dealt to
/// as many threads as a rayon pool supports (see `arrange_meshes`).
pub fn sort_meshes_by_num_faces<P>(meshes: &mut Vec<(P, Mesh)>)
    ensures
        arranged_for_threads(old(meshes)@, final(meshes)@, max_pool_threads()),
        final(meshes)@.to_multiset() == old(meshes)@.to_multiset(),
{
    let threads = max_threads();
    arrange_meshes(meshes, threads);
}

} // verus!
