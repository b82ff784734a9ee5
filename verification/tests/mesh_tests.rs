use raytrace::utils::mesh::{
    first_entry_to_load, first_entry_to_process, load_chunk_size, loaded_entry, process_entry,
    arrange_meshes, hash, hash_point, parse_stl, process_mesh, sort_meshes_by_num_faces, Face, Mesh,
    Triangle,
};
use std::collections::hash_map::DefaultHasher;
use std::hash::Hasher;

fn bits(p: [f32; 3]) -> [u32; 3] {
    [p[0].to_bits(), p[1].to_bits(), p[2].to_bits()]
}

fn stl_bytes(tris: &[([f32; 3], [[f32; 3]; 3])]) -> Vec<u8> {
    let mut data = vec![0u8; 80];
    data.extend_from_slice(&(tris.len() as u32).to_le_bytes());
    for (n, vs) in tris {
        for x in n.iter().chain(vs[0].iter()).chain(vs[1].iter()).chain(vs[2].iter()) {
            data.extend_from_slice(&x.to_le_bytes());
        }
        data.extend_from_slice(&[7, 9]);
    }
    data
}

#[test]
fn hash_point_hashes_the_float_bytes() {
    let p = [1.5f32, -2.0, 0.25];
    let mut h = DefaultHasher::new();
    let mut bytes = Vec::new();
    for x in p {
        bytes.extend_from_slice(&x.to_le_bytes());
    }
    h.write(&bytes);
    assert_eq!(hash_point(&bits(p)), h.finish());
    let mut g = DefaultHasher::new();
    hash(bits(p), &mut g);
    assert_eq!(g.finish(), h.finish());
    assert_ne!(hash_point(&bits(p)), hash_point(&bits([1.5, -2.0, 0.5])));
}

#[test]
fn face_new_is_unset() {
    let f = Face::new();
    assert_eq!((f.v1, f.v2, f.v3), (u32::MAX, u32::MAX, u32::MAX));
}

#[test]
fn triangle_default_is_zero() {
    let t = Triangle::default();
    assert_eq!(t.n, [0, 0, 0]);
    assert_eq!(t.v1, [0, 0, 0]);
    assert_eq!(t.v3, [0, 0, 0]);
    assert_eq!(t.padding_, [0, 0]);
}

#[test]
fn mesh_constructors() {
    let m = Mesh::new(2);
    assert_eq!(m.normals.len(), 2);
    assert_eq!(m.vertices.len(), 6);
    assert_eq!(m.faces, vec![[0, 0, 0]; 2]);
    assert_eq!(m.num_faces, 2);
    assert!(!m.loaded && !m.processed);
    assert_eq!(m.len(), 2);
    let e = Mesh::e_new();
    assert_eq!(e.len(), 0);
    assert_eq!(e.num_faces, 0);
    assert!(e.vertices.is_empty() && e.normals.is_empty());
}

#[test]
fn parse_stl_reads_triangles() {
    let t0 = ([0.0, 0.0, 1.0], [[0.0, 0.0, 0.0], [1.0, 0.0, 0.0], [0.0, 1.0, 0.0]]);
    let t1 = ([0.0, 1.0, 0.0], [[2.0, 0.0, 0.0], [1.0, 0.5, 0.0], [0.0, 1.0, -3.5]]);
    let data = stl_bytes(&[t0, t1]);
    let m = parse_stl(&data).unwrap();
    assert_eq!(m.num_faces, 2);
    assert!(m.loaded);
    assert!(!m.processed);
    assert_eq!(m.normals, vec![bits(t0.0), bits(t1.0)]);
    assert_eq!(
        m.vertices,
        vec![bits(t0.1[0]), bits(t0.1[1]), bits(t0.1[2]), bits(t1.1[0]), bits(t1.1[1]), bits(t1.1[2])]
    );
    assert_eq!(m.faces, vec![[0, 1, 2], [3, 4, 5]]);
}

#[test]
fn parse_stl_empty_file() {
    let data = stl_bytes(&[]);
    let m = parse_stl(&data).unwrap();
    assert_eq!(m.num_faces, 0);
    assert!(m.faces.is_empty());
    assert!(m.loaded);
}

#[test]
fn parse_stl_refuses_wrong_length() {
    let t0 = ([0.0, 0.0, 1.0], [[0.0, 0.0, 0.0], [1.0, 0.0, 0.0], [0.0, 1.0, 0.0]]);
    let mut data = stl_bytes(&[t0]);
    data.push(0);
    assert_eq!(parse_stl(&data).err(), Some("Binary Data incorrect".to_string()));
    let mut short = stl_bytes(&[t0]);
    short.truncate(100);
    assert_eq!(parse_stl(&short).err(), Some("Binary Data incorrect".to_string()));
}

#[test]
fn process_mesh_merges_repeated_vertices() {
    let t0 = ([0.0, 0.0, 1.0], [[0.0, 0.0, 0.0], [1.0, 0.0, 0.0], [0.0, 1.0, 0.0]]);
    let t1 = ([0.0, 0.0, 1.0], [[1.0, 0.0, 0.0], [1.0, 1.0, 0.0], [0.0, 1.0, 0.0]]);
    let mut m = parse_stl(&stl_bytes(&[t0, t1])).unwrap();
    m.processed = true;
    let p = process_mesh(&m).unwrap();
    assert_eq!(
        p.vertices,
        vec![bits([0.0, 0.0, 0.0]), bits([1.0, 0.0, 0.0]), bits([0.0, 1.0, 0.0]), bits([1.0, 1.0, 0.0])]
    );
    assert_eq!(p.faces, vec![[0, 1, 2], [1, 3, 2]]);
    assert!(p.normals.is_empty());
    assert_eq!(p.num_faces, 2);
    assert!(p.loaded);
    assert!(p.processed);
}

#[test]
fn process_mesh_only_reads_counted_faces() {
    let t0 = ([0.0, 0.0, 1.0], [[0.0, 0.0, 0.0], [0.0, 0.0, 0.0], [0.0, 1.0, 0.0]]);
    let mut m = parse_stl(&stl_bytes(&[t0])).unwrap();
    m.faces.push([0, 0, 0]);
    let p = process_mesh(&m).unwrap();
    assert_eq!(p.vertices, vec![bits([0.0, 0.0, 0.0]), bits([0.0, 1.0, 0.0])]);
    assert_eq!(p.faces, vec![[0, 0, 1]]);
}

fn mesh_with_faces(n: u32) -> Mesh {
    let mut m = Mesh::e_new();
    m.num_faces = n;
    m
}

#[test]
fn arrange_sorts_then_deals() {
    let counts = [3u32, 10, 7, 10, 1];
    let mut meshes: Vec<(usize, Mesh)> = counts.iter().enumerate().map(|(i, &c)| (i, mesh_with_faces(c))).collect();
    arrange_meshes(&mut meshes, 2);
    let ids: Vec<usize> = meshes.iter().map(|e| e.0).collect();
    // sorted by descending count, ties kept: [1, 3, 2, 0, 4];
    // two threads deal [0, 3, 4] and [1, 2] of that list.
    assert_eq!(ids, vec![1, 0, 4, 3, 2]);
}

#[test]
fn arrange_with_one_thread_is_the_sorted_order() {
    let counts = [5u32, 5, 9, 0, 5];
    let mut meshes: Vec<(char, Mesh)> = counts.iter().zip("abcde".chars()).map(|(&c, ch)| (ch, mesh_with_faces(c))).collect();
    arrange_meshes(&mut meshes, 1);
    let ids: String = meshes.iter().map(|e| e.0).collect();
    assert_eq!(ids, "cabed");
}

#[test]
fn arrange_with_three_threads() {
    let mut meshes: Vec<(u32, Mesh)> = (0..7u32).map(|i| (i, mesh_with_faces(100 - i))).collect();
    arrange_meshes(&mut meshes, 3);
    let ids: Vec<u32> = meshes.iter().map(|e| e.0).collect();
    // sorted order is 0..7; rounds: thread 0 takes 0, 5, then 6; thread 1 takes 1, 4; thread 2 takes 2, 3.
    assert_eq!(ids, vec![0, 5, 6, 1, 4, 2, 3]);
}

#[test]
fn sort_meshes_by_num_faces_keeps_every_mesh() {
    let counts = [4u32, 8, 8, 2, 6];
    let mut meshes: Vec<(String, Mesh)> =
        counts.iter().enumerate().map(|(i, &c)| (format!("m{}", i), mesh_with_faces(c))).collect();
    sort_meshes_by_num_faces(&mut meshes);
    let ids: Vec<&str> = meshes.iter().map(|e| e.0.as_str()).collect();
    assert_eq!(ids, vec!["m1", "m2", "m4", "m0", "m3"]);
}

#[test]
fn process_mesh_twice_is_process_mesh_once() {
    let t0 = ([0.0, 0.0, 1.0], [[0.0, 0.0, 0.0], [1.0, 0.0, 0.0], [0.0, 1.0, 0.0]]);
    let t1 = ([0.0, 0.0, 1.0], [[1.0, 0.0, 0.0], [1.0, 1.0, 0.0], [0.0, 1.0, 0.0]]);
    let t2 = ([0.0, 1.0, 0.0], [[0.0, 1.0, 0.0], [0.0, 0.0, 0.0], [1.0, 1.0, 0.0]]);
    let m = parse_stl(&stl_bytes(&[t0, t1, t2])).unwrap();
    let once = process_mesh(&m).unwrap();
    let twice = process_mesh(&once).unwrap();
    assert_eq!(twice.vertices, once.vertices);
    assert_eq!(twice.faces, once.faces);
    assert_eq!(twice.normals, once.normals);
    assert_eq!(twice.num_faces, once.num_faces);
    assert_eq!(twice.loaded, once.loaded);
    assert_eq!(twice.processed, once.processed);
    assert_eq!(once.faces, vec![[0, 1, 2], [1, 3, 2], [2, 0, 3]]);
}

#[test]
fn sort_meshes_uses_the_pool_limit() {
    // With fewer meshes than the pool has threads, each thread gets at most one mesh, so the
    // dealt order is the sorted order.
    let counts = [1u32, 5, 3, 5];
    let mut meshes: Vec<(usize, Mesh)> = counts.iter().enumerate().map(|(i, &c)| (i, mesh_with_faces(c))).collect();
    sort_meshes_by_num_faces(&mut meshes);
    let ids: Vec<usize> = meshes.iter().map(|e| e.0).collect();
    assert_eq!(ids, vec![1, 3, 2, 0]);
}

#[test]
fn process_entry_merges_and_marks_processed() {
    let t0 = ([0.0, 0.0, 1.0], [[0.0, 0.0, 0.0], [1.0, 0.0, 0.0], [0.0, 1.0, 0.0]]);
    let t1 = ([0.0, 0.0, 1.0], [[1.0, 0.0, 0.0], [1.0, 1.0, 0.0], [0.0, 1.0, 0.0]]);
    let mut m = parse_stl(&stl_bytes(&[t0, t1])).unwrap();
    process_entry(&mut m);
    assert!(m.processed);
    assert!(m.loaded);
    assert_eq!(m.faces, vec![[0, 1, 2], [1, 3, 2]]);
    assert_eq!(m.vertices.len(), 4);
    assert!(m.normals.is_empty());
}

#[test]
fn loaded_entry_keeps_the_mesh_or_falls_back_to_empty() {
    let t0 = ([0.0, 0.0, 1.0], [[0.0, 0.0, 0.0], [1.0, 0.0, 0.0], [0.0, 1.0, 0.0]]);
    let mut parsed = parse_stl(&stl_bytes(&[t0])).unwrap();
    parsed.loaded = false;
    let m = loaded_entry(Ok(parsed));
    assert!(m.loaded);
    assert_eq!(m.num_faces, 1);
    assert_eq!(m.vertices.len(), 3);
    let e = loaded_entry(Err("Binary Data incorrect".to_string()));
    assert!(e.loaded);
    assert_eq!(e.num_faces, 0);
    assert!(e.vertices.is_empty() && e.faces.is_empty() && e.normals.is_empty());
}

#[test]
fn which_entries_get_processed() {
    assert_eq!(first_entry_to_process(3, 8, 2), 2);
    assert_eq!(first_entry_to_process(3, 8, 5), 5);
    assert_eq!(first_entry_to_process(20, 8, 5), 0);
}

#[test]
fn which_entries_get_loaded() {
    assert_eq!(load_chunk_size(10, 4), 3);
    assert_eq!(load_chunk_size(8, 4), 2);
    assert_eq!(first_entry_to_load(10, 3, 2), 6);
    assert_eq!(first_entry_to_load(10, 3, 4), 10);
    assert_eq!(first_entry_to_load(10, 3, 3), 9);
    assert_eq!(first_entry_to_load(9, 3, 3), 9);
}
