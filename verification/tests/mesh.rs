use raytracer::bounds::Bounds2i;
use raytracer::film::pixel_index;
use raytracer::shape::triangle_mesh::{TriangleMesh, TriangleMeshData};
use raytracer::vec::ivec2;

fn mesh() -> TriangleMesh<(i32, i32), (i32, i32), u8> {
    TriangleMesh::new(
        vec![(0, 0), (1, 0), (0, 1), (1, 1)],
        vec![(0, 1, 2), (1, 3, 2)],
        vec![(0, 1), (0, 2), (0, 3)],
        vec![],
    )
}

#[test]
fn triangle_vertices() {
    let m = mesh();
    let faces = m.faces();
    assert_eq!(faces.len(), 2);
    assert_eq!(faces[0].vertices(), ((0, 0), (1, 0), (0, 1)));
    assert_eq!(faces[1].vertices(), ((1, 0), (1, 1), (0, 1)));
    assert_eq!(m.face(1).vertices(), faces[1].vertices());
}

#[test]
fn triangle_normals_need_all_three() {
    let m = mesh();
    assert_eq!(m.face(0).normals(), Some(((0, 1), (0, 2), (0, 3))));
    assert_eq!(m.face(1).normals(), None);
}

#[test]
fn triangle_uvs_only_when_present() {
    let m = mesh();
    assert_eq!(m.face(0).uvs(), None);
    let with_uv = TriangleMesh::new(vec![1u8, 2, 3], vec![(2, 1, 0)], Vec::<u8>::new(), vec![10u8, 20, 30]);
    assert_eq!(with_uv.face(0).uvs(), Some((30, 20, 10)));
}

#[test]
fn mesh_data_lookups() {
    let d = TriangleMeshData::new(vec![5u8, 6], vec![(0, 1, 0)], vec![7u8], vec![8u8, 9]);
    assert_eq!(d.vertex(1), 6);
    assert_eq!(d.normal(0), Some(&7));
    assert_eq!(d.normal(1), None);
    assert_eq!(d.uv(1), 9);
    assert_eq!(d.face_count(), 1);
    assert_eq!(d.face_indices(0), (0, 1, 0));
}

#[test]
fn film_pixel_positions() {
    let bounds = Bounds2i::new(ivec2(50, 50), ivec2(200, 200));
    assert_eq!(pixel_index(&bounds, 50, 50), 0);
    assert_eq!(pixel_index(&bounds, 50, 57), 7);
    assert_eq!(pixel_index(&bounds, 52, 57), 307);
    assert_eq!(pixel_index(&bounds, 149, 150), 14950);
    assert_eq!(pixel_index(&bounds, 199, 199), 22499);
}

#[test]
fn film_every_location_has_its_own_pixel() {
    let bounds = Bounds2i::new(ivec2(50, 50), ivec2(200, 200));
    let area = bounds.area() as usize;
    assert_eq!(area, 22500);
    let mut hits = vec![0u32; area];
    for i in 50..200u64 {
        for j in 50..200u64 {
            let index = pixel_index(&bounds, i, j);
            assert!(index < area);
            hits[index] += 1;
        }
    }
    assert!(hits.iter().all(|h| *h == 1));
}

#[test]
fn film_pixel_positions_with_negative_corner() {
    let bounds = Bounds2i::new(ivec2(-3, -2), ivec2(1, 4));
    assert_eq!(pixel_index(&bounds, 0, 0), 20);
    assert_eq!(pixel_index(&bounds, 0, 3), 23);
}
