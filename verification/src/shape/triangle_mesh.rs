//! Triangle meshes: vertex data shared by the triangles that index into it.

use std::sync::Arc;

use vstd::prelude::*;

verus! {

/// Another handle on the mesh data behind `data`. Trusted: `Arc::clone`
/// gives a pointer to the same allocation, so the data it points to is the
/// same value. Left unsaid: the process aborts when the count of handles
/// would overflow `isize::MAX`.
#[verifier::external_body]
fn share<T>(data: &Arc<T>) -> (r: Arc<T>)
    ensures
        r == *data,
{
    Arc::clone(data)
}

/// The data of a triangle mesh: vertex positions, the vertex indices of
/// each face, and optional per-vertex normals and texture coordinates,
/// indexed like the positions.
pub struct TriangleMeshData<P, N, U> {
    vertices: Vec<P>,
    face_indices: Vec<(u32, u32, u32)>,
    normals: Vec<N>,
    uv: Vec<U>,
}

impl<P: Copy, N: Copy, U: Copy> TriangleMeshData<P, N, U> {
    /// The vertex positions.
    pub closed spec fn vertices_spec(self) -> Seq<P> {
        self.vertices@
    }

    /// The vertex indices of each face.
    pub closed spec fn faces_spec(self) -> Seq<(u32, u32, u32)> {
        self.face_indices@
    }

    /// The per-vertex normals, possibly fewer than the vertices.
    pub closed spec fn normals_spec(self) -> Seq<N> {
        self.normals@
    }

    /// The per-vertex texture coordinates, possibly none.
    pub closed spec fn uv_spec(self) -> Seq<U> {
        self.uv@
    }

    pub fn new(vertices: Vec<P>, face_indices: Vec<(u32, u32, u32)>, normals: Vec<N>, uv: Vec<U>) -> (r: Self)
        ensures
            r.vertices_spec() == vertices@,
            r.faces_spec() == face_indices@,
            r.normals_spec() == normals@,
            r.uv_spec() == uv@,
    {
        TriangleMeshData { vertices, face_indices, normals, uv }
    }

    /// The position of vertex `index`.
    pub fn vertex(&self, index: u32) -> (r: P)
        requires
            index < self.vertices_spec().len(),
        ensures
            r == self.vertices_spec()[index as int],
    {
        self.vertices[index as usize]
    }

    /// The normal of vertex `index`, if the mesh has one for it.
    pub fn normal(&self, index: u32) -> (r: Option<&N>)
        ensures
            r == if index < self.normals_spec().len() {
                Some(&self.normals_spec()[index as int])
            } else {
                None
            },
    {
        if (index as usize) < self.normals.len() {
            Some(&self.normals[index as usize])
        } else {
            None
        }
    }

    /// The texture coordinates of vertex `index`.
    pub fn uv(&self, index: u32) -> (r: U)
        requires
            index < self.uv_spec().len(),
        ensures
            r == self.uv_spec()[index as int],
    {
        self.uv[index as usize]
    }

    /// The number of texture coordinates.
    pub fn uv_count(&self) -> (r: usize)
        ensures
            r == self.uv_spec().len(),
    {
        self.uv.len()
    }

    /// The number of faces.
    pub fn face_count(&self) -> (r: usize)
        ensures
            r == self.faces_spec().len(),
    {
        self.face_indices.len()
    }

    /// The vertex indices of face `index`.
    pub fn face_indices(&self, index: u32) -> (r: (u32, u32, u32))
        requires
            index < self.faces_spec().len(),
        ensures
            r == self.faces_spec()[index as int],
    {
        self.face_indices[index as usize]
    }
}

/// A triangle mesh; its data is shared with the triangles taken from it.
#[derive(Clone)]
pub struct TriangleMesh<P, N, U> {
    data: Arc<TriangleMeshData<P, N, U>>,
}

impl<P: Copy, N: Copy, U: Copy> TriangleMesh<P, N, U> {
    /// The data of the mesh.
    pub closed spec fn data_spec(self) -> TriangleMeshData<P, N, U> {
        *self.data
    }

    pub fn new(vertices: Vec<P>, face_indices: Vec<(u32, u32, u32)>, normals: Vec<N>, uv: Vec<U>) -> (r: Self)
        ensures
            r.data_spec().vertices_spec() == vertices@,
            r.data_spec().faces_spec() == face_indices@,
            r.data_spec().normals_spec() == normals@,
            r.data_spec().uv_spec() == uv@,
    {
        let data = TriangleMeshData::new(vertices, face_indices, normals, uv);
        TriangleMesh { data: Arc::new(data) }
    }

    /// The triangle at face `index` of the mesh.
    pub fn face(&self, index: u32) -> (r: TriangleRef<P, N, U>)
        ensures
            r.mesh_spec() == self.data_spec(),
            r.index_spec() == index,
    {
        TriangleRef { mesh: share(&self.data), index }
    }

    /// All triangles of the mesh, in the order of their faces. A face's index
    /// is taken as a `u32`, so past `u32::MAX` faces the indices wrap around.
    pub fn faces(&self) -> (r: Vec<TriangleRef<P, N, U>>)
        ensures
            r@.len() == self.data_spec().faces_spec().len(),
            forall|j: int|
                #![trigger r@[j]]
                0 <= j < r@.len() ==> (r@[j].mesh_spec() == self.data_spec() && r@[j].index_spec()
                    == j as u32),
    {
        let n = self.data.face_count();
        let mut out: Vec<TriangleRef<P, N, U>> = Vec::new();
        let mut i: usize = 0;
        while i < n
            invariant
                n == self.data_spec().faces_spec().len(),
                i <= n,
                out@.len() == i,
                forall|k: int|
                    #![trigger out@[k]]
                    0 <= k < i ==> (out@[k].mesh_spec() == self.data_spec() && out@[k].index_spec()
                        == k as u32),
            decreases n - i,
        {
            #[verifier::truncate]
            let index = i as u32;
            out.push(self.face(index));
            i += 1;
        }
        out
    }
}

/// One triangle of a mesh, by the index of its face.
pub struct TriangleRef<P, N, U> {
    mesh: Arc<TriangleMeshData<P, N, U>>,
    index: u32,
}

impl<P: Copy, N: Copy, U: Copy> TriangleRef<P, N, U> {
    /// The data of the mesh the triangle belongs to.
    pub closed spec fn mesh_spec(self) -> TriangleMeshData<P, N, U> {
        *self.mesh
    }

    /// The index of the triangle's face.
    pub closed spec fn index_spec(self) -> u32 {
        self.index
    }

    /// The vertex indices of the triangle.
    pub open spec fn corner_indices(self) -> (u32, u32, u32) {
        self.mesh_spec().faces_spec()[self.index_spec() as int]
    }

    /// The face exists and its vertex indices are vertices of the mesh.
    pub open spec fn corners_in_mesh(self) -> bool {
        &&& self.index_spec() < self.mesh_spec().faces_spec().len()
        &&& self.corner_indices().0 < self.mesh_spec().vertices_spec().len()
        &&& self.corner_indices().1 < self.mesh_spec().vertices_spec().len()
        &&& self.corner_indices().2 < self.mesh_spec().vertices_spec().len()
    }

    /// The positions of the triangle's three vertices.
    pub fn vertices(&self) -> (r: (P, P, P))
        requires
            self.corners_in_mesh(),
        ensures
            r.0 == self.mesh_spec().vertices_spec()[self.corner_indices().0 as int],
            r.1 == self.mesh_spec().vertices_spec()[self.corner_indices().1 as int],
            r.2 == self.mesh_spec().vertices_spec()[self.corner_indices().2 as int],
    {
        let (v0, v1, v2) = self.mesh.face_indices(self.index);
        (self.mesh.vertex(v0), self.mesh.vertex(v1), self.mesh.vertex(v2))
    }

    /// The normals at the triangle's three vertices, if the mesh has a
    /// normal for each of them.
    pub fn normals(&self) -> (r: Option<(N, N, N)>)
        requires
            self.index_spec() < self.mesh_spec().faces_spec().len(),
        ensures
            ({
                let (v0, v1, v2) = self.corner_indices();
                let normals = self.mesh_spec().normals_spec();
                r == if v0 < normals.len() && v1 < normals.len() && v2 < normals.len() {
                    Some((normals[v0 as int], normals[v1 as int], normals[v2 as int]))
                } else {
                    None
                }
            }),
    {
        let (v0, v1, v2) = self.mesh.face_indices(self.index);
        match (self.mesh.normal(v0), self.mesh.normal(v1), self.mesh.normal(v2)) {
            (Some(a), Some(b), Some(c)) => Some((*a, *b, *c)),
            _ => None,
        }
    }

    /// The texture coordinates at the triangle's three vertices, or `None`
    /// when the mesh has no texture coordinates at all.
    pub fn uvs(&self) -> (r: Option<(U, U, U)>)
        requires
            self.index_spec() < self.mesh_spec().faces_spec().len(),
            self.mesh_spec().uv_spec().len() > 0 ==> {
                &&& self.corner_indices().0 < self.mesh_spec().uv_spec().len()
                &&& self.corner_indices().1 < self.mesh_spec().uv_spec().len()
                &&& self.corner_indices().2 < self.mesh_spec().uv_spec().len()
            },
        ensures
            ({
                let (v0, v1, v2) = self.corner_indices();
                let uv = self.mesh_spec().uv_spec();
                r == if uv.len() == 0 {
                    None
                } else {
                    Some((uv[v0 as int], uv[v1 as int], uv[v2 as int]))
                }
            }),
    {
        if self.mesh.uv_count() == 0 {
            None
        } else {
            let (v0, v1, v2) = self.mesh.face_indices(self.index);
            Some((self.mesh.uv(v0), self.mesh.uv(v1), self.mesh.uv(v2)))
        }
    }
}

} // verus!
