//! The planar arrangement of the faces of a polyhedron.
use vstd::prelude::*;

verus! {

/// The mean of three grid coordinates, each axis rounded towards zero.
pub open spec fn spec_face_center(vertices: [(u8, u8); 3]) -> (u8, u8) {
    (
        ((vertices[0].0 as int + vertices[1].0 as int + vertices[2].0 as int) / 3) as u8,
        ((vertices[0].1 as int + vertices[1].1 as int + vertices[2].1 as int) / 3) as u8,
    )
}

/// A planar arrangement of the triangular faces of a polyhedron on an
/// integer grid. Any arrangement of the same faces can stand for another.
pub trait Layout {
    /// The three grid coordinates of each face, in the order of the faces.
    spec fn spec_vertices(&self) -> Seq<[(u8, u8); 3]>;

    /// The size of the grid, across and down.
    spec fn spec_grid_size(&self) -> (usize, usize);

    /// The centre of a face: the mean of its three coordinates on each axis,
    /// rounded towards zero.
    fn face_center(&self, vertices: [(u8, u8); 3]) -> (center: (u8, u8))
        ensures
            center == spec_face_center(vertices),
    ;

    /// The size of the grid, across and down.
    fn grid_size(&self) -> (size: (usize, usize))
        ensures
            size == self.spec_grid_size(),
    ;

    /// The three grid coordinates of each face, in the order of the faces.
    fn vertices(&self) -> (table: Vec<[(u8, u8); 3]>)
        ensures
            table@ == self.spec_vertices(),
    ;
}

} // verus!
