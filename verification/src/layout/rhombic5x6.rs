//! The icosahedron unwrapped into five columns of four triangles each.
use vstd::prelude::*;
use crate::traits::layout::Layout;

verus! {

/// The number of faces that the layout places.
pub const LAYOUT_FACES: usize = 20;

/// The layout of the twenty faces on a grid of five by six units.
#[derive(Default, Debug)]
pub struct Rhombic5x6 {}

/// The three grid coordinates of each face.
pub const TRIANGLES: [[(u8, u8); 3]; 20] = [
    // Top triangles
    [(1, 0), (0, 0), (1, 1)],
    [(2, 1), (1, 1), (2, 2)],
    [(3, 2), (2, 2), (3, 3)],
    [(4, 3), (3, 3), (4, 4)],
    [(5, 4), (4, 4), (5, 5)],
    // Mirror of Top triangles
    [(0, 1), (1, 1), (0, 0)],
    [(1, 2), (2, 2), (1, 1)],
    [(2, 3), (3, 3), (2, 2)],
    [(3, 4), (4, 4), (3, 3)],
    [(4, 5), (5, 5), (4, 4)],
    // Mirror of Bottom triangles
    [(1, 1), (0, 1), (1, 2)],
    [(2, 2), (1, 2), (2, 3)],
    [(3, 3), (2, 3), (3, 4)],
    [(4, 4), (3, 4), (4, 5)],
    [(5, 5), (4, 5), (5, 6)],
    // Bottom triangles
    [(0, 2), (1, 2), (0, 1)],
    [(1, 3), (2, 3), (1, 2)],
    [(2, 4), (3, 4), (2, 3)],
    [(3, 5), (4, 5), (3, 4)],
    [(4, 6), (5, 6), (4, 5)],
];

impl Layout for Rhombic5x6 {
    open spec fn spec_vertices(&self) -> Seq<[(u8, u8); 3]> {
        TRIANGLES@
    }

    open spec fn spec_grid_size(&self) -> (usize, usize) {
        (5, 6)
    }

    fn face_center(&self, vertices: [(u8, u8); 3]) -> (center: (u8, u8)) {
        let x: u16 = (vertices[0].0 as u16 + vertices[1].0 as u16 + vertices[2].0 as u16) / 3;
        let y: u16 = (vertices[0].1 as u16 + vertices[1].1 as u16 + vertices[2].1 as u16) / 3;
        (x as u8, y as u8)
    }

    fn grid_size(&self) -> (size: (usize, usize)) {
        (5, 6)
    }

    fn vertices(&self) -> (table: Vec<[(u8, u8); 3]>)
        ensures
            table@.len() == LAYOUT_FACES,
            forall|face: int, corner: int|
                0 <= face < 20 && 0 <= corner < 3 ==> (#[trigger] table@[face][corner]).0
                    <= self.spec_grid_size().0 && table@[face][corner].1
                    <= self.spec_grid_size().1,
    {
        let mut table: Vec<[(u8, u8); 3]> = Vec::new();
        let mut i: usize = 0;
        while i < LAYOUT_FACES
            invariant
                0 <= i <= LAYOUT_FACES,
                table@ == TRIANGLES@.take(i as int),
            decreases LAYOUT_FACES - i,
        {
            table.push(TRIANGLES[i]);
            i = i + 1;
            assert(TRIANGLES@.take(i as int) =~= TRIANGLES@.take(i - 1).push(TRIANGLES@[i - 1]));
        }
        assert(TRIANGLES@.take(20) =~= TRIANGLES@);
        assert forall|face: int, corner: int| 0 <= face < 20 && 0 <= corner < 3 implies (
        #[trigger] table@[face][corner]).0 <= 5 && table@[face][corner].1 <= 6 by {
            lemma_faces_lie_on_grid(face, corner);
        }
        table
    }
}

/// Every corner of every face lies on the grid of five by six units.
pub proof fn lemma_faces_lie_on_grid(face: int, corner: int)
    requires
        0 <= face < 20,
        0 <= corner < 3,
    ensures
        TRIANGLES[face][corner].0 <= 5,
        TRIANGLES[face][corner].1 <= 6,
{
}

} // verus!
