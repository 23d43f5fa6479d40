//! The regular icosahedron: which vertices form which face, and the rules
//! by which a point is placed in a face and in a part of a face.
//!
//! The vertices are numbered 0 to 11: 0 is the north pole, 1 to 5 the upper
//! ring, 6 to 10 the lower ring, 11 the south pole. The faces come in four
//! bands of five: around the north pole, below the upper ring, above the
//! lower ring, around the south pole.
use vstd::prelude::*;

verus! {

/// The number of faces.
pub const FACES: u8 = 20;

/// The number of vertices.
pub const VERTICES: u8 = 12;

/// The icosahedron.
#[derive(Default, Debug)]
pub struct Icosahedron {}

/// The three vertices of each face.
pub const INDICES: [[u8; 3]; 20] = [
    // Top triangles
    [0, 1, 2],
    [0, 2, 3],
    [0, 3, 4],
    [0, 4, 5],
    [0, 5, 1],
    // Mirror of Top triangles
    [6, 2, 1],
    [7, 3, 2],
    [8, 4, 3],
    [9, 5, 4],
    [10, 1, 5],
    // Mirror of Bottom triangles
    [2, 6, 7],
    [3, 7, 8],
    [4, 8, 9],
    [5, 9, 10],
    [1, 10, 6],
    // Bottom triangles
    [11, 7, 6],
    [11, 8, 7],
    [11, 9, 8],
    [11, 10, 9],
    [11, 6, 10],
];

/// On which side of a plane through the centre of the sphere a point lies,
/// once distances within the tolerance count as lying on the plane.
#[derive(Clone, Copy, Debug, PartialEq, Eq, Structural)]
pub enum Side {
    Negative,
    On,
    Positive,
}

/// The third of a face that holds a point. The centre of the face and two of
/// its corners bound each third; the thirds are named by those two corners.
#[derive(Clone, Copy, Debug, PartialEq, Eq, Structural)]
pub enum Third {
    /// Between the second and the third corner.
    SecondThird,
    /// Between the third and the first corner.
    ThirdFirst,
    /// Between the first and the second corner.
    FirstSecond,
}

/// No two of the three sides are opposite: the sides that are not `On` are
/// all the same.
pub open spec fn spec_sides_agree(sides: [Side; 3]) -> bool {
    forall|i: int, j: int|
        0 <= i < 3 && 0 <= j < 3 && sides[i] != Side::On && sides[j] != Side::On ==> sides[i]
            == sides[j]
}

impl Third {
    /// The third that is chosen when the point was found in the first of the
    /// thirds, or else in the second: the first that holds the point in the
    /// order `SecondThird`, `ThirdFirst`, `FirstSecond`, the last of them
    /// without a test.
    pub open spec fn spec_locate(in_second_third: bool, in_third_first: bool) -> Third {
        if in_second_third {
            Third::SecondThird
        } else if in_third_first {
            Third::ThirdFirst
        } else {
            Third::FirstSecond
        }
    }

    /// The two corners of the face, by their place in the face, whose
    /// midpoint halves the third.
    pub open spec fn spec_edge(self) -> (u8, u8) {
        match self {
            Third::SecondThird => (1, 2),
            Third::ThirdFirst => (2, 0),
            Third::FirstSecond => (0, 1),
        }
    }

    /// The corner that is tested together with the midpoint: the later of the
    /// two corners of the edge.
    pub open spec fn spec_probe(self) -> u8 {
        match self {
            Third::SecondThird => 2,
            Third::ThirdFirst => 2,
            Third::FirstSecond => 1,
        }
    }

    /// The corner of the right triangle that holds the point: the probed
    /// corner where the test found the point, the other end of the edge
    /// where it did not.
    pub open spec fn spec_corner(self, in_probe: bool) -> u8 {
        if in_probe {
            self.spec_probe()
        } else if self.spec_edge().0 == self.spec_probe() {
            self.spec_edge().1
        } else {
            self.spec_edge().0
        }
    }

    /// Chooses the third of a face from the tests of the first two thirds.
    pub fn locate(in_second_third: bool, in_third_first: bool) -> (third: Third)
        ensures
            third == Self::spec_locate(in_second_third, in_third_first),
    {
        if in_second_third {
            Third::SecondThird
        } else if in_third_first {
            Third::ThirdFirst
        } else {
            Third::FirstSecond
        }
    }

    /// The two corners whose midpoint halves the third.
    pub fn edge(&self) -> (ends: (u8, u8))
        ensures
            ends == self.spec_edge(),
            ends.0 < 3,
            ends.1 < 3,
            ends.0 != ends.1,
    {
        match self {
            Third::SecondThird => (1, 2),
            Third::ThirdFirst => (2, 0),
            Third::FirstSecond => (0, 1),
        }
    }

    /// The corner that is tested together with the midpoint.
    pub fn probe(&self) -> (corner: u8)
        ensures
            corner == self.spec_probe(),
            corner == self.spec_edge().0 || corner == self.spec_edge().1,
    {
        match self {
            Third::SecondThird => 2,
            Third::ThirdFirst => 2,
            Third::FirstSecond => 1,
        }
    }

    /// The corner of the right triangle that holds the point.
    pub fn corner(&self, in_probe: bool) -> (corner: u8)
        ensures
            corner == self.spec_corner(in_probe),
            corner == self.spec_edge().0 || corner == self.spec_edge().1,
            in_probe <==> corner == self.spec_probe(),
    {
        match self {
            Third::SecondThird => if in_probe { 2 } else { 1 },
            Third::ThirdFirst => if in_probe { 2 } else { 0 },
            Third::FirstSecond => if in_probe { 1 } else { 0 },
        }
    }
}

impl Icosahedron {
    /// The number of faces.
    pub fn faces(&self) -> (n: u8)
        ensures
            n == FACES,
    {
        FACES
    }

    /// The three vertices of each face, in the order of the faces.
    pub fn indices(&self) -> (table: Vec<[u8; 3]>)
        ensures
            table@ == INDICES@,
            table@.len() == FACES,
            forall|face: int, corner: int|
                0 <= face < 20 && 0 <= corner < 3 ==> (#[trigger] table@[face][corner]) < VERTICES,
    {
        let mut table: Vec<[u8; 3]> = Vec::new();
        let mut i: usize = 0;
        while i < 20
            invariant
                0 <= i <= 20,
                table@ == INDICES@.take(i as int),
            decreases 20 - i,
        {
            table.push(INDICES[i]);
            i = i + 1;
            assert(INDICES@.take(i as int) =~= INDICES@.take(i - 1).push(INDICES@[i - 1]));
        }
        assert(INDICES@.take(20) =~= INDICES@);
        assert forall|face: int, corner: int| 0 <= face < 20 && 0 <= corner < 3 implies (
        #[trigger] table@[face][corner]) < VERTICES by {
            lemma_faces_are_triangles(face);
        }
        table
    }

    /// Whether a point lies within a triangle on the sphere, given the side
    /// of the point at each of the three planes through two corners of the
    /// triangle and the centre of the sphere: it does where no two sides are
    /// opposite. A point on a plane agrees with both sides.
    pub fn sides_agree(&self, sides: [Side; 3]) -> (agree: bool)
        ensures
            agree == spec_sides_agree(sides),
    {
        let mut seen: Side = Side::On;
        let ghost mut at: int = 0;
        let mut i: usize = 0;
        while i < 3
            invariant
                0 <= i <= 3,
                seen != Side::On ==> 0 <= at < i && sides[at] == seen,
                forall|a: int, b: int|
                    0 <= a < i && 0 <= b < i && sides[a] != Side::On && sides[b] != Side::On
                        ==> sides[a] == sides[b],
                forall|a: int| 0 <= a < i && sides[a] != Side::On ==> sides[a] == seen,
                seen == Side::On ==> forall|a: int| 0 <= a < i ==> sides[a] == Side::On,
            decreases 3 - i,
        {
            let side = sides[i];
            if side != Side::On {
                if seen != Side::On && side != seen {
                    assert(sides[at] != Side::On && sides[i as int] != Side::On && sides[at]
                        != sides[i as int]);
                    return false;
                }
                seen = side;
                proof {
                    at = i as int;
                }
            }
            i = i + 1;
        }
        true
    }
}

/// The three corners of a face are three different vertices of the solid.
pub proof fn lemma_faces_are_triangles(face: int)
    requires
        0 <= face < 20,
    ensures
        INDICES[face][0] < VERTICES,
        INDICES[face][1] < VERTICES,
        INDICES[face][2] < VERTICES,
        INDICES[face][0] != INDICES[face][1],
        INDICES[face][1] != INDICES[face][2],
        INDICES[face][2] != INDICES[face][0],
{
}

/// A face that has the given vertex as a corner, and the place of the vertex
/// in that face.
spec fn spec_face_at(vertex: int) -> (int, int) {
    if vertex == 0 {
        (0, 0)
    } else if vertex <= 5 {
        (vertex - 1, 1)
    } else if vertex <= 10 {
        (vertex - 1, 0)
    } else {
        (15, 0)
    }
}

/// Every vertex of the solid is a corner of some face.
pub proof fn lemma_every_vertex_has_a_face(vertex: int)
    requires
        0 <= vertex < 12,
    ensures
        exists|face: int, corner: int|
            0 <= face < 20 && 0 <= corner < 3 && #[trigger] INDICES[face][corner] == vertex,
{
    let (face, corner) = spec_face_at(vertex);
    assert(0 <= face < 20 && 0 <= corner < 3 && INDICES[face][corner] == vertex);
}

/// The face on the other side of an edge, and the place in that face of the
/// corner at which the edge starts there.
spec fn spec_across(face: int, corner: int) -> (int, int) {
    let band = face / 5;
    let k = face % 5;
    if band == 0 {
        if corner == 0 {
            ((k + 4) % 5, 2)
        } else if corner == 1 {
            (5 + k, 1)
        } else {
            ((k + 1) % 5, 0)
        }
    } else if band == 1 {
        if corner == 0 {
            (10 + k, 0)
        } else if corner == 1 {
            (k, 1)
        } else {
            (10 + (k + 4) % 5, 2)
        }
    } else if band == 2 {
        if corner == 0 {
            (5 + k, 0)
        } else if corner == 1 {
            (15 + k, 1)
        } else {
            (5 + (k + 1) % 5, 2)
        }
    } else {
        if corner == 0 {
            (15 + (k + 1) % 5, 2)
        } else if corner == 1 {
            (10 + k, 1)
        } else {
            (15 + (k + 4) % 5, 0)
        }
    }
}

/// The surface is closed and its faces turn the same way: the edge that
/// leads from one corner of a face to the next is an edge of another face
/// too, which runs along it in the opposite direction.
pub proof fn lemma_every_edge_has_two_faces(face: int, corner: int)
    requires
        0 <= face < 20,
        0 <= corner < 3,
    ensures
        exists|other: int, at: int|
            0 <= other < 20 && 0 <= at < 3 && other != face && #[trigger] INDICES[other][at]
                == INDICES[face][(corner + 1) % 3] && INDICES[other][(at + 1) % 3]
                == INDICES[face][corner],
{
    let (other, at) = spec_across(face, corner);
    assert(0 <= other < 20 && 0 <= at < 3 && other != face && INDICES[other][at]
        == INDICES[face][(corner + 1) % 3] && INDICES[other][(at + 1) % 3]
        == INDICES[face][corner]);
}

/// A point that lies on two of the three planes of a triangle, as a corner
/// of the triangle does, lies within the triangle.
pub proof fn lemma_corner_lies_within(sides: [Side; 3], off: int)
    requires
        0 <= off < 3,
        forall|i: int| 0 <= i < 3 && i != off ==> sides[i] == Side::On,
    ensures
        spec_sides_agree(sides),
{
}

} // verus!
