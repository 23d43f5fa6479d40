//! The vertex great circle projection: the search for the face that holds
//! a point.
use vstd::prelude::*;
use crate::error::DggsError;

verus! {

/// The vertex great circle projection.
#[derive(Default, Debug)]
pub struct Vgc;

impl Vgc {
    /// The first face, in the order of the faces, for which `contains` answers
    /// yes. The faces after it are not asked. Where `contains` answers no for
    /// every face, the point lies outside all faces and
    /// `PointOutsideAllFaces` is returned.
    pub fn locate_face<F: Fn(u8) -> bool>(&self, faces: u8, contains: F) -> (r: Result<
        u8,
        DggsError,
    >)
        requires
            forall|face: u8| face < faces ==> call_requires(contains, (face,)),
        ensures
            match r {
                Ok(face) => {
                    &&& face < faces
                    &&& call_ensures(contains, (face,), true)
                    &&& forall|earlier: u8|
                        earlier < face ==> call_ensures(contains, (earlier,), false)
                },
                Err(e) => {
                    &&& e == DggsError::PointOutsideAllFaces
                    &&& forall|face: u8| face < faces ==> call_ensures(contains, (face,), false)
                },
            },
    {
        let mut face: u8 = 0;
        while face < faces
            invariant
                0 <= face <= faces,
                forall|f: u8| f < faces ==> call_requires(contains, (f,)),
                forall|earlier: u8| earlier < face ==> call_ensures(contains, (earlier,), false),
            decreases faces - face,
        {
            if contains(face) {
                return Ok(face);
            }
            face = face + 1;
        }
        Err(DggsError::PointOutsideAllFaces)
    }
}

} // verus!
