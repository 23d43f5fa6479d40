//! The failures that the grid core reports.
use vstd::prelude::*;
use vstd::string::StringExecFns;

verus! {

/// Why an operation of the grid core did not produce a value.
#[derive(Clone, Copy, Debug, PartialEq, Eq, Structural)]
pub enum DggsError {
    /// A zone identifier has the wrong length or holds a character that is
    /// not ASCII alphanumeric, or its resolution prefix cannot be read.
    InvalidZoneIdFormat,
    /// The refinement ratio is none of 3, 4 and 7.
    UnsupportedRefinementRatio,
    /// A base solid identifier names no known solid.
    UnsupportedBaseSolid,
    /// The lineage of a cell needs more than 128 bits.
    EncodingOverflow,
    /// A point lies in none of the faces of the polyhedron.
    PointOutsideAllFaces,
    /// A spherical triangle has an arc of length zero.
    DegenerateTriangle,
    /// The refinement level cannot be read from an identifier of this family.
    UnsupportedResolutionExtraction,
    /// The grid type is not known.
    UnsupportedDggsType,
    /// The external grid tool, or the files exchanged with it, failed.
    AdapterFailure,
}

impl DggsError {
    /// The text that describes each failure.
    pub open spec fn spec_message(self) -> Seq<char> {
        match self {
            DggsError::InvalidZoneIdFormat => "ID must be exactly 16 or 18 alphanumeric characters."@,
            DggsError::UnsupportedRefinementRatio => "Valid options for refinement_ratio are 3, 4 or 7"@,
            DggsError::UnsupportedBaseSolid => "Unknown base solid"@,
            DggsError::EncodingOverflow => "The refinement_level/resolution can not be stored in 128 bits"@,
            DggsError::PointOutsideAllFaces => "The point lies outside all faces"@,
            DggsError::DegenerateTriangle => "The triangle has an arc of length zero"@,
            DggsError::UnsupportedResolutionExtraction => "The resolution cannot be extracted from this identifier"@,
            DggsError::UnsupportedDggsType => "Unsupported DGGS type"@,
            DggsError::AdapterFailure => "The grid tool failed"@,
        }
    }

    /// A human readable description of the failure.
    pub fn message(&self) -> (text: String)
        ensures
            text@ == self.spec_message(),
    {
        match self {
            DggsError::InvalidZoneIdFormat => String::from_str("ID must be exactly 16 or 18 alphanumeric characters."),
            DggsError::UnsupportedRefinementRatio => String::from_str("Valid options for refinement_ratio are 3, 4 or 7"),
            DggsError::UnsupportedBaseSolid => String::from_str("Unknown base solid"),
            DggsError::EncodingOverflow => String::from_str("The refinement_level/resolution can not be stored in 128 bits"),
            DggsError::PointOutsideAllFaces => String::from_str("The point lies outside all faces"),
            DggsError::DegenerateTriangle => String::from_str("The triangle has an arc of length zero"),
            DggsError::UnsupportedResolutionExtraction => String::from_str("The resolution cannot be extracted from this identifier"),
            DggsError::UnsupportedDggsType => String::from_str("Unsupported DGGS type"),
            DggsError::AdapterFailure => String::from_str("The grid tool failed"),
        }
    }
}

} // verus!
