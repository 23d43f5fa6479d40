//! Zones and their identifiers.
use vstd::prelude::*;
use crate::error::DggsError;
use crate::text::{
    chars_of, is_ascii_alphanumeric, is_decimal, spec_is_ascii_alphanumeric, spec_digit_run, spec_is_decimal,
    spec_texts,
};

verus! {

/// A zone identifier is 16 or 18 ASCII letters and digits.
pub open spec fn spec_valid_zone_id(id: Seq<char>) -> bool {
    &&& id.len() == 16 || id.len() == 18
    &&& forall|i: int| 0 <= i < id.len() ==> spec_is_ascii_alphanumeric(#[trigger] id[i])
}

/// The textual identifier of a zone.
#[derive(Debug, Clone)]
pub struct ZoneID {
    pub id: String,
}

/// A point, each axis as the text of a decimal number as the grid tool wrote
/// it. Both texts always write a decimal number.
#[derive(Debug)]
pub struct Coordinate {
    x: String,
    y: String,
}

/// One zone of the grid: its identifier, the ring of its boundary, its
/// centre, the number of its vertices and, where they were asked for, the
/// identifiers of its children and of its neighbours.
#[derive(Debug, Clone)]
pub struct Zone {
    pub id: ZoneID,
    pub region: Vec<Coordinate>,
    pub center: Coordinate,
    pub vertex_count: u32,
    pub children: Option<Vec<String>>,
    pub neighbors: Option<Vec<String>>,
}

/// The zones that one request gave.
#[derive(Debug, Clone)]
pub struct Zones {
    pub zones: Vec<Zone>,
}

/// What a zone holds, as sequences of characters.
pub ghost struct ZoneText {
    pub id: Seq<char>,
    pub region: Seq<(Seq<char>, Seq<char>)>,
    pub center: (Seq<char>, Seq<char>),
    pub vertex_count: u32,
    pub children: Option<Seq<Seq<char>>>,
    pub neighbors: Option<Seq<Seq<char>>>,
}

/// What an optional list of strings holds.
pub open spec fn spec_optional_texts(list: Option<Vec<String>>) -> Option<Seq<Seq<char>>> {
    match list {
        Some(strings) => Some(spec_texts(strings@)),
        None => None,
    }
}

impl View for Coordinate {
    type V = (Seq<char>, Seq<char>);

    closed spec fn view(&self) -> (Seq<char>, Seq<char>) {
        (self.x@, self.y@)
    }
}

impl Coordinate {
    #[verifier::type_invariant]
    spec fn wf(self) -> bool {
        spec_is_decimal(self.x@) && spec_is_decimal(self.y@)
    }

    /// The point with the given texts, where both write a decimal number;
    /// `AdapterFailure` where one of them does not.
    pub fn new(x: String, y: String) -> (r: Result<Coordinate, DggsError>)
        ensures
            spec_is_decimal(x@) && spec_is_decimal(y@) ==> r is Ok && r->Ok_0@ == (x@, y@),
            !(spec_is_decimal(x@) && spec_is_decimal(y@)) ==> r is Err && r->Err_0
                == DggsError::AdapterFailure,
    {
        let x_chars = chars_of(x.as_str());
        let y_chars = chars_of(y.as_str());
        if is_decimal(x_chars.as_slice()) && is_decimal(y_chars.as_slice()) {
            Ok(Coordinate { x, y })
        } else {
            Err(DggsError::AdapterFailure)
        }
    }

    /// The point at zero on both axes.
    pub fn origin() -> (c: Coordinate)
        ensures
            c@ == ("0.0"@, "0.0"@),
    {
        proof {
            lemma_zero_is_decimal();
        }
        Coordinate { x: "0.0".to_owned(), y: "0.0".to_owned() }
    }

    /// The text of the first axis, which writes a decimal number.
    pub fn x(&self) -> (text: &String)
        ensures
            text@ == self@.0,
            spec_is_decimal(text@),
    {
        proof {
            use_type_invariant(self);
        }
        &self.x
    }

    /// The text of the second axis, which writes a decimal number.
    pub fn y(&self) -> (text: &String)
        ensures
            text@ == self@.1,
            spec_is_decimal(text@),
    {
        proof {
            use_type_invariant(self);
        }
        &self.y
    }

}

impl Clone for Coordinate {
    fn clone(&self) -> (c: Coordinate)
        ensures
            c@ == self@,
    {
        proof {
            use_type_invariant(self);
        }
        Coordinate { x: self.x.clone(), y: self.y.clone() }
    }
}

/// The text `0.0` writes a decimal number.
proof fn lemma_zero_is_decimal()
    ensures
        spec_is_decimal("0.0"@),
{
    let text = "0.0"@;
    reveal_strlit("0.0");
    assert(text.len() == 3 && text[0] == '0' && text[1] == '.' && text[2] == '0');
    assert(spec_digit_run(text, 3) == 0);
    assert(spec_digit_run(text, 2) == 1);
    assert(spec_digit_run(text, 1) == 0);
    assert(spec_digit_run(text, 0) == 1);
}

impl View for Zone {
    type V = ZoneText;

    open spec fn view(&self) -> ZoneText {
        ZoneText {
            id: self.id.id@,
            region: Seq::new(self.region@.len(), |i: int| self.region@[i]@),
            center: self.center@,
            vertex_count: self.vertex_count,
            children: spec_optional_texts(self.children),
            neighbors: spec_optional_texts(self.neighbors),
        }
    }
}

impl View for Zones {
    type V = Seq<ZoneText>;

    open spec fn view(&self) -> Seq<ZoneText> {
        Seq::new(self.zones@.len(), |i: int| self.zones@[i]@)
    }
}

impl ZoneID {
    /// The identifier has the length and the characters of a zone identifier.
    pub open spec fn wf(&self) -> bool {
        spec_valid_zone_id(self.id@)
    }

    /// The identifier with the given text, where the text is 16 or 18 ASCII
    /// letters and digits; `InvalidZoneIdFormat` for any other text.
    pub fn new(id: &str) -> (r: Result<ZoneID, DggsError>)
        ensures
            spec_valid_zone_id(id@) ==> r is Ok && r->Ok_0.id@ == id@ && r->Ok_0.wf(),
            !spec_valid_zone_id(id@) ==> r is Err && r->Err_0 == DggsError::InvalidZoneIdFormat,
    {
        let chars = chars_of(id);
        if chars.len() != 16 && chars.len() != 18 {
            return Err(DggsError::InvalidZoneIdFormat);
        }
        let mut i: usize = 0;
        while i < chars.len()
            invariant
                0 <= i <= chars@.len(),
                chars@ == id@,
                forall|k: int| 0 <= k < i ==> spec_is_ascii_alphanumeric(#[trigger] id@[k]),
            decreases chars@.len() - i,
        {
            if !is_ascii_alphanumeric(chars[i]) {
                return Err(DggsError::InvalidZoneIdFormat);
            }
            i = i + 1;
        }
        Ok(ZoneID { id: id.to_owned() })
    }

    /// The text of the identifier.
    pub fn to_string(&self) -> (text: String)
        ensures
            text@ == self.id@,
    {
        self.id.clone()
    }
}

impl Default for ZoneID {
    /// Sixteen zeros.
    fn default() -> (zone: ZoneID)
        ensures
            zone.id@ == "0000000000000000"@,
            zone.wf(),
    {
        proof {
            reveal_strlit("0000000000000000");
        }
        ZoneID { id: "0000000000000000".to_owned() }
    }
}

} // verus!
