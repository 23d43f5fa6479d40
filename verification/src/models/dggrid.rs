//! Records read from the text files of the DGGRID tool.
use vstd::prelude::*;
use crate::models::common::spec_optional_texts;

verus! {

/// One line of a children or neighbours file: a zone and the zones listed
/// after it.
#[derive(Debug, Clone)]
pub struct IdArray {
    pub id: Option<String>,
    pub arr: Option<Vec<String>>,
}

/// What a record holds, as sequences of characters.
pub ghost struct IdArrayText {
    pub id: Option<Seq<char>>,
    pub arr: Option<Seq<Seq<char>>>,
}

impl View for IdArray {
    type V = IdArrayText;

    open spec fn view(&self) -> IdArrayText {
        IdArrayText {
            id: match self.id {
                Some(id) => Some(id@),
                None => None,
            },
            arr: spec_optional_texts(self.arr),
        }
    }
}

/// What a list of records holds.
pub open spec fn spec_records(records: Seq<IdArray>) -> Seq<IdArrayText> {
    Seq::new(records.len(), |i: int| records[i]@)
}

} // verus!
