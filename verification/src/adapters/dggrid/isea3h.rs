//! The ISEA3H grid of DGGRID, and the refinement level that a zone
//! identifier carries.
use vstd::prelude::*;
use vstd::string::StringExecFns;
use vstd::std_specs::bits::{axiom_u64_leading_zeros, u64_leading_zeros};
use vstd::utf8::encode_utf8;
use crate::adapters::dggrid::dggrid::{
    spec_clip_cell, spec_clip_region, spec_opening, spec_transform_points, spec_transform_zones,
    DggridAdapter, DggsType, OutputNames, Request,
};
use crate::error::DggsError;
use crate::text::{
    chars_of, digit_value, is_ascii_digit, same_text, spec_digit_value, spec_is_ascii_digit,
};

verus! {

/// One of the sixteen hexadecimal digits, in either case.
pub open spec fn spec_is_hex_digit(c: char) -> bool {
    ||| '0' <= c <= '9'
    ||| 'a' <= c <= 'f'
    ||| 'A' <= c <= 'F'
}

/// The value of a hexadecimal digit.
pub open spec fn spec_hex_digit_value(c: char) -> nat
    recommends
        spec_is_hex_digit(c),
{
    if '0' <= c <= '9' {
        (c as u32 - '0' as u32) as nat
    } else if 'a' <= c <= 'f' {
        (c as u32 - 'a' as u32 + 10) as nat
    } else {
        (c as u32 - 'A' as u32 + 10) as nat
    }
}

/// Every character is a hexadecimal digit.
pub open spec fn spec_all_hex(digits: Seq<char>) -> bool {
    forall|i: int| 0 <= i < digits.len() ==> spec_is_hex_digit(#[trigger] digits[i])
}

/// The number that hexadecimal digits write, the first digit weighing most.
pub open spec fn spec_hex_value(digits: Seq<char>) -> nat
    decreases digits.len(),
{
    if digits.len() == 0 {
        0
    } else {
        16 * spec_hex_value(digits.drop_last()) + spec_hex_digit_value(digits.last())
    }
}

/// The 64-bit number that a text writes in hexadecimal: at least one digit
/// and nothing else, the number fitting 64 bits.
pub open spec fn spec_parse_hex(text: Seq<char>) -> Option<u64> {
    if text.len() > 0 && spec_all_hex(text) && spec_hex_value(text) <= u64::MAX {
        Some(spec_hex_value(text) as u64)
    } else {
        None
    }
}

/// The level that a Z3 identifier carries: the number that its first two
/// characters write, where both are decimal digits.
pub open spec fn spec_extract_res_from_z3(id: Seq<char>) -> Result<u8, DggsError> {
    if id.len() >= 2 && spec_is_ascii_digit(id[0]) && spec_is_ascii_digit(id[1]) {
        Ok((10 * spec_digit_value(id[0]) + spec_digit_value(id[1])) as u8)
    } else {
        Err(DggsError::InvalidZoneIdFormat)
    }
}

/// The level of a Z7 identifier: 0 and 1 for identifiers of one and two
/// bytes; for longer ones, two more than the number of leading zero bits of
/// the hexadecimal number, moved four bits to the left within 64 bits.
pub open spec fn spec_extract_res_from_z7(id: Seq<char>) -> Result<u8, DggsError> {
    let bytes = encode_utf8(id).len();
    if bytes == 1 {
        Ok(0u8)
    } else if bytes == 2 {
        Ok(1u8)
    } else {
        match spec_parse_hex(id) {
            None => Err(DggsError::InvalidZoneIdFormat),
            Some(num) => {
                let shifted: u64 = num << 4u64;
                if shifted == 0 {
                    Err(DggsError::InvalidZoneIdFormat)
                } else {
                    Ok((2 + u64_leading_zeros(shifted)) as u8)
                }
            },
        }
    }
}

/// The level of an identifier of the given grid type.
pub open spec fn spec_extract_res_from_cellid(id: Seq<char>, dggs_type: Seq<char>) -> Result<u8, DggsError> {
    if dggs_type == "ISEA3H"@ {
        spec_extract_res_from_z3(id)
    } else if dggs_type == "IGEO7"@ {
        Err(DggsError::UnsupportedResolutionExtraction)
    } else {
        Err(DggsError::UnsupportedDggsType)
    }
}

fn is_hex_digit(c: char) -> (b: bool)
    ensures
        b == spec_is_hex_digit(c),
{
    ('0' <= c && c <= '9') || ('a' <= c && c <= 'f') || ('A' <= c && c <= 'F')
}

fn hex_digit_value(c: char) -> (v: u64)
    requires
        spec_is_hex_digit(c),
    ensures
        v == spec_hex_digit_value(c),
        v <= 15,
{
    if '0' <= c && c <= '9' {
        (c as u32 - '0' as u32) as u64
    } else if 'a' <= c && c <= 'f' {
        (c as u32 - 'a' as u32 + 10) as u64
    } else {
        (c as u32 - 'A' as u32 + 10) as u64
    }
}

/// More digits never write a smaller number.
proof fn lemma_hex_value_grows(digits: Seq<char>, k: int)
    requires
        0 <= k <= digits.len(),
    ensures
        spec_hex_value(digits.take(k)) <= spec_hex_value(digits),
    decreases digits.len(),
{
    if k < digits.len() {
        assert(digits.drop_last().take(k) =~= digits.take(k));
        lemma_hex_value_grows(digits.drop_last(), k);
    } else {
        assert(digits.take(k) =~= digits);
    }
}

/// Reads a 64-bit number written in hexadecimal digits.
fn parse_hex(text: &[char]) -> (r: Option<u64>)
    ensures
        r == spec_parse_hex(text@),
{
    if text.len() == 0 {
        return None;
    }
    let mut value: u64 = 0;
    let mut i: usize = 0;
    assert(text@.take(0) =~= Seq::<char>::empty());
    while i < text.len()
        invariant
            0 <= i <= text@.len(),
            spec_all_hex(text@.take(i as int)),
            value == spec_hex_value(text@.take(i as int)),
        decreases text@.len() - i,
    {
        let c = text[i];
        let ghost next = text@.take(i + 1);
        assert(next.drop_last() =~= text@.take(i as int));
        assert(next.last() == c);
        if !is_hex_digit(c) {
            assert(!spec_is_hex_digit(text@[i as int]));
            return None;
        }
        let d: u64 = hex_digit_value(c);
        assert(spec_hex_value(next) == 16 * value + d);
        if value > (u64::MAX - d) / 16 {
            proof {
                lemma_hex_value_grows(text@, i + 1);
            }
            return None;
        }
        value = value * 16 + d;
        assert forall|k: int| 0 <= k < next.len() implies spec_is_hex_digit(#[trigger] next[k]) by {
            if k < i {
                assert(next[k] == text@.take(i as int)[k]);
            }
        }
        i = i + 1;
    }
    assert(text@.take(i as int) =~= text@);
    Some(value)
}

/// The refinement level of an identifier of the given grid type.
///
/// An `ISEA3H` identifier carries its level in its first two characters. For
/// `IGEO7` the level cannot be read and `UnsupportedResolutionExtraction` is
/// returned; any other type gives `UnsupportedDggsType`.
pub fn extract_res_from_cellid(id: &str, dggs_type: &str) -> (r: Result<u8, DggsError>)
    ensures
        r == spec_extract_res_from_cellid(id@, dggs_type@),
{
    if same_text(dggs_type, "ISEA3H") {
        extract_res_from_z3(id)
    } else if same_text(dggs_type, "IGEO7") {
        Err(DggsError::UnsupportedResolutionExtraction)
    } else {
        Err(DggsError::UnsupportedDggsType)
    }
}

/// The refinement level that a Z3 identifier carries in its first two
/// characters; `InvalidZoneIdFormat` where the identifier is shorter or the
/// two are not both decimal digits.
pub fn extract_res_from_z3(id: &str) -> (r: Result<u8, DggsError>)
    ensures
        r == spec_extract_res_from_z3(id@),
{
    let chars = chars_of(id);
    if chars.len() < 2 {
        return Err(DggsError::InvalidZoneIdFormat);
    }
    let a = chars[0];
    let b = chars[1];
    if is_ascii_digit(a) && is_ascii_digit(b) {
        Ok(10 * digit_value(a) + digit_value(b))
    } else {
        Err(DggsError::InvalidZoneIdFormat)
    }
}

/// The refinement level of a Z7 identifier: 0 for one byte, 1 for two. An
/// identifier of any other length gives `InvalidZoneIdFormat` where it
/// writes no hexadecimal number of 64 bits, or one whose low sixty bits are
/// all zero.
pub fn extract_res_from_z7(id: &str) -> (r: Result<u8, DggsError>)
    ensures
        r == spec_extract_res_from_z7(id@),
{
    let bytes: usize = id.as_bytes().len();
    if bytes == 1 {
        return Ok(0);
    }
    if bytes == 2 {
        return Ok(1);
    }
    let chars = chars_of(id);
    match parse_hex(chars.as_slice()) {
        None => Err(DggsError::InvalidZoneIdFormat),
        Some(num) => {
            let shifted: u64 = num << 4u64;
            let lz: u32 = shifted.leading_zeros();
            proof {
                axiom_u64_leading_zeros(shifted);
            }
            if lz > 63 {
                Err(DggsError::InvalidZoneIdFormat)
            } else {
                Ok((2 + lz) as u8)
            }
        },
    }
}

/// The ISEA3H grid, generated by DGGRID.
#[derive(Debug)]
pub struct Isea3hImpl {
    pub adapter: DggridAdapter,
}

/// The parameters that select the grid: ISEA3H with its aperture of three
/// and its addresses of the kind Z3.
pub open spec fn spec_isea3h_metafile() -> Seq<char> {
    "dggs_type ISEA3H\n"@ + "dggs_aperture 3\n"@ + "output_address_type Z3\n"@
}

/// The text of the parameters that select the grid.
pub fn isea3h_metafile() -> (text: String)
    ensures
        text@ == spec_isea3h_metafile(),
{
    let mut text = String::new();
    text.append("dggs_type ISEA3H\n");
    assert(text@ =~= "dggs_type ISEA3H\n"@);
    text.append("dggs_aperture 3\n");
    text.append("output_address_type Z3\n");
    text
}

impl Isea3hImpl {
    /// The grid behind the given program, writing to the given directory.
    pub fn new(executable: String, workdir: String) -> (grid: Isea3hImpl)
        ensures
            grid.adapter.executable == executable,
            grid.adapter.workdir == workdir,
    {
        Isea3hImpl { adapter: DggridAdapter::new(executable, workdir) }
    }

    /// What to write to get the zones of a refinement level, all of them or,
    /// where a file with a region is named, those that meet the region.
    pub fn zones_from_bbox_request(
        &self,
        dggs_res_spec: u8,
        densify: bool,
        clip_region_file: Option<&str>,
        outputs: &OutputNames,
    ) -> (request: Request)
        ensures
            request.level == dggs_res_spec,
            request.input is None,
            request.metafile@ == spec_opening(
                DggsType::Isea3h,
                dggs_res_spec as nat,
                densify,
                *outputs,
            ) + match clip_region_file {
                Some(file) => spec_clip_region(file@),
                None => Seq::<char>::empty(),
            },
    {
        self.adapter.whole_earth_request(
            DggsType::Isea3h,
            dggs_res_spec,
            densify,
            clip_region_file,
            outputs,
        )
    }

    /// What to write to get the zone of a refinement level that holds a
    /// point. The coordinates are given as the text of decimal numbers and go
    /// to the input file, the latitude first.
    pub fn zone_from_point_request(
        &self,
        dggs_res_spec: u8,
        latitude: &str,
        longitude: &str,
        densify: bool,
        input_file_name: &str,
        outputs: &OutputNames,
    ) -> (request: Request)
        ensures
            request.level == dggs_res_spec,
            request.input is Some,
            request.input->0@ == latitude@ + " "@ + longitude@ + "\n"@,
            request.metafile@ == spec_opening(
                DggsType::Isea3h,
                dggs_res_spec as nat,
                densify,
                *outputs,
            ) + spec_transform_points(input_file_name@),
    {
        self.adapter.from_point_request(
            DggsType::Isea3h,
            dggs_res_spec,
            latitude,
            longitude,
            densify,
            input_file_name,
            outputs,
        )
    }

    /// What to write to get the zones of a refinement level that lie in a
    /// coarser zone. The level of the coarser zone is read from the first two
    /// characters of its identifier, and the request fails as that reading
    /// does; the rest of the identifier is the address that is clipped to.
    pub fn zones_from_parent_request(
        &self,
        dggs_res_spec: u8,
        parent_zone_id: &str,
        densify: bool,
        outputs: &OutputNames,
    ) -> (r: Result<Request, DggsError>)
        ensures
            match spec_extract_res_from_z3(parent_zone_id@) {
                Err(e) => r is Err && r->Err_0 == e,
                Ok(parent_level) => {
                    &&& r is Ok
                    &&& r->Ok_0.level == dggs_res_spec
                    &&& r->Ok_0.input is None
                    &&& r->Ok_0.metafile@ == spec_opening(
                        DggsType::Isea3h,
                        dggs_res_spec as nat,
                        densify,
                        *outputs,
                    ) + spec_clip_cell(
                        DggsType::Isea3h,
                        parent_level as nat,
                        parent_zone_id@.skip(2),
                    )
                },
            },
    {
        proof {
            lemma_type_names_differ();
        }
        self.adapter.coarse_cells_request(
            DggsType::Isea3h,
            dggs_res_spec,
            parent_zone_id,
            densify,
            outputs,
        )
    }

    /// What to write to get the zone with a given identifier. The refinement
    /// level is read from the first two characters of the identifier, and the
    /// request fails as that reading does; the rest of the identifier goes to
    /// the input file.
    pub fn zone_from_id_request(
        &self,
        zone_id: &str,
        densify: bool,
        input_file_name: &str,
        outputs: &OutputNames,
    ) -> (r: Result<Request, DggsError>)
        ensures
            match spec_extract_res_from_z3(zone_id@) {
                Err(e) => r is Err && r->Err_0 == e,
                Ok(level) => {
                    &&& r is Ok
                    &&& r->Ok_0.level == level
                    &&& r->Ok_0.input is Some
                    &&& r->Ok_0.input->0@ == zone_id@.skip(2) + "\n"@
                    &&& r->Ok_0.metafile@ == spec_opening(
                        DggsType::Isea3h,
                        level as nat,
                        densify,
                        *outputs,
                    ) + spec_transform_zones(DggsType::Isea3h, input_file_name@)
                },
            },
    {
        proof {
            lemma_type_names_differ();
        }
        self.adapter.single_zone_request(
            DggsType::Isea3h,
            zone_id,
            densify,
            input_file_name,
            outputs,
        )
    }
}

impl Default for Isea3hImpl {
    /// The grid behind the default adapter.
    fn default() -> (grid: Isea3hImpl)
        ensures
            grid.adapter.executable@ == "dggrid"@,
            grid.adapter.workdir@ == "/dev/shm"@,
    {
        Isea3hImpl { adapter: DggridAdapter::default() }
    }
}

/// The names of the two grid types are different texts.
pub proof fn lemma_type_names_differ()
    ensures
        "ISEA3H"@ != "IGEO7"@,
{
    reveal_strlit("ISEA3H");
    reveal_strlit("IGEO7");
    assert("ISEA3H"@.len() == 6);
    assert("IGEO7"@.len() == 5);
}

} // verus!
