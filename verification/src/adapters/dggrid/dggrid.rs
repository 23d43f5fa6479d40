//! Where the DGGRID tool is found, and what a request writes for it.
use vstd::prelude::*;
use vstd::string::StringExecFns;
use crate::adapters::dggrid::common::{dggrid_metafile, spec_dggrid_metafile};
use crate::adapters::dggrid::isea3h::{
    extract_res_from_cellid, isea3h_metafile, lemma_type_names_differ,
    spec_extract_res_from_cellid, spec_isea3h_metafile,
};
use crate::error::DggsError;
use crate::text::{chars_of, decimal_text, same_text, spec_decimal, string_of};

verus! {

/// The densification of the cells that a request is clipped to.
pub const CLIP_CELL_DENSIFICATION: u8 = 50;

/// The program to run and the directory for the files of a request.
#[derive(Debug)]
pub struct DggridAdapter {
    pub executable: String,
    pub workdir: String,
}

/// The grids that the tool is asked for.
#[derive(Clone, Copy, Debug, PartialEq, Eq, Structural)]
pub enum DggsType {
    /// Hexagons of aperture three on the icosahedron, addressed by Z3.
    Isea3h,
    /// Hexagons of aperture seven on the icosahedron, addressed by Z7.
    Igeo7,
}

/// The names, without extension, of the files that the tool writes to.
#[derive(Debug)]
pub struct OutputNames {
    pub cells: String,
    pub children: String,
    pub neighbors: String,
}

/// What is written before the tool runs: its parameters and, where the
/// request has one, the content of its input file.
#[derive(Debug)]
pub struct Request {
    /// The refinement level of the zones that are asked for.
    pub level: u8,
    /// The text of the parameter file.
    pub metafile: String,
    /// The text of the input file.
    pub input: Option<String>,
}

impl DggsType {
    /// The name of the grid type.
    pub open spec fn spec_name(self) -> Seq<char> {
        match self {
            DggsType::Isea3h => "ISEA3H"@,
            DggsType::Igeo7 => "IGEO7"@,
        }
    }

    /// The grid type with the given name.
    pub open spec fn spec_parse(name: Seq<char>) -> Result<DggsType, DggsError> {
        if name == "ISEA3H"@ {
            Ok(DggsType::Isea3h)
        } else if name == "IGEO7"@ {
            Ok(DggsType::Igeo7)
        } else {
            Err(DggsError::UnsupportedDggsType)
        }
    }

    /// The parameters that select the grid: its type, its aperture and the
    /// kind of its addresses.
    pub open spec fn spec_metafile(self) -> Seq<char> {
        match self {
            DggsType::Isea3h => spec_isea3h_metafile(),
            DggsType::Igeo7 => "dggs_type IGEO7\n"@ + "dggs_aperture 7\n"@
                + "output_address_type Z7\n"@,
        }
    }

    /// The parameter that tells the kind of the addresses that are given.
    pub open spec fn spec_input_address_type(self) -> Seq<char> {
        match self {
            DggsType::Isea3h => "input_address_type Z3\n"@,
            DggsType::Igeo7 => "input_address_type Z7\n"@,
        }
    }

    /// The name of the grid type.
    pub fn name(&self) -> (name: &'static str)
        ensures
            name@ == self.spec_name(),
    {
        match self {
            DggsType::Isea3h => "ISEA3H",
            DggsType::Igeo7 => "IGEO7",
        }
    }

    /// The grid type with the given name: `ISEA3H` or `IGEO7`, in capitals.
    /// Any other name gives `UnsupportedDggsType`.
    pub fn parse(name: &str) -> (r: Result<DggsType, DggsError>)
        ensures
            r == Self::spec_parse(name@),
    {
        if same_text(name, "ISEA3H") {
            Ok(DggsType::Isea3h)
        } else if same_text(name, "IGEO7") {
            Ok(DggsType::Igeo7)
        } else {
            Err(DggsError::UnsupportedDggsType)
        }
    }

    /// The text of the parameters that select the grid.
    pub fn metafile(&self) -> (text: String)
        ensures
            text@ == self.spec_metafile(),
    {
        match self {
            DggsType::Isea3h => isea3h_metafile(),
            DggsType::Igeo7 => {
                let mut text = String::new();
                text.append("dggs_type IGEO7\n");
                assert(text@ =~= "dggs_type IGEO7\n"@);
                text.append("dggs_aperture 7\n");
                text.append("output_address_type Z7\n");
                text
            },
        }
    }

    /// The text of the parameter that tells the kind of the addresses.
    fn input_address_type(&self) -> (text: &'static str)
        ensures
            text@ == self.spec_input_address_type(),
    {
        match self {
            DggsType::Isea3h => "input_address_type Z3\n",
            DggsType::Igeo7 => "input_address_type Z7\n",
        }
    }
}

/// The parameters that a request starts with: those that every request
/// gives, then those that select the grid.
pub open spec fn spec_opening(
    dggs_type: DggsType,
    level: nat,
    densify: bool,
    outputs: OutputNames,
) -> Seq<char> {
    spec_dggrid_metafile(level, outputs.cells@, outputs.children@, outputs.neighbors@, densify)
        + dggs_type.spec_metafile()
}

/// The parameters that clip a request to the region in a file.
pub open spec fn spec_clip_region(clip_region_file: Seq<char>) -> Seq<char> {
    "clip_subset_type AIGEN\n"@ + "clip_region_files "@ + clip_region_file + "\n"@
}

/// The parameters that ask for the zones of the points in a file.
pub open spec fn spec_transform_points(input_file_name: Seq<char>) -> Seq<char> {
    "dggrid_operation TRANSFORM_POINTS\n"@ + "input_address_type GEO\n"@ + "input_file_name "@
        + input_file_name + "\n"@
}

/// The parameters that clip a request to a coarser zone.
pub open spec fn spec_clip_cell(
    dggs_type: DggsType,
    clip_cell_res: nat,
    clip_cell_address: Seq<char>,
) -> Seq<char> {
    "clip_subset_type COARSE_CELLS\n"@ + "clip_cell_res "@ + spec_decimal(clip_cell_res) + "\n"@
        + "clip_cell_densification "@ + spec_decimal(CLIP_CELL_DENSIFICATION as nat) + "\n"@
        + "clip_cell_addresses \""@ + clip_cell_address + "\"\n"@
        + dggs_type.spec_input_address_type()
}

/// The parameters that ask for the zones whose addresses are in a file.
pub open spec fn spec_transform_zones(dggs_type: DggsType, input_file_name: Seq<char>) -> Seq<
    char,
> {
    "input_file_name "@ + input_file_name + "\n"@ + "dggrid_operation TRANSFORM_POINTS\n"@
        + dggs_type.spec_input_address_type()
}

/// The characters of an identifier after the two that write its level.
fn address_of(id: &str) -> (address: String)
    requires
        id@.len() >= 2,
    ensures
        address@ == id@.skip(2),
{
    let chars = chars_of(id);
    let mut rest: Vec<char> = Vec::new();
    let mut i: usize = 2;
    while i < chars.len()
        invariant
            2 <= i <= chars@.len(),
            rest@ == chars@.subrange(2, i as int),
        decreases chars@.len() - i,
    {
        rest.push(chars[i]);
        i = i + 1;
        assert(chars@.subrange(2, i as int) =~= chars@.subrange(2, i - 1).push(chars@[i - 1]));
    }
    assert(chars@.subrange(2, chars@.len() as int) =~= chars@.skip(2));
    string_of(rest.as_slice())
}

/// The parameters that a request starts with.
fn opening(dggs_type: DggsType, dggs_res_spec: u8, densify: bool, outputs: &OutputNames) -> (text:
    String)
    ensures
        text@ == spec_opening(dggs_type, dggs_res_spec as nat, densify, *outputs),
{
    let mut text = dggrid_metafile(
        &dggs_res_spec,
        outputs.cells.as_str(),
        outputs.children.as_str(),
        outputs.neighbors.as_str(),
        densify,
    );
    let grid = dggs_type.metafile();
    text.append(grid.as_str());
    text
}

impl DggridAdapter {
    /// An adapter for the given program and directory.
    pub fn new(executable: String, workdir: String) -> (adapter: DggridAdapter)
        ensures
            adapter.executable == executable,
            adapter.workdir == workdir,
    {
        DggridAdapter { executable, workdir }
    }

    /// What to write to get the zones of a refinement level, all of them or,
    /// where a file with a region is named, those that meet the region.
    pub fn whole_earth_request(
        &self,
        dggs_type: DggsType,
        dggs_res_spec: u8,
        densify: bool,
        clip_region_file: Option<&str>,
        outputs: &OutputNames,
    ) -> (request: Request)
        ensures
            request.level == dggs_res_spec,
            request.input is None,
            request.metafile@ == spec_opening(dggs_type, dggs_res_spec as nat, densify, *outputs)
                + match clip_region_file {
                Some(file) => spec_clip_region(file@),
                None => Seq::<char>::empty(),
            },
    {
        let mut text = opening(dggs_type, dggs_res_spec, densify, outputs);
        let ghost start = text@;
        match clip_region_file {
            Some(file) => {
                text.append("clip_subset_type AIGEN\n");
                text.append("clip_region_files ");
                text.append(file);
                text.append("\n");
                assert(text@ =~= start + spec_clip_region(file@));
            },
            None => {
                assert(text@ =~= start + Seq::<char>::empty());
            },
        }
        Request { level: dggs_res_spec, metafile: text, input: None }
    }

    /// What to write to get the zone of a refinement level that holds a
    /// point. The coordinates are given as the text of decimal numbers and go
    /// to the input file, the latitude first.
    pub fn from_point_request(
        &self,
        dggs_type: DggsType,
        dggs_res_spec: u8,
        latitude: &str,
        longitude: &str,
        densify: bool,
        input_file_name: &str,
        outputs: &OutputNames,
    ) -> (request: Request)
        ensures
            request.level == dggs_res_spec,
            request.input is Some,
            request.input->0@ == latitude@ + " "@ + longitude@ + "\n"@,
            request.metafile@ == spec_opening(dggs_type, dggs_res_spec as nat, densify, *outputs)
                + spec_transform_points(input_file_name@),
    {
        let mut text = opening(dggs_type, dggs_res_spec, densify, outputs);
        let ghost start = text@;
        text.append("dggrid_operation TRANSFORM_POINTS\n");
        text.append("input_address_type GEO\n");
        text.append("input_file_name ");
        text.append(input_file_name);
        text.append("\n");
        assert(text@ =~= start + spec_transform_points(input_file_name@));
        let mut input = String::new();
        input.append(latitude);
        assert(input@ =~= latitude@);
        input.append(" ");
        input.append(longitude);
        input.append("\n");
        Request { level: dggs_res_spec, metafile: text, input: Some(input) }
    }

    /// What to write to get the zones of a refinement level that lie in a
    /// coarser zone. The level of the coarser zone is read from its
    /// identifier, and the request fails as that reading does; the identifier
    /// without its first two characters is the address that is clipped to.
    pub fn coarse_cells_request(
        &self,
        dggs_type: DggsType,
        dggs_res_spec: u8,
        clip_cell_addresses: &str,
        densify: bool,
        outputs: &OutputNames,
    ) -> (r: Result<Request, DggsError>)
        ensures
            match spec_extract_res_from_cellid(clip_cell_addresses@, dggs_type.spec_name()) {
                Err(e) => r is Err && r->Err_0 == e,
                Ok(clip_cell_res) => {
                    &&& r is Ok
                    &&& r->Ok_0.level == dggs_res_spec
                    &&& r->Ok_0.input is None
                    &&& r->Ok_0.metafile@ == spec_opening(
                        dggs_type,
                        dggs_res_spec as nat,
                        densify,
                        *outputs,
                    ) + spec_clip_cell(dggs_type, clip_cell_res as nat, clip_cell_addresses@.skip(2))
                },
            },
    {
        proof {
            lemma_type_names_differ();
        }
        let clip_cell_res = match extract_res_from_cellid(clip_cell_addresses, dggs_type.name()) {
            Ok(level) => level,
            Err(e) => {
                return Err(e);
            },
        };
        let address = address_of(clip_cell_addresses);
        let level_text = decimal_text(clip_cell_res as u16);
        let amount = decimal_text(CLIP_CELL_DENSIFICATION as u16);
        let mut text = opening(dggs_type, dggs_res_spec, densify, outputs);
        let ghost start = text@;
        text.append("clip_subset_type COARSE_CELLS\n");
        text.append("clip_cell_res ");
        text.append(level_text.as_str());
        text.append("\n");
        text.append("clip_cell_densification ");
        text.append(amount.as_str());
        text.append("\n");
        text.append("clip_cell_addresses \"");
        text.append(address.as_str());
        text.append("\"\n");
        text.append(dggs_type.input_address_type());
        assert(text@ =~= start + spec_clip_cell(
            dggs_type,
            clip_cell_res as nat,
            clip_cell_addresses@.skip(2),
        ));
        Ok(Request { level: dggs_res_spec, metafile: text, input: None })
    }

    /// What to write to get the zone with a given identifier. The refinement
    /// level is read from the identifier, and the request fails as that
    /// reading does; the identifier without its first two characters goes to
    /// the input file.
    pub fn single_zone_request(
        &self,
        dggs_type: DggsType,
        zone_id: &str,
        densify: bool,
        input_file_name: &str,
        outputs: &OutputNames,
    ) -> (r: Result<Request, DggsError>)
        ensures
            match spec_extract_res_from_cellid(zone_id@, dggs_type.spec_name()) {
                Err(e) => r is Err && r->Err_0 == e,
                Ok(level) => {
                    &&& r is Ok
                    &&& r->Ok_0.level == level
                    &&& r->Ok_0.input is Some
                    &&& r->Ok_0.input->0@ == zone_id@.skip(2) + "\n"@
                    &&& r->Ok_0.metafile@ == spec_opening(dggs_type, level as nat, densify, *outputs)
                        + spec_transform_zones(dggs_type, input_file_name@)
                },
            },
    {
        proof {
            lemma_type_names_differ();
        }
        let level = match extract_res_from_cellid(zone_id, dggs_type.name()) {
            Ok(level) => level,
            Err(e) => {
                return Err(e);
            },
        };
        let mut input = address_of(zone_id);
        input.append("\n");
        let mut text = opening(dggs_type, level, densify, outputs);
        let ghost start = text@;
        text.append("input_file_name ");
        text.append(input_file_name);
        text.append("\n");
        text.append("dggrid_operation TRANSFORM_POINTS\n");
        text.append(dggs_type.input_address_type());
        assert(text@ =~= start + spec_transform_zones(dggs_type, input_file_name@));
        Ok(Request { level, metafile: text, input: Some(input) })
    }
}

impl Default for DggridAdapter {
    /// The program `dggrid` of the search path, writing to shared memory.
    fn default() -> (adapter: DggridAdapter)
        ensures
            adapter.executable@ == "dggrid"@,
            adapter.workdir@ == "/dev/shm"@,
    {
        DggridAdapter { executable: "dggrid".to_owned(), workdir: "/dev/shm".to_owned() }
    }
}

} // verus!
