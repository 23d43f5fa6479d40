//! The files that a request exchanges with DGGRID: the reading of what the
//! tool writes, the names of the files, and the parameters that every
//! request gives.
use vstd::prelude::*;
use vstd::string::StringExecFns;
use rand::distributions::{Alphanumeric, DistString};
use crate::error::DggsError;
use crate::models::common::{
    spec_optional_texts, spec_valid_zone_id, Coordinate, Zone, ZoneID, Zones, ZoneText,
};
use crate::models::dggrid::{spec_records, IdArray, IdArrayText};
use crate::text::{
    chars_of, decimal_text, same_chars, same_text, spec_decimal, spec_is_ascii_alphanumeric,
    spec_is_decimal, spec_lines, spec_texts, spec_two_digits, spec_views, spec_words, split_lines, split_words,
    string_of, two_digits,
};

verus! {

/// An address of the tool with the refinement level written before it.
pub open spec fn spec_label(level: nat, address: Seq<char>) -> Seq<char> {
    spec_two_digits(level) + address
}

/// The words after the first, each with the refinement level before it.
pub open spec fn spec_listed(words: Seq<Seq<char>>, level: nat) -> Seq<Seq<char>> {
    Seq::new((words.len() - 1) as nat, |i: int| spec_label(level, words[i + 1]))
}

/// The record that a row of words stands for: the first word names the zone,
/// at the level `own`; the other words are listed with it, at the level
/// `listed`.
pub open spec fn spec_id_array(words: Seq<Seq<char>>, own: nat, listed: nat) -> IdArrayText {
    IdArrayText { id: Some(spec_label(own, words[0])), arr: Some(spec_listed(words, listed)) }
}

/// The records of the lines that have a word, in the order of the lines.
pub open spec fn spec_id_arrays_of(lines: Seq<Seq<char>>, own: nat, listed: nat) -> Seq<IdArrayText>
    decreases lines.len(),
{
    if lines.len() == 0 {
        Seq::<IdArrayText>::empty()
    } else {
        let front = spec_id_arrays_of(lines.drop_last(), own, listed);
        let words = spec_words(lines.last());
        if words.len() == 0 {
            front
        } else {
            front.push(spec_id_array(words, own, listed))
        }
    }
}

/// The records that a children or neighbours file holds.
pub open spec fn spec_id_arrays(text: Seq<char>, own: nat, listed: nat) -> Seq<IdArrayText> {
    spec_id_arrays_of(spec_lines(text), own, listed)
}

/// An address with the refinement level written before it.
fn label(level: u16, address: &Vec<char>) -> (text: String)
    ensures
        text@ == spec_label(level as nat, address@),
{
    let mut chars = two_digits(level);
    let ghost digits = chars@;
    let mut i: usize = 0;
    while i < address.len()
        invariant
            0 <= i <= address@.len(),
            chars@ == digits + address@.take(i as int),
        decreases address@.len() - i,
    {
        chars.push(address[i]);
        i = i + 1;
        assert(digits + address@.take(i as int) =~= (digits + address@.take(i - 1)).push(address@[i - 1]));
    }
    assert(address@.take(address@.len() as int) =~= address@);
    string_of(chars.as_slice())
}

/// The record that a row of words stands for.
fn record_of(words: &Vec<Vec<char>>, own: u16, listed: u16) -> (record: IdArray)
    requires
        words@.len() > 0,
    ensures
        record@ == spec_id_array(spec_views(words@), own as nat, listed as nat),
{
    let id = label(own, &words[0]);
    let mut arr: Vec<String> = Vec::new();
    let mut i: usize = 1;
    while i < words.len()
        invariant
            1 <= i <= words@.len(),
            arr@.len() == i - 1,
            forall|k: int| 0 <= k < i - 1 ==> (#[trigger] arr@[k])@ == spec_label(listed as nat, words@[k + 1]@),
        decreases words@.len() - i,
    {
        arr.push(label(listed, &words[i]));
        i = i + 1;
    }
    assert(spec_texts(arr@) =~= spec_listed(spec_views(words@), listed as nat));
    IdArray { id: Some(id), arr: Some(arr) }
}

/// The records of a children or neighbours file.
fn parse_id_arrays(data: &str, own: u16, listed: u16) -> (records: Vec<IdArray>)
    ensures
        spec_records(records@) == spec_id_arrays(data@, own as nat, listed as nat),
{
    let chars = chars_of(data);
    let lines = split_lines(chars.as_slice());
    let ghost all = spec_views(lines@);
    let mut records: Vec<IdArray> = Vec::new();
    let mut i: usize = 0;
    assert(all.take(0) =~= Seq::<Seq<char>>::empty());
    assert(spec_records(records@) =~= Seq::<IdArrayText>::empty());
    while i < lines.len()
        invariant
            0 <= i <= lines@.len(),
            all == spec_views(lines@),
            spec_records(records@) == spec_id_arrays_of(all.take(i as int), own as nat, listed as nat),
        decreases lines@.len() - i,
    {
        let words = split_words(lines[i].as_slice());
        proof {
            let upto = all.take(i + 1);
            assert(upto.drop_last() =~= all.take(i as int));
            assert(upto.last() == lines@[i as int]@);
        }
        if words.len() > 0 {
            let record = record_of(&words, own, listed);
            let ghost before = spec_records(records@);
            records.push(record);
            assert(spec_records(records@) =~= before.push(record@));
        }
        i = i + 1;
    }
    assert(all.take(lines@.len() as int) =~= all);
    records
}

/// Reads a children file of the tool, written for the refinement level
/// `dggs_res_spec`. Every line that has a word gives one record: the first
/// word is the address of a zone, which gets that level written before it;
/// the other words are the addresses of its children, which get the next
/// level.
pub fn parse_children(data: &String, dggs_res_spec: &u8) -> (records: Vec<IdArray>)
    ensures
        spec_records(records@) == spec_id_arrays(
            data@,
            *dggs_res_spec as nat,
            *dggs_res_spec as nat + 1,
        ),
{
    let level: u16 = *dggs_res_spec as u16;
    parse_id_arrays(data.as_str(), level, level + 1)
}

/// Reads a neighbours file of the tool, written for the refinement level
/// `dggs_res_spec`. Every line that has a word gives one record: the first
/// word is the address of a zone, the other words are the addresses of its
/// neighbours, and each gets that level written before it.
pub fn parse_neighbors(data: &String, dggs_res_spec: &u8) -> (records: Vec<IdArray>)
    ensures
        spec_records(records@) == spec_id_arrays(data@, *dggs_res_spec as nat, *dggs_res_spec as nat),
{
    let level: u16 = *dggs_res_spec as u16;
    parse_id_arrays(data.as_str(), level, level)
}

/// Zone `k` is the first zone with the given identifier.
pub open spec fn spec_is_first_with(zones: Seq<ZoneText>, k: int, id: Seq<char>) -> bool {
    &&& 0 <= k < zones.len()
    &&& zones[k].id == id
    &&& forall|j: int| 0 <= j < k ==> (#[trigger] zones[j]).id != id
}

/// The list that zone `k` holds once the records were handed out: the list
/// of the last record that names the zone, where the zone is the first with
/// its identifier and a record names it; the list it had, where not.
pub open spec fn spec_assigned(
    zones: Seq<ZoneText>,
    k: int,
    data: Seq<IdArrayText>,
    initial: Option<Seq<Seq<char>>>,
) -> Option<Seq<Seq<char>>>
    decreases data.len(),
{
    if data.len() == 0 {
        initial
    } else {
        let record = data.last();
        if record.id is Some && spec_is_first_with(zones, k, record.id->0) {
            record.arr
        } else {
            spec_assigned(zones, k, data.drop_last(), initial)
        }
    }
}

/// A copy of an optional list of strings.
fn copy_of(list: &Option<Vec<String>>) -> (copy: Option<Vec<String>>)
    ensures
        spec_optional_texts(copy) == spec_optional_texts(*list),
{
    match list {
        None => None,
        Some(strings) => {
            let mut copy: Vec<String> = Vec::new();
            let mut i: usize = 0;
            while i < strings.len()
                invariant
                    0 <= i <= strings@.len(),
                    copy@.len() == i,
                    forall|k: int| 0 <= k < i ==> (#[trigger] copy@[k])@ == strings@[k]@,
                decreases strings@.len() - i,
            {
                copy.push(strings[i].clone());
                i = i + 1;
            }
            assert(spec_texts(copy@) =~= spec_texts(strings@));
            Some(copy)
        },
    }
}

/// The place of the first zone with the given identifier, or the number of
/// zones where there is none.
fn first_with(zones: &Vec<Zone>, id: &String) -> (k: usize)
    ensures
        k <= zones@.len(),
        k < zones@.len() ==> zones@[k as int].id.id@ == id@,
        forall|j: int| 0 <= j < k ==> (#[trigger] zones@[j]).id.id@ != id@,
{
    let mut k: usize = 0;
    while k < zones.len()
        invariant
            0 <= k <= zones@.len(),
            forall|j: int| 0 <= j < k ==> (#[trigger] zones@[j]).id.id@ != id@,
        decreases zones@.len() - k,
    {
        if zones[k].id.id == *id {
            return k;
        }
        k = k + 1;
    }
    k
}

/// Hands the lists of the records out to the zones they name, as the
/// children of the zones where `field` is `children`, as their neighbours
/// where it is `neighbors`. A record goes to the first zone with its
/// identifier; a later record for the same zone replaces an earlier one.
/// Nothing else changes, and for any other `field` nothing changes at all.
pub fn assign_field(cells_geo: &mut Zones, data: Vec<IdArray>, field: &str)
    ensures
        final(cells_geo)@.len() == old(cells_geo)@.len(),
        forall|k: int|
            0 <= k < old(cells_geo)@.len() ==> #[trigger] final(cells_geo)@[k] == (ZoneText {
                children: if field@ == "children"@ {
                    spec_assigned(
                        old(cells_geo)@,
                        k,
                        spec_records(data@),
                        old(cells_geo)@[k].children,
                    )
                } else {
                    old(cells_geo)@[k].children
                },
                neighbors: if field@ == "neighbors"@ {
                    spec_assigned(
                        old(cells_geo)@,
                        k,
                        spec_records(data@),
                        old(cells_geo)@[k].neighbors,
                    )
                } else {
                    old(cells_geo)@[k].neighbors
                },
                ..old(cells_geo)@[k]
            }),
{
    proof {
        reveal_strlit("children");
        reveal_strlit("neighbors");
        assert("children"@.len() == 8);
        assert("neighbors"@.len() == 9);
    }
    let children = same_text(field, "children");
    let neighbors = same_text(field, "neighbors");
    let ghost before = cells_geo@;
    let ghost records = spec_records(data@);
    if !children && !neighbors {
        return;
    }
    let mut i: usize = 0;
    while i < data.len()
        invariant
            0 <= i <= data@.len(),
            before == old(cells_geo)@,
            records == spec_records(data@),
            children == (field@ == "children"@),
            !children == (field@ == "neighbors"@),
            cells_geo@.len() == before.len(),
            forall|k: int|
                0 <= k < before.len() ==> #[trigger] cells_geo@[k] == (ZoneText {
                    children: if children {
                        spec_assigned(before, k, records.take(i as int), before[k].children)
                    } else {
                        before[k].children
                    },
                    neighbors: if !children {
                        spec_assigned(before, k, records.take(i as int), before[k].neighbors)
                    } else {
                        before[k].neighbors
                    },
                    ..before[k]
                }),
        decreases data@.len() - i,
    {
        proof {
            let upto = records.take(i + 1);
            assert(upto.drop_last() =~= records.take(i as int));
            assert(upto.last() == data@[i as int]@);
        }
        let ghost now = cells_geo@;
        let ghost done = records.take(i as int);
        let ghost upto = records.take(i + 1);
        match &data[i].id {
            Some(id) => {
                let k = first_with(&cells_geo.zones, id);
                proof {
                    assert forall|j: int| 0 <= j < before.len() implies (#[trigger] before[j]).id
                        == cells_geo.zones@[j].id.id@ by {
                        assert(now[j].id == before[j].id);
                    }
                    assert(k < before.len() ==> spec_is_first_with(before, k as int, id@));
                    assert forall|j: int| 0 <= j < before.len() && j != k implies !spec_is_first_with(
                        before,
                        j,
                        id@,
                    ) by {
                        if j < k {
                            assert(before[j].id != id@);
                        } else if k < before.len() {
                            assert(before[k as int].id == id@);
                        } else {
                            assert(before[j].id != id@);
                        }
                    }
                }
                if k < cells_geo.zones.len() {
                    let list = copy_of(&data[i].arr);
                    if children {
                        cells_geo.zones[k].children = list;
                    } else {
                        cells_geo.zones[k].neighbors = list;
                    }
                    proof {
                        assert forall|j: int| 0 <= j < before.len() && j != k implies cells_geo@[j]
                            == now[j] by {}
                        assert(cells_geo@[k as int] == (ZoneText {
                            children: if children {
                                data@[i as int]@.arr
                            } else {
                                now[k as int].children
                            },
                            neighbors: if !children {
                                data@[i as int]@.arr
                            } else {
                                now[k as int].neighbors
                            },
                            ..now[k as int]
                        }));
                    }
                }
            },
            None => {},
        }
        proof {
            assert forall|j: int| 0 <= j < before.len() implies #[trigger] cells_geo@[j] == (ZoneText {
                children: if children {
                    spec_assigned(before, j, upto, before[j].children)
                } else {
                    before[j].children
                },
                neighbors: if !children {
                    spec_assigned(before, j, upto, before[j].neighbors)
                } else {
                    before[j].neighbors
                },
                ..before[j]
            }) by {
                assert(now[j] == (ZoneText {
                    children: if children {
                        spec_assigned(before, j, done, before[j].children)
                    } else {
                        before[j].children
                    },
                    neighbors: if !children {
                        spec_assigned(before, j, done, before[j].neighbors)
                    } else {
                        before[j].neighbors
                    },
                    ..before[j]
                }));
            }
        }
        i = i + 1;
    }
    assert(records.take(data@.len() as int) =~= records);
}

/// What has been read of a cell file: the zones that are complete, and the
/// identifier, the centre and the ring of the zone that is being read.
pub ghost struct AigenState {
    pub zones: Seq<ZoneText>,
    pub id: Seq<char>,
    pub center: (Seq<char>, Seq<char>),
    pub ring: Seq<(Seq<char>, Seq<char>)>,
}

/// Before the first line: no zone, the default identifier, the centre at
/// the origin, an empty ring.
pub open spec fn spec_aigen_start() -> AigenState {
    AigenState {
        zones: Seq::<ZoneText>::empty(),
        id: "0000000000000000"@,
        center: ("0.0"@, "0.0"@),
        ring: Seq::<(Seq<char>, Seq<char>)>::empty(),
    }
}

/// What one line of a cell file does, by the number of its words.
///
/// Three words start a zone: an address, which gets the refinement level
/// written before it and must then be a zone identifier, and the two decimal
/// numbers of the centre. Two words are the two decimal numbers of one more
/// point of the ring, which holds no more points than a vertex count can
/// tell. A line of two or three words that is none of these is malformed and
/// gives `AdapterFailure`. The single word `END` after a ring of at least two
/// points completes the zone, which has one vertex less than its ring has
/// points, and empties the ring. Any other line does nothing.
pub open spec fn spec_aigen_step(state: AigenState, words: Seq<Seq<char>>, level: nat) -> Result<
    AigenState,
    DggsError,
> {
    if words.len() == 3 {
        let id = spec_label(level, words[0]);
        if spec_valid_zone_id(id) && spec_is_decimal(words[1]) && spec_is_decimal(words[2]) {
            Ok(AigenState { id: id, center: (words[1], words[2]), ..state })
        } else {
            Err(DggsError::AdapterFailure)
        }
    } else if words.len() == 2 {
        if state.ring.len() < u32::MAX && spec_is_decimal(words[0]) && spec_is_decimal(words[1]) {
            Ok(AigenState { ring: state.ring.push((words[0], words[1])), ..state })
        } else {
            Err(DggsError::AdapterFailure)
        }
    } else if words.len() == 1 && words[0] == "END"@ && state.ring.len() > 1 {
        Ok(
            AigenState {
                zones: state.zones.push(
                    ZoneText {
                        id: state.id,
                        region: state.ring,
                        center: state.center,
                        vertex_count: (state.ring.len() - 1) as u32,
                        children: None,
                        neighbors: None,
                    },
                ),
                ring: Seq::<(Seq<char>, Seq<char>)>::empty(),
                ..state
            },
        )
    } else {
        Ok(state)
    }
}

/// What the lines of a cell file do, one after the other, up to the first
/// line that fails.
pub open spec fn spec_aigen_run(lines: Seq<Seq<char>>, level: nat) -> Result<AigenState, DggsError>
    decreases lines.len(),
{
    if lines.len() == 0 {
        Ok(spec_aigen_start())
    } else {
        match spec_aigen_run(lines.drop_last(), level) {
            Err(e) => Err(e),
            Ok(state) => spec_aigen_step(state, spec_words(lines.last()), level),
        }
    }
}

/// The zones that a cell file holds.
pub open spec fn spec_parse_aigen(text: Seq<char>, level: nat) -> Result<Seq<ZoneText>, DggsError> {
    match spec_aigen_run(spec_lines(text), level) {
        Err(e) => Err(e),
        Ok(state) => Ok(state.zones),
    }
}

/// Reads a cell file of the tool, written for the refinement level
/// `dggs_res_spec`, into zones without children and neighbours.
///
/// Fails with `AdapterFailure` at the first malformed line: an address that,
/// with the level before it, is no zone identifier, a coordinate that is no
/// decimal number, or one point more than a vertex count can tell.
pub fn parse_aigen(data: &String, dggs_res_spec: &u8) -> (r: Result<Zones, DggsError>)
    ensures
        match r {
            Ok(zones) => spec_parse_aigen(data@, *dggs_res_spec as nat) == Ok::<
                Seq<ZoneText>,
                DggsError,
            >(zones@),
            Err(e) => spec_parse_aigen(data@, *dggs_res_spec as nat) == Err::<
                Seq<ZoneText>,
                DggsError,
            >(e),
        },
{
    let level: u16 = *dggs_res_spec as u16;
    let chars = chars_of(data.as_str());
    let lines = split_lines(chars.as_slice());
    let end = chars_of("END");
    let ghost all = spec_views(lines@);

    let mut zones: Vec<Zone> = Vec::new();
    let mut id = ZoneID::default();
    let mut center = Coordinate::origin();
    let mut ring: Vec<Coordinate> = Vec::new();

    let mut i: usize = 0;
    assert(all.take(0) =~= Seq::<Seq<char>>::empty());
    assert(Seq::new(zones@.len(), |k: int| zones@[k]@) =~= Seq::<ZoneText>::empty());
    assert(Seq::new(ring@.len(), |k: int| ring@[k]@) =~= Seq::<(Seq<char>, Seq<char>)>::empty());
    while i < lines.len()
        invariant
            0 <= i <= lines@.len(),
            all == spec_views(lines@),
            level == *dggs_res_spec,
            end@ == "END"@,
            spec_aigen_run(all.take(i as int), level as nat) == Ok::<AigenState, DggsError>(
                AigenState {
                    zones: Seq::new(zones@.len(), |k: int| zones@[k]@),
                    id: id.id@,
                    center: center@,
                    ring: Seq::new(ring@.len(), |k: int| ring@[k]@),
                },
            ),
            spec_parse_aigen(data@, level as nat) == match spec_aigen_run(all, level as nat) {
                Err(e) => Err::<Seq<ZoneText>, DggsError>(e),
                Ok(state) => Ok(state.zones),
            },
        decreases lines@.len() - i,
    {
        let words = split_words(lines[i].as_slice());
        let ghost state = spec_aigen_run(all.take(i as int), level as nat)->Ok_0;
        proof {
            let upto = all.take(i + 1);
            assert(upto.drop_last() =~= all.take(i as int));
            assert(upto.last() == lines@[i as int]@);
            assert(spec_aigen_run(upto, level as nat) == spec_aigen_step(
                state,
                spec_views(words@),
                level as nat,
            ));
        }
        if words.len() == 3 {
            let text = label(level, &words[0]);
            let made = ZoneID::new(text.as_str());
            let point = Coordinate::new(
                string_of(words[1].as_slice()),
                string_of(words[2].as_slice()),
            );
            match (made, point) {
                (Ok(made), Ok(point)) => {
                    id = made;
                    center = point;
                },
                _ => {
                    proof {
                        lemma_aigen_failure_stays(all, i + 1, level as nat);
                    }
                    return Err(DggsError::AdapterFailure);
                },
            }
        } else if words.len() == 2 {
            let point = Coordinate::new(
                string_of(words[0].as_slice()),
                string_of(words[1].as_slice()),
            );
            match point {
                Ok(point) if ring.len() < u32::MAX as usize => {
                    let ghost before = Seq::new(ring@.len(), |k: int| ring@[k]@);
                    ring.push(point);
                    assert(Seq::new(ring@.len(), |k: int| ring@[k]@) =~= before.push(
                        (words@[0]@, words@[1]@),
                    ));
                },
                _ => {
                    proof {
                        lemma_aigen_failure_stays(all, i + 1, level as nat);
                    }
                    return Err(DggsError::AdapterFailure);
                },
            }
        } else if words.len() == 1 && same_chars(words[0].as_slice(), end.as_slice()) && ring.len()
            > 1 {
            let ghost before = Seq::new(zones@.len(), |k: int| zones@[k]@);
            let ghost points = Seq::new(ring@.len(), |k: int| ring@[k]@);
            let count: u32 = (ring.len() - 1) as u32;
            let zone = Zone {
                id: ZoneID { id: id.id.clone() },
                region: ring,
                center: center.clone(),
                vertex_count: count,
                children: None,
                neighbors: None,
            };
            assert(zone@.region =~= points);
            zones.push(zone);
            ring = Vec::new();
            assert(Seq::new(zones@.len(), |k: int| zones@[k]@) =~= before.push(
                ZoneText {
                    id: id.id@,
                    region: points,
                    center: center@,
                    vertex_count: count,
                    children: None,
                    neighbors: None,
                },
            ));
            assert(Seq::new(ring@.len(), |k: int| ring@[k]@) =~= Seq::<
                (Seq<char>, Seq<char>),
            >::empty());
        }
        i = i + 1;
    }
    assert(all.take(lines@.len() as int) =~= all);
    Ok(Zones { zones })
}

/// Once a line has failed, the file has failed, whatever follows.
proof fn lemma_aigen_failure_stays(lines: Seq<Seq<char>>, k: int, level: nat)
    requires
        0 <= k <= lines.len(),
        spec_aigen_run(lines.take(k), level) is Err,
    ensures
        spec_aigen_run(lines, level) == spec_aigen_run(lines.take(k), level),
    decreases lines.len(),
{
    if k < lines.len() {
        assert(lines.drop_last().take(k) =~= lines.take(k));
        lemma_aigen_failure_stays(lines.drop_last(), k, level);
    } else {
        assert(lines.take(k) =~= lines);
    }
}

/// Reads the three files that the tool wrote for one request, at the
/// refinement level `dggs_res_spec`: the cells, then the children and the
/// neighbours, which are handed out to the zones that they name.
pub fn dggrid_parse(
    aigen_data: &String,
    children_data: &String,
    neighbor_data: &String,
    dggs_res_spec: &u8,
) -> (r: Result<Zones, DggsError>)
    ensures
        match r {
            Ok(zones) => {
                let level = *dggs_res_spec as nat;
                let cells = spec_parse_aigen(aigen_data@, level);
                let children = spec_id_arrays(children_data@, level, level + 1);
                let neighbors = spec_id_arrays(neighbor_data@, level, level);
                &&& cells is Ok
                &&& zones@.len() == cells->Ok_0.len()
                &&& forall|k: int|
                    0 <= k < zones@.len() ==> #[trigger] zones@[k] == (ZoneText {
                        children: spec_assigned(cells->Ok_0, k, children, None),
                        neighbors: spec_assigned(cells->Ok_0, k, neighbors, None),
                        ..cells->Ok_0[k]
                    })
            },
            Err(e) => spec_parse_aigen(aigen_data@, *dggs_res_spec as nat) == Err::<
                Seq<ZoneText>,
                DggsError,
            >(e),
        },
{
    let mut result = match parse_aigen(aigen_data, dggs_res_spec) {
        Ok(zones) => zones,
        Err(e) => {
            return Err(e);
        },
    };
    let ghost cells = result@;
    let children = parse_children(children_data, dggs_res_spec);
    let ghost children_records = spec_records(children@);
    assign_field(&mut result, children, "children");
    let ghost with_children = result@;
    let neighbors = parse_neighbors(neighbor_data, dggs_res_spec);
    let ghost neighbor_records = spec_records(neighbors@);
    assign_field(&mut result, neighbors, "neighbors");
    proof {
        reveal_strlit("children");
        reveal_strlit("neighbors");
        assert("children"@.len() == 8);
        assert("neighbors"@.len() == 9);
        lemma_cells_have_no_lists(spec_lines(aigen_data@), *dggs_res_spec as nat);
        assert forall|k: int| 0 <= k < result@.len() implies #[trigger] result@[k] == (ZoneText {
            children: spec_assigned(cells, k, children_records, None),
            neighbors: spec_assigned(cells, k, neighbor_records, None),
            ..cells[k]
        }) by {
            assert(with_children[k].id == cells[k].id);
            lemma_assigned_by_ids(with_children, cells, k, neighbor_records, None);
        }
    }
    Ok(result)
}

/// The zones of a cell file have neither children nor neighbours.
proof fn lemma_cells_have_no_lists(lines: Seq<Seq<char>>, level: nat)
    ensures
        spec_aigen_run(lines, level) is Ok ==> forall|k: int|
            0 <= k < spec_aigen_run(lines, level)->Ok_0.zones.len() ==> {
                &&& (#[trigger] spec_aigen_run(lines, level)->Ok_0.zones[k]).children is None
                &&& spec_aigen_run(lines, level)->Ok_0.zones[k].neighbors is None
            },
    decreases lines.len(),
{
    if lines.len() > 0 {
        lemma_cells_have_no_lists(lines.drop_last(), level);
    }
}

/// Which zone a record goes to depends on the identifiers of the zones alone.
proof fn lemma_assigned_by_ids(
    a: Seq<ZoneText>,
    b: Seq<ZoneText>,
    k: int,
    data: Seq<IdArrayText>,
    initial: Option<Seq<Seq<char>>>,
)
    requires
        a.len() == b.len(),
        forall|j: int| 0 <= j < a.len() ==> (#[trigger] a[j]).id == b[j].id,
    ensures
        spec_assigned(a, k, data, initial) == spec_assigned(b, k, data, initial),
    decreases data.len(),
{
    if data.len() > 0 {
        lemma_assigned_by_ids(a, b, k, data.drop_last(), initial);
        let record = data.last();
        if record.id is Some {
            let id = record.id->0;
            if spec_is_first_with(a, k, id) {
                assert forall|j: int| 0 <= j < k implies (#[trigger] b[j]).id != id by {
                    assert(a[j].id != id);
                }
                assert(spec_is_first_with(b, k, id));
            }
            if spec_is_first_with(b, k, id) {
                assert forall|j: int| 0 <= j < k implies (#[trigger] a[j]).id != id by {
                    assert(b[j].id != id);
                }
                assert(spec_is_first_with(a, k, id));
            }
        }
    }
}

/// The densification that the tool is asked for, where any is.
pub const DENSIFICATION: u8 = 50;

/// The length of the random name of the files of one request.
pub const CODE_LENGTH: usize = 16;

/// The names of the files that one request exchanges with the tool. All
/// share one random stem, so that requests that run at the same time do not
/// meet.
#[derive(Debug)]
pub struct ScratchNames {
    /// The stem: what the names have in common.
    pub code: String,
    /// The parameters of the request.
    pub meta: String,
    /// The cells that the tool writes.
    pub aigen: String,
    /// The children that the tool writes.
    pub children: String,
    /// The neighbours that the tool writes.
    pub neighbor: String,
    /// The region that the request is clipped to.
    pub bbox: String,
    /// The points or zones that the request asks about.
    pub input: String,
}

/// The names that belong to a stem.
pub open spec fn spec_names_of(names: ScratchNames, code: Seq<char>) -> bool {
    &&& names.code@ == code
    &&& names.meta@ == code + ".meta"@
    &&& names.aigen@ == code + ".gen"@
    &&& names.children@ == code + ".chd"@
    &&& names.neighbor@ == code + ".nbr"@
    &&& names.bbox@ == code + ".bbox"@
    &&& names.input@ == code + ".txt"@
}

/// A stem of sixteen ASCII letters and digits.
pub open spec fn spec_is_code(code: Seq<char>) -> bool {
    &&& code.len() == CODE_LENGTH
    &&& forall|i: int| 0 <= i < code.len() ==> spec_is_ascii_alphanumeric(#[trigger] code[i])
}

/// `Alphanumeric.sample_string` of the crate `rand`, on the generator of the
/// calling thread: a string of `len` characters, each of them an ASCII letter
/// or digit. Which ones is left to chance.
#[verifier::external_body]
fn sample_alphanumeric(len: usize) -> (code: String)
    ensures
        code@.len() == len,
        forall|i: int| 0 <= i < code@.len() ==> spec_is_ascii_alphanumeric(#[trigger] code@[i]),
{
    Alphanumeric.sample_string(&mut rand::thread_rng(), len)
}

/// A name made of a stem and an extension.
fn with_extension(code: &String, extension: &str) -> (name: String)
    ensures
        name@ == code@ + extension@,
{
    let mut name = code.clone();
    name.append(extension);
    name
}

/// The names of the files for a stem.
pub fn scratch_names(code: String) -> (names: ScratchNames)
    ensures
        spec_names_of(names, code@),
{
    let meta = with_extension(&code, ".meta");
    let aigen = with_extension(&code, ".gen");
    let children = with_extension(&code, ".chd");
    let neighbor = with_extension(&code, ".nbr");
    let bbox = with_extension(&code, ".bbox");
    let input = with_extension(&code, ".txt");
    ScratchNames { code, meta, aigen, children, neighbor, bbox, input }
}

/// The names of the files for a new request, on a stem drawn at random.
pub fn dggrid_setup() -> (names: ScratchNames)
    ensures
        spec_is_code(names.code@),
        spec_names_of(names, names.code@),
{
    scratch_names(sample_alphanumeric(CODE_LENGTH))
}

/// The parameters that every request gives the tool: the form of its output,
/// the refinement level, the files to write the cells, the neighbours and
/// the children to, and the densification where it is asked for.
pub open spec fn spec_dggrid_metafile(
    level: nat,
    cell_output_file_name: Seq<char>,
    children_output_file_name: Seq<char>,
    neighbor_output_file_name: Seq<char>,
    densify: bool,
) -> Seq<char> {
    "longitude_wrap_mode UNWRAP_EAST\n"@ + "cell_output_type AIGEN\n"@ + "unwrap_points FALSE\n"@
        + "output_cell_label_type OUTPUT_ADDRESS_TYPE\n"@ + "precision 9\n"@ + "dggs_res_spec "@
        + spec_decimal(level) + "\n"@ + "cell_output_file_name "@ + cell_output_file_name + "\n"@
        + "neighbor_output_type TEXT\n"@ + "neighbor_output_file_name "@
        + neighbor_output_file_name + "\n"@ + "children_output_type TEXT\n"@
        + "children_output_file_name "@ + children_output_file_name + "\n"@ + (if densify {
        "densification "@ + spec_decimal(DENSIFICATION as nat) + "\n"@
    } else {
        Seq::<char>::empty()
    })
}

/// The text of the parameters that every request gives the tool.
pub fn dggrid_metafile(
    dggs_res_spec: &u8,
    cell_output_file_name: &str,
    children_output_file_name: &str,
    neighbor_output_file_name: &str,
    densify: bool,
) -> (text: String)
    ensures
        text@ == spec_dggrid_metafile(
            *dggs_res_spec as nat,
            cell_output_file_name@,
            children_output_file_name@,
            neighbor_output_file_name@,
            densify,
        ),
{
    let level = decimal_text(*dggs_res_spec as u16);
    let mut text = String::new();
    text.append("longitude_wrap_mode UNWRAP_EAST\n");
    assert(text@ =~= "longitude_wrap_mode UNWRAP_EAST\n"@);
    text.append("cell_output_type AIGEN\n");
    text.append("unwrap_points FALSE\n");
    text.append("output_cell_label_type OUTPUT_ADDRESS_TYPE\n");
    text.append("precision 9\n");
    text.append("dggs_res_spec ");
    text.append(level.as_str());
    text.append("\n");
    text.append("cell_output_file_name ");
    text.append(cell_output_file_name);
    text.append("\n");
    text.append("neighbor_output_type TEXT\n");
    text.append("neighbor_output_file_name ");
    text.append(neighbor_output_file_name);
    text.append("\n");
    text.append("children_output_type TEXT\n");
    text.append("children_output_file_name ");
    text.append(children_output_file_name);
    text.append("\n");
    let ghost common = text@;
    if densify {
        let amount = decimal_text(DENSIFICATION as u16);
        text.append("densification ");
        text.append(amount.as_str());
        text.append("\n");
        assert(text@ =~= common + ("densification "@ + spec_decimal(DENSIFICATION as nat) + "\n"@));
    } else {
        assert(text@ =~= common + Seq::<char>::empty());
    }
    text
}

} // verus!
