use geo_plegmata::adapters::dggrid::common::{
    assign_field, dggrid_metafile, dggrid_parse, dggrid_setup, parse_aigen, parse_children,
    parse_neighbors, scratch_names,
};
use geo_plegmata::adapters::dggrid::dggrid::{DggridAdapter, DggsType, OutputNames};
use geo_plegmata::adapters::dggrid::isea3h::{isea3h_metafile, Isea3hImpl};
use geo_plegmata::error::DggsError;
use geo_plegmata::models::common::{Coordinate, Zone, ZoneID, Zones};
use geo_plegmata::models::dggrid::IdArray;

fn children_reference(data: &str, res: u8) -> Vec<(Option<String>, Option<Vec<String>>)> {
    data.lines()
        .filter_map(|line| {
            let parts: Vec<&str> = line.split_whitespace().collect();
            if parts.is_empty() {
                return None;
            }
            let id = Some(format!("{:02}{}", res, parts[0]));
            let arr = parts.iter().skip(1).map(|s| format!("{:02}{}", res + 1, s)).collect();
            Some((id, Some(arr)))
        })
        .collect()
}

fn neighbors_reference(data: &str, res: u8) -> Vec<(Option<String>, Option<Vec<String>>)> {
    data.lines()
        .filter_map(|line| {
            let parts: Vec<&str> = line.split_whitespace().collect();
            if parts.is_empty() {
                return None;
            }
            let id = Some(format!("{:02}{}", res, parts[0]));
            let arr = parts.iter().skip(1).map(|s| format!("{:02}{}", res, s)).collect();
            Some((id, Some(arr)))
        })
        .collect()
}

fn pairs(records: Vec<IdArray>) -> Vec<(Option<String>, Option<Vec<String>>)> {
    records.into_iter().map(|r| (r.id, r.arr)).collect()
}

const SAMPLES: [&str; 8] = [
    "",
    "\n",
    "0001 0002 0003 0004\n",
    "a b c\nd e\n\nf\n",
    "  a   b  \r\n\r\nc\r\n",
    "single",
    "x y\nx z\n",
    "\t\n \n1 2\n",
];

#[test]
fn children_get_the_next_level() {
    let data = "0001 0002 0003\n0004\n".to_string();
    let records = pairs(parse_children(&data, &5));
    assert_eq!(
        records,
        vec![
            (Some("050001".to_string()), Some(vec!["060002".to_string(), "060003".to_string()])),
            (Some("050004".to_string()), Some(vec![])),
        ]
    );
    for sample in SAMPLES {
        for res in [0u8, 5, 9, 10, 42, 99, 100, 254] {
            assert_eq!(
                pairs(parse_children(&sample.to_string(), &res)),
                children_reference(sample, res)
            );
        }
    }
}

#[test]
fn children_of_the_last_level_get_level_256() {
    let records = pairs(parse_children(&"a b".to_string(), &255));
    assert_eq!(records, vec![(Some("255a".to_string()), Some(vec!["256b".to_string()]))]);
}

#[test]
fn neighbors_get_the_same_level() {
    let data = "0001 0002 0003\n".to_string();
    let records = pairs(parse_neighbors(&data, &12));
    assert_eq!(
        records,
        vec![(Some("120001".to_string()), Some(vec!["120002".to_string(), "120003".to_string()]))]
    );
    for sample in SAMPLES {
        for res in [0u8, 5, 9, 10, 42, 99, 100, 255] {
            assert_eq!(
                pairs(parse_neighbors(&sample.to_string(), &res)),
                neighbors_reference(sample, res)
            );
        }
    }
}

fn zone(id: &str) -> Zone {
    Zone {
        id: ZoneID { id: id.to_string() },
        region: vec![],
        center: Coordinate::new("1".to_string(), "2".to_string()).unwrap(),
        vertex_count: 6,
        children: None,
        neighbors: None,
    }
}

fn record(id: Option<&str>, arr: Option<&[&str]>) -> IdArray {
    IdArray {
        id: id.map(|s| s.to_string()),
        arr: arr.map(|a| a.iter().map(|s| s.to_string()).collect()),
    }
}

#[test]
fn lists_go_to_the_first_zone_with_the_identifier() {
    let mut zones = Zones { zones: vec![zone("a"), zone("b"), zone("a"), zone("c")] };
    let data = vec![
        record(Some("a"), Some(&["x"])),
        record(Some("missing"), Some(&["y"])),
        record(None, Some(&["z"])),
        record(Some("c"), None),
        record(Some("b"), Some(&["1", "2"])),
        record(Some("b"), Some(&["3"])),
    ];
    zones.zones[3].children = Some(vec!["old".to_string()]);
    assign_field(&mut zones, data, "children");
    assert_eq!(zones.zones[0].children, Some(vec!["x".to_string()]));
    assert_eq!(zones.zones[1].children, Some(vec!["3".to_string()]));
    assert_eq!(zones.zones[2].children, None);
    assert_eq!(zones.zones[3].children, None);
    for z in zones.zones.iter() {
        assert_eq!(z.neighbors, None);
        assert_eq!(z.vertex_count, 6);
        assert_eq!(z.center.x(), "1");
    }
    let ids: Vec<&str> = zones.zones.iter().map(|z| z.id.id.as_str()).collect();
    assert_eq!(ids, vec!["a", "b", "a", "c"]);
}

#[test]
fn neighbours_leave_children_alone() {
    let mut zones = Zones { zones: vec![zone("a"), zone("b")] };
    assign_field(&mut zones, vec![record(Some("a"), Some(&["k"]))], "children");
    assign_field(&mut zones, vec![record(Some("a"), Some(&["n"])), record(Some("b"), Some(&[]))], "neighbors");
    assert_eq!(zones.zones[0].children, Some(vec!["k".to_string()]));
    assert_eq!(zones.zones[0].neighbors, Some(vec!["n".to_string()]));
    assert_eq!(zones.zones[1].children, None);
    assert_eq!(zones.zones[1].neighbors, Some(vec![]));
    assign_field(&mut zones, vec![], "neighbors");
    assert_eq!(zones.zones[0].neighbors, Some(vec!["n".to_string()]));
}

const CELLS: &str = "00000000000001 10.5 20.25\n\
10.0 20.0\n\
11.0 20.0\n\
11.0 21.0\n\
10.0 20.0\n\
END\n\
00000000000002 -1.5 2e3\n\
1 2\n\
3 4\n\
5 6\n\
END\n\
END\n";

#[test]
fn cell_file_gives_zones() {
    let zones = parse_aigen(&CELLS.to_string(), &5).unwrap();
    assert_eq!(zones.zones.len(), 2);
    let first = &zones.zones[0];
    assert_eq!(first.id.id, "0500000000000001");
    assert_eq!((first.center.x().as_str(), first.center.y().as_str()), ("10.5", "20.25"));
    assert_eq!(first.vertex_count, 3);
    let ring: Vec<(&str, &str)> =
        first.region.iter().map(|c| (c.x().as_str(), c.y().as_str())).collect();
    assert_eq!(ring, vec![("10.0", "20.0"), ("11.0", "20.0"), ("11.0", "21.0"), ("10.0", "20.0")]);
    assert_eq!(first.children, None);
    assert_eq!(first.neighbors, None);
    let second = &zones.zones[1];
    assert_eq!(second.id.id, "0500000000000002");
    assert_eq!((second.center.x().as_str(), second.center.y().as_str()), ("-1.5", "2e3"));
    assert_eq!(second.vertex_count, 2);
    assert_eq!(second.region.len(), 3);
}

#[test]
fn cell_file_edge_cases() {
    // nothing to read
    assert_eq!(parse_aigen(&"".to_string(), &5).unwrap().zones.len(), 0);
    assert_eq!(parse_aigen(&"END\nEND\n".to_string(), &5).unwrap().zones.len(), 0);
    // a ring of one point is not closed by END, and the point stays in the ring
    let zones = parse_aigen(&"1 2\nEND\n3 4\nEND\n".to_string(), &5).unwrap();
    assert_eq!(zones.zones.len(), 1);
    assert_eq!(zones.zones[0].id.id, "0000000000000000");
    assert_eq!(zones.zones[0].center.x(), "0.0");
    assert_eq!(zones.zones[0].center.y(), "0.0");
    assert_eq!(zones.zones[0].vertex_count, 1);
    assert_eq!(zones.zones[0].region.len(), 2);
    // a second ring keeps the identifier and the centre of the first
    let text = "00000000000001 7 8\n1 2\n3 4\nEND\n5 6\n7 8\n9 0\nEND\n";
    let zones = parse_aigen(&text.to_string(), &12).unwrap();
    assert_eq!(zones.zones.len(), 2);
    assert_eq!(zones.zones[1].id.id, "1200000000000001");
    assert_eq!(zones.zones[1].center.x(), "7");
    assert_eq!(zones.zones[1].vertex_count, 2);
    // lines of four words, and single words other than END, do nothing
    let text = "00000000000001 7 8\n1 2\nx\n1 2 3 4\nend\n3 4\nEND\n";
    let zones = parse_aigen(&text.to_string(), &12).unwrap();
    assert_eq!(zones.zones.len(), 1);
    assert_eq!(zones.zones[0].region.len(), 2);
}

#[test]
fn cell_file_with_a_bad_address_fails() {
    // fifteen characters after the level
    let text = "0000000000001 7 8\n1 2\n3 4\nEND\n";
    assert_eq!(parse_aigen(&text.to_string(), &5).err(), Some(DggsError::AdapterFailure));
    // level 100 makes seventeen characters
    assert_eq!(parse_aigen(&CELLS.to_string(), &100).err(), Some(DggsError::AdapterFailure));
    // sixteen characters after the level make eighteen
    let text = "0000000000000001 7 8\n1 2\n3 4\nEND\n";
    assert_eq!(parse_aigen(&text.to_string(), &5).unwrap().zones[0].id.id, "050000000000000001");
    // a character that is no letter or digit
    let text = "0000000000000- 7 8\n";
    assert_eq!(parse_aigen(&text.to_string(), &5).err(), Some(DggsError::AdapterFailure));
    // the failure stays, whatever follows
    let text = "bad 7 8\n00000000000001 7 8\n1 2\n3 4\nEND\n";
    assert_eq!(parse_aigen(&text.to_string(), &5).err(), Some(DggsError::AdapterFailure));
}

#[test]
fn three_files_give_zones_with_children_and_neighbours() {
    let children = "00000000000001 00000000000011 00000000000012\n".to_string();
    let neighbors = "00000000000002 00000000000001\n00000000000009 00000000000001\n".to_string();
    let zones = dggrid_parse(&CELLS.to_string(), &children, &neighbors, &5).unwrap();
    assert_eq!(zones.zones.len(), 2);
    assert_eq!(
        zones.zones[0].children,
        Some(vec!["0600000000000011".to_string(), "0600000000000012".to_string()])
    );
    assert_eq!(zones.zones[0].neighbors, None);
    assert_eq!(zones.zones[1].children, None);
    assert_eq!(zones.zones[1].neighbors, Some(vec!["0500000000000001".to_string()]));
    assert_eq!(zones.zones[1].vertex_count, 2);
    assert_eq!(
        dggrid_parse(&"x 1 2\n".to_string(), &children, &neighbors, &5).err(),
        Some(DggsError::AdapterFailure)
    );
}

#[test]
fn scratch_names_share_a_random_stem() {
    let names = dggrid_setup();
    assert_eq!(names.code.chars().count(), 16);
    assert!(names.code.chars().all(|c| c.is_ascii_alphanumeric()));
    assert_eq!(names.meta, format!("{}.meta", names.code));
    assert_eq!(names.aigen, format!("{}.gen", names.code));
    assert_eq!(names.children, format!("{}.chd", names.code));
    assert_eq!(names.neighbor, format!("{}.nbr", names.code));
    assert_eq!(names.bbox, format!("{}.bbox", names.code));
    assert_eq!(names.input, format!("{}.txt", names.code));
    let fixed = scratch_names("abc".to_string());
    assert_eq!(fixed.code, "abc");
    assert_eq!(fixed.meta, "abc.meta");
    assert_eq!(fixed.input, "abc.txt");
}

const OPENING: &str = "longitude_wrap_mode UNWRAP_EAST\n\
cell_output_type AIGEN\n\
unwrap_points FALSE\n\
output_cell_label_type OUTPUT_ADDRESS_TYPE\n\
precision 9\n\
dggs_res_spec 7\n\
cell_output_file_name /w/c\n\
neighbor_output_type TEXT\n\
neighbor_output_file_name /w/n\n\
children_output_type TEXT\n\
children_output_file_name /w/k\n";

const GRID: &str = "dggs_type ISEA3H\ndggs_aperture 3\noutput_address_type Z3\n";

#[test]
fn parameter_file_text() {
    assert_eq!(dggrid_metafile(&7, "/w/c", "/w/k", "/w/n", false), OPENING);
    assert_eq!(
        dggrid_metafile(&7, "/w/c", "/w/k", "/w/n", true),
        format!("{}densification 50\n", OPENING)
    );
    assert!(dggrid_metafile(&0, "", "", "", false).contains("dggs_res_spec 0\n"));
    assert!(dggrid_metafile(&255, "", "", "", false).contains("dggs_res_spec 255\n"));
    assert_eq!(isea3h_metafile(), GRID);
}

fn outputs() -> OutputNames {
    OutputNames { cells: "/w/c".to_string(), children: "/w/k".to_string(), neighbors: "/w/n".to_string() }
}

#[test]
fn requests_for_a_region_and_a_point() {
    let grid = Isea3hImpl::default();
    assert_eq!(grid.adapter.executable, "dggrid");
    assert_eq!(grid.adapter.workdir, "/dev/shm");
    let whole = grid.zones_from_bbox_request(7, false, None, &outputs());
    assert_eq!(whole.level, 7);
    assert_eq!(whole.input, None);
    assert_eq!(whole.metafile, format!("{}{}", OPENING, GRID));
    let clipped = grid.zones_from_bbox_request(7, true, Some("/w/b.bbox"), &outputs());
    assert_eq!(
        clipped.metafile,
        format!(
            "{}densification 50\n{}clip_subset_type AIGEN\nclip_region_files /w/b.bbox\n",
            OPENING, GRID
        )
    );
    let point = grid.zone_from_point_request(7, "38.695125", "-9.222154", false, "/w/i.txt", &outputs());
    assert_eq!(point.level, 7);
    assert_eq!(point.input, Some("38.695125 -9.222154\n".to_string()));
    assert_eq!(
        point.metafile,
        format!(
            "{}{}dggrid_operation TRANSFORM_POINTS\ninput_address_type GEO\ninput_file_name /w/i.txt\n",
            OPENING, GRID
        )
    );
}

#[test]
fn requests_that_read_a_level_from_an_identifier() {
    let grid = Isea3hImpl::new("tool".to_string(), "/tmp".to_string());
    assert_eq!(grid.adapter.executable, "tool");
    assert_eq!(grid.adapter.workdir, "/tmp");
    let adapter = DggridAdapter::new("a".to_string(), "b".to_string());
    assert_eq!((adapter.executable.as_str(), adapter.workdir.as_str()), ("a", "b"));
    let adapter = DggridAdapter::default();
    assert_eq!((adapter.executable.as_str(), adapter.workdir.as_str()), ("dggrid", "/dev/shm"));

    let parent = grid.zones_from_parent_request(7, "0500000000000001", false, &outputs()).unwrap();
    assert_eq!(parent.level, 7);
    assert_eq!(parent.input, None);
    assert_eq!(
        parent.metafile,
        format!(
            "{}{}clip_subset_type COARSE_CELLS\nclip_cell_res 5\nclip_cell_densification 50\nclip_cell_addresses \"00000000000001\"\ninput_address_type Z3\n",
            OPENING, GRID
        )
    );
    assert_eq!(
        grid.zones_from_parent_request(7, "x500000000000001", false, &outputs()).err(),
        Some(DggsError::InvalidZoneIdFormat)
    );

    let zone = grid.zone_from_id_request("0700000000000001", false, "/w/i.txt", &outputs()).unwrap();
    assert_eq!(zone.level, 7);
    assert_eq!(zone.input, Some("00000000000001\n".to_string()));
    assert_eq!(
        zone.metafile,
        format!(
            "{}{}input_file_name /w/i.txt\ndggrid_operation TRANSFORM_POINTS\ninput_address_type Z3\n",
            OPENING, GRID
        )
    );
    let short = grid.zone_from_id_request("12", true, "i", &outputs()).unwrap();
    assert_eq!(short.level, 12);
    assert_eq!(short.input, Some("\n".to_string()));
    assert!(short.metafile.contains("dggs_res_spec 12\n"));
    assert_eq!(
        grid.zone_from_id_request("1", false, "i", &outputs()).err(),
        Some(DggsError::InvalidZoneIdFormat)
    );
}

const SEVEN: &str = "dggs_type IGEO7\ndggs_aperture 7\noutput_address_type Z7\n";

#[test]
fn grid_types_by_name() {
    assert_eq!(DggsType::parse("ISEA3H"), Ok(DggsType::Isea3h));
    assert_eq!(DggsType::parse("IGEO7"), Ok(DggsType::Igeo7));
    for other in ["", "isea3h", "igeo7", "ISEA3H ", "H3", "IGEO", "ISEA3HX"] {
        assert_eq!(DggsType::parse(other), Err(DggsError::UnsupportedDggsType));
    }
    assert_eq!(DggsType::Isea3h.name(), "ISEA3H");
    assert_eq!(DggsType::Igeo7.name(), "IGEO7");
    assert_eq!(DggsType::Isea3h.metafile(), GRID);
    assert_eq!(DggsType::Igeo7.metafile(), SEVEN);
}

#[test]
fn requests_for_the_grid_of_aperture_seven() {
    let adapter = DggridAdapter::default();
    let whole = adapter.whole_earth_request(DggsType::Igeo7, 7, false, None, &outputs());
    assert_eq!(whole.metafile, format!("{}{}", OPENING, SEVEN));
    let point =
        adapter.from_point_request(DggsType::Igeo7, 7, "1.5", "2.5", true, "in", &outputs());
    assert_eq!(point.input, Some("1.5 2.5\n".to_string()));
    assert_eq!(
        point.metafile,
        format!(
            "{}densification 50\n{}dggrid_operation TRANSFORM_POINTS\ninput_address_type GEO\ninput_file_name in\n",
            OPENING, SEVEN
        )
    );
    // the level of such an identifier cannot be read
    assert_eq!(
        adapter
            .coarse_cells_request(DggsType::Igeo7, 7, "0500000000000001", false, &outputs())
            .err(),
        Some(DggsError::UnsupportedResolutionExtraction)
    );
    assert_eq!(
        adapter.single_zone_request(DggsType::Igeo7, "0500000000000001", false, "in", &outputs()).err(),
        Some(DggsError::UnsupportedResolutionExtraction)
    );
    let same = adapter
        .single_zone_request(DggsType::Isea3h, "0500000000000001", false, "in", &outputs())
        .unwrap();
    assert_eq!(same.level, 5);
    assert_eq!(same.input, Some("00000000000001\n".to_string()));
}

#[test]
fn cell_file_with_a_bad_number_fails() {
    for text in [
        "x y\n",
        "1 y\n",
        "x 2\n",
        "00000000000001 7 north\n",
        "00000000000001 east 8\n",
        "00000000000001 7 8\n1 2\n3 4,5\nEND\n",
        "1.2.3 4\n",
        "1e 2\n",
        ". 2\n",
        "inf 2\n",
        "NaN 2\n",
        "0x10 2\n",
        "1 --2\n",
    ] {
        assert_eq!(
            parse_aigen(&text.to_string(), &5).err(),
            Some(DggsError::AdapterFailure),
            "{:?}",
            text
        );
    }
}

#[test]
fn decimal_numbers_as_the_tool_writes_them() {
    for good in [
        "0", "7", "-7", "+7", "10.5", "-9.222154", "38.695125000", ".5", "5.", "-.5", "1e3",
        "1E3", "1e+3", "1.5e-10", "-0.0", "000.100", "123456789012345678901234567890", "1e400",
    ] {
        let made = Coordinate::new(good.to_string(), good.to_string());
        assert!(made.is_ok(), "{:?}", good);
        assert_eq!(made.unwrap().x(), good);
        assert!(good.parse::<f64>().is_ok(), "{:?}", good);
    }
    for bad in [
        "", "+", "-", ".", "e5", "1e", "1e+", "1e5.0", "1.2.3", "1,5", " 1", "1 ", "--1", "1-",
        "inf", "nan", "infinity", "0x1", "1_000", "\u{661}", "1e5x", "-.e5", "+.",
    ] {
        assert_eq!(
            Coordinate::new(bad.to_string(), "1".to_string()).err(),
            Some(DggsError::AdapterFailure),
            "{:?}",
            bad
        );
        assert_eq!(
            Coordinate::new("1".to_string(), bad.to_string()).err(),
            Some(DggsError::AdapterFailure),
            "{:?}",
            bad
        );
    }
    let origin = Coordinate::origin();
    assert_eq!((origin.x().as_str(), origin.y().as_str()), ("0.0", "0.0"));
    let copy = origin.clone();
    assert_eq!((copy.x().as_str(), copy.y().as_str()), ("0.0", "0.0"));
}

#[test]
fn other_fields_change_nothing() {
    let mut zones = Zones { zones: vec![zone("a"), zone("b")] };
    zones.zones[0].children = Some(vec!["k".to_string()]);
    for field in ["", "parents", "Children", "neighbours", "children "] {
        assign_field(&mut zones, vec![record(Some("a"), Some(&["x"]))], field);
        assert_eq!(zones.zones[0].children, Some(vec!["k".to_string()]));
        assert_eq!(zones.zones[0].neighbors, None);
        assert_eq!(zones.zones[1].children, None);
        assert_eq!(zones.zones[1].neighbors, None);
    }
}
