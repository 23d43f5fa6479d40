use geo_plegmata::error::DggsError;
use geo_plegmata::types::{CellId, UnitPolyhedron};

#[test]
fn test_zone_id_small() {
    let refinement_ratio = 4_u8;
    let initial_discrete_global_grid = UnitPolyhedron::Icosahedron;
    let face_id = 5_u8;
    let hierarchy = [2, 3];
    let zone_id = CellId::new(
        refinement_ratio,
        initial_discrete_global_grid,
        2,
        face_id,
        &hierarchy,
    )
    .unwrap();

    let bits = zone_id.bits();
    let total_bits = zone_id.bit_length();

    println!("CellId = {} ({} bits):", bits, total_bits);
    let mut line = String::new();
    for i in (0..total_bits).rev() {
        let bit = (bits >> i) & 1;
        line.push_str(&format!("{}", bit));
        if i % 8 == 0 {
            line.push(' ');
        } // optional: group by byte
    }
    println!("{}", line);

    assert!(bits == 231976, "Cell ID not matching the reference");
    match zone_id {
        CellId::U32(_) => {}
        _ => panic!("Expected U32 for small hierarchy"),
    }
}

#[test]
fn cell_id_rejects_unknown_ratio() {
    for ratio in 0..=255u8 {
        let made = CellId::new(ratio, UnitPolyhedron::Cube, 0, 0, &[]);
        if ratio == 3 || ratio == 4 || ratio == 7 {
            assert!(made.is_ok());
        } else {
            assert_eq!(made, Err(DggsError::UnsupportedRefinementRatio));
        }
    }
}

#[test]
fn cell_id_empty_lineage_is_the_header() {
    // flag 0, solid 4 at bit 1, level 0, face 0
    assert_eq!(
        CellId::new(3, UnitPolyhedron::Icosahedron, 0, 0, &[]),
        Ok(CellId::U32(8))
    );
    // flag 1, solid 0
    assert_eq!(
        CellId::new(7, UnitPolyhedron::Tetrahedron, 0, 0, &[]),
        Ok(CellId::U32(1))
    );
    // level at bit 4, face at bit 9
    assert_eq!(
        CellId::new(4, UnitPolyhedron::Cube, 31, 19, &[]),
        Ok(CellId::U32(2 + 31 * 16 + 19 * 512))
    );
}

#[test]
fn cell_id_ratio_seven_packs_three_bits_per_step() {
    let made = CellId::new(7, UnitPolyhedron::Octahedron, 3, 17, &[6, 0, 5]).unwrap();
    let expected: u128 =
        1 + (2 << 1) + (3 << 4) + (17 << 9) + (6 << 14) + (0 << 17) + (5 << 20);
    assert_eq!(made, CellId::U32(expected as u32));
    assert_eq!(made.bits(), expected);
}

#[test]
fn cell_id_selects_the_narrowest_width() {
    // ratio 4: 14 + 2 * steps bits
    let nine = [1u8; 9];
    let ten = [1u8; 10];
    let twenty_five = [1u8; 25];
    let twenty_six = [1u8; 26];
    let fifty_seven = [1u8; 57];
    let fifty_eight = [1u8; 58];
    let make = |h: &[u8]| CellId::new(4, UnitPolyhedron::Icosahedron, 1, 1, h);
    assert!(matches!(make(&nine), Ok(CellId::U32(_))));
    assert!(matches!(make(&ten), Ok(CellId::U64(_))));
    assert!(matches!(make(&twenty_five), Ok(CellId::U64(_))));
    assert!(matches!(make(&twenty_six), Ok(CellId::U128(_))));
    assert!(matches!(make(&fifty_seven), Ok(CellId::U128(_))));
    assert_eq!(make(&fifty_eight), Err(DggsError::EncodingOverflow));
    assert_eq!(make(&nine).unwrap().bit_length(), 32);
    assert_eq!(make(&ten).unwrap().bit_length(), 64);
    assert_eq!(make(&twenty_six).unwrap().bit_length(), 128);

    // ratio 7: 14 + 3 * steps bits
    let six = [1u8; 6];
    let seven = [1u8; 7];
    let sixteen = [1u8; 16];
    let seventeen = [1u8; 17];
    let thirty_eight = [1u8; 38];
    let thirty_nine = [1u8; 39];
    let make = |h: &[u8]| CellId::new(7, UnitPolyhedron::Icosahedron, 1, 1, h);
    assert!(matches!(make(&six), Ok(CellId::U32(_))));
    assert!(matches!(make(&seven), Ok(CellId::U64(_))));
    assert!(matches!(make(&sixteen), Ok(CellId::U64(_))));
    assert!(matches!(make(&seventeen), Ok(CellId::U128(_))));
    assert!(matches!(make(&thirty_eight), Ok(CellId::U128(_))));
    assert_eq!(make(&thirty_nine), Err(DggsError::EncodingOverflow));
}

#[test]
fn cell_id_fills_all_128_bits() {
    let hierarchy = [3u8; 57];
    let made = CellId::new(4, UnitPolyhedron::Icosahedron, 31, 31, &hierarchy).unwrap();
    let mut expected: u128 = (4 << 1) | (31 << 4) | (31 << 9);
    for i in 0..57 {
        expected |= 3u128 << (14 + 2 * i);
    }
    assert_eq!(made, CellId::U128(expected));
    assert_eq!(expected >> 126, 3);
}

#[test]
fn cell_id_fields_read_back() {
    let solids = [
        UnitPolyhedron::Tetrahedron,
        UnitPolyhedron::Cube,
        UnitPolyhedron::Octahedron,
        UnitPolyhedron::Dodecahedron,
        UnitPolyhedron::Icosahedron,
    ];
    for (n, solid) in solids.iter().enumerate() {
        for ratio in [3u8, 4, 7] {
            let top: u8 = if ratio == 7 { 7 } else { 3 };
            for steps in [0usize, 1, 5, 9, 10, 20, 30, 38] {
                let hierarchy: Vec<u8> = (0..steps).map(|i| (i as u8 * 5 + n as u8) % (top + 1)).collect();
                let level = (steps % 32) as u8;
                let face = ((steps * 7 + n) % 20) as u8;
                let made = CellId::new(ratio, *solid, level, face, &hierarchy).unwrap();
                assert_eq!(made.is_ratio_seven(), ratio == 7);
                assert_eq!(made.base_solid(), Ok(*solid));
                assert_eq!(made.refinement_level(), level);
                assert_eq!(made.face_id(), face);
                for (i, step) in hierarchy.iter().enumerate() {
                    assert_eq!(made.hierarchy_index(i), Some(*step));
                }
            }
        }
    }
}

#[test]
fn cell_id_hierarchy_index_ends_with_the_bits() {
    let made = CellId::new(4, UnitPolyhedron::Icosahedron, 0, 0, &[1, 2]).unwrap();
    assert_eq!(made.hierarchy_index(0), Some(1));
    assert_eq!(made.hierarchy_index(1), Some(2));
    assert_eq!(made.hierarchy_index(2), Some(0));
    assert_eq!(made.hierarchy_index(56), Some(0));
    assert_eq!(made.hierarchy_index(57), None);
    assert_eq!(made.hierarchy_index(usize::MAX), None);
    let seven = CellId::new(7, UnitPolyhedron::Icosahedron, 0, 0, &[5]).unwrap();
    assert_eq!(seven.hierarchy_index(0), Some(5));
    assert_eq!(seven.hierarchy_index(37), Some(0));
    assert_eq!(seven.hierarchy_index(38), None);
}

#[test]
fn cell_id_wide_fields_lie_over_their_neighbours() {
    // a level of 255 reaches into the bits of the face
    let made = CellId::new(4, UnitPolyhedron::Tetrahedron, 255, 0, &[]).unwrap();
    assert_eq!(made, CellId::U32(255 << 4));
    assert_eq!(made.refinement_level(), 31);
    assert_eq!(made.face_id(), 7);
    // a step of 255 in the last place of a 32-bit identifier loses its high bits
    let nine = [0u8, 0, 0, 0, 0, 0, 0, 0, 255];
    let made = CellId::new(4, UnitPolyhedron::Tetrahedron, 0, 0, &nine).unwrap();
    assert_eq!(made, CellId::U32(3 << 30));
}

#[test]
fn unknown_base_solid_is_reported() {
    for n in 0..=255u8 {
        let solid = UnitPolyhedron::from_id(n);
        if n <= 4 {
            assert_eq!(solid.unwrap().id(), n);
        } else {
            assert_eq!(solid, Err(DggsError::UnsupportedBaseSolid));
        }
    }
    // solid bits 7 name no solid
    assert_eq!(CellId::U32(7 << 1).base_solid(), Err(DggsError::UnsupportedBaseSolid));
    assert_eq!(CellId::U64(4 << 1).base_solid(), Ok(UnitPolyhedron::Icosahedron));
}

#[test]
fn error_messages_are_distinct() {
    let all = [
        DggsError::InvalidZoneIdFormat,
        DggsError::UnsupportedRefinementRatio,
        DggsError::UnsupportedBaseSolid,
        DggsError::EncodingOverflow,
        DggsError::PointOutsideAllFaces,
        DggsError::DegenerateTriangle,
        DggsError::UnsupportedResolutionExtraction,
        DggsError::UnsupportedDggsType,
        DggsError::AdapterFailure,
    ];
    for (i, a) in all.iter().enumerate() {
        assert!(!a.message().is_empty());
        for b in all.iter().skip(i + 1) {
            assert_ne!(a.message(), b.message());
        }
    }
    assert_eq!(
        DggsError::InvalidZoneIdFormat.message(),
        "ID must be exactly 16 or 18 alphanumeric characters."
    );
    assert_eq!(
        DggsError::EncodingOverflow.message(),
        "The refinement_level/resolution can not be stored in 128 bits"
    );
}
