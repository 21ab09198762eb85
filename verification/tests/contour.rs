use tunnel_geometry::contour::{cell_case_index, resolve_case};

/// The full sixteen-entry table, with the center sample outside.
#[test]
fn table_center_outside() {
    let expected: [&[(u8, u8)]; 16] = [
        &[],
        &[(3, 0)],
        &[(0, 1)],
        &[(3, 1)],
        &[(1, 2)],
        &[(3, 0), (1, 2)],
        &[(0, 2)],
        &[(3, 2)],
        &[(2, 3)],
        &[(0, 2)],
        &[(0, 1), (2, 3)],
        &[(1, 2)],
        &[(1, 3)],
        &[(0, 1)],
        &[(3, 0)],
        &[],
    ];
    for index in 0..16u8 {
        assert_eq!(resolve_case(index, false), expected[index as usize]);
    }
}

/// The full sixteen-entry table, with the center sample inside: only the
/// two diagonal entries change.
#[test]
fn table_center_inside() {
    for index in 0..16u8 {
        let inside = resolve_case(index, true);
        let outside = resolve_case(index, false);
        match index {
            5 => {
                assert_eq!(inside, vec![(0, 1), (2, 3)]);
                assert_ne!(inside, outside);
            }
            10 => {
                assert_eq!(inside, vec![(1, 2), (3, 0)]);
                assert_ne!(inside, outside);
            }
            _ => assert_eq!(inside, outside),
        }
    }
}

/// The disambiguating center sample flips the pairing of both diagonal
/// cases between the two possible bridges.
#[test]
fn diagonal_flip() {
    assert_eq!(resolve_case(5, true), vec![(0, 1), (2, 3)]);
    assert_eq!(resolve_case(5, false), vec![(3, 0), (1, 2)]);
    assert_eq!(resolve_case(10, true), vec![(1, 2), (3, 0)]);
    assert_eq!(resolve_case(10, false), vec![(0, 1), (2, 3)]);
}

/// Indices past the 4-bit range contribute nothing.
#[test]
fn out_of_range_index_is_empty() {
    for index in 16..=255u8 {
        assert!(resolve_case(index, false).is_empty());
        assert!(resolve_case(index, true).is_empty());
    }
}

/// Bit `k` of the case index is corner `k`'s inside flag.
#[test]
fn case_index_packs_bits() {
    for bits in 0..16u8 {
        let inside = [
            bits & 1 != 0,
            bits & 2 != 0,
            bits & 4 != 0,
            bits & 8 != 0,
        ];
        assert_eq!(
            cell_case_index(inside[0], inside[1], inside[2], inside[3]),
            bits
        );
    }
}

/// Every edge the table connects has corners on opposite sides of the
/// surface, so every emitted endpoint lies on a crossed edge and never
/// on a cell corner.
#[test]
fn connected_edges_always_cross() {
    for bits in 0..16u8 {
        let inside = [
            bits & 1 != 0,
            bits & 2 != 0,
            bits & 4 != 0,
            bits & 8 != 0,
        ];
        let crossed = |e: u8| inside[e as usize] != inside[(e as usize + 1) % 4];
        for center in [false, true] {
            let index = cell_case_index(inside[0], inside[1], inside[2], inside[3]);
            for (a, b) in resolve_case(index, center) {
                assert!(crossed(a), "edge {a} of case {index} does not cross");
                assert!(crossed(b), "edge {b} of case {index} does not cross");
            }
        }
    }
}
