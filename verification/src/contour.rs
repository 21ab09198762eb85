//! Discrete core of the marching-squares contour extractor.
//!
//! A grid cell has four corners, numbered counter-clockwise from the
//! bottom-left: 0 bottom-left, 1 bottom-right, 2 top-right, 3 top-left.
//! Its four edges are numbered so that edge `e` runs from corner `e` to
//! corner `(e + 1) % 4`. Sampling the field at the corners yields four
//! inside/outside flags; packed into a 4-bit case index they select,
//! from a fixed sixteen-entry table, which pairs of edges the cell's
//! piece of the zero-level contour connects. The two diagonal entries
//! are ambiguous and take an extra sample at the cell center to decide
//! which way the contour pairs up.

use vstd::prelude::*;

verus! {

/// The case index packed from the four corner flags: bit `k` is set
/// exactly when corner `k` lies inside the surface.
pub open spec fn spec_case_index(
    inside0: bool,
    inside1: bool,
    inside2: bool,
    inside3: bool,
) -> int {
    (if inside0 { 1int } else { 0int })
        + (if inside1 { 2int } else { 0int })
        + (if inside2 { 4int } else { 0int })
        + (if inside3 { 8int } else { 0int })
}

/// Packs the four corner samples of one grid cell into its
/// marching-squares case index.
pub fn cell_case_index(
    inside0: bool,
    inside1: bool,
    inside2: bool,
    inside3: bool,
) -> (index: u8)
    ensures
        index as int == spec_case_index(inside0, inside1, inside2, inside3),
        index < 16,
{
    let mut index: u8 = 0;
    if inside0 {
        index = index + 1;
    }
    if inside1 {
        index = index + 2;
    }
    if inside2 {
        index = index + 4;
    }
    if inside3 {
        index = index + 8;
    }
    index
}

/// The fixed table of edge pairs for each case index. Indices 0 and 15
/// (all corners outside, all corners inside) contribute nothing, as does
/// anything past the 4-bit range. Indices 5 and 10 are the two diagonal
/// configurations; they pair their four crossed edges one way when the
/// cell center samples inside and the other way when it samples outside.
pub open spec fn spec_resolve_case(index: int, center_inside: bool) -> Seq<(u8, u8)> {
    if index == 1 {
        seq![(3u8, 0u8)]
    } else if index == 2 {
        seq![(0u8, 1u8)]
    } else if index == 3 {
        seq![(3u8, 1u8)]
    } else if index == 4 {
        seq![(1u8, 2u8)]
    } else if index == 5 {
        if center_inside {
            seq![(0u8, 1u8), (2u8, 3u8)]
        } else {
            seq![(3u8, 0u8), (1u8, 2u8)]
        }
    } else if index == 6 {
        seq![(0u8, 2u8)]
    } else if index == 7 {
        seq![(3u8, 2u8)]
    } else if index == 8 {
        seq![(2u8, 3u8)]
    } else if index == 9 {
        seq![(0u8, 2u8)]
    } else if index == 10 {
        if center_inside {
            seq![(1u8, 2u8), (3u8, 0u8)]
        } else {
            seq![(0u8, 1u8), (2u8, 3u8)]
        }
    } else if index == 11 {
        seq![(1u8, 2u8)]
    } else if index == 12 {
        seq![(1u8, 3u8)]
    } else if index == 13 {
        seq![(0u8, 1u8)]
    } else if index == 14 {
        seq![(3u8, 0u8)]
    } else {
        Seq::empty()
    }
}

/// Looks a case index up in the marching-squares table and returns the
/// edge pairs the cell connects, resolving the two ambiguous diagonal
/// cases with the sign of the center sample.
pub fn resolve_case(index: u8, center_sign: bool) -> (pairs: Vec<(u8, u8)>)
    ensures
        pairs@ == spec_resolve_case(index as int, center_sign),
{
    let mut pairs: Vec<(u8, u8)> = Vec::new();
    if index == 1 {
        pairs.push((3, 0));
    } else if index == 2 {
        pairs.push((0, 1));
    } else if index == 3 {
        pairs.push((3, 1));
    } else if index == 4 {
        pairs.push((1, 2));
    } else if index == 5 {
        if center_sign {
            pairs.push((0, 1));
            pairs.push((2, 3));
        } else {
            pairs.push((3, 0));
            pairs.push((1, 2));
        }
    } else if index == 6 {
        pairs.push((0, 2));
    } else if index == 7 {
        pairs.push((3, 2));
    } else if index == 8 {
        pairs.push((2, 3));
    } else if index == 9 {
        pairs.push((0, 2));
    } else if index == 10 {
        if center_sign {
            pairs.push((1, 2));
            pairs.push((3, 0));
        } else {
            pairs.push((0, 1));
            pairs.push((2, 3));
        }
    } else if index == 11 {
        pairs.push((1, 2));
    } else if index == 12 {
        pairs.push((1, 3));
    } else if index == 13 {
        pairs.push((0, 1));
    } else if index == 14 {
        pairs.push((3, 0));
    }
    proof {
        assert(pairs@ =~= spec_resolve_case(index as int, center_sign));
    }
    pairs
}

/// Whether edge `e` of the cell is crossed by the contour, given the four
/// corner flags: its two corners sample on opposite sides of the surface.
pub open spec fn spec_edge_crossed(
    inside0: bool,
    inside1: bool,
    inside2: bool,
    inside3: bool,
    e: u8,
) -> bool {
    if e == 0 {
        inside0 != inside1
    } else if e == 1 {
        inside1 != inside2
    } else if e == 2 {
        inside2 != inside3
    } else if e == 3 {
        inside3 != inside0
    } else {
        false
    }
}

/// Every edge the case table connects is a crossed edge: its two corners
/// straddle the surface, so the zero level set meets the edge strictly
/// between them and the emitted endpoint is an interpolated edge point,
/// never a corner of the cell.
pub proof fn lemma_resolved_edges_cross(
    inside0: bool,
    inside1: bool,
    inside2: bool,
    inside3: bool,
    center_inside: bool,
)
    ensures
        forall|i: int|
            #![trigger spec_resolve_case(spec_case_index(inside0, inside1, inside2, inside3), center_inside)[i]]
            0 <= i < spec_resolve_case(
                spec_case_index(inside0, inside1, inside2, inside3),
                center_inside,
            ).len() ==> {
                let pair = spec_resolve_case(
                    spec_case_index(inside0, inside1, inside2, inside3),
                    center_inside,
                )[i];
                spec_edge_crossed(inside0, inside1, inside2, inside3, pair.0)
                    && spec_edge_crossed(inside0, inside1, inside2, inside3, pair.1)
            },
{
}

/// The two trivial cases — all corners outside, all corners inside —
/// contribute no segments, whichever way the center samples.
pub proof fn lemma_uniform_cells_empty(center_inside: bool)
    ensures
        spec_resolve_case(0, center_inside).len() == 0,
        spec_resolve_case(15, center_inside).len() == 0,
{
}

/// In the two ambiguous diagonal cases the center sample picks the edge
/// pairing, and the two pairings differ: when the center samples inside,
/// the contour separates the two outside corners; when it samples
/// outside, it separates the two inside corners.
pub proof fn lemma_diagonal_disambiguation()
    ensures
        spec_resolve_case(5, true) == seq![(0u8, 1u8), (2u8, 3u8)],
        spec_resolve_case(5, false) == seq![(3u8, 0u8), (1u8, 2u8)],
        spec_resolve_case(5, true) != spec_resolve_case(5, false),
        spec_resolve_case(10, true) == seq![(1u8, 2u8), (3u8, 0u8)],
        spec_resolve_case(10, false) == seq![(0u8, 1u8), (2u8, 3u8)],
        spec_resolve_case(10, true) != spec_resolve_case(10, false),
{
    assert(spec_resolve_case(5, true)[0] != spec_resolve_case(5, false)[0]);
    assert(spec_resolve_case(10, true)[0] != spec_resolve_case(10, false)[0]);
}

} // verus!
