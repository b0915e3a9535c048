//! Three-byte inputs that probe every partial bit-group boundary.
use vstd::prelude::*;

verus! {

/// Number of edge masks.
pub const MASK_COUNT: usize = 16;

/// Number of edge-case inputs: one for each ordered pair of masks.
pub const EDGE_CASE_COUNT: usize = 256;

/// The `k`-th edge mask: all ones, then fewer and fewer leading ones down to
/// zero, then more and more trailing ones up to all but the last bit.
pub open spec fn edge_mask(k: int) -> u8 {
    if k == 0 { 0b1111_1111 }
    else if k == 1 { 0b0111_1111 }
    else if k == 2 { 0b0011_1111 }
    else if k == 3 { 0b0001_1111 }
    else if k == 4 { 0b0000_1111 }
    else if k == 5 { 0b0000_0111 }
    else if k == 6 { 0b0000_0011 }
    else if k == 7 { 0b0000_0001 }
    else if k == 8 { 0b0000_0000 }
    else if k == 9 { 0b1000_0000 }
    else if k == 10 { 0b1100_0000 }
    else if k == 11 { 0b1110_0000 }
    else if k == 12 { 0b1111_0000 }
    else if k == 13 { 0b1111_1000 }
    else if k == 14 { 0b1111_1100 }
    else { 0b1111_1110 }
}

/// The input `[edge_mask(l), 0xFF, edge_mask(r)]`.
pub open spec fn edge_input(l: int, r: int) -> Seq<u8> {
    seq![edge_mask(l), 0xFFu8, edge_mask(r)]
}

/// The `i`-th edge case: left mask outer, right mask inner.
pub open spec fn edge_case(i: int) -> Seq<u8> {
    edge_input(i / (MASK_COUNT as int), i % (MASK_COUNT as int))
}

/// The sixteen masks, in order.
pub fn edge_masks() -> (r: Vec<u8>)
    ensures
        r@.len() == MASK_COUNT,
        forall|k: int| 0 <= k < MASK_COUNT ==> r@[k] == edge_mask(k),
{
    let r: Vec<u8> = vec![
        0b1111_1111, 0b0111_1111, 0b0011_1111, 0b0001_1111,
        0b0000_1111, 0b0000_0111, 0b0000_0011, 0b0000_0001,
        0b0000_0000, 0b1000_0000, 0b1100_0000, 0b1110_0000,
        0b1111_0000, 0b1111_1000, 0b1111_1100, 0b1111_1110,
    ];
    assert forall|k: int| 0 <= k < MASK_COUNT implies r@[k] == edge_mask(k) by {
        if k == 0 {} else if k == 1 {} else if k == 2 {} else if k == 3 {}
        else if k == 4 {} else if k == 5 {} else if k == 6 {} else if k == 7 {}
        else if k == 8 {} else if k == 9 {} else if k == 10 {} else if k == 11 {}
        else if k == 12 {} else if k == 13 {} else if k == 14 {} else {}
    }
    r
}

/// All 256 edge cases `[l, 0xFF, r]`, for `l` and `r` over the masks, `l`
/// in the outer loop.
pub fn edge_cases() -> (r: Vec<Vec<u8>>)
    ensures
        r@.len() == EDGE_CASE_COUNT,
        forall|i: int| 0 <= i < EDGE_CASE_COUNT ==> (#[trigger] r@[i])@ == edge_case(i),
{
    let masks = edge_masks();
    let mut out: Vec<Vec<u8>> = Vec::new();
    let mut l: usize = 0;
    while l < MASK_COUNT
        invariant
            masks@.len() == MASK_COUNT,
            forall|k: int| 0 <= k < MASK_COUNT ==> masks@[k] == edge_mask(k),
            l <= MASK_COUNT,
            out@.len() == l * MASK_COUNT,
            forall|i: int| 0 <= i < out@.len() ==> (#[trigger] out@[i])@ == edge_case(i),
        decreases MASK_COUNT - l,
    {
        let mut r: usize = 0;
        while r < MASK_COUNT
            invariant
                masks@.len() == MASK_COUNT,
                forall|k: int| 0 <= k < MASK_COUNT ==> masks@[k] == edge_mask(k),
                l < MASK_COUNT,
                r <= MASK_COUNT,
                out@.len() == l * MASK_COUNT + r,
                forall|i: int| 0 <= i < out@.len() ==> (#[trigger] out@[i])@ == edge_case(i),
            decreases MASK_COUNT - r,
        {
            let data: Vec<u8> = vec![masks[l], 0b1111_1111, masks[r]];
            proof {
                let i = (l * MASK_COUNT + r) as int;
                assert(i / (MASK_COUNT as int) == l as int && i % (MASK_COUNT as int) == r as int)
                    by (nonlinear_arith)
                    requires i == l * 16 + r, r < 16, MASK_COUNT == 16;
                assert(data@ =~= edge_case(i));
            }
            out.push(data);
            r = r + 1;
        }
        l = l + 1;
    }
    out
}

/// The edge cases are pairwise distinct, each has the shape
/// `[mask, 0xFF, mask]`, and every ordered pair of masks occurs among them.
pub proof fn lemma_edge_cases_exhaustive()
    ensures
        forall|i: int, j: int|
            0 <= i < EDGE_CASE_COUNT && 0 <= j < EDGE_CASE_COUNT && i != j
                ==> #[trigger] edge_case(i) != #[trigger] edge_case(j),
        forall|i: int| 0 <= i < EDGE_CASE_COUNT ==> {
            let c = #[trigger] edge_case(i);
            &&& c.len() == 3
            &&& c[1] == 0xFF
            &&& exists|l: int, r: int| 0 <= l < MASK_COUNT && 0 <= r < MASK_COUNT
                && c[0] == edge_mask(l) && c[2] == edge_mask(r)
        },
        forall|l: int, r: int| 0 <= l < MASK_COUNT && 0 <= r < MASK_COUNT
            ==> #[trigger] edge_case(l * (MASK_COUNT as int) + r) == edge_input(l, r),
{
    assert forall|a: int, b: int| 0 <= a < MASK_COUNT && 0 <= b < MASK_COUNT && a != b
        implies edge_mask(a) != edge_mask(b) by {}
    assert forall|i: int, j: int|
        0 <= i < EDGE_CASE_COUNT && 0 <= j < EDGE_CASE_COUNT && i != j
        implies #[trigger] edge_case(i) != #[trigger] edge_case(j) by {
        let (li, ri) = (i / 16, i % 16);
        let (lj, rj) = (j / 16, j % 16);
        assert(i == 16 * li + ri && j == 16 * lj + rj);
        if edge_case(i) == edge_case(j) {
            assert(edge_case(i)[0] == edge_case(j)[0]);
            assert(edge_case(i)[2] == edge_case(j)[2]);
        }
    }
    assert forall|i: int| 0 <= i < EDGE_CASE_COUNT implies {
        let c = #[trigger] edge_case(i);
        &&& c.len() == 3
        &&& c[1] == 0xFF
        &&& exists|l: int, r: int| 0 <= l < MASK_COUNT && 0 <= r < MASK_COUNT
            && c[0] == edge_mask(l) && c[2] == edge_mask(r)
    } by {
        let c = edge_case(i);
        assert(c[0] == edge_mask(i / 16) && c[2] == edge_mask(i % 16));
    }
    assert forall|l: int, r: int| 0 <= l < MASK_COUNT && 0 <= r < MASK_COUNT
        implies #[trigger] edge_case(l * (MASK_COUNT as int) + r) == edge_input(l, r) by {
        let i = l * 16 + r;
        assert(i / 16 == l && i % 16 == r) by (nonlinear_arith) requires i == l * 16 + r, 0 <= r < 16;
    }
}

} // verus!
