//! Integer geometry: absolute value and the axis-aligned box overlap test
//! that the collision system runs on every laser/enemy pair.
use vstd::prelude::*;

verus! {

/// Absolute value of a mathematical integer.
pub open spec fn iabs(v: int) -> int {
    if v < 0 {
        -v
    } else {
        v
    }
}

/// Two centred boxes overlap exactly when their projections overlap on
/// both axes; a shared edge does not count (strict inequality, so a
/// boundary contact is "outside"). `aw`, `ah`, `bw`, `bh` are full
/// widths and heights; comparing doubled centre distances against the
/// summed extents avoids halving.
pub open spec fn boxes_overlap(
    ax: int,
    ay: int,
    aw: int,
    ah: int,
    bx: int,
    by: int,
    bw: int,
    bh: int,
) -> bool {
    &&& 2 * iabs(ax - bx) < aw + bw
    &&& 2 * iabs(ay - by) < ah + bh
}

/// Runtime overlap test, exact with respect to [`boxes_overlap`].
/// The bounds keep every intermediate product inside `i64`.
pub fn boxes_overlap_at(
    ax: i64,
    ay: i64,
    aw: i64,
    ah: i64,
    bx: i64,
    by: i64,
    bw: i64,
    bh: i64,
) -> (r: bool)
    requires
        iabs(ax as int) <= 0x4000_0000_0000,
        iabs(ay as int) <= 0x4000_0000_0000,
        iabs(bx as int) <= 0x4000_0000_0000,
        iabs(by as int) <= 0x4000_0000_0000,
        0 <= aw <= 0x4000_0000_0000,
        0 <= ah <= 0x4000_0000_0000,
        0 <= bw <= 0x4000_0000_0000,
        0 <= bh <= 0x4000_0000_0000,
    ensures
        r == boxes_overlap(ax as int, ay as int, aw as int, ah as int, bx as int, by as int,
            bw as int, bh as int),
{
    let dx: i64 = if ax >= bx {
        ax - bx
    } else {
        bx - ax
    };
    let dy: i64 = if ay >= by {
        ay - by
    } else {
        by - ay
    };
    2 * dx < aw + bw && 2 * dy < ah + bh
}

/// A box that wholly contains another non-degenerate box also overlaps
/// it: containment pins the inner centre within the outer extents, and
/// the inner box's positive size makes both strict projections hold.
pub proof fn lemma_containment_implies_overlap(
    ax: int,
    ay: int,
    aw: int,
    ah: int,
    bx: int,
    by: int,
    bw: int,
    bh: int,
)
    requires
        0 < bw <= aw,
        0 < bh <= ah,
        // box b lies inside box a on both axes
        2 * (bx - ax) <= aw - bw,
        2 * (ax - bx) <= aw - bw,
        2 * (by - ay) <= ah - bh,
        2 * (ay - by) <= ah - bh,
    ensures
        boxes_overlap(ax, ay, aw, ah, bx, by, bw, bh),
{
}

} // verus!
