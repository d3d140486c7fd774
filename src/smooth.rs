//! The integer geometry of the continuous (SmoothLife) rule: which offsets
//! around a cell feed its inner-disc aggregate and which its ring aggregate.
use vstd::prelude::*;

verus! {

/// Outer radius of the neighbourhood.
pub const RA: i32 = 21;

/// Inner radius: a third of the outer one (`RA / 3`).
pub const RI: i32 = 7;

/// Offsets run over `-SCAN..=SCAN` on both axes.
pub const SCAN: i32 = RA - 1;

/// Side of the scanned square: `2 * SCAN + 1`.
pub const SIDE: usize = 41;

/// Where an offset falls relative to the cell.
#[derive(Clone, Copy, Debug, PartialEq, Eq, Structural)]
pub enum Zone {
    /// Squared distance at most `RI * RI`: the inner disc.
    Fill,
    /// Squared distance above `RI * RI` and at most `RA * RA`: the ring.
    Ring,
    /// Farther away.
    Outside,
}

pub open spec fn zone(dy: int, dx: int) -> Zone {
    let d2 = dy * dy + dx * dx;
    if d2 <= RI * RI {
        Zone::Fill
    } else if d2 <= RA * RA {
        Zone::Ring
    } else {
        Zone::Outside
    }
}

/// The zone of the offset `(dy, dx)`.
pub fn zone_of(dy: i32, dx: i32) -> (z: Zone)
    ensures
        z == zone(dy as int, dx as int),
{
    let y = dy as i128;
    let x = dx as i128;
    assert(0 <= y * y <= 0x4000_0000_0000_0000) by (nonlinear_arith)
        requires
            -0x8000_0000 <= y <= 0x7fff_ffff,
    ;
    assert(0 <= x * x <= 0x4000_0000_0000_0000) by (nonlinear_arith)
        requires
            -0x8000_0000 <= x <= 0x7fff_ffff,
    ;
    let d2 = y * y + x * x;
    if d2 <= (RI as i128) * (RI as i128) {
        Zone::Fill
    } else if d2 <= (RA as i128) * (RA as i128) {
        Zone::Ring
    } else {
        Zone::Outside
    }
}

/// The `t`-th offset of the scan, row by row: `(dy, dx)`.
pub open spec fn scan_offset(t: int) -> (i32, i32) {
    ((t / SIDE as int - SCAN) as i32, (t % SIDE as int - SCAN) as i32)
}

/// The offsets among the first `t` of the scan that fall in zone `z`, in scan order.
pub open spec fn zone_prefix(z: Zone, t: int) -> Seq<(i32, i32)>
    decreases t,
{
    if t <= 0 {
        Seq::empty()
    } else {
        let prev = zone_prefix(z, t - 1);
        let o = scan_offset(t - 1);
        if zone(o.0 as int, o.1 as int) == z {
            prev.push(o)
        } else {
            prev
        }
    }
}

/// The offsets of the whole scan that fall in zone `z`, in scan order.
pub open spec fn zone_offsets(z: Zone) -> Seq<(i32, i32)> {
    zone_prefix(z, (SIDE * SIDE) as int)
}

/// The offsets that feed the two aggregates of a cell.
pub struct DiscOffsets {
    pub fill: Vec<(i32, i32)>,
    pub ring: Vec<(i32, i32)>,
}

/// Scans the square once and sorts each offset into the inner disc, the
/// ring, or neither.
pub fn disc_offsets() -> (d: DiscOffsets)
    ensures
        d.fill@ == zone_offsets(Zone::Fill),
        d.ring@ == zone_offsets(Zone::Ring),
{
    let mut fill: Vec<(i32, i32)> = Vec::new();
    let mut ring: Vec<(i32, i32)> = Vec::new();
    let n: usize = SIDE * SIDE;
    let mut t: usize = 0;
    while t < n
        invariant
            n == SIDE * SIDE,
            t <= n,
            fill@ == zone_prefix(Zone::Fill, t as int),
            ring@ == zone_prefix(Zone::Ring, t as int),
        decreases n - t,
    {
        let dy = (t / SIDE) as i32 - SCAN;
        let dx = (t % SIDE) as i32 - SCAN;
        assert((dy, dx) == scan_offset(t as int));
        match zone_of(dy, dx) {
            Zone::Fill => fill.push((dy, dx)),
            Zone::Ring => ring.push((dy, dx)),
            Zone::Outside => {},
        }
        t += 1;
    }
    DiscOffsets { fill, ring }
}

} // verus!
