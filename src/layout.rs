//! The table's standard arrangement of pins.
use vstd::prelude::*;
use crate::pin::{Point, PinSpec};

verus! {

/// Radius of the two large pins, in millimetres.
pub const LARGE_RADIUS_MM: u64 = 70;

/// Radius of the two small pins, in millimetres.
pub const SMALL_RADIUS_MM: u64 = 40;

/// A layout entry at `(x, y)` millimetres with radius `radius`.
pub open spec fn entry(x: int, y: int, radius: Option<u64>) -> PinSpec {
    PinSpec { position: Point { x: x as i64, y: y as i64 }, radius }
}

/// The standard arrangement: two large pins high in the middle, two small ones
/// below them, and four of the default size.
pub open spec fn standard_layout() -> Seq<PinSpec> {
    seq![
        entry(-200, 350, Some(LARGE_RADIUS_MM)),
        entry(200, 350, Some(LARGE_RADIUS_MM)),
        entry(150, 200, Some(SMALL_RADIUS_MM)),
        entry(-150, 200, Some(SMALL_RADIUS_MM)),
        entry(90, 800, None),
        entry(-150, 800, None),
        entry(170, -10, None),
        entry(-200, -10, None),
    ]
}

fn make_entry(x: i64, y: i64, radius: Option<u64>) -> (r: PinSpec)
    ensures
        r == entry(x as int, y as int, radius),
{
    PinSpec { position: Point { x, y }, radius }
}

/// The standard arrangement of the table's eight pins.
pub fn default_layout() -> (r: Vec<PinSpec>)
    ensures
        r@ == standard_layout(),
{
    let mut r: Vec<PinSpec> = Vec::new();
    r.push(make_entry(-200, 350, Some(LARGE_RADIUS_MM)));
    r.push(make_entry(200, 350, Some(LARGE_RADIUS_MM)));
    r.push(make_entry(150, 200, Some(SMALL_RADIUS_MM)));
    r.push(make_entry(-150, 200, Some(SMALL_RADIUS_MM)));
    r.push(make_entry(90, 800, None));
    r.push(make_entry(-150, 800, None));
    r.push(make_entry(170, -10, None));
    r.push(make_entry(-200, -10, None));
    assert(r@ =~= standard_layout());
    r
}

} // verus!
