//! Boxes on the fixed-point plane: overlap, distance and range tests.

use vstd::prelude::*;

verus! {

/// Steps per whole unit of length.
pub const UNIT: i32 = 1024;

/// An axis-aligned box: its origin corner and its extent on both axes.
#[derive(Clone, Copy, Debug, PartialEq, Eq, Structural)]
pub struct PositionSize {
    pub x: i32,
    pub y: i32,
    pub width: i32,
    pub height: i32,
}

/// Strict overlap of two boxes; boxes that only touch do not overlap.
pub open spec fn overlaps(a: PositionSize, b: PositionSize) -> bool {
    &&& a.x < b.x + b.width
    &&& a.x + a.width > b.x
    &&& a.y < b.y + b.height
    &&& a.y + a.height > b.y
}

/// Squared Euclidean distance between the origins of two boxes.
pub open spec fn distance_squared(a: PositionSize, b: PositionSize) -> int {
    (a.x - b.x) * (a.x - b.x) + (a.y - b.y) * (a.y - b.y)
}

/// The origin of `b` lies within `radius` of the origin of `a`.
pub open spec fn within_range(a: PositionSize, b: PositionSize, radius: int) -> bool {
    radius >= 0 && distance_squared(a, b) <= radius * radius
}

/// Whether the two boxes overlap.
pub fn is_colliding(entity1: &PositionSize, entity2: &PositionSize) -> (hit: bool)
    ensures
        hit == overlaps(*entity1, *entity2),
{
    let x1: i64 = entity1.x as i64;
    let y1: i64 = entity1.y as i64;
    let x2: i64 = entity2.x as i64;
    let y2: i64 = entity2.y as i64;
    x1 < x2 + entity2.width as i64 && x1 + entity1.width as i64 > x2
        && y1 < y2 + entity2.height as i64 && y1 + entity1.height as i64 > y2
}

/// Range test between two origins. The second component is the squared
/// distance, by which callers rank several candidates.
pub fn in_detection_range(
    entity1: &PositionSize,
    entity2: &PositionSize,
    detection_range: i32,
) -> (found: (bool, u128))
    ensures
        found.0 == within_range(*entity1, *entity2, detection_range as int),
        found.1 == distance_squared(*entity1, *entity2),
{
    let dx: i64 = entity1.x as i64 - entity2.x as i64;
    let dy: i64 = entity1.y as i64 - entity2.y as i64;
    assert(dx * dx <= 0xffff_ffff * 0xffff_ffff && dx * dx >= 0) by (nonlinear_arith)
        requires
            -0xffff_ffff <= dx <= 0xffff_ffff,
    ;
    assert(dy * dy <= 0xffff_ffff * 0xffff_ffff && dy * dy >= 0) by (nonlinear_arith)
        requires
            -0xffff_ffff <= dy <= 0xffff_ffff,
    ;
    let squared: u128 = (dx as i128 * dx as i128 + dy as i128 * dy as i128) as u128;
    if detection_range < 0 {
        (false, squared)
    } else {
        let r: u128 = detection_range as u128;
        assert(r * r <= 0x7fff_ffff * 0x7fff_ffff) by (nonlinear_arith)
            requires
                0 <= r <= 0x7fff_ffff,
        ;
        (squared <= r * r, squared)
    }
}

} // verus!
