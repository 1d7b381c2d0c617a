use vstd::prelude::*;

verus! {

/// Scale factors are expressed in thousandths: 1000 is the identity scale.
pub const SCALE_ONE: u32 = 1000;

/// Half of `v`, rounded down, so that a negative value never halves to zero.
pub open spec fn half(v: int) -> int {
    if v >= 0 {
        v / 2
    } else {
        -((-v + 1) / 2)
    }
}

/// The half-range within which an extent stays fully inside a dimension.
pub open spec fn inner_bound_spec(dimension: int, extent: int) -> int {
    half(dimension - extent)
}

/// The half-range at which an extent has fully left a dimension.
pub open spec fn outer_bound_spec(dimension: int, extent: int) -> int {
    half(dimension + extent)
}

/// A length scaled by a factor given in thousandths (rounded down).
pub open spec fn scaled_spec(length: int, scale: int) -> int {
    length * scale / SCALE_ONE as int
}

/// The viewport size, in milli-units.
#[derive(Clone, Copy, Debug, PartialEq, Eq, Structural)]
pub struct WindowSize {
    pub width: u32,
    pub height: u32,
}

/// A circular collision boundary centred on its entity's position.
#[derive(Clone, Copy, Debug, PartialEq, Eq, Structural)]
pub struct Hitbox {
    pub radius: u32,
}

/// The rendered extent of an entity, in milli-units.
#[derive(Clone, Copy, Debug, PartialEq, Eq, Structural)]
pub struct SpriteSize {
    pub width: u32,
    pub height: u32,
}

impl SpriteSize {
    /// The extent of a `width` by `height` sprite drawn at `scale` (thousandths).
    pub fn new(width: u32, height: u32, scale: u32) -> (r: SpriteSize)
        requires
            scaled_spec(width as int, scale as int) <= u32::MAX,
            scaled_spec(height as int, scale as int) <= u32::MAX,
        ensures
            r.width == scaled_spec(width as int, scale as int),
            r.height == scaled_spec(height as int, scale as int),
    {
        let w = scaled(width, scale);
        let h = scaled(height, scale);
        SpriteSize { width: w as u32, height: h as u32 }
    }
}

/// `length` scaled by `scale` thousandths, rounded down.
pub fn scaled(length: u32, scale: u32) -> (r: u64)
    ensures
        r == scaled_spec(length as int, scale as int),
{
    assert(length as int * scale as int <= u32::MAX as int * u32::MAX as int) by (nonlinear_arith)
        requires length <= u32::MAX, scale <= u32::MAX;
    let p: u64 = length as u64 * scale as u64;
    p / (SCALE_ONE as u64)
}

/// Get the inner bound for a sprite within a region.
pub fn inner_bound(dimension: u32, sprite: u32) -> (r: i64)
    ensures
        r == inner_bound_spec(dimension as int, sprite as int),
{
    if dimension >= sprite {
        ((dimension - sprite) / 2) as i64
    } else {
        -(((sprite as u64 - dimension as u64 + 1) / 2) as i64)
    }
}

/// Get the outer bound for a sprite within a region.
pub fn outer_bound(dimension: u32, sprite: u32) -> (r: i64)
    ensures
        r == outer_bound_spec(dimension as int, sprite as int),
{
    outer_bound_wide(dimension, sprite as u64)
}

/// The outer bound for an extent that may exceed `u32`, as for a scaled sprite.
pub fn outer_bound_wide(dimension: u32, sprite: u64) -> (r: i64)
    requires
        sprite <= u64::MAX / 2,
    ensures
        r == outer_bound_spec(dimension as int, sprite as int),
{
    ((dimension as u64 + sprite) / 2) as i64
}

/// The inner and outer bounds split a dimension: together they make it up,
/// and they lie apart by exactly the extent (when the halves are whole).
pub proof fn lemma_bounds_partition(dimension: int, extent: int)
    requires
        dimension >= 0,
        extent >= 0,
        (dimension + extent) % 2 == 0,
    ensures
        inner_bound_spec(dimension, extent) + outer_bound_spec(dimension, extent) == dimension,
        outer_bound_spec(dimension, extent) - inner_bound_spec(dimension, extent) == extent,
{
}

/// The inner bound is negative exactly when the extent exceeds the dimension,
/// and it never exceeds half the dimension or the outer bound.
pub proof fn lemma_inner_bound_sign(dimension: int, extent: int)
    requires
        dimension >= 0,
        extent >= 0,
    ensures
        inner_bound_spec(dimension, extent) < 0 <==> extent > dimension,
        inner_bound_spec(dimension, extent) <= half(dimension),
        inner_bound_spec(dimension, extent) <= outer_bound_spec(dimension, extent),
{
}

/// Two circles of radii `ra` and `rb` centred at `(ax, ay)` and `(bx, by)` overlap
/// when the squared distance of the centres is below the squared sum of the radii.
pub open spec fn circles_overlap(ax: int, ay: int, ra: int, bx: int, by: int, rb: int) -> bool {
    (ax - bx) * (ax - bx) + (ay - by) * (ay - by) < (ra + rb) * (ra + rb)
}

/// `|a - b|` as an unsigned value.
fn abs_diff(a: i64, b: i64) -> (r: u64)
    ensures
        r == if a >= b { a - b } else { b - a },
{
    if a >= b {
        (a as i128 - b as i128) as u64
    } else {
        (b as i128 - a as i128) as u64
    }
}

/// Whether two hitboxes at the given centres overlap.
pub fn hitboxes_overlap(ax: i64, ay: i64, a: Hitbox, bx: i64, by: i64, b: Hitbox) -> (r: bool)
    ensures
        r == circles_overlap(ax as int, ay as int, a.radius as int, bx as int, by as int, b.radius as int),
{
    let dx = abs_diff(ax, bx);
    let dy = abs_diff(ay, by);
    let reach: u64 = a.radius as u64 + b.radius as u64;
    proof {
        let ddx = ax as int - bx as int;
        let ddy = ay as int - by as int;
        assert(ddx * ddx == dx as int * dx as int) by (nonlinear_arith)
            requires dx as int == ddx || dx as int == -ddx;
        assert(ddy * ddy == dy as int * dy as int) by (nonlinear_arith)
            requires dy as int == ddy || dy as int == -ddy;
    }
    if dx >= reach || dy >= reach {
        proof {
            let s = reach as int;
            assert(dx as int * dx as int + dy as int * dy as int >= s * s) by (nonlinear_arith)
                requires dx as int >= s || dy as int >= s, s >= 0, dx >= 0, dy >= 0;
        }
        false
    } else {
        assert(dx as int * dx as int <= reach as int * reach as int
            && dy as int * dy as int <= reach as int * reach as int
            && reach as int * reach as int <= 0x2_0000_0000int * 0x2_0000_0000int) by (nonlinear_arith)
            requires dx < reach, dy < reach, reach <= 0x2_0000_0000int, dx >= 0, dy >= 0;
        let dx2: u128 = dx as u128 * dx as u128;
        let dy2: u128 = dy as u128 * dy as u128;
        let r2: u128 = reach as u128 * reach as u128;
        dx2 + dy2 < r2
    }
}

} // verus!
