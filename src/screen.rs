use vstd::prelude::*;
use crate::geometry::{
    inner_bound, inner_bound_spec, outer_bound, outer_bound_spec, outer_bound_wide, scaled,
    scaled_spec, WindowSize,
};
use crate::world::{Entity, Extent, Role, Transform, World};

verus! {

/// How far past its outer bound an entity may drift before it is reaped (12 world units).
pub const DESPAWN_MARGIN: i64 = 12_000;

/// `v` clamped to `[-bound, bound]`: first capped at `bound`, then raised to `-bound`.
pub open spec fn clamp_spec(v: int, bound: int) -> int {
    let capped = if v < bound { v } else { bound };
    if capped > -bound { capped } else { -bound }
}

/// The player with its position confined to the viewport's inner bounds.
pub open spec fn confined_entity(window: WindowSize, e: Entity) -> Entity {
    match e.extent {
        Some(Extent::Sheet(s)) if e.role == Role::Player => Entity {
            transform: Transform {
                x: clamp_spec(e.transform.x as int, inner_bound_spec(window.width as int, s.width as int)) as i64,
                y: clamp_spec(e.transform.y as int, inner_bound_spec(window.height as int, s.height as int)) as i64,
                ..e.transform
            },
            ..e
        },
        _ => e,
    }
}

pub open spec fn confined_slots(window: WindowSize, slots: Seq<Option<Entity>>) -> Seq<Option<Entity>> {
    Seq::new(slots.len(), |i: int| match slots[i] {
        Some(e) => Some(confined_entity(window, e)),
        None => None,
    })
}

/// The extent used for screen bounds: a sheet as it is, a plain sprite times the scale.
pub open spec fn extent_width(e: Entity, x: Extent) -> int {
    match x {
        Extent::Sheet(s) => s.width as int,
        Extent::Plain(s) => scaled_spec(s.width as int, e.transform.scale_x as int),
    }
}

pub open spec fn extent_height(e: Entity, x: Extent) -> int {
    match x {
        Extent::Sheet(s) => s.height as int,
        Extent::Plain(s) => scaled_spec(s.height as int, e.transform.scale_y as int),
    }
}

/// Whether an entity marked for reaping lies beyond its outer bounds plus the margin.
pub open spec fn out_of_view(window: WindowSize, e: Entity) -> bool {
    match e.extent {
        Some(x) if e.despawn_outside.is_some() => {
            let bw = outer_bound_spec(window.width as int, extent_width(e, x)) + DESPAWN_MARGIN;
            let bh = outer_bound_spec(window.height as int, extent_height(e, x)) + DESPAWN_MARGIN;
            e.transform.x > bw || e.transform.x < -bw || e.transform.y > bh || e.transform.y < -bh
        },
        _ => false,
    }
}

pub open spec fn reaped_slots(window: WindowSize, slots: Seq<Option<Entity>>) -> Seq<Option<Entity>> {
    Seq::new(slots.len(), |i: int| match slots[i] {
        Some(e) => if out_of_view(window, e) { None } else { Some(e) },
        None => None,
    })
}

/// A star that has scrolled below the viewport, moved back to the top.
pub open spec fn wrapped_entity(window: WindowSize, e: Entity) -> Entity {
    match e.extent {
        Some(Extent::Plain(s)) if e.role == Role::Star => {
            let h = outer_bound_spec(window.height as int, extent_height(e, Extent::Plain(s)));
            if e.transform.y < -h {
                Entity { transform: Transform { y: h as i64, ..e.transform }, ..e }
            } else {
                e
            }
        },
        _ => e,
    }
}

pub open spec fn wrapped_slots(window: WindowSize, slots: Seq<Option<Entity>>) -> Seq<Option<Entity>> {
    Seq::new(slots.len(), |i: int| match slots[i] {
        Some(e) => Some(wrapped_entity(window, e)),
        None => None,
    })
}

/// `v` clamped to `[-bound, bound]`, capping first.
pub fn clamp(v: i64, bound: i64) -> (r: i64)
    requires
        bound > i64::MIN,
    ensures
        r == clamp_spec(v as int, bound as int),
{
    let capped = if v < bound { v } else { bound };
    if capped > -bound { capped } else { -bound }
}

fn plain_outer_bound(dimension: u32, size: u32, scale: u32) -> (r: i64)
    ensures
        r == outer_bound_spec(dimension as int, scaled_spec(size as int, scale as int)),
        0 <= r <= 0x40_0000_0000_0000,
{
    let e = scaled(size, scale);
    proof {
        assert(size as int * scale as int <= 0x1_0000_0000 * 0x1_0000_0000) by (nonlinear_arith)
            requires size <= u32::MAX, scale <= u32::MAX;
    }
    outer_bound_wide(dimension, e)
}

/// The outer bounds of an entity's extent, per axis.
fn outer_bounds(window: WindowSize, e: &Entity, x: Extent) -> (r: (i64, i64))
    ensures
        r.0 == outer_bound_spec(window.width as int, extent_width(*e, x)),
        r.1 == outer_bound_spec(window.height as int, extent_height(*e, x)),
        0 <= r.0 <= 0x40_0000_0000_0000,
        0 <= r.1 <= 0x40_0000_0000_0000,
{
    match x {
        Extent::Sheet(s) => (outer_bound(window.width, s.width), outer_bound(window.height, s.height)),
        Extent::Plain(s) => (
            plain_outer_bound(window.width, s.width, e.transform.scale_x),
            plain_outer_bound(window.height, s.height, e.transform.scale_y),
        ),
    }
}

/// Keep every player fully inside the viewport, clamping each axis independently.
pub fn bound_player(window: WindowSize, world: &mut World)
    ensures
        final(world).slots@ == confined_slots(window, old(world).slots@),
{
    let n = world.slots.len();
    let mut i: usize = 0;
    while i < n
        invariant
            n == world.slots@.len(),
            n == old(world).slots@.len(),
            i <= n,
            forall|j: int| 0 <= j < i ==> world.slots@[j] == confined_slots(window, old(world).slots@)[j],
            forall|j: int| i <= j < n ==> world.slots@[j] == old(world).slots@[j],
        decreases n - i,
    {
        if let Some(e) = world.slots[i] {
            if let Some(Extent::Sheet(s)) = e.extent {
                if e.role == Role::Player {
                    let w = inner_bound(window.width, s.width);
                    let h = inner_bound(window.height, s.height);
                    let t = Transform { x: clamp(e.transform.x, w), y: clamp(e.transform.y, h), ..e.transform };
                    world.slots.set(i, Some(Entity { transform: t, ..e }));
                }
            }
        }
        i += 1;
    }
    assert(world.slots@ =~= confined_slots(window, old(world).slots@));
}

/// Destroy every entity marked for reaping that lies beyond its outer bounds plus the margin.
pub fn despawn_outside(window: WindowSize, world: &mut World)
    ensures
        final(world).slots@ == reaped_slots(window, old(world).slots@),
{
    let n = world.slots.len();
    let mut i: usize = 0;
    while i < n
        invariant
            n == world.slots@.len(),
            n == old(world).slots@.len(),
            i <= n,
            forall|j: int| 0 <= j < i ==> world.slots@[j] == reaped_slots(window, old(world).slots@)[j],
            forall|j: int| i <= j < n ==> world.slots@[j] == old(world).slots@[j],
        decreases n - i,
    {
        if let Some(e) = world.slots[i] {
            if let Some(x) = e.extent {
                if e.despawn_outside.is_some() {
                    let (bw, bh) = outer_bounds(window, &e, x);
                    let bw = bw + DESPAWN_MARGIN;
                    let bh = bh + DESPAWN_MARGIN;
                    let t = e.transform;
                    if t.x > bw || t.x < -bw || t.y > bh || t.y < -bh {
                        world.despawn(i);
                    }
                }
            }
        }
        i += 1;
    }
    assert(world.slots@ =~= reaped_slots(window, old(world).slots@));
}

/// Move every star that has scrolled below the viewport back to its top edge.
pub fn wrap_stars(window: WindowSize, world: &mut World)
    ensures
        final(world).slots@ == wrapped_slots(window, old(world).slots@),
{
    let n = world.slots.len();
    let mut i: usize = 0;
    while i < n
        invariant
            n == world.slots@.len(),
            n == old(world).slots@.len(),
            i <= n,
            forall|j: int| 0 <= j < i ==> world.slots@[j] == wrapped_slots(window, old(world).slots@)[j],
            forall|j: int| i <= j < n ==> world.slots@[j] == old(world).slots@[j],
        decreases n - i,
    {
        if let Some(e) = world.slots[i] {
            if let Some(Extent::Plain(s)) = e.extent {
                if e.role == Role::Star {
                    let (_, h) = outer_bounds(window, &e, Extent::Plain(s));
                    if e.transform.y < -h {
                        let t = Transform { y: h, ..e.transform };
                        world.slots.set(i, Some(Entity { transform: t, ..e }));
                    }
                }
            }
        }
        i += 1;
    }
    assert(world.slots@ =~= wrapped_slots(window, old(world).slots@));
}

} // verus!
