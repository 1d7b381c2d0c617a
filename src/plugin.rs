use vstd::prelude::*;
use crate::damage::{
    after_enemy_bullets, after_player_bullets, collide_with_enemy_bullets,
    collide_with_player_bullets, hit_lands, sole_player, struck_player, PlayerCountError, PlayerHit,
};
use crate::geometry::WindowSize;
use crate::screen::{bound_player, confined_slots, despawn_outside, reaped_slots, wrap_stars, wrapped_slots};
use crate::world::{Entity, World};

verus! {

/// Runs the collision passes of one frame in their fixed order.
#[derive(Clone, Copy, Debug, PartialEq, Eq, Structural)]
pub struct CollisionPlugin;

/// The store after a whole frame whose player, after confinement, sits in slot `p`.
pub open spec fn after_frame(window: WindowSize, slots: Seq<Option<Entity>>, p: int, delta: int) -> Seq<Option<Entity>> {
    wrapped_slots(window, reaped_slots(window,
        after_player_bullets(after_enemy_bullets(confined_slots(window, slots), p, delta))))
}

impl CollisionPlugin {
    /// One frame, after movement: confine the player, resolve enemy bullets against
    /// the player, then player bullets against enemies, then reap off-screen entities
    /// and wrap stars. Without exactly one player only the enemy-bullet pass is
    /// skipped; the other passes still run.
    pub fn update(&self, window: WindowSize, world: &mut World, delta: u64) -> (r: Result<PlayerHit, PlayerCountError>)
        ensures
            r is Ok <==> exists|p: int| sole_player(confined_slots(window, old(world).slots@), p),
            r is Err ==> final(world).slots@
                == wrapped_slots(window, reaped_slots(window,
                    after_player_bullets(confined_slots(window, old(world).slots@)))),
            forall|p: int| sole_player(confined_slots(window, old(world).slots@), p) ==> {
                let c = confined_slots(window, old(world).slots@);
                let h = struck_player(c, p, delta as int).health.unwrap();
                &&& final(world).slots@ == after_frame(window, old(world).slots@, p, delta as int)
                &&& r == Ok::<PlayerHit, PlayerCountError>(PlayerHit {
                    landed: hit_lands(c, p, delta as int),
                    game_over: hit_lands(c, p, delta as int) && h.current == 0,
                })
            },
    {
        bound_player(window, world);
        let hit = collide_with_enemy_bullets(world, delta);
        collide_with_player_bullets(world);
        despawn_outside(window, world);
        wrap_stars(window, world);
        hit
    }
}

} // verus!
