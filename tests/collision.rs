use arcade_collision::{
    bound_player, collide_with_enemy_bullets, collide_with_player_bullets, despawn_outside,
    hitboxes_overlap, inner_bound, outer_bound, overlaps, wrap_stars, CollisionPlugin,
    DespawnOutside, Entity, Extent, Faction, Health, Hitbox, InvulnTimer, PlayerCountError,
    PlayerHit, Role, SpriteSize, Transform, WindowSize, World,
};

const UNIT: i64 = 1000;

fn window() -> WindowSize {
    WindowSize { width: 800_000, height: 600_000 }
}

fn bare(role: Role, x: i64, y: i64) -> Entity {
    Entity {
        role,
        transform: Transform { x, y, scale_x: 1000, scale_y: 1000 },
        hitbox: None,
        extent: None,
        health: None,
        invuln: None,
        despawn_outside: None,
    }
}

fn player(x: i64, y: i64, health: u32, timer: InvulnTimer) -> Entity {
    Entity {
        hitbox: Some(Hitbox { radius: 5_000 }),
        health: Some(Health::new(health)),
        invuln: Some(timer),
        extent: Some(Extent::Sheet(SpriteSize { width: 64_000, height: 64_000 })),
        ..bare(Role::Player, x, y)
    }
}

fn enemy(x: i64, y: i64, health: u32) -> Entity {
    Entity {
        hitbox: Some(Hitbox { radius: 5_000 }),
        health: Some(Health::new(health)),
        ..bare(Role::Enemy, x, y)
    }
}

fn bullet(faction: Faction, damage: u32, x: i64, y: i64) -> Entity {
    Entity {
        hitbox: Some(Hitbox { radius: 5_000 }),
        ..bare(Role::Bullet { faction, damage }, x, y)
    }
}

fn reapable(x: i64, y: i64) -> Entity {
    Entity {
        extent: Some(Extent::Sheet(SpriteSize { width: 64_000, height: 64_000 })),
        despawn_outside: Some(DespawnOutside),
        ..bare(Role::Other, x, y)
    }
}

fn star(y: i64) -> Entity {
    Entity {
        extent: Some(Extent::Plain(SpriteSize { width: 64_000, height: 64_000 })),
        ..bare(Role::Star, 0, y)
    }
}

fn ready_timer() -> InvulnTimer {
    InvulnTimer::new(1_000_000)
}

#[test]
fn bounds_match_the_formulas() {
    assert_eq!(inner_bound(800_000, 64_000), 368_000);
    assert_eq!(outer_bound(800_000, 64_000), 432_000);
    assert_eq!(inner_bound(600_000, 64_000), 268_000);
    assert_eq!(outer_bound(600_000, 64_000), 332_000);
}

#[test]
fn bounds_split_the_dimension() {
    for (d, e) in [(800_000u32, 64_000u32), (600_000, 0), (0, 0), (10, 30), (1_000, 1_000)] {
        let inner = inner_bound(d, e);
        let outer = outer_bound(d, e);
        assert_eq!(inner + outer, d as i64);
        assert_eq!(outer - inner, e as i64);
    }
}

#[test]
fn inner_bound_of_a_sprite_wider_than_the_view_is_negative() {
    assert_eq!(inner_bound(100, 300), -100);
    assert_eq!(outer_bound(100, 300), 200);
    assert_eq!(inner_bound(1, 2), -1);
    assert_eq!(inner_bound(0, u32::MAX), -2_147_483_648);
    assert_eq!(inner_bound(3, 0), 1);
}

#[test]
fn sprite_size_applies_the_scale() {
    let s = SpriteSize::new(64_000, 32_000, 500);
    assert_eq!(s, SpriteSize { width: 32_000, height: 16_000 });
    let t = SpriteSize::new(7, 3, 2500);
    assert_eq!(t, SpriteSize { width: 17, height: 7 });
}

#[test]
fn confinement_clamps_to_the_inner_bound() {
    let mut world = World {
        slots: vec![Some(player(1000 * UNIT, 0, 10, ready_timer())), Some(player(-1000 * UNIT, 50 * UNIT, 10, ready_timer()))],
    };
    bound_player(window(), &mut world);
    let a = world.slots[0].unwrap().transform;
    let b = world.slots[1].unwrap().transform;
    assert_eq!((a.x, a.y), (368_000, 0));
    assert_eq!((b.x, b.y), (-368_000, 50_000));
}

#[test]
fn confinement_clamps_the_vertical_axis_and_ignores_others() {
    let mut world = World {
        slots: vec![Some(player(0, -900 * UNIT, 10, ready_timer())), Some(Entity { extent: Some(Extent::Sheet(SpriteSize { width: 64_000, height: 64_000 })), ..bare(Role::Enemy, 1000 * UNIT, 0) }), None],
    };
    bound_player(window(), &mut world);
    assert_eq!(world.slots[0].unwrap().transform.y, -268_000);
    assert_eq!(world.slots[1].unwrap().transform.x, 1000 * UNIT);
    assert!(world.slots[2].is_none());
}

#[test]
fn reaper_keeps_the_margin_in_all_four_directions() {
    // Outer bound plus margin: 432 + 12 across, 332 + 12 up and down.
    let at_edge = [(444_000, 0), (-444_000, 0), (0, 344_000), (0, -344_000)];
    let past = [(444_100, 0), (-444_100, 0), (0, 344_100), (0, -344_100)];
    for (x, y) in at_edge {
        let mut world = World { slots: vec![Some(reapable(x, y))] };
        despawn_outside(window(), &mut world);
        assert!(world.slots[0].is_some(), "({}, {}) should survive", x, y);
    }
    for (x, y) in past {
        let mut world = World { slots: vec![Some(reapable(x, y))] };
        despawn_outside(window(), &mut world);
        assert!(world.slots[0].is_none(), "({}, {}) should be reaped", x, y);
    }
}

#[test]
fn reaper_skips_unmarked_entities() {
    let mut unmarked = reapable(900 * UNIT, 0);
    unmarked.despawn_outside = None;
    let mut world = World { slots: vec![Some(unmarked)] };
    despawn_outside(window(), &mut world);
    assert!(world.slots[0].is_some());
}

#[test]
fn reaper_scales_plain_sprites() {
    // A 32-unit sprite at scale 2 reaches as far as a 64-unit sheet.
    let mut e = reapable(444_100, 0);
    e.extent = Some(Extent::Plain(SpriteSize { width: 32_000, height: 32_000 }));
    e.transform.scale_x = 2000;
    let mut inside = e;
    inside.transform.x = 444_000;
    let mut world = World { slots: vec![Some(e), Some(inside)] };
    despawn_outside(window(), &mut world);
    assert!(world.slots[0].is_none());
    assert!(world.slots[1].is_some());
}

#[test]
fn wrap_moves_stars_below_the_outer_bound_to_the_top() {
    let mut world = World { slots: vec![Some(star(-301_000)), Some(star(-333_000)), Some(star(-332_000))] };
    wrap_stars(window(), &mut world);
    assert_eq!(world.slots[0].unwrap().transform.y, -301_000);
    assert_eq!(world.slots[1].unwrap().transform.y, 332_000);
    assert_eq!(world.slots[2].unwrap().transform.y, -332_000);
}

#[test]
fn wrap_leaves_the_top_edge_alone() {
    let mut world = World { slots: vec![Some(star(900_000))] };
    wrap_stars(window(), &mut world);
    assert_eq!(world.slots[0].unwrap().transform.y, 900_000);
}

#[test]
fn overlap_is_strict() {
    let r = Hitbox { radius: 5_000 };
    assert!(hitboxes_overlap(0, 0, r, 9_990, 0, r));
    assert!(!hitboxes_overlap(0, 0, r, 10_000, 0, r));
    assert!(!hitboxes_overlap(0, 0, r, 10_001, 0, r));
    // 6-8-10 triangle: exactly touching is no overlap.
    assert!(!hitboxes_overlap(0, 0, r, 6_000, 8_000, r));
    assert!(hitboxes_overlap(0, 0, r, 6_000, 7_999, r));
}

#[test]
fn overlap_survives_extreme_positions() {
    let r = Hitbox { radius: u32::MAX };
    assert!(!hitboxes_overlap(i64::MIN, i64::MIN, r, i64::MAX, i64::MAX, r));
    assert!(hitboxes_overlap(i64::MAX, i64::MIN, r, i64::MAX, i64::MIN, r));
}

#[test]
fn overlaps_reads_the_entities() {
    let a = bullet(Faction::Enemy, 1, 0, 0);
    let b = enemy(9_990, 0, 1);
    let c = enemy(0, 10_000, 1);
    assert!(overlaps(&a, &b));
    assert!(!overlaps(&a, &c));
}

#[test]
fn enemy_bullet_lands_once_and_restarts_invulnerability() {
    let mut world = World {
        slots: vec![Some(player(0, 0, 10, ready_timer())), Some(bullet(Faction::Enemy, 4, 1_000, 0)), Some(bullet(Faction::Enemy, 4, 0, 1_000))],
    };
    let r = collide_with_enemy_bullets(&mut world, 16_000);
    assert_eq!(r, Ok(PlayerHit { landed: true, game_over: false }));
    let p = world.slots[0].unwrap();
    assert_eq!(p.health.unwrap().current, 6);
    assert_eq!(p.invuln.unwrap(), InvulnTimer { duration: 1_000_000, elapsed: 0 });
    assert!(world.slots[1].is_none());
    assert!(world.slots[2].is_none());
}

#[test]
fn enemy_bullet_during_invulnerability_is_only_destroyed() {
    let timer = InvulnTimer { duration: 1_000_000, elapsed: 100_000 };
    let mut world = World { slots: vec![Some(bullet(Faction::Enemy, 4, 0, 0)), Some(player(0, 0, 10, timer))] };
    let r = collide_with_enemy_bullets(&mut world, 16_000);
    assert_eq!(r, Ok(PlayerHit { landed: false, game_over: false }));
    let p = world.slots[1].unwrap();
    assert_eq!(p.health.unwrap().current, 10);
    assert_eq!(p.invuln.unwrap(), InvulnTimer { duration: 1_000_000, elapsed: 116_000 });
    assert!(world.slots[0].is_none());
}

#[test]
fn the_tick_can_end_invulnerability_before_bullets_are_checked() {
    let timer = InvulnTimer { duration: 1_000_000, elapsed: 990_000 };
    let mut world = World { slots: vec![Some(player(0, 0, 10, timer)), Some(bullet(Faction::Enemy, 3, 0, 0))] };
    let r = collide_with_enemy_bullets(&mut world, 16_000);
    assert_eq!(r, Ok(PlayerHit { landed: true, game_over: false }));
    assert_eq!(world.slots[0].unwrap().health.unwrap().current, 7);
}

#[test]
fn lethal_bullets_request_the_terminal_state_once() {
    let mut world = World {
        slots: vec![Some(player(0, 0, 3, ready_timer())), Some(bullet(Faction::Enemy, 5, 0, 0)), Some(bullet(Faction::Enemy, 5, 0, 0))],
    };
    let r = collide_with_enemy_bullets(&mut world, 16_000);
    assert_eq!(r, Ok(PlayerHit { landed: true, game_over: true }));
    assert_eq!(world.slots[0].unwrap().health.unwrap().current, 0);
    assert!(world.slots[1].is_none() && world.slots[2].is_none());
}

#[test]
fn distant_and_friendly_bullets_do_not_touch_the_player() {
    let mut world = World {
        slots: vec![Some(player(0, 0, 10, ready_timer())), Some(bullet(Faction::Enemy, 4, 10_000, 0)), Some(bullet(Faction::Player, 4, 0, 0))],
    };
    let r = collide_with_enemy_bullets(&mut world, 16_000);
    assert_eq!(r, Ok(PlayerHit { landed: false, game_over: false }));
    assert_eq!(world.slots[0].unwrap().health.unwrap().current, 10);
    assert!(world.slots[1].is_some() && world.slots[2].is_some());
}

#[test]
fn enemy_bullet_pass_needs_exactly_one_player() {
    let mut none = World { slots: vec![Some(bullet(Faction::Enemy, 4, 0, 0))] };
    assert_eq!(collide_with_enemy_bullets(&mut none, 16_000), Err(PlayerCountError::NoPlayer));
    assert!(none.slots[0].is_some());
    let mut two = World { slots: vec![Some(player(0, 0, 10, ready_timer())), Some(player(0, 0, 10, ready_timer())), Some(bullet(Faction::Enemy, 4, 0, 0))] };
    assert_eq!(collide_with_enemy_bullets(&mut two, 16_000), Err(PlayerCountError::SeveralPlayers));
    assert_eq!(two.slots[0].unwrap().health.unwrap().current, 10);
    assert!(two.slots[2].is_some());
}

#[test]
fn player_bullets_add_up_on_one_enemy() {
    let mut world = World {
        slots: vec![Some(enemy(0, 0, 10)), Some(bullet(Faction::Player, 2, 1_000, 0)), Some(bullet(Faction::Player, 2, -1_000, 0))],
    };
    collide_with_player_bullets(&mut world);
    assert_eq!(world.slots[0].unwrap().health.unwrap().current, 6);
    assert!(world.slots[1].is_none());
    assert!(world.slots[2].is_none());
}

#[test]
fn one_player_bullet_damages_every_enemy_it_overlaps() {
    let mut world = World {
        slots: vec![Some(bullet(Faction::Player, 3, 0, 0)), Some(enemy(4_000, 0, 10)), Some(enemy(-4_000, 0, 2)), Some(enemy(50_000, 0, 10))],
    };
    collide_with_player_bullets(&mut world);
    assert!(world.slots[0].is_none());
    assert_eq!(world.slots[1].unwrap().health.unwrap().current, 7);
    assert_eq!(world.slots[2].unwrap().health.unwrap().current, 0);
    assert_eq!(world.slots[3].unwrap().health.unwrap().current, 10);
}

#[test]
fn enemy_bullets_do_not_hurt_enemies() {
    let mut world = World { slots: vec![Some(enemy(0, 0, 10)), Some(bullet(Faction::Enemy, 2, 0, 0))] };
    collide_with_player_bullets(&mut world);
    assert_eq!(world.slots[0].unwrap().health.unwrap().current, 10);
    assert!(world.slots[1].is_some());
}

#[test]
fn despawning_twice_is_harmless() {
    let mut world = World { slots: vec![Some(bullet(Faction::Enemy, 1, 0, 0)), Some(enemy(0, 0, 1))] };
    world.despawn(0);
    world.despawn(0);
    world.despawn(7);
    assert!(world.slots[0].is_none());
    assert!(world.slots[1].is_some());
    assert_eq!(world.slots.len(), 2);
}

#[test]
fn health_damage_stops_at_zero() {
    let mut h = Health::new(5);
    h.damage(2);
    assert_eq!(h, Health { current: 3, max: 5 });
    h.damage(9);
    assert_eq!(h, Health { current: 0, max: 5 });
}

#[test]
fn timer_ticks_up_to_its_duration() {
    let mut t = InvulnTimer { duration: 1000, elapsed: 0 };
    t.tick(400);
    assert_eq!(t.elapsed, 400);
    assert!(!t.finished());
    t.tick(700);
    assert_eq!(t.elapsed, 1000);
    t.tick(5);
    assert_eq!(t.elapsed, 1000);
    assert!(t.finished());
    t.reset();
    assert_eq!(t.elapsed, 0);
    assert!(!t.finished());
}

#[test]
fn a_frame_runs_the_passes_in_order() {
    let mut world = World {
        slots: vec![
            Some(player(1000 * UNIT, 0, 10, ready_timer())),
            // Lies on the confined player only after confinement.
            Some(bullet(Faction::Enemy, 4, 368_000, 0)),
            Some(enemy(0, 100 * UNIT, 5)),
            Some(bullet(Faction::Player, 5, 0, 100 * UNIT)),
            Some(reapable(900 * UNIT, 0)),
            Some(star(-333_000)),
        ],
    };
    let r = CollisionPlugin.update(window(), &mut world, 16_000);
    assert_eq!(r, Ok(PlayerHit { landed: true, game_over: false }));
    let p = world.slots[0].unwrap();
    assert_eq!(p.transform.x, 368_000);
    assert_eq!(p.health.unwrap().current, 6);
    assert!(world.slots[1].is_none());
    assert_eq!(world.slots[2].unwrap().health.unwrap().current, 0);
    assert!(world.slots[3].is_none());
    assert!(world.slots[4].is_none());
    assert_eq!(world.slots[5].unwrap().transform.y, 332_000);
}

#[test]
fn a_frame_without_a_player_still_runs_the_other_passes() {
    let mut world = World {
        slots: vec![
            Some(reapable(900 * UNIT, 0)),
            Some(star(-333_000)),
            Some(enemy(0, 0, 5)),
            Some(bullet(Faction::Player, 2, 0, 0)),
            Some(bullet(Faction::Enemy, 2, 50 * UNIT, 0)),
        ],
    };
    let r = CollisionPlugin.update(window(), &mut world, 16_000);
    assert_eq!(r, Err(PlayerCountError::NoPlayer));
    assert!(world.slots[0].is_none());
    assert_eq!(world.slots[1].unwrap().transform.y, 332_000);
    assert_eq!(world.slots[2].unwrap().health.unwrap().current, 3);
    assert!(world.slots[3].is_none());
    assert!(world.slots[4].is_some());
}
