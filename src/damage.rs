use vstd::prelude::*;
use crate::geometry::{circles_overlap, hitboxes_overlap};
use crate::world::{Entity, Faction, Health, InvulnTimer, Role, World};

verus! {

/// The player as the enemy-bullet pass sees it: it has a hitbox, health and a timer.
pub open spec fn is_player_target(e: Entity) -> bool {
    e.role == Role::Player && e.hitbox.is_some() && e.health.is_some() && e.invuln.is_some()
}

/// An enemy as the player-bullet pass sees it: it has a hitbox and health.
pub open spec fn is_enemy_target(e: Entity) -> bool {
    e.role == Role::Enemy && e.hitbox.is_some() && e.health.is_some()
}

/// A bullet of `faction` with a hitbox.
pub open spec fn is_bullet_of(e: Entity, faction: Faction) -> bool {
    &&& e.hitbox.is_some()
    &&& match e.role {
        Role::Bullet { faction: f, .. } => f == faction,
        _ => false,
    }
}

pub open spec fn bullet_damage(e: Entity) -> int {
    match e.role {
        Role::Bullet { damage, .. } => damage as int,
        _ => 0,
    }
}

/// Whether the hitboxes of two entities overlap at their current positions.
pub open spec fn entities_overlap(a: Entity, b: Entity) -> bool {
    circles_overlap(
        a.transform.x as int, a.transform.y as int, a.hitbox.unwrap().radius as int,
        b.transform.x as int, b.transform.y as int, b.hitbox.unwrap().radius as int,
    )
}

pub open spec fn player_at(slots: Seq<Option<Entity>>, j: int) -> bool {
    0 <= j < slots.len() && slots[j].is_some() && is_player_target(slots[j].unwrap())
}

/// `p` holds the one and only player.
pub open spec fn sole_player(slots: Seq<Option<Entity>>, p: int) -> bool {
    player_at(slots, p) && forall|j: int| #[trigger] player_at(slots, j) ==> j == p
}

/// Slot `j` holds an enemy bullet overlapping the player in slot `p`.
pub open spec fn hits_player(slots: Seq<Option<Entity>>, p: int, j: int) -> bool {
    &&& 0 <= j < slots.len()
    &&& slots[j].is_some()
    &&& is_bullet_of(slots[j].unwrap(), Faction::Enemy)
    &&& entities_overlap(slots[p].unwrap(), slots[j].unwrap())
}

/// The first slot from `k` on whose bullet hits the player in slot `p`.
pub open spec fn first_hit(slots: Seq<Option<Entity>>, p: int, k: int) -> Option<int>
    decreases slots.len() - k,
{
    if k < 0 || k >= slots.len() {
        None
    } else if hits_player(slots, p, k) {
        Some(k)
    } else {
        first_hit(slots, p, k + 1)
    }
}

/// The player's timer after this frame's tick.
pub open spec fn ticked_timer(slots: Seq<Option<Entity>>, p: int, delta: int) -> InvulnTimer {
    slots[p].unwrap().invuln.unwrap().ticked_spec(delta)
}

/// Whether a hit lands on the player this frame: it was vulnerable after the tick
/// and some enemy bullet overlaps it.
pub open spec fn hit_lands(slots: Seq<Option<Entity>>, p: int, delta: int) -> bool {
    ticked_timer(slots, p, delta).finished_spec() && first_hit(slots, p, 0).is_some()
}

/// The player after the enemy-bullet pass: at most one hit lands, from the first
/// overlapping bullet, and a landed hit restarts the invulnerability countdown.
pub open spec fn struck_player(slots: Seq<Option<Entity>>, p: int, delta: int) -> Entity {
    let e = slots[p].unwrap();
    let t = ticked_timer(slots, p, delta);
    if hit_lands(slots, p, delta) {
        let f = first_hit(slots, p, 0).unwrap();
        Entity {
            health: Some(e.health.unwrap().damaged_spec(bullet_damage(slots[f].unwrap()))),
            invuln: Some(t.reset_spec()),
            ..e
        }
    } else {
        Entity { invuln: Some(t), ..e }
    }
}

/// The store after the enemy-bullet pass: every overlapping enemy bullet is destroyed,
/// whether or not its hit lands.
pub open spec fn after_enemy_bullets(slots: Seq<Option<Entity>>, p: int, delta: int) -> Seq<Option<Entity>> {
    Seq::new(slots.len(), |j: int|
        if j == p {
            Some(struck_player(slots, p, delta))
        } else if hits_player(slots, p, j) {
            None
        } else {
            slots[j]
        })
}

proof fn lemma_first_hit_is_hit(slots: Seq<Option<Entity>>, p: int, k: int)
    ensures
        first_hit(slots, p, k) matches Some(f) ==> hits_player(slots, p, f) && k <= f,
    decreases slots.len() - k,
{
    if 0 <= k < slots.len() && !hits_player(slots, p, k) {
        lemma_first_hit_is_hit(slots, p, k + 1);
    }
}

/// In one frame the player loses the damage of at most one bullet: its health is
/// either unchanged or lowered by the damage of a single enemy bullet that overlaps it.
pub proof fn lemma_one_hit_per_frame(slots: Seq<Option<Entity>>, p: int, delta: int)
    requires
        sole_player(slots, p),
    ensures
        ({
            let before = slots[p].unwrap().health.unwrap();
            let after = struck_player(slots, p, delta).health.unwrap();
            after == before || exists|f: int| #[trigger] hits_player(slots, p, f)
                && after == before.damaged_spec(bullet_damage(slots[f].unwrap()))
        }),
{
    lemma_first_hit_is_hit(slots, p, 0);
}

/// What the enemy-bullet pass asks of the rest of the game.
#[derive(Clone, Copy, Debug, PartialEq, Eq, Structural)]
pub struct PlayerHit {
    /// A hit landed: play the hit cue.
    pub landed: bool,
    /// The player's health reached zero on a landed hit: enter the terminal state.
    pub game_over: bool,
}

/// The enemy-bullet pass needs exactly one player.
#[derive(Clone, Copy, Debug, PartialEq, Eq, Structural)]
pub enum PlayerCountError {
    NoPlayer,
    SeveralPlayers,
}

/// Whether two entities with hitboxes overlap.
pub fn overlaps(a: &Entity, b: &Entity) -> (r: bool)
    requires
        a.hitbox.is_some(),
        b.hitbox.is_some(),
    ensures
        r == entities_overlap(*a, *b),
{
    let ha = a.hitbox.unwrap();
    let hb = b.hitbox.unwrap();
    hitboxes_overlap(a.transform.x, a.transform.y, ha, b.transform.x, b.transform.y, hb)
}

fn is_player(slot: &Option<Entity>) -> (r: bool)
    ensures
        r == (slot.is_some() && is_player_target(slot.unwrap())),
{
    match slot {
        Some(e) => e.role == Role::Player && e.hitbox.is_some() && e.health.is_some() && e.invuln.is_some(),
        None => false,
    }
}

fn is_bullet(slot: &Option<Entity>, faction: Faction) -> (r: bool)
    ensures
        r == (slot.is_some() && is_bullet_of(slot.unwrap(), faction)),
{
    match slot {
        Some(e) => match e.role {
            Role::Bullet { faction: f, .. } => f == faction && e.hitbox.is_some(),
            _ => false,
        },
        None => false,
    }
}

fn damage_of(e: &Entity) -> (r: u32)
    ensures
        r == bullet_damage(*e),
{
    match e.role {
        Role::Bullet { damage, .. } => damage,
        _ => 0,
    }
}

/// The slot of the one player, or why there is not exactly one.
pub fn find_player(slots: &Vec<Option<Entity>>) -> (r: Result<usize, PlayerCountError>)
    ensures
        r matches Ok(p) ==> sole_player(slots@, p as int),
        r == Err::<usize, PlayerCountError>(PlayerCountError::NoPlayer)
            <==> forall|j: int| !player_at(slots@, j),
        r == Err::<usize, PlayerCountError>(PlayerCountError::SeveralPlayers)
            <==> exists|a: int, b: int| player_at(slots@, a) && player_at(slots@, b) && a != b,
{
    let mut found: Option<usize> = None;
    let mut i: usize = 0;
    while i < slots.len()
        invariant
            i <= slots@.len(),
            found.is_none() ==> forall|j: int| 0 <= j < i ==> !player_at(slots@, j),
            found matches Some(p) ==> p < i && player_at(slots@, p as int)
                && forall|j: int| 0 <= j < i && player_at(slots@, j) ==> j == p,
        decreases slots@.len() - i,
    {
        if is_player(&slots[i]) {
            if let Some(p) = found {
                assert(player_at(slots@, p as int) && player_at(slots@, i as int));
                return Err(PlayerCountError::SeveralPlayers);
            }
            found = Some(i);
        }
        i += 1;
    }
    match found {
        Some(p) => {
            assert forall|j: int| #[trigger] player_at(slots@, j) implies j == p by {}
            Ok(p)
        },
        None => Err(PlayerCountError::NoPlayer),
    }
}

proof fn lemma_first_hit_step(slots: Seq<Option<Entity>>, p: int, k: int)
    requires
        0 <= k < slots.len(),
    ensures
        first_hit(slots, p, k) == if hits_player(slots, p, k) { Some(k) } else { first_hit(slots, p, k + 1) },
{
}

/// Enemy bullets against the player: tick the player's invulnerability by `delta`
/// microseconds, destroy every enemy bullet that overlaps it, and, if it was
/// vulnerable after the tick, let the first such bullet deal its damage and restart
/// the countdown. Without exactly one player nothing changes.
pub fn collide_with_enemy_bullets(world: &mut World, delta: u64) -> (r: Result<PlayerHit, PlayerCountError>)
    ensures
        r is Ok <==> exists|p: int| sole_player(old(world).slots@, p),
        r is Err ==> final(world).slots@ == old(world).slots@,
        forall|p: int| sole_player(old(world).slots@, p) ==> {
            let s = old(world).slots@;
            let h = struck_player(s, p, delta as int).health.unwrap();
            &&& final(world).slots@ == after_enemy_bullets(s, p, delta as int)
            &&& r == Ok::<PlayerHit, PlayerCountError>(PlayerHit {
                landed: hit_lands(s, p, delta as int),
                game_over: hit_lands(s, p, delta as int) && h.current == 0,
            })
        },
{
    let ghost s = world.slots@;
    let p = match find_player(&world.slots) {
        Ok(p) => p,
        Err(e) => {
            proof {
                if exists|q: int| sole_player(s, q) {
                    let q = choose|q: int| sole_player(s, q);
                    assert(player_at(s, q));
                }
            }
            return Err(e);
        },
    };
    assert forall|q: int| sole_player(s, q) implies q == p as int by {
        assert(player_at(s, q));
    }
    let pe = world.slots[p].unwrap();
    let mut health = pe.health.unwrap();
    let mut timer = pe.invuln.unwrap();
    timer.tick(delta);
    let vulnerable = timer.finished();
    let ghost ticked = timer;
    let mut first: Option<usize> = None;
    let mut landed = false;
    let mut game_over = false;
    let n = world.slots.len();
    let mut k: usize = 0;
    while k < n
        invariant
            n == s.len(),
            n == world.slots@.len(),
            k <= n,
            sole_player(s, p as int),
            s[p as int] == Some(pe),
            ticked == pe.invuln.unwrap().ticked_spec(delta as int),
            vulnerable == ticked.finished_spec(),
            forall|j: int| 0 <= j < k && j != p ==> world.slots@[j] == (if hits_player(s, p as int, j) { None } else { s[j] }),
            forall|j: int| k <= j < n || j == p ==> world.slots@[j] == s[j],
            first.is_none() ==> first_hit(s, p as int, 0) == first_hit(s, p as int, k as int),
            first matches Some(f) ==> first_hit(s, p as int, 0) == Some(f as int) && f < k,
            landed == (vulnerable && first.is_some()),
            landed ==> health == pe.health.unwrap().damaged_spec(bullet_damage(s[first.unwrap() as int].unwrap()))
                && timer == ticked.reset_spec() && game_over == (health.current == 0),
            !landed ==> health == pe.health.unwrap() && timer == ticked && !game_over,
        decreases n - k,
    {
        proof { lemma_first_hit_step(s, p as int, k as int); }
        if k != p && is_bullet(&world.slots[k], Faction::Enemy) {
            let b = world.slots[k].unwrap();
            if overlaps(&pe, &b) {
                world.despawn(k);
                if first.is_none() {
                    first = Some(k);
                    if vulnerable {
                        health.damage(damage_of(&b));
                        game_over = health.current == 0;
                        timer.reset();
                        landed = true;
                    }
                }
            }
        }
        k += 1;
    }
    let player = Entity { health: Some(health), invuln: Some(timer), ..pe };
    world.slots.set(p, Some(player));
    assert(world.slots@ =~= after_enemy_bullets(s, p as int, delta as int));
    Ok(PlayerHit { landed, game_over })
}

/// Slot `j` holds a player bullet overlapping the enemy in slot `i`.
pub open spec fn hits_enemy(slots: Seq<Option<Entity>>, i: int, j: int) -> bool {
    &&& 0 <= i < slots.len()
    &&& 0 <= j < slots.len()
    &&& slots[i].is_some()
    &&& slots[j].is_some()
    &&& is_enemy_target(slots[i].unwrap())
    &&& is_bullet_of(slots[j].unwrap(), Faction::Player)
    &&& entities_overlap(slots[i].unwrap(), slots[j].unwrap())
}

/// The damage that the player bullets in slots `0..k` deal to the enemy in slot `i`.
pub open spec fn damage_taken(slots: Seq<Option<Entity>>, i: int, k: int) -> int
    decreases k,
{
    if k <= 0 {
        0
    } else {
        damage_taken(slots, i, k - 1) + if hits_enemy(slots, i, k - 1) { bullet_damage(slots[k - 1].unwrap()) } else { 0 }
    }
}

/// A player bullet is spent once it overlaps any enemy.
pub open spec fn bullet_spent(slots: Seq<Option<Entity>>, j: int) -> bool {
    exists|i: int| #[trigger] hits_enemy(slots, i, j)
}

/// The store after the player-bullet pass: each enemy loses the damage of every
/// player bullet overlapping it, and every such bullet is destroyed.
pub open spec fn after_player_bullets(slots: Seq<Option<Entity>>) -> Seq<Option<Entity>> {
    Seq::new(slots.len(), |i: int|
        if slots[i].is_some() && is_enemy_target(slots[i].unwrap()) {
            let e = slots[i].unwrap();
            Some(Entity { health: Some(e.health.unwrap().damaged_spec(damage_taken(slots, i, slots.len() as int))), ..e })
        } else if bullet_spent(slots, i) {
            None
        } else {
            slots[i]
        })
}

/// Damage dealt in two steps, each stopping at zero, is damage dealt at once.
pub proof fn lemma_damage_accumulates(h: Health, a: int, b: int)
    requires
        a >= 0,
        b >= 0,
    ensures
        h.damaged_spec(a).damaged_spec(b) == h.damaged_spec(a + b),
{
}

proof fn lemma_damage_taken_nonneg(slots: Seq<Option<Entity>>, i: int, k: int)
    ensures
        damage_taken(slots, i, k) >= 0,
    decreases k,
{
    if k > 0 {
        lemma_damage_taken_nonneg(slots, i, k - 1);
    }
}

/// The enemy in slot `i` after every overlapping player bullet has hit it; marks
/// the bullets that hit it in `spent`.
fn take_hits(slots: &Vec<Option<Entity>>, i: usize, spent: &mut Vec<bool>) -> (r: Health)
    requires
        i < slots@.len(),
        slots@[i as int].is_some(),
        is_enemy_target(slots@[i as int].unwrap()),
        old(spent)@.len() == slots@.len(),
    ensures
        r == slots@[i as int].unwrap().health.unwrap().damaged_spec(damage_taken(slots@, i as int, slots@.len() as int)),
        final(spent)@.len() == slots@.len(),
        forall|j: int| 0 <= j < slots@.len() ==> final(spent)@[j] == (old(spent)@[j] || hits_enemy(slots@, i as int, j)),
{
    let e = slots[i].unwrap();
    let h0 = e.health.unwrap();
    let mut health = h0;
    let n = slots.len();
    let mut j: usize = 0;
    while j < n
        invariant
            n == slots@.len(),
            j <= n,
            i < n,
            slots@[i as int] == Some(e),
            is_enemy_target(e),
            h0 == e.health.unwrap(),
            health == h0.damaged_spec(damage_taken(slots@, i as int, j as int)),
            spent@.len() == n,
            forall|m: int| 0 <= m < j ==> spent@[m] == (old(spent)@[m] || hits_enemy(slots@, i as int, m)),
            forall|m: int| j <= m < n ==> spent@[m] == old(spent)@[m],
        decreases n - j,
    {
        proof { lemma_damage_taken_nonneg(slots@, i as int, j as int); }
        if is_bullet(&slots[j], Faction::Player) {
            let b = slots[j].unwrap();
            if overlaps(&e, &b) {
                let d = damage_of(&b);
                proof { lemma_damage_accumulates(h0, damage_taken(slots@, i as int, j as int), d as int); }
                health.damage(d);
                spent.set(j, true);
            }
        }
        j += 1;
    }
    health
}

/// Player bullets against enemies: every enemy takes the damage of every player
/// bullet overlapping it (several in one frame add up; a bullet over two enemies
/// damages both), and every bullet that overlapped an enemy is destroyed.
pub fn collide_with_player_bullets(world: &mut World)
    ensures
        final(world).slots@ == after_player_bullets(old(world).slots@),
{
    let ghost s = world.slots@;
    let n = world.slots.len();
    let mut spent: Vec<bool> = Vec::new();
    let mut healths: Vec<Option<Health>> = Vec::new();
    let mut i: usize = 0;
    while i < n
        invariant
            n == s.len(),
            world.slots@ == s,
            i <= n,
            spent@.len() == i,
            forall|m: int| 0 <= m < i ==> !spent@[m],
        decreases n - i,
    {
        spent.push(false);
        i += 1;
    }
    i = 0;
    while i < n
        invariant
            n == s.len(),
            world.slots@ == s,
            i <= n,
            spent@.len() == n,
            healths@.len() == i,
            forall|m: int| 0 <= m < n ==> spent@[m] == exists|q: int| 0 <= q < i && #[trigger] hits_enemy(s, q, m),
            forall|m: int| 0 <= m < i ==> healths@[m] == if s[m].is_some() && is_enemy_target(s[m].unwrap()) {
                Some(s[m].unwrap().health.unwrap().damaged_spec(damage_taken(s, m, n as int)))
            } else {
                None::<Health>
            },
        decreases n - i,
    {
        let ghost before = spent@;
        let slot = world.slots[i];
        let mut is_enemy = false;
        if let Some(e) = slot {
            is_enemy = e.role == Role::Enemy && e.hitbox.is_some() && e.health.is_some();
        }
        if is_enemy {
            let h = take_hits(&world.slots, i, &mut spent);
            healths.push(Some(h));
        } else {
            healths.push(None);
        }
        assert forall|m: int| 0 <= m < n implies spent@[m] == exists|q: int| 0 <= q < i + 1 && #[trigger] hits_enemy(s, q, m) by {
            if !is_enemy {
                assert(!hits_enemy(s, i as int, m));
            }
            if hits_enemy(s, i as int, m) {
                assert(0 <= i < i + 1);
            }
        }
        i += 1;
    }
    i = 0;
    while i < n
        invariant
            n == s.len(),
            n == world.slots@.len(),
            i <= n,
            spent@.len() == n,
            healths@.len() == n,
            forall|m: int| 0 <= m < n ==> spent@[m] == bullet_spent(s, m),
            forall|m: int| 0 <= m < n ==> healths@[m] == if s[m].is_some() && is_enemy_target(s[m].unwrap()) {
                Some(s[m].unwrap().health.unwrap().damaged_spec(damage_taken(s, m, n as int)))
            } else {
                None::<Health>
            },
            forall|m: int| 0 <= m < i ==> world.slots@[m] == after_player_bullets(s)[m],
            forall|m: int| i <= m < n ==> world.slots@[m] == s[m],
        decreases n - i,
    {
        if let Some(h) = healths[i] {
            let e = world.slots[i].unwrap();
            world.slots.set(i, Some(Entity { health: Some(h), ..e }));
        } else if spent[i] {
            world.despawn(i);
        }
        i += 1;
    }
    assert(world.slots@ =~= after_player_bullets(s));
}

} // verus!
