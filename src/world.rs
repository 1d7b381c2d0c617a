use vstd::prelude::*;
use crate::geometry::{Hitbox, SpriteSize};

verus! {

/// Which side fired a projectile, or which side an actor belongs to.
#[derive(Clone, Copy, Debug, PartialEq, Eq, Structural)]
pub enum Faction {
    Player,
    Enemy,
}

/// What an entity is; the roles are mutually exclusive.
#[derive(Clone, Copy, Debug, PartialEq, Eq, Structural)]
pub enum Role {
    Player,
    Enemy,
    /// A projectile of a faction that deals `damage` on its first hit.
    Bullet { faction: Faction, damage: u32 },
    /// A decorative background entity that wraps around vertically.
    Star,
    /// Anything else.
    Other,
}

/// Opt-in marker: entities carrying it are removed once well off-screen.
#[derive(Clone, Copy, Debug, PartialEq, Eq, Structural)]
pub struct DespawnOutside;

/// Position (milli-units) and per-axis scale (thousandths).
#[derive(Clone, Copy, Debug, PartialEq, Eq, Structural)]
pub struct Transform {
    pub x: i64,
    pub y: i64,
    pub scale_x: u32,
    pub scale_y: u32,
}

/// The rendered extent of an entity.
#[derive(Clone, Copy, Debug, PartialEq, Eq, Structural)]
pub enum Extent {
    /// A sprite-sheet extent, already scaled.
    Sheet(SpriteSize),
    /// A plain sprite, whose size is multiplied by the transform's scale.
    Plain(SpriteSize),
}

/// Current and maximum health.
#[derive(Clone, Copy, Debug, PartialEq, Eq, Structural)]
pub struct Health {
    pub current: u32,
    pub max: u32,
}

impl Health {
    pub open spec fn wf(self) -> bool {
        self.current <= self.max
    }

    pub open spec fn damaged_spec(self, amount: int) -> Health {
        Health {
            current: if self.current >= amount { (self.current - amount) as u32 } else { 0 },
            max: self.max,
        }
    }

    /// Full health.
    pub fn new(max: u32) -> (r: Health)
        ensures
            r == (Health { current: max, max }),
            r.wf(),
    {
        Health { current: max, max }
    }

    /// Subtract `amount`, stopping at zero.
    pub fn damage(&mut self, amount: u32)
        ensures
            *final(self) == old(self).damaged_spec(amount as int),
            old(self).wf() ==> final(self).wf(),
    {
        self.current = if self.current >= amount { self.current - amount } else { 0 };
    }
}

/// A one-shot countdown in microseconds; its owner is immune while it runs.
#[derive(Clone, Copy, Debug, PartialEq, Eq, Structural)]
pub struct InvulnTimer {
    pub duration: u64,
    pub elapsed: u64,
}

impl InvulnTimer {
    pub open spec fn ticked_spec(self, delta: int) -> InvulnTimer {
        InvulnTimer {
            duration: self.duration,
            elapsed: if self.elapsed + delta >= self.duration {
                if self.elapsed >= self.duration { self.elapsed } else { self.duration }
            } else {
                (self.elapsed + delta) as u64
            },
        }
    }

    pub open spec fn finished_spec(self) -> bool {
        self.elapsed >= self.duration
    }

    pub open spec fn reset_spec(self) -> InvulnTimer {
        InvulnTimer { duration: self.duration, elapsed: 0 }
    }

    /// A countdown of `duration` microseconds that has already run out.
    pub fn new(duration: u64) -> (r: InvulnTimer)
        ensures
            r == (InvulnTimer { duration, elapsed: duration }),
    {
        InvulnTimer { duration, elapsed: duration }
    }

    /// Advance by `delta` microseconds; the elapsed time stops at the duration.
    pub fn tick(&mut self, delta: u64)
        ensures
            *final(self) == old(self).ticked_spec(delta as int),
    {
        if self.elapsed >= self.duration {
        } else if delta >= self.duration - self.elapsed {
            self.elapsed = self.duration;
        } else {
            self.elapsed = self.elapsed + delta;
        }
    }

    /// Whether the countdown has run out.
    pub fn finished(&self) -> (r: bool)
        ensures
            r == self.finished_spec(),
    {
        self.elapsed >= self.duration
    }

    /// Restart the countdown from its full duration.
    pub fn reset(&mut self)
        ensures
            *final(self) == old(self).reset_spec(),
    {
        self.elapsed = 0;
    }
}

/// One entity: its role and whichever components it carries.
#[derive(Clone, Copy, Debug, PartialEq, Eq, Structural)]
pub struct Entity {
    pub role: Role,
    pub transform: Transform,
    pub hitbox: Option<Hitbox>,
    pub extent: Option<Extent>,
    pub health: Option<Health>,
    pub invuln: Option<InvulnTimer>,
    pub despawn_outside: Option<DespawnOutside>,
}

/// The entity store: an arena indexed by handle, where `None` marks a destroyed entity.
#[derive(Clone, Debug)]
pub struct World {
    pub slots: Vec<Option<Entity>>,
}

/// `slots` with entity `id` removed; a handle out of range or already free changes nothing.
pub open spec fn despawned(slots: Seq<Option<Entity>>, id: int) -> Seq<Option<Entity>> {
    if 0 <= id < slots.len() {
        slots.update(id, None)
    } else {
        slots
    }
}

impl World {
    /// Destroy entity `id`. Destroying a destroyed or unknown entity does nothing.
    pub fn despawn(&mut self, id: usize)
        ensures
            final(self).slots@ == despawned(old(self).slots@, id as int),
    {
        if id < self.slots.len() {
            self.slots.set(id, None);
        }
    }
}

/// Destroying an entity twice is the same as destroying it once.
pub proof fn lemma_despawn_idempotent(slots: Seq<Option<Entity>>, id: int)
    ensures
        despawned(despawned(slots, id), id) == despawned(slots, id),
{
    if 0 <= id < slots.len() {
        assert(despawned(despawned(slots, id), id) =~= despawned(slots, id));
    }
}

} // verus!
