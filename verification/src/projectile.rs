//! The projectile subsystem: straight-line ballistics along the spawn
//! heading, cumulative travel distance, range-limited despawn, and
//! collision-triggered damage.

use vstd::prelude::*;

use crate::consts::{Health, PROJECTILE_SPEED, MAX_DT};
use crate::math::{Transform2, V2, SCALE};

verus! {

/// Per-projectile state: how far it has travelled, how far it may,
/// what it deals on a hit, and how fast it flies. All parameters are
/// fixed at spawn and only the displacement advances.
#[derive(Clone, Copy, Debug, PartialEq, Eq, Structural)]
pub struct Projectile {
    pub displacement: i64,
    pub range: i64,
    pub damage: i64,
    pub speed: i64,
}

/// The parameters every fresh projectile starts with.
pub open spec fn default_projectile() -> Projectile {
    Projectile { displacement: 0, range: 750_000, damage: 1_000, speed: PROJECTILE_SPEED }
}

impl Projectile {
    /// The projectile's numbers are within the machine bounds the
    /// per-tick integration needs.
    pub open spec fn wf(self) -> bool {
        &&& 0 <= self.displacement
        &&& 0 <= self.range <= 4_000_000_000_000_000_000
        &&& 0 <= self.damage <= 1_000_000_000_000
        &&& 0 < self.speed <= 2_000_000
    }
}

impl Default for Projectile {
    fn default() -> (p: Projectile)
        ensures
            p == default_projectile(),
            p.wf(),
    {
        Projectile { displacement: 0, range: 750_000, damage: 1_000, speed: PROJECTILE_SPEED }
    }
}

/// How far a projectile travels in one tick: its speed integrated over
/// the tick delta.
pub open spec fn travel_advance(p: Projectile, dt: int) -> int {
    p.speed * dt / (SCALE as int)
}

/// Whether this tick's travel pushes the projectile past its range.
pub open spec fn projectile_despawns(p: Projectile, dt: int) -> bool {
    p.displacement + travel_advance(p, dt) > p.range
}

/// Advances one projectile for one tick: the velocity is recomputed
/// from the current facing (so projectiles fly along their heading at
/// their own speed), the displacement grows by the distance covered,
/// and the projectile asks to be despawned the tick its displacement
/// first exceeds its range.
pub fn projectile_move(
    projectile: &mut Projectile,
    transform: &Transform2,
    velocity: &mut V2,
    dt: i64,
) -> (despawn: bool)
    requires
        old(projectile).wf(),
        old(projectile).displacement <= old(projectile).range,
        transform.wf(),
        0 <= dt <= MAX_DT,
    ensures
        final(projectile).wf(),
        final(projectile).displacement == old(projectile).displacement + travel_advance(
            *old(projectile),
            dt as int,
        ),
        *final(projectile) == (Projectile {
            displacement: (old(projectile).displacement + travel_advance(*old(projectile), dt as int)) as i64,
            ..*old(projectile)
        }),
        *final(velocity) == transform.heading.scaled(old(projectile).speed as int),
        despawn == projectile_despawns(*old(projectile), dt as int),
{
    *velocity = transform.heading.scale_to_len(projectile.speed);
    proof {
        assert(0 <= projectile.speed * dt <= 2_000_000_000_000_000) by (nonlinear_arith)
            requires
                0 < projectile.speed <= 2_000_000,
                0 <= dt <= 1_000_000_000,
        ;
        vstd::arithmetic::div_mod::lemma_div_pos_is_pos(projectile.speed * dt, SCALE as int);
        vstd::arithmetic::div_mod::lemma_div_is_ordered(
            projectile.speed * dt,
            2_000_000_000_000_000,
            SCALE as int,
        );
    }
    let advance: i64 = projectile.speed * dt / SCALE;
    projectile.displacement = projectile.displacement + advance;
    projectile.displacement > projectile.range
}

/// Law of the projectile lifetime: the displacement never decreases; it
/// strictly increases on every tick that covers at least one
/// fixed-point step of distance; and the projectile is despawned on
/// exactly the tick its displacement first exceeds its range — never
/// before, never later.
pub proof fn lemma_projectile_lifetime(p: Projectile, dt: int)
    requires
        p.wf(),
        p.displacement <= p.range,
        0 <= dt <= MAX_DT,
    ensures
        travel_advance(p, dt) >= 0,
        p.speed * dt >= SCALE ==> travel_advance(p, dt) >= 1,
        projectile_despawns(p, dt) <==> p.displacement + travel_advance(p, dt) > p.range,
{
    assert(p.speed * dt >= 0) by (nonlinear_arith)
        requires
            p.speed > 0,
            dt >= 0,
    ;
    vstd::arithmetic::div_mod::lemma_div_pos_is_pos(p.speed * dt, SCALE as int);
    if p.speed * dt >= SCALE {
        vstd::arithmetic::div_mod::lemma_div_is_ordered(SCALE as int, p.speed * dt, SCALE as int);
        vstd::arithmetic::div_mod::lemma_div_basics(SCALE as int);
    }
}

/// One entity a projectile may hit: its handle, its health, and whether
/// it is the player (whose own projectiles must not hurt it).
#[derive(Clone, Copy, Debug, PartialEq, Eq, Structural)]
pub struct Target {
    pub id: u64,
    pub health: Health,
    pub is_player: bool,
}

/// The state of one potential target after a projectile's hits land:
/// damaged exactly once if it is among the colliding entities and is
/// not the player, untouched otherwise.
pub open spec fn target_after_hit(p: Projectile, colliding: Seq<u64>, t: Target) -> Target {
    if colliding.contains(t.id) && !t.is_player {
        Target { health: Health((t.health.0 - p.damage) as i64), ..t }
    } else {
        t
    }
}

/// Whether a sequence of entity handles contains the given one.
pub fn contains_id(ids: &Vec<u64>, id: u64) -> (r: bool)
    ensures
        r == ids@.contains(id),
{
    let mut i: usize = 0;
    while i < ids.len()
        invariant
            0 <= i <= ids@.len(),
            forall|j: int| 0 <= j < i ==> ids@[j] != id,
        decreases ids@.len() - i,
    {
        if ids[i] == id {
            return true;
        }
        i = i + 1;
    }
    false
}

/// Resolves one projectile's collisions for this tick: every colliding
/// target that carries health and is not the player takes the
/// projectile's damage exactly once, and the projectile is despawned
/// the same tick it registered any contact at all.
pub fn projectile_collision(
    projectile: &Projectile,
    colliding: &Vec<u64>,
    targets: &mut Vec<Target>,
) -> (despawn: bool)
    requires
        projectile.wf(),
        forall|i: int|
            0 <= i < old(targets)@.len() ==> i64::MIN <= (#[trigger] old(targets)@[i]).health.0
                - projectile.damage,
    ensures
        final(targets)@.len() == old(targets)@.len(),
        forall|i: int|
            0 <= i < old(targets)@.len() ==> final(targets)@[i] == target_after_hit(
                *projectile,
                colliding@,
                #[trigger] old(targets)@[i],
            ),
        despawn == (colliding@.len() > 0),
{
    let mut i: usize = 0;
    while i < targets.len()
        invariant
            0 <= i <= targets@.len(),
            targets@.len() == old(targets)@.len(),
            projectile.wf(),
            forall|j: int|
                0 <= j < old(targets)@.len() ==> i64::MIN <= (#[trigger] old(targets)@[j]).health.0
                    - projectile.damage,
            forall|j: int|
                0 <= j < i ==> targets@[j] == target_after_hit(
                    *projectile,
                    colliding@,
                    #[trigger] old(targets)@[j],
                ),
            forall|j: int| i <= j < targets@.len() ==> targets@[j] == old(targets)@[j],
        decreases targets@.len() - i,
    {
        let t = targets[i];
        if !t.is_player && contains_id(colliding, t.id) {
            let hit = Target { health: Health(t.health.0 - projectile.damage), ..t };
            targets.set(i, hit);
        }
        i = i + 1;
    }
    colliding.len() > 0
}

/// Law of collision damage: a hit pair — a colliding target that is not
/// the player — has the projectile's damage subtracted exactly once
/// this tick, and the projectile that dealt it registers a non-empty
/// collision set this same tick, so it is despawned with the damage.
pub proof fn lemma_hit_damages_once_and_despawns(p: Projectile, colliding: Seq<u64>, t: Target)
    requires
        colliding.contains(t.id),
        !t.is_player,
        i64::MIN <= t.health.0 - p.damage <= i64::MAX,
    ensures
        target_after_hit(p, colliding, t).health.0 == t.health.0 - p.damage,
        target_after_hit(p, colliding, t).id == t.id,
        colliding.len() > 0,
{
}

} // verus!
