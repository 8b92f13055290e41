//! The player subsystem: movement and dash intents, the dash state
//! machine, aiming, attacking, collision damage and death.

use vstd::prelude::*;

use crate::consts::{
    Health, DEATH_THRESHOLD, PLAYER_DASH_COOLDOWN, PLAYER_DASH_DURATION, PLAYER_DASH_SPEED,
    PLAYER_MOVEMENT_SPEED, MAX_DT, PROJECTILE_SPAWN_OFFSET, SWARMLING_COLLISION_DAMAGE,
};
use crate::input::{PlayerAttackEvent, PlayerMovementEvent};
use crate::math::{clamped, tdiv, div_trunc, Transform2, V2, MAX_COORD, SCALE};
use crate::projectile::{contains_id, default_projectile, Projectile};

verus! {

/// Marker for the player entity.
pub struct Player {}

/// The player's dash state machine. While `is_dashing`, `elapsed` runs
/// from zero up to `duration` and the velocity follows an ease-out
/// curve along `direction`; while idle, `cooldown` counts down and a
/// new dash is honored only once it reaches zero.
#[derive(Clone, Copy, Debug, PartialEq, Eq, Structural)]
pub struct Dash {
    pub is_dashing: bool,
    pub direction: V2,
    pub duration: i64,
    pub elapsed: i64,
    pub cooldown: i64,
}

impl Dash {
    /// The dash state is internally consistent: the clock stays inside
    /// the dash's duration, the cooldown inside its full interval, and
    /// the latched direction is a unit-or-zero vector.
    pub open spec fn wf(self) -> bool {
        &&& 0 < self.duration <= 1_000_000_000
        &&& 0 <= self.elapsed <= self.duration
        &&& 0 <= self.cooldown <= PLAYER_DASH_COOLDOWN
        &&& self.direction.bounded(SCALE as int)
    }
}

impl Default for Dash {
    /// A fresh player is not dashing and must first wait out one full
    /// cooldown.
    fn default() -> (d: Dash)
        ensures
            d == (Dash {
                is_dashing: false,
                direction: V2 { x: 0, y: 0 },
                duration: PLAYER_DASH_DURATION,
                elapsed: 0,
                cooldown: PLAYER_DASH_COOLDOWN,
            }),
            d.wf(),
    {
        Dash {
            is_dashing: false,
            direction: V2 { x: 0, y: 0 },
            duration: PLAYER_DASH_DURATION,
            elapsed: 0,
            cooldown: PLAYER_DASH_COOLDOWN,
        }
    }
}

/// Damage events addressed to the player; the payload is the amount in
/// milli-points.
#[derive(Clone, Copy, Debug, PartialEq, Eq, Structural)]
pub enum PlayerDamageEvent {
    Collision(i64),
}

/// The one-shot notification that the player has died.
#[derive(Clone, Copy, Debug, PartialEq, Eq, Structural)]
pub enum PlayerDeathEvent {
    Death,
}

/// The walking velocity for a movement direction: the unit-or-zero
/// direction times the player's movement speed.
pub open spec fn walk_velocity(d: V2) -> V2 {
    V2 {
        x: tdiv(d.x * PLAYER_MOVEMENT_SPEED, SCALE as int) as i64,
        y: tdiv(d.y * PLAYER_MOVEMENT_SPEED, SCALE as int) as i64,
    }
}

/// The dash state after one dash request: rejected outright while the
/// cooldown still runs, otherwise the dash is latched with the
/// requested direction.
pub open spec fn dash_requested(dash: Dash, d: V2) -> Dash {
    if dash.cooldown <= 0 {
        Dash { is_dashing: true, direction: d, ..dash }
    } else {
        dash
    }
}

/// Velocity and dash state after one movement intent.
pub open spec fn move_step(e: PlayerMovementEvent, vel: V2, dash: Dash) -> (V2, Dash) {
    match e {
        PlayerMovementEvent::Move(d) => (walk_velocity(d), dash),
        PlayerMovementEvent::Dash(d) => (vel, dash_requested(dash, d)),
    }
}

/// Velocity and dash state after a whole tick's movement intents,
/// applied in order.
pub open spec fn move_fold(events: Seq<PlayerMovementEvent>, vel: V2, dash: Dash) -> (V2, Dash)
    decreases events.len(),
{
    if events.len() == 0 {
        (vel, dash)
    } else {
        let prior = move_fold(events.drop_last(), vel, dash);
        move_step(events.last(), prior.0, prior.1)
    }
}

/// The direction carried by a movement intent is a unit-or-zero vector.
pub open spec fn event_direction_ok(e: PlayerMovementEvent) -> bool {
    match e {
        PlayerMovementEvent::Move(d) => d.bounded(SCALE as int),
        PlayerMovementEvent::Dash(d) => d.bounded(SCALE as int),
    }
}

/// Requests a dash: honored, latching the direction, exactly when the
/// cooldown has run out; rejected with no state change otherwise.
pub fn dash_request(dash: &mut Dash, direction: V2) -> (accepted: bool)
    ensures
        *final(dash) == dash_requested(*old(dash), direction),
        accepted == (old(dash).cooldown <= 0),
        old(dash).cooldown > 0 ==> *final(dash) == *old(dash),
        old(dash).cooldown <= 0 ==> *final(dash) == (Dash {
            is_dashing: true,
            direction,
            ..*old(dash)
        }),
{
    if dash.cooldown <= 0 {
        dash.is_dashing = true;
        dash.direction = direction;
        true
    } else {
        false
    }
}

/// Applies the tick's movement intents to the player: each `Move` sets
/// the walking velocity from its direction, each `Dash` is a dash
/// request against the cooldown.
pub fn player_move(events: &Vec<PlayerMovementEvent>, velocity: &mut V2, dash: &mut Dash)
    requires
        old(dash).wf(),
        forall|i: int| 0 <= i < events@.len() ==> event_direction_ok(#[trigger] events@[i]),
    ensures
        (*final(velocity), *final(dash)) == move_fold(events@, *old(velocity), *old(dash)),
        final(dash).wf(),
        final(dash).duration == old(dash).duration,
{
    let mut i: usize = 0;
    while i < events.len()
        invariant
            0 <= i <= events@.len(),
            dash.wf(),
            dash.duration == old(dash).duration,
            (*velocity, *dash) == move_fold(events@.take(i as int), *old(velocity), *old(dash)),
            forall|j: int| 0 <= j < events@.len() ==> event_direction_ok(#[trigger] events@[j]),
        decreases events@.len() - i,
    {
        proof {
            assert(events@.take(i + 1int).drop_last() =~= events@.take(i as int));
            assert(events@.take(i + 1int).last() == events@[i as int]);
        }
        let e = events[i];
        match e {
            PlayerMovementEvent::Move(d) => {
                let vx: i64 = div_trunc(d.x * PLAYER_MOVEMENT_SPEED, SCALE);
                let vy: i64 = div_trunc(d.y * PLAYER_MOVEMENT_SPEED, SCALE);
                *velocity = V2 { x: vx, y: vy };
            },
            PlayerMovementEvent::Dash(d) => {
                dash_request(dash, d);
            },
        }
        i = i + 1;
    }
    proof {
        assert(events@.take(events@.len() as int) =~= events@);
    }
}

/// Progress of a dash through its duration, in fixed-point steps from
/// zero to one full scale.
pub open spec fn dash_progress(elapsed: int, duration: int) -> int {
    elapsed * SCALE / duration
}

/// The ease-out curve: rises from zero to one full scale with slope
/// falling linearly to zero, so dash motion leaves fast and settles
/// softly.
pub open spec fn ease_out(p: int) -> int {
    p * (2 * SCALE - p) / (SCALE as int)
}

/// The dash velocity sampled at `elapsed` into a dash of `duration`
/// along `direction`: the initial velocity `direction * dash_speed`,
/// eased out toward zero, which it reaches exactly at the end of the
/// dash.
pub open spec fn dash_velocity(direction: V2, elapsed: int, duration: int) -> V2 {
    let rem = SCALE - ease_out(dash_progress(elapsed, duration));
    V2 {
        x: tdiv(direction.x * PLAYER_DASH_SPEED * rem, SCALE * SCALE) as i64,
        y: tdiv(direction.y * PLAYER_DASH_SPEED * rem, SCALE * SCALE) as i64,
    }
}

/// Computes `dash_velocity` at the given point of a dash.
pub fn sample_dash_velocity(direction: V2, elapsed: i64, duration: i64) -> (v: V2)
    requires
        direction.bounded(SCALE as int),
        0 <= elapsed <= duration,
        0 < duration <= 1_000_000_000,
    ensures
        v == dash_velocity(direction, elapsed as int, duration as int),
{
    proof {
        assert(elapsed * SCALE <= duration * SCALE) by (nonlinear_arith)
            requires
                0 <= elapsed <= duration,
        ;
        assert(0 <= elapsed * SCALE <= 1_000_000_000_000) by (nonlinear_arith)
            requires
                0 <= elapsed <= 1_000_000_000,
        ;
        vstd::arithmetic::div_mod::lemma_div_pos_is_pos(elapsed * SCALE, duration as int);
        vstd::arithmetic::div_mod::lemma_div_is_ordered(
            elapsed * SCALE,
            duration * SCALE,
            duration as int,
        );
        vstd::arithmetic::div_mod::lemma_div_multiples_vanish(SCALE as int, duration as int);
    }
    let p: i64 = elapsed * SCALE / duration;
    proof {
        assert(0 <= p * (2 * SCALE - p) <= 1_000_000) by (nonlinear_arith)
            requires
                0 <= p <= 1000,
        ;
    }
    let e: i64 = p * (2 * SCALE - p) / SCALE;
    let rem: i64 = SCALE - e;
    proof {
        assert(-1_000_000_000_000 <= direction.x * PLAYER_DASH_SPEED * rem
            <= 1_000_000_000_000 && -1_000_000_000_000 <= direction.y * PLAYER_DASH_SPEED * rem
            <= 1_000_000_000_000) by (nonlinear_arith)
            requires
                -1000 <= direction.x <= 1000,
                -1000 <= direction.y <= 1000,
                0 <= rem <= 1000,
                PLAYER_DASH_SPEED == 1_000_000,
        ;
    }
    let vx: i64 = div_trunc(direction.x * PLAYER_DASH_SPEED * rem, SCALE * SCALE);
    let vy: i64 = div_trunc(direction.y * PLAYER_DASH_SPEED * rem, SCALE * SCALE);
    V2 { x: vx, y: vy }
}

/// Velocity, dash state and effect-reset request after one tick of the
/// dash state machine.
pub open spec fn dash_updated(vel: V2, dash: Dash, dt: int) -> (V2, Dash, bool) {
    if dash.is_dashing {
        if dash.elapsed + dt > dash.duration {
            (
                vel,
                Dash {
                    is_dashing: false,
                    direction: V2 { x: 0, y: 0 },
                    elapsed: 0,
                    cooldown: PLAYER_DASH_COOLDOWN,
                    duration: dash.duration,
                },
                true,
            )
        } else {
            (
                dash_velocity(dash.direction, dash.elapsed + dt, dash.duration as int),
                Dash { elapsed: (dash.elapsed + dt) as i64, ..dash },
                false,
            )
        }
    } else {
        (
            vel,
            Dash {
                cooldown: clamped(dash.cooldown - dt, 0, PLAYER_DASH_COOLDOWN as int) as i64,
                ..dash
            },
            false,
        )
    }
}

/// Advances the dash state machine by one tick. While dashing, the
/// clock runs and the velocity follows the ease-out curve; the tick
/// that would push the clock past the duration ends the dash, starts
/// the full cooldown and asks for the dash visual effect to be reset.
/// While idle, the cooldown counts down, clamped at zero.
pub fn player_dash(velocity: &mut V2, dash: &mut Dash, dt: i64) -> (effect_reset: bool)
    requires
        old(dash).wf(),
        0 <= dt <= MAX_DT,
    ensures
        final(dash).wf(),
        final(dash).duration == old(dash).duration,
        (*final(velocity), *final(dash), effect_reset) == dash_updated(
            *old(velocity),
            *old(dash),
            dt as int,
        ),
        (old(dash).is_dashing && old(dash).elapsed + dt > old(dash).duration) ==> (*final(dash)
            == (Dash {
            is_dashing: false,
            direction: V2 { x: 0, y: 0 },
            elapsed: 0,
            cooldown: PLAYER_DASH_COOLDOWN,
            duration: old(dash).duration,
        }) && *final(velocity) == *old(velocity) && effect_reset),
        (old(dash).is_dashing && old(dash).elapsed + dt <= old(dash).duration) ==> (*final(dash)
            == (Dash { elapsed: (old(dash).elapsed + dt) as i64, ..*old(dash) })
            && *final(velocity) == dash_velocity(
            old(dash).direction,
            old(dash).elapsed + dt,
            old(dash).duration as int,
        ) && !effect_reset),
        !old(dash).is_dashing ==> (*final(dash) == (Dash {
            cooldown: clamped(old(dash).cooldown - dt, 0, PLAYER_DASH_COOLDOWN as int) as i64,
            ..*old(dash)
        }) && *final(velocity) == *old(velocity) && !effect_reset),
{
    if dash.is_dashing {
        let new_elapsed: i64 = dash.elapsed + dt;
        if new_elapsed > dash.duration {
            dash.is_dashing = false;
            dash.direction = V2 { x: 0, y: 0 };
            dash.elapsed = 0;
            dash.cooldown = PLAYER_DASH_COOLDOWN;
            true
        } else {
            dash.elapsed = new_elapsed;
            *velocity = sample_dash_velocity(dash.direction, dash.elapsed, dash.duration);
            false
        }
    } else if dash.cooldown > 0 {
        let lowered: i64 = dash.cooldown - dt;
        dash.cooldown = crate::math::clamp(lowered, 0, PLAYER_DASH_COOLDOWN);
        false
    } else {
        false
    }
}

/// Law of the dash curve's endpoints: sampled at the moment a dash
/// starts, the velocity along a unit direction has magnitude exactly
/// the dash speed; sampled at the dash's full duration, the ease-out
/// curve has decayed to exactly zero.
pub proof fn lemma_dash_curve_endpoints(direction: V2, duration: int)
    requires
        direction.norm_sq() == SCALE * SCALE,
        0 < duration <= 1_000_000_000,
    ensures
        ({
            let v = dash_velocity(direction, 0, duration);
            v.norm_sq() == PLAYER_DASH_SPEED * PLAYER_DASH_SPEED && crate::math::sqrt_floor(
                v.norm_sq(),
            ) == PLAYER_DASH_SPEED
        }),
        dash_velocity(direction, duration, duration) == (V2 { x: 0, y: 0 }),
{
    vstd::arithmetic::div_mod::lemma_div_basics(duration);
    assert(0int * SCALE == 0) by (nonlinear_arith);
    assert(dash_progress(0, duration) == 0);
    assert(ease_out(0) == 0) by {
        assert(0int * (2 * SCALE - 0) == 0) by (nonlinear_arith);
        vstd::arithmetic::div_mod::lemma_div_basics(SCALE as int);
    }
    let x = direction.x as int;
    let y = direction.y as int;
    assert(x * PLAYER_DASH_SPEED * (SCALE as int) == (x * SCALE) * (PLAYER_DASH_SPEED as int))
        by (nonlinear_arith);
    assert(y * PLAYER_DASH_SPEED * (SCALE as int) == (y * SCALE) * (PLAYER_DASH_SPEED as int))
        by (nonlinear_arith);
    assert(SCALE * SCALE == PLAYER_DASH_SPEED as int);
    crate::math::lemma_tdiv_mul_exact(x * SCALE, PLAYER_DASH_SPEED as int);
    crate::math::lemma_tdiv_mul_exact(y * SCALE, PLAYER_DASH_SPEED as int);
    let v = dash_velocity(direction, 0, duration);
    assert(-1000 <= x <= 1000 && -1000 <= y <= 1000) by (nonlinear_arith)
        requires
            x * x + y * y == 1_000_000,
    ;
    assert(v.x == x * SCALE && v.y == y * SCALE);
    assert(v.norm_sq() == PLAYER_DASH_SPEED * PLAYER_DASH_SPEED) by (nonlinear_arith)
        requires
            v.x == x * SCALE,
            v.y == y * SCALE,
            x * x + y * y == SCALE * SCALE,
            SCALE == 1000,
            PLAYER_DASH_SPEED == 1_000_000,
    ;
    crate::math::lemma_sqrt_floor_square(PLAYER_DASH_SPEED as int);
    // At the far end: progress is one full scale, the ease-out curve has
    // risen fully, nothing of the initial velocity remains.
    vstd::arithmetic::div_mod::lemma_div_multiples_vanish(SCALE as int, duration);
    assert(dash_progress(duration, duration) == SCALE);
    assert(ease_out(SCALE as int) == SCALE) by {
        assert(1000int * (2000 - 1000) / 1000 == 1000);
    }
    assert(x * PLAYER_DASH_SPEED * 0 == 0) by (nonlinear_arith);
    assert(y * PLAYER_DASH_SPEED * 0 == 0) by (nonlinear_arith);
    vstd::arithmetic::div_mod::lemma_div_basics(SCALE * SCALE);
}

/// The heading the player aims along when the cursor projects to the
/// world position `cursor`: from the player's position toward the
/// cursor. A cursor exactly on the player leaves the aim at a rotation
/// of zero radians, the heading along positive x, as the angle of a
/// zero offset is zero.
pub open spec fn aim_heading(player_pos: V2, cursor: V2) -> V2 {
    if cursor == player_pos {
        V2 { x: SCALE, y: 0 }
    } else {
        V2 { x: (cursor.x - player_pos.x) as i64, y: (cursor.y - player_pos.y) as i64 }
    }
}

/// The transform after one aim pass: the position is kept and the
/// heading turns toward the cursor, when there is one.
pub open spec fn aimed(t: Transform2, cursor: Option<V2>) -> Transform2 {
    match cursor {
        None => t,
        Some(c) => Transform2 { pos: t.pos, heading: aim_heading(t.pos, c) },
    }
}

/// Points the player at the cursor's world position. With no cursor —
/// it left the window, or no camera could project it — the tick is
/// skipped and the transform kept; the absence is a valid transient
/// state, not an error.
pub fn player_aim(transform: &mut Transform2, cursor_world: Option<V2>)
    requires
        old(transform).wf(),
        cursor_world matches Some(c) ==> c.bounded(MAX_COORD as int),
    ensures
        final(transform).wf(),
        *final(transform) == aimed(*old(transform), cursor_world),
        final(transform).pos == old(transform).pos,
        cursor_world is None ==> *final(transform) == *old(transform),
        cursor_world matches Some(c) ==> final(transform).heading == aim_heading(
            old(transform).pos,
            c,
        ),
{
    match cursor_world {
        None => {},
        Some(c) => {
            let dx: i64 = c.x - transform.pos.x;
            let dy: i64 = c.y - transform.pos.y;
            if dx == 0 && dy == 0 {
                transform.heading = V2 { x: SCALE, y: 0 };
                proof {
                    assert(transform.heading.norm_sq() == 1_000_000) by (nonlinear_arith)
                        requires
                            transform.heading == (V2 { x: 1000i64, y: 0i64 }),
                    ;
                }
            } else {
                transform.heading = V2 { x: dx, y: dy };
                proof {
                    assert(dx * dx + dy * dy > 0) by (nonlinear_arith)
                        requires
                            dx != 0 || dy != 0,
                    ;
                }
            }
        },
    }
}

/// What the attack system spawns for one primary-fire intent.
#[derive(Clone, Copy, Debug, PartialEq, Eq, Structural)]
pub struct SpawnedProjectile {
    pub transform: Transform2,
    pub projectile: Projectile,
}

/// The projectile spawned for one primary-fire intent: placed one spawn
/// offset ahead of the player along the aim heading, facing that same
/// heading, with the default projectile parameters.
pub open spec fn spawned_projectile(player: Transform2) -> SpawnedProjectile {
    let offset = player.heading.scaled(PROJECTILE_SPAWN_OFFSET as int);
    SpawnedProjectile {
        transform: Transform2 {
            pos: V2 {
                x: (player.pos.x + offset.x) as i64,
                y: (player.pos.y + offset.y) as i64,
            },
            heading: player.heading,
        },
        projectile: default_projectile(),
    }
}

/// Spawns one projectile per primary-fire intent this tick, each ahead
/// of the player along the current aim.
pub fn player_attack(events: &Vec<PlayerAttackEvent>, player: &Transform2) -> (spawned: Vec<
    SpawnedProjectile,
>)
    requires
        player.wf(),
    ensures
        spawned@.len() == events@.len(),
        forall|i: int|
            0 <= i < spawned@.len() ==> #[trigger] spawned@[i] == spawned_projectile(*player),
        forall|i: int| 0 <= i < spawned@.len() ==> (#[trigger] spawned@[i]).projectile.wf(),
{
    let mut spawned: Vec<SpawnedProjectile> = Vec::new();
    let mut i: usize = 0;
    while i < events.len()
        invariant
            0 <= i <= events@.len(),
            player.wf(),
            spawned@.len() == i,
            forall|j: int|
                0 <= j < spawned@.len() ==> #[trigger] spawned@[j] == spawned_projectile(*player),
            forall|j: int|
                0 <= j < spawned@.len() ==> (#[trigger] spawned@[j]).projectile.wf(),
        decreases events@.len() - i,
    {
        let e = events[i];
        match e {
            PlayerAttackEvent::PrimaryFire => {
                let offset = player.heading.scale_to_len(PROJECTILE_SPAWN_OFFSET);
                proof {
                    crate::math::lemma_scaled_bounded(
                        player.heading,
                        PROJECTILE_SPAWN_OFFSET as int,
                    );
                }
                let pos = player.pos.plus(offset);
                let fresh = SpawnedProjectile {
                    transform: Transform2 { pos, heading: player.heading },
                    projectile: Projectile::default(),
                };
                spawned.push(fresh);
            },
        }
        i = i + 1;
    }
    spawned
}

/// How many of the currently colliding entities are swarm agents; each
/// deals one fixed hit of collision damage this tick.
pub open spec fn count_swarm_contacts(colliding: Seq<u64>, swarmlings: Seq<u64>) -> int
    decreases colliding.len(),
{
    if colliding.len() == 0 {
        0
    } else {
        count_swarm_contacts(colliding.drop_last(), swarmlings) + (if swarmlings.contains(
            colliding.last(),
        ) {
            1int
        } else {
            0int
        })
    }
}

/// The damage events one tick of player contact produces: one fixed
/// collision hit per touching swarm agent.
pub open spec fn collision_events(colliding: Seq<u64>, swarmlings: Seq<u64>) -> Seq<
    PlayerDamageEvent,
> {
    Seq::new(
        count_swarm_contacts(colliding, swarmlings) as nat,
        |i: int| PlayerDamageEvent::Collision(SWARMLING_COLLISION_DAMAGE),
    )
}

/// Emits one collision-damage event per swarm agent currently touching
/// the player — once per colliding pair per tick; sustained contact
/// hits again on each following tick.
pub fn player_collision(colliding: &Vec<u64>, swarmling_ids: &Vec<u64>) -> (events: Vec<
    PlayerDamageEvent,
>)
    ensures
        events@.len() == count_swarm_contacts(colliding@, swarmling_ids@),
        forall|i: int|
            0 <= i < events@.len() ==> events@[i] == PlayerDamageEvent::Collision(
                SWARMLING_COLLISION_DAMAGE,
            ),
        events@ == collision_events(colliding@, swarmling_ids@),
{
    let mut events: Vec<PlayerDamageEvent> = Vec::new();
    let mut i: usize = 0;
    while i < colliding.len()
        invariant
            0 <= i <= colliding@.len(),
            events@.len() == count_swarm_contacts(colliding@.take(i as int), swarmling_ids@),
            forall|j: int|
                0 <= j < events@.len() ==> events@[j] == PlayerDamageEvent::Collision(
                    SWARMLING_COLLISION_DAMAGE,
                ),
        decreases colliding@.len() - i,
    {
        proof {
            assert(colliding@.take(i + 1int).drop_last() =~= colliding@.take(i as int));
            assert(colliding@.take(i + 1int).last() == colliding@[i as int]);
        }
        if contains_id(swarmling_ids, colliding[i]) {
            events.push(PlayerDamageEvent::Collision(SWARMLING_COLLISION_DAMAGE));
        }
        i = i + 1;
    }
    proof {
        assert(colliding@.take(colliding@.len() as int) =~= colliding@);
        lemma_count_swarm_contacts_nonneg(colliding@, swarmling_ids@);
        assert(events@ =~= collision_events(colliding@, swarmling_ids@));
    }
    events
}

/// Contact counts are never negative.
proof fn lemma_count_swarm_contacts_nonneg(colliding: Seq<u64>, swarmlings: Seq<u64>)
    ensures
        0 <= count_swarm_contacts(colliding, swarmlings) <= colliding.len(),
    decreases colliding.len(),
{
    if colliding.len() > 0 {
        lemma_count_swarm_contacts_nonneg(colliding.drop_last(), swarmlings);
    }
}

/// The amount of damage an event carries, in milli-points.
pub open spec fn damage_amount(e: PlayerDamageEvent) -> int {
    match e {
        PlayerDamageEvent::Collision(a) => a as int,
    }
}

/// The total damage a tick's events carry.
pub open spec fn total_damage(events: Seq<PlayerDamageEvent>) -> int
    decreases events.len(),
{
    if events.len() == 0 {
        0
    } else {
        total_damage(events.drop_last()) + damage_amount(events.last())
    }
}

/// Whether a damage batch of total `total` kills an entity at health
/// `h`: the death event fires exactly when health crosses the death
/// threshold downward within this batch.
pub open spec fn death_fires(h: int, total: int) -> bool {
    h > DEATH_THRESHOLD && h - total <= DEATH_THRESHOLD
}

/// A batch of non-negative damage events has a non-negative total.
proof fn lemma_total_damage_nonneg(events: Seq<PlayerDamageEvent>)
    requires
        forall|j: int| 0 <= j < events.len() ==> damage_amount(#[trigger] events[j]) >= 0,
    ensures
        total_damage(events) >= 0,
    decreases events.len(),
{
    if events.len() > 0 {
        assert(events.last() == events[events.len() - 1]);
        assert(forall|j: int|
            0 <= j < events.drop_last().len() ==> damage_amount(#[trigger] events.drop_last()[j])
                >= 0);
        lemma_total_damage_nonneg(events.drop_last());
    }
}

/// The total of any prefix of a batch of non-negative damage events
/// lies between zero and the total of the whole batch.
proof fn lemma_total_damage_prefix(events: Seq<PlayerDamageEvent>, i: int)
    requires
        0 <= i <= events.len(),
        forall|j: int| 0 <= j < events.len() ==> damage_amount(#[trigger] events[j]) >= 0,
    ensures
        0 <= total_damage(events.take(i)),
        total_damage(events.take(i)) <= total_damage(events),
    decreases events.len() - i,
{
    assert(forall|j: int|
        0 <= j < events.take(i).len() ==> damage_amount(#[trigger] events.take(i)[j]) >= 0);
    lemma_total_damage_nonneg(events.take(i));
    if i == events.len() {
        assert(events.take(i) =~= events);
    } else {
        lemma_total_damage_prefix(events, i + 1);
        assert(events.take(i + 1).drop_last() =~= events.take(i));
        assert(events.take(i + 1).last() == events[i]);
    }
}

/// Applies the tick's damage events to the player's health in order and
/// emits the death event exactly once, on the event with which health
/// first reaches the death threshold; an entity already at or below the
/// threshold fires no further death event.
pub fn player_take_damage(events: &Vec<PlayerDamageEvent>, health: &mut Health) -> (deaths: Vec<
    PlayerDeathEvent,
>)
    requires
        forall|i: int| 0 <= i < events@.len() ==> damage_amount(#[trigger] events@[i]) >= 0,
        old(health).0 - total_damage(events@) >= i64::MIN,
    ensures
        final(health).0 == old(health).0 - total_damage(events@),
        deaths@.len() == (if death_fires(old(health).0 as int, total_damage(events@)) {
            1int
        } else {
            0int
        }),
        forall|i: int| 0 <= i < deaths@.len() ==> deaths@[i] == PlayerDeathEvent::Death,
{
    let mut deaths: Vec<PlayerDeathEvent> = Vec::new();
    let mut i: usize = 0;
    while i < events.len()
        invariant
            0 <= i <= events@.len(),
            forall|j: int| 0 <= j < events@.len() ==> damage_amount(#[trigger] events@[j]) >= 0,
            old(health).0 - total_damage(events@) >= i64::MIN,
            health.0 == old(health).0 - total_damage(events@.take(i as int)),
            deaths@.len() == (if death_fires(
                old(health).0 as int,
                total_damage(events@.take(i as int)),
            ) {
                1int
            } else {
                0int
            }),
            forall|j: int| 0 <= j < deaths@.len() ==> deaths@[j] == PlayerDeathEvent::Death,
        decreases events@.len() - i,
    {
        proof {
            assert(events@.take(i + 1int).drop_last() =~= events@.take(i as int));
            assert(events@.take(i + 1int).last() == events@[i as int]);
            lemma_total_damage_prefix(events@, i as int);
            lemma_total_damage_prefix(events@, i + 1int);
        }
        let e = events[i];
        match e {
            PlayerDamageEvent::Collision(amount) => {
                let prev: i64 = health.0;
                *health = Health(prev - amount);
                if prev > DEATH_THRESHOLD && health.0 <= DEATH_THRESHOLD {
                    deaths.push(PlayerDeathEvent::Death);
                }
            },
        }
        i = i + 1;
    }
    proof {
        assert(events@.take(events@.len() as int) =~= events@);
    }
    deaths
}

/// Law of the one-shot death event: a batch that reaches an entity
/// already at or below the death threshold fires no death event, and
/// across two consecutive damage batches the event cannot fire twice —
/// it fires exactly on the batch in which health first crosses the
/// threshold.
pub proof fn lemma_death_fires_once(h: int, t1: int, t2: int)
    requires
        t1 >= 0,
        t2 >= 0,
    ensures
        h <= DEATH_THRESHOLD ==> !death_fires(h, t1),
        death_fires(h, t1) ==> !death_fires(h - t1, t2),
        (h > DEATH_THRESHOLD && h - t1 <= DEATH_THRESHOLD) <==> death_fires(h, t1),
{
}

/// The terminal notification hook: reports whether the player died this
/// tick. Game-over handling past this point belongs to an external
/// collaborator; no further player input is meaningful.
pub fn player_death(events: &Vec<PlayerDeathEvent>) -> (game_over: bool)
    ensures
        game_over == (events@.len() > 0),
{
    events.len() > 0
}

} // verus!
