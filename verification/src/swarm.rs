//! The swarm subsystem: timed spawning of swarm agents, their
//! per-agent behavior state machine, noise-driven wander steering, and
//! death cleanup.

use vstd::prelude::*;

use crate::consts::{
    Health, DEATH_THRESHOLD, MAX_DT, SWARMLING_LAUNCH_SPEED, SWARMLING_SPEED,
};
use crate::math::{tdiv, div_trunc, Transform2, V2, MAX_COORD, SCALE};

verus! {

/// Vertical distance above its spawner at which a fresh agent appears
/// (55 units).
pub const SWARMLING_SPAWN_OFFSET: i64 = 55_000;

/// The active mode of a swarm agent's finite state machine, governing
/// its steering law.
#[derive(Clone, Copy, Debug, PartialEq, Eq, Structural)]
pub enum BehaviorState {
    Wander,
    Flee,
    Attack,
}

impl Default for BehaviorState {
    /// Agents start out wandering.
    fn default() -> (s: BehaviorState)
        ensures
            s == BehaviorState::Wander,
    {
        BehaviorState::Wander
    }
}

/// A swarm agent: its behavior state and the seed of its private
/// coherent-noise field. The noise collaborator evaluates the field
/// from this seed; the core keeps only the seed, so each agent's
/// wandering path is its own.
#[derive(Clone, Copy, Debug, PartialEq, Eq, Structural)]
pub struct Swarmling {
    pub state: BehaviorState,
    pub seed: i32,
}

impl Swarmling {
    /// A fresh agent with an explicitly chosen noise seed: it wanders.
    pub fn new(seed: i32) -> (s: Swarmling)
        ensures
            s == (Swarmling { state: BehaviorState::Wander, seed }),
    {
        Swarmling { state: BehaviorState::Wander, seed }
    }
}

/// Relies on `fastrand::i32`: returns a value inside the given range,
/// and panics only when the range is empty (this one never is).
#[verifier::external_body]
fn draw_noise_seed() -> (r: i32)
    ensures
        0 <= r < 100_000,
{
    fastrand::i32(0..100_000)
}

impl Default for Swarmling {
    /// A fresh agent with a noise seed drawn from the process-wide
    /// random source: it wanders, along a path of its own.
    fn default() -> (s: Swarmling)
        ensures
            s.state == BehaviorState::Wander,
            0 <= s.seed < 100_000,
    {
        Swarmling { state: BehaviorState::Wander, seed: draw_noise_seed() }
    }
}

/// A repeating countdown: `elapsed` runs from zero toward `duration`,
/// wraps on completion, and reports each completion.
#[derive(Clone, Copy, Debug, PartialEq, Eq, Structural)]
pub struct RepeatingTimer {
    pub duration: i64,
    pub elapsed: i64,
}

/// Whether advancing the timer by `dt` completes it (at least once).
pub open spec fn timer_fires(t: RepeatingTimer, dt: int) -> bool {
    t.elapsed + dt >= t.duration
}

/// The timer after one tick: the clock advances by `dt` and wraps by
/// whole periods.
pub open spec fn timer_ticked(t: RepeatingTimer, dt: int) -> RepeatingTimer {
    RepeatingTimer { duration: t.duration, elapsed: ((t.elapsed + dt) % (t.duration as int)) as i64 }
}

impl RepeatingTimer {
    /// The clock sits strictly inside one positive period.
    pub open spec fn wf(self) -> bool {
        &&& 0 < self.duration <= 1_000_000_000
        &&& 0 <= self.elapsed < self.duration
    }

    /// Advances the timer, reporting whether it completed this tick.
    pub fn tick(&mut self, dt: i64) -> (fired: bool)
        requires
            old(self).wf(),
            0 <= dt <= MAX_DT,
        ensures
            final(self).wf(),
            *final(self) == timer_ticked(*old(self), dt as int),
            fired == timer_fires(*old(self), dt as int),
    {
        let total: i64 = self.elapsed + dt;
        if total >= self.duration {
            proof {
                vstd::arithmetic::div_mod::lemma_mod_bound(total as int, self.duration as int);
            }
            self.elapsed = total % self.duration;
            true
        } else {
            proof {
                vstd::arithmetic::div_mod::lemma_small_mod(total as nat, self.duration as nat);
            }
            self.elapsed = total;
            false
        }
    }
}

/// A structure that breeds swarm agents on a repeating timer.
#[derive(Clone, Copy, Debug, PartialEq, Eq, Structural)]
pub struct SwarmSpawner {
    pub spawn_timer: RepeatingTimer,
}

/// A spawner together with where it stands in the world.
#[derive(Clone, Copy, Debug, PartialEq, Eq, Structural)]
pub struct SpawnerSite {
    pub spawner: SwarmSpawner,
    pub position: V2,
}

impl SpawnerSite {
    /// The timer is consistent and the spawner stands in the world.
    pub open spec fn wf(self) -> bool {
        &&& self.spawner.spawn_timer.wf()
        &&& self.position.bounded(MAX_COORD as int)
    }
}

/// Everything needed to create one swarm agent: where it hatches, the
/// upward launch impulse it hatches with, and its initial state.
#[derive(Clone, Copy, Debug, PartialEq, Eq, Structural)]
pub struct SpawnOrder {
    pub position: V2,
    pub impulse: V2,
    pub swarmling: Swarmling,
}

/// A spawn order fits a site when the agent hatches one spawn offset
/// above the spawner, is launched straight up, and starts wandering
/// with a freshly drawn seed.
pub open spec fn order_fits(site: SpawnerSite, o: SpawnOrder) -> bool {
    &&& o.position == (V2 {
        x: site.position.x,
        y: (site.position.y + SWARMLING_SPAWN_OFFSET) as i64,
    })
    &&& o.impulse == (V2 { x: 0, y: SWARMLING_LAUNCH_SPEED })
    &&& o.swarmling.state == BehaviorState::Wander
    &&& 0 <= o.swarmling.seed < 100_000
}

/// The spawn orders correspond one-to-one, in order, to exactly the
/// sites whose timers complete this tick.
pub open spec fn orders_match(sites: Seq<SpawnerSite>, orders: Seq<SpawnOrder>, dt: int) -> bool
    decreases sites.len(),
{
    if sites.len() == 0 {
        orders.len() == 0
    } else if timer_fires(sites.last().spawner.spawn_timer, dt) {
        &&& orders.len() > 0
        &&& order_fits(sites.last(), orders.last())
        &&& orders_match(sites.drop_last(), orders.drop_last(), dt)
    } else {
        orders_match(sites.drop_last(), orders, dt)
    }
}

/// Advances every spawner's timer by the tick delta and issues one
/// spawn order per spawner whose timer completed: the agent hatches
/// just above its spawner with an upward launch impulse. No spawner's
/// outcome can keep another from being processed.
pub fn swarmling_spawn(sites: &mut Vec<SpawnerSite>, dt: i64) -> (orders: Vec<SpawnOrder>)
    requires
        forall|i: int| 0 <= i < old(sites)@.len() ==> (#[trigger] old(sites)@[i]).wf(),
        0 <= dt <= MAX_DT,
    ensures
        final(sites)@.len() == old(sites)@.len(),
        forall|i: int|
            0 <= i < old(sites)@.len() ==> #[trigger] final(sites)@[i] == (SpawnerSite {
                spawner: SwarmSpawner {
                    spawn_timer: timer_ticked(old(sites)@[i].spawner.spawn_timer, dt as int),
                },
                position: old(sites)@[i].position,
            }),
        forall|i: int| 0 <= i < final(sites)@.len() ==> (#[trigger] final(sites)@[i]).wf(),
        orders_match(old(sites)@, orders@, dt as int),
{
    let mut orders: Vec<SpawnOrder> = Vec::new();
    let mut i: usize = 0;
    while i < sites.len()
        invariant
            0 <= i <= sites@.len(),
            sites@.len() == old(sites)@.len(),
            0 <= dt <= MAX_DT,
            forall|j: int| 0 <= j < old(sites)@.len() ==> (#[trigger] old(sites)@[j]).wf(),
            forall|j: int|
                0 <= j < i ==> #[trigger] sites@[j] == (SpawnerSite {
                    spawner: SwarmSpawner {
                        spawn_timer: timer_ticked(old(sites)@[j].spawner.spawn_timer, dt as int),
                    },
                    position: old(sites)@[j].position,
                }),
            forall|j: int| 0 <= j < i ==> (#[trigger] sites@[j]).wf(),
            forall|j: int| i <= j < sites@.len() ==> sites@[j] == old(sites)@[j],
            orders_match(old(sites)@.take(i as int), orders@, dt as int),
        decreases sites@.len() - i,
    {
        proof {
            assert(old(sites)@.take(i + 1int).drop_last() =~= old(sites)@.take(i as int));
            assert(old(sites)@.take(i + 1int).last() == old(sites)@[i as int]);
        }
        let site = sites[i];
        let mut timer = site.spawner.spawn_timer;
        let fired = timer.tick(dt);
        let updated = SpawnerSite { spawner: SwarmSpawner { spawn_timer: timer }, ..site };
        sites.set(i, updated);
        if fired {
            let hatchling = Swarmling::default();
            let order = SpawnOrder {
                position: V2 { x: site.position.x, y: site.position.y + SWARMLING_SPAWN_OFFSET },
                impulse: V2 { x: 0, y: SWARMLING_LAUNCH_SPEED },
                swarmling: hatchling,
            };
            let ghost orders_before = orders@;
            orders.push(order);
            proof {
                assert(orders@.last() == order);
                assert(orders@.drop_last() =~= orders_before);
            }
        }
        i = i + 1;
    }
    proof {
        assert(old(sites)@.take(old(sites)@.len() as int) =~= old(sites)@);
    }
    orders
}

/// The impulse wander steering adds this tick: the agent's noise field,
/// sampled by the noise collaborator at the current time, scaled by the
/// swarm speed.
pub open spec fn wander_impulse_delta(sample: V2) -> V2 {
    V2 {
        x: tdiv(sample.x * SWARMLING_SPEED, SCALE as int) as i64,
        y: tdiv(sample.y * SWARMLING_SPEED, SCALE as int) as i64,
    }
}

/// A swarm agent together with the physics impulse accumulator it
/// steers through.
#[derive(Clone, Copy, Debug, PartialEq, Eq, Structural)]
pub struct SwarmAgent {
    pub impulse: V2,
    pub swarmling: Swarmling,
}

/// One agent after one steering tick. Steering happens only while a
/// player is present; a wandering agent adds its noise-driven impulse,
/// while the flee and attack steering laws are an open extension point
/// and currently apply none.
pub open spec fn steered(agent: SwarmAgent, sample: V2, player_present: bool) -> SwarmAgent {
    if player_present && agent.swarmling.state == BehaviorState::Wander {
        SwarmAgent {
            impulse: V2 {
                x: (agent.impulse.x + wander_impulse_delta(sample).x) as i64,
                y: (agent.impulse.y + wander_impulse_delta(sample).y) as i64,
            },
            ..agent
        }
    } else {
        agent
    }
}

/// Steers every swarm agent for one tick from its own noise sample:
/// wandering agents push their impulse along the sampled direction;
/// fleeing and attacking agents are left to the extension point; and
/// without a player present nothing steers. No agent's outcome can keep
/// another from being processed.
pub fn swarmling_move(agents: &mut Vec<SwarmAgent>, samples: &Vec<V2>, player_present: bool)
    requires
        samples@.len() == old(agents)@.len(),
        forall|i: int| 0 <= i < samples@.len() ==> (#[trigger] samples@[i]).bounded(SCALE as int),
        forall|i: int|
            0 <= i < old(agents)@.len() ==> (#[trigger] old(agents)@[i]).impulse.bounded(
                4_000_000_000_000_000_000,
            ),
    ensures
        final(agents)@.len() == old(agents)@.len(),
        forall|i: int|
            0 <= i < old(agents)@.len() ==> #[trigger] final(agents)@[i] == steered(
                old(agents)@[i],
                samples@[i],
                player_present,
            ),
{
    if !player_present {
        return ;
    }
    let mut i: usize = 0;
    while i < agents.len()
        invariant
            player_present,
            0 <= i <= agents@.len(),
            agents@.len() == old(agents)@.len(),
            samples@.len() == old(agents)@.len(),
            forall|j: int|
                0 <= j < samples@.len() ==> (#[trigger] samples@[j]).bounded(SCALE as int),
            forall|j: int|
                0 <= j < old(agents)@.len() ==> (#[trigger] old(agents)@[j]).impulse.bounded(
                    4_000_000_000_000_000_000,
                ),
            forall|j: int|
                0 <= j < i ==> #[trigger] agents@[j] == steered(
                    old(agents)@[j],
                    samples@[j],
                    player_present,
                ),
            forall|j: int| i <= j < agents@.len() ==> agents@[j] == old(agents)@[j],
        decreases agents@.len() - i,
    {
        let agent = agents[i];
        match agent.swarmling.state {
            BehaviorState::Wander => {
                let sample = samples[i];
                let dx: i64 = div_trunc(sample.x * SWARMLING_SPEED, SCALE);
                let dy: i64 = div_trunc(sample.y * SWARMLING_SPEED, SCALE);
                proof {
                    crate::math::lemma_tdiv_within(
                        sample.x * SWARMLING_SPEED,
                        SCALE as int,
                        50_000_000,
                    );
                    crate::math::lemma_tdiv_within(
                        sample.y * SWARMLING_SPEED,
                        SCALE as int,
                        50_000_000,
                    );
                }
                let pushed = SwarmAgent {
                    impulse: V2 { x: agent.impulse.x + dx, y: agent.impulse.y + dy },
                    ..agent
                };
                agents.set(i, pushed);
            },
            BehaviorState::Flee => {},
            BehaviorState::Attack => {},
        }
        i = i + 1;
    }
}

/// The behavior-transition hook, run for an agent whose health just
/// changed: meant to move agents between wandering, fleeing and
/// attacking from health or player proximity. The transition policy is
/// an open design question, so this is an explicit extension point that
/// leaves every agent's state unchanged.
pub fn swarmling_behavior_control(swarmling: &mut Swarmling, player: &Transform2)
    ensures
        *final(swarmling) == *old(swarmling),
{
}

/// Checks an agent whose health just changed: at or below the death
/// threshold it is marked dead — the caller despawns it and triggers
/// the death visual effect at its position.
pub fn swarmling_death(health: &Health) -> (dead: bool)
    ensures
        dead == (health.0 <= DEATH_THRESHOLD),
{
    health.0 <= DEATH_THRESHOLD
}

} // verus!
