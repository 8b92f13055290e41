//! The fixed-rate player pipeline: one simulation tick's ordered,
//! causally dependent sub-steps — aim before attack, movement before
//! dash sampling, contact damage before death resolution — composed
//! into a single update whose contract states each stage's result over
//! the stage functions' own specifications.

use vstd::prelude::*;

use crate::consts::{Health, MAX_DT, SWARMLING_COLLISION_DAMAGE};
use crate::input::{PlayerAttackEvent, PlayerMovementEvent};
use crate::math::{Transform2, V2, MAX_COORD};
use crate::player::{
    aimed, collision_events, count_swarm_contacts, dash_updated, death_fires, event_direction_ok,
    move_fold, player_aim, player_attack, player_collision, player_dash, player_death, player_move,
    player_take_damage, spawned_projectile, total_damage, Dash, PlayerDamageEvent,
    PlayerDeathEvent, SpawnedProjectile,
};
use crate::projectile::{
    projectile_collision, projectile_move, target_after_hit, travel_advance, Projectile, Target,
};

verus! {

/// Everything of the player the fixed-rate stage reads and writes.
#[derive(Clone, Copy, Debug, PartialEq, Eq, Structural)]
pub struct PlayerState {
    pub transform: Transform2,
    pub velocity: V2,
    pub dash: Dash,
    pub health: Health,
}

impl PlayerState {
    /// The transform and the dash state machine are internally
    /// consistent.
    pub open spec fn wf(self) -> bool {
        &&& self.transform.wf()
        &&& self.dash.wf()
    }
}

/// What one player tick hands back to the outer world: projectiles to
/// create, a dash-effect reset request, and the tick's damage and death
/// events.
pub struct PlayerTickOutcome {
    pub spawned: Vec<SpawnedProjectile>,
    pub effect_reset: bool,
    pub damage: Vec<PlayerDamageEvent>,
    pub deaths: Vec<PlayerDeathEvent>,
    pub game_over: bool,
}

/// A batch of identical collision hits totals one hit times its count.
proof fn lemma_uniform_damage_total(n: int, d: i64)
    requires
        n >= 0,
    ensures
        total_damage(Seq::new(n as nat, |i: int| PlayerDamageEvent::Collision(d))) == n * d,
    decreases n,
{
    let s = Seq::new(n as nat, |i: int| PlayerDamageEvent::Collision(d));
    if n == 0 {
        assert(n * d == 0) by (nonlinear_arith)
            requires
                n == 0,
        ;
    } else {
        lemma_uniform_damage_total(n - 1, d);
        assert(s.drop_last() =~= Seq::new((n - 1) as nat, |i: int| PlayerDamageEvent::Collision(d)));
        assert(s.last() == PlayerDamageEvent::Collision(d));
        assert((n - 1) * d + d == n * d) by (nonlinear_arith);
    }
}

/// Runs the player's share of one fixed simulation tick, in pipeline
/// order: aim at the cursor, apply movement and dash intents, advance
/// the dash state machine, spawn projectiles for the attack intents
/// (along the aim taken this same tick), turn swarm-agent contacts into
/// damage, apply that damage, and resolve death last — so the death
/// event fires, at most once, only after every hit of the tick has
/// landed. Stages later in the tick see exactly the state the earlier
/// stages wrote. The projectile and swarm stages run between the attack
/// and the contact stage; they never write player state, so the outer
/// world runs them in between and passes the contact sets sampled
/// there.
pub fn player_fixed_update(
    state: &mut PlayerState,
    cursor_world: Option<V2>,
    movement: &Vec<PlayerMovementEvent>,
    attacks: &Vec<PlayerAttackEvent>,
    colliding: &Vec<u64>,
    swarmling_ids: &Vec<u64>,
    dt: i64,
) -> (out: PlayerTickOutcome)
    requires
        old(state).wf(),
        cursor_world matches Some(c) ==> c.bounded(MAX_COORD as int),
        forall|i: int| 0 <= i < movement@.len() ==> event_direction_ok(#[trigger] movement@[i]),
        0 <= dt <= MAX_DT,
        old(state).health.0 - count_swarm_contacts(colliding@, swarmling_ids@) * (
        SWARMLING_COLLISION_DAMAGE as int) >= i64::MIN,
    ensures
        final(state).wf(),
        ({
            let hits = count_swarm_contacts(colliding@, swarmling_ids@) * (
            SWARMLING_COLLISION_DAMAGE as int);
            let t1 = aimed(old(state).transform, cursor_world);
            let moved = move_fold(movement@, old(state).velocity, old(state).dash);
            let dashed = dash_updated(moved.0, moved.1, dt as int);
            &&& final(state).transform == t1
            &&& final(state).velocity == dashed.0
            &&& final(state).dash == dashed.1
            &&& out.effect_reset == dashed.2
            &&& out.spawned@.len() == attacks@.len()
            &&& (forall|i: int|
                0 <= i < out.spawned@.len() ==> #[trigger] out.spawned@[i] == spawned_projectile(
                    t1,
                ))
            &&& out.damage@ == collision_events(colliding@, swarmling_ids@)
            &&& final(state).health.0 == old(state).health.0 - hits
            &&& out.deaths@.len() == (if death_fires(old(state).health.0 as int, hits) {
                1int
            } else {
                0int
            })
            &&& out.game_over == death_fires(old(state).health.0 as int, hits)
        }),
{
    let mut transform = state.transform;
    player_aim(&mut transform, cursor_world);
    state.transform = transform;

    let mut velocity = state.velocity;
    let mut dash = state.dash;
    player_move(movement, &mut velocity, &mut dash);
    let effect_reset = player_dash(&mut velocity, &mut dash, dt);
    state.velocity = velocity;
    state.dash = dash;

    let spawned = player_attack(attacks, &state.transform);

    let damage = player_collision(colliding, swarmling_ids);
    proof {
        lemma_uniform_damage_total(
            count_swarm_contacts(colliding@, swarmling_ids@),
            SWARMLING_COLLISION_DAMAGE,
        );
    }
    let mut health = state.health;
    let deaths = player_take_damage(&damage, &mut health);
    state.health = health;
    let game_over = player_death(&deaths);

    PlayerTickOutcome { spawned, effect_reset, damage, deaths, game_over }
}

/// One projectile in flight, as the fixed stage sees it: where it is
/// and faces, the velocity it hands the physics collaborator, and its
/// own state.
#[derive(Clone, Copy, Debug, PartialEq, Eq, Structural)]
pub struct ProjectileBody {
    pub transform: Transform2,
    pub velocity: V2,
    pub projectile: Projectile,
}

impl ProjectileBody {
    /// The transform is usable, the state within machine bounds, and
    /// the projectile still live: its displacement within its range.
    pub open spec fn wf(self) -> bool {
        &&& self.transform.wf()
        &&& self.projectile.wf()
        &&& self.projectile.displacement <= self.projectile.range
    }
}

/// The projectile after its travel this tick.
pub open spec fn moved_projectile(p: Projectile, dt: int) -> Projectile {
    Projectile { displacement: (p.displacement + travel_advance(p, dt)) as i64, ..p }
}

/// The contacts a projectile still resolves this tick: none when its
/// travel already carried it past its range — it fizzled before the
/// contact stage — and its sampled contact set otherwise.
pub open spec fn effective_contacts(p: Projectile, contacts: Seq<u64>, dt: int) -> Seq<u64> {
    if moved_projectile(p, dt).displacement > p.range {
        Seq::empty()
    } else {
        contacts
    }
}

/// A target after a whole volley: every projectile's effective contacts
/// are resolved against it in order, each hit landing exactly once.
pub open spec fn target_after_volley(
    bodies: Seq<ProjectileBody>,
    contacts: Seq<Vec<u64>>,
    dt: int,
    t: Target,
) -> Target
    decreases bodies.len(),
{
    if bodies.len() == 0 {
        t
    } else {
        target_after_hit(
            bodies.last().projectile,
            effective_contacts(bodies.last().projectile, contacts.last()@, dt),
            target_after_volley(bodies.drop_last(), contacts.drop_last(), dt, t),
        )
    }
}

/// The damage a whole volley could deal one target at most: the sum of
/// the projectiles' damage values.
pub open spec fn total_volley_damage(bodies: Seq<ProjectileBody>) -> int
    decreases bodies.len(),
{
    if bodies.len() == 0 {
        0
    } else {
        total_volley_damage(bodies.drop_last()) + bodies.last().projectile.damage
    }
}

/// Prefixes of a volley of well-formed projectiles deal between none
/// and the whole volley's damage.
proof fn lemma_volley_damage_prefix(bodies: Seq<ProjectileBody>, i: int)
    requires
        0 <= i <= bodies.len(),
        forall|j: int| 0 <= j < bodies.len() ==> (#[trigger] bodies[j]).wf(),
    ensures
        0 <= total_volley_damage(bodies.take(i)),
        total_volley_damage(bodies.take(i)) <= total_volley_damage(bodies),
    decreases bodies.len() - i,
{
    assert forall|j: int| 0 <= j < bodies.take(i).len() implies (#[trigger] bodies.take(
        i,
    )[j]).wf() by {
        assert(bodies.take(i)[j] == bodies[j]);
    }
    lemma_volley_damage_nonneg(bodies.take(i));
    if i == bodies.len() {
        assert(bodies.take(i) =~= bodies);
    } else {
        lemma_volley_damage_prefix(bodies, i + 1);
        assert(bodies.take(i + 1).drop_last() =~= bodies.take(i));
        assert(bodies.take(i + 1).last() == bodies[i]);
    }
}

/// A volley of well-formed projectiles deals no negative damage.
proof fn lemma_volley_damage_nonneg(bodies: Seq<ProjectileBody>)
    requires
        forall|j: int| 0 <= j < bodies.len() ==> (#[trigger] bodies[j]).wf(),
    ensures
        total_volley_damage(bodies) >= 0,
    decreases bodies.len(),
{
    if bodies.len() > 0 {
        assert(bodies.last() == bodies[bodies.len() - 1]);
        assert(forall|j: int|
            0 <= j < bodies.drop_last().len() ==> (#[trigger] bodies.drop_last()[j]).wf());
        lemma_volley_damage_nonneg(bodies.drop_last());
    }
}

/// A volley keeps a target's identity and role, and cannot take more
/// than its total damage from the target's health.
proof fn lemma_target_after_volley_bounds(
    bodies: Seq<ProjectileBody>,
    contacts: Seq<Vec<u64>>,
    dt: int,
    t: Target,
)
    requires
        forall|j: int| 0 <= j < bodies.len() ==> (#[trigger] bodies[j]).wf(),
        t.health.0 - total_volley_damage(bodies) >= i64::MIN,
    ensures
        target_after_volley(bodies, contacts, dt, t).id == t.id,
        target_after_volley(bodies, contacts, dt, t).is_player == t.is_player,
        target_after_volley(bodies, contacts, dt, t).health.0 >= t.health.0 - total_volley_damage(
            bodies,
        ),
        target_after_volley(bodies, contacts, dt, t).health.0 <= t.health.0,
    decreases bodies.len(),
{
    if bodies.len() > 0 {
        assert(bodies.last() == bodies[bodies.len() - 1]);
        assert(forall|j: int|
            0 <= j < bodies.drop_last().len() ==> (#[trigger] bodies.drop_last()[j]).wf());
        lemma_volley_damage_nonneg(bodies.drop_last());
        lemma_target_after_volley_bounds(bodies.drop_last(), contacts.drop_last(), dt, t);
    }
}

/// Runs the projectile subsystem for one fixed tick, move before
/// collision: every projectile travels along its own heading at its own
/// speed, one that overruns its range fizzles — despawned without
/// dealing damage — and every other projectile with contacts deals its
/// damage exactly once per touched non-player target and is despawned
/// the same tick. The returned flags say, per projectile and in order,
/// which ones to despawn. No projectile's outcome can keep another from
/// being processed.
pub fn projectile_fixed_update(
    bodies: &mut Vec<ProjectileBody>,
    contacts: &Vec<Vec<u64>>,
    targets: &mut Vec<Target>,
    dt: i64,
) -> (despawn: Vec<bool>)
    requires
        contacts@.len() == old(bodies)@.len(),
        forall|j: int| 0 <= j < old(bodies)@.len() ==> (#[trigger] old(bodies)@[j]).wf(),
        0 <= dt <= MAX_DT,
        forall|k: int|
            0 <= k < old(targets)@.len() ==> (#[trigger] old(targets)@[k]).health.0
                - total_volley_damage(old(bodies)@) >= i64::MIN,
    ensures
        final(bodies)@.len() == old(bodies)@.len(),
        despawn@.len() == old(bodies)@.len(),
        final(targets)@.len() == old(targets)@.len(),
        forall|j: int|
            0 <= j < old(bodies)@.len() ==> #[trigger] final(bodies)@[j] == (ProjectileBody {
                transform: old(bodies)@[j].transform,
                velocity: old(bodies)@[j].transform.heading.scaled(
                    old(bodies)@[j].projectile.speed as int,
                ),
                projectile: moved_projectile(old(bodies)@[j].projectile, dt as int),
            }),
        forall|j: int|
            0 <= j < old(bodies)@.len() ==> despawn@[j] == (moved_projectile(
                #[trigger] old(bodies)@[j].projectile,
                dt as int,
            ).displacement > old(bodies)@[j].projectile.range || contacts@[j]@.len() > 0),
        forall|k: int|
            0 <= k < old(targets)@.len() ==> #[trigger] final(targets)@[k] == target_after_volley(
                old(bodies)@,
                contacts@,
                dt as int,
                old(targets)@[k],
            ),
{
    let mut despawn: Vec<bool> = Vec::new();
    let mut j: usize = 0;
    while j < bodies.len()
        invariant
            0 <= j <= bodies@.len(),
            bodies@.len() == old(bodies)@.len(),
            contacts@.len() == old(bodies)@.len(),
            targets@.len() == old(targets)@.len(),
            despawn@.len() == j,
            0 <= dt <= MAX_DT,
            forall|i: int| 0 <= i < old(bodies)@.len() ==> (#[trigger] old(bodies)@[i]).wf(),
            forall|k: int|
                0 <= k < old(targets)@.len() ==> (#[trigger] old(targets)@[k]).health.0
                    - total_volley_damage(old(bodies)@) >= i64::MIN,
            forall|i: int| j <= i < bodies@.len() ==> bodies@[i] == old(bodies)@[i],
            forall|i: int|
                0 <= i < j ==> #[trigger] bodies@[i] == (ProjectileBody {
                    transform: old(bodies)@[i].transform,
                    velocity: old(bodies)@[i].transform.heading.scaled(
                        old(bodies)@[i].projectile.speed as int,
                    ),
                    projectile: moved_projectile(old(bodies)@[i].projectile, dt as int),
                }),
            forall|i: int|
                0 <= i < j ==> despawn@[i] == (moved_projectile(
                    #[trigger] old(bodies)@[i].projectile,
                    dt as int,
                ).displacement > old(bodies)@[i].projectile.range || contacts@[i]@.len() > 0),
            forall|k: int|
                0 <= k < old(targets)@.len() ==> #[trigger] targets@[k] == target_after_volley(
                    old(bodies)@.take(j as int),
                    contacts@.take(j as int),
                    dt as int,
                    old(targets)@[k],
                ),
        decreases bodies@.len() - j,
    {
        proof {
            assert(old(bodies)@.take(j + 1int).drop_last() =~= old(bodies)@.take(j as int));
            assert(old(bodies)@.take(j + 1int).last() == old(bodies)@[j as int]);
            assert(contacts@.take(j + 1int).drop_last() =~= contacts@.take(j as int));
            assert(contacts@.take(j + 1int).last() == contacts@[j as int]);
            lemma_volley_damage_prefix(old(bodies)@, j as int);
            lemma_volley_damage_prefix(old(bodies)@, j + 1int);
            assert forall|i: int| 0 <= i < old(bodies)@.take(j as int).len() implies (
            #[trigger] old(bodies)@.take(j as int)[i]).wf() by {
                assert(old(bodies)@.take(j as int)[i] == old(bodies)@[i]);
            }
        }
        let body = bodies[j];
        let mut projectile = body.projectile;
        let mut velocity = body.velocity;
        let gone = projectile_move(&mut projectile, &body.transform, &mut velocity, dt);
        bodies.set(
            j,
            ProjectileBody { transform: body.transform, velocity, projectile },
        );
        let mut hit = false;
        if !gone {
            proof {
                assert forall|k: int| 0 <= k < targets@.len() implies i64::MIN <= (
                #[trigger] targets@[k]).health.0 - projectile.damage by {
                    lemma_target_after_volley_bounds(
                        old(bodies)@.take(j as int),
                        contacts@.take(j as int),
                        dt as int,
                        old(targets)@[k],
                    );
                }
            }
            let ghost targets_before = targets@;
            hit = projectile_collision(&projectile, &contacts[j], targets);
            proof {
                assert(effective_contacts(old(bodies)@[j as int].projectile, contacts@[j as int]@, dt as int)
                    =~= contacts@[j as int]@);
                assert forall|k: int| 0 <= k < targets@.len() implies #[trigger] targets@[k]
                    == target_after_volley(
                    old(bodies)@.take(j + 1int),
                    contacts@.take(j + 1int),
                    dt as int,
                    old(targets)@[k],
                ) by {
                    let prior = target_after_volley(
                        old(bodies)@.take(j as int),
                        contacts@.take(j as int),
                        dt as int,
                        old(targets)@[k],
                    );
                    assert(targets_before[k] == prior);
                    assert(targets@[k] == target_after_hit(projectile, contacts@[j as int]@, prior));
                    assert(target_after_hit(projectile, contacts@[j as int]@, prior)
                        == target_after_hit(
                        old(bodies)@[j as int].projectile,
                        contacts@[j as int]@,
                        prior,
                    ));
                }
            }
        } else {
            proof {
                assert(effective_contacts(old(bodies)@[j as int].projectile, contacts@[j as int]@, dt as int)
                    =~= Seq::<u64>::empty());
                assert forall|k: int| 0 <= k < targets@.len() implies #[trigger] targets@[k]
                    == target_after_volley(
                    old(bodies)@.take(j + 1int),
                    contacts@.take(j + 1int),
                    dt as int,
                    old(targets)@[k],
                ) by {
                    assert(!Seq::<u64>::empty().contains(targets@[k].id));
                }
            }
        }
        despawn.push(gone || hit);
        j = j + 1;
    }
    proof {
        assert(old(bodies)@.take(old(bodies)@.len() as int) =~= old(bodies)@);
        assert(contacts@.take(contacts@.len() as int) =~= contacts@);
    }
    despawn
}

} // verus!
