use swarmy::consts::{Health, PLAYER_DASH_COOLDOWN, PROJECTILE_SPAWN_OFFSET};
use swarmy::input::{PlayerAttackEvent, PlayerMovementEvent};
use swarmy::math::{Transform2, V2};
use swarmy::player::{Dash, PlayerDamageEvent, PlayerDeathEvent};
use swarmy::projectile::{Projectile, Target};
use swarmy::tick::{player_fixed_update, projectile_fixed_update, PlayerState, ProjectileBody};

fn fresh_player() -> PlayerState {
    PlayerState {
        transform: Transform2 {
            pos: V2 { x: 0, y: 0 },
            heading: V2 { x: 1000, y: 0 },
        },
        velocity: V2 { x: 0, y: 0 },
        dash: Dash::default(),
        health: Health(2_000),
    }
}

#[test]
fn one_tick_runs_every_stage_in_order() {
    // One tick with everything at once: aim at a cursor above, walk
    // right, try to dash (rejected: cooldown runs), fire once, and get
    // touched by one swarm agent.
    let mut state = fresh_player();
    let movement = vec![
        PlayerMovementEvent::Move(V2 { x: 1000, y: 0 }),
        PlayerMovementEvent::Dash(V2 { x: 1000, y: 0 }),
    ];
    let attacks = vec![PlayerAttackEvent::PrimaryFire];
    let colliding = vec![8u64];
    let swarm_ids = vec![8u64];
    let out = player_fixed_update(
        &mut state,
        Some(V2 { x: 0, y: 10_000 }),
        &movement,
        &attacks,
        &colliding,
        &swarm_ids,
        100,
    );
    // Aim turned the heading up before anything else.
    assert_eq!(state.transform.heading, V2 { x: 0, y: 10_000 });
    // The walk velocity came from the movement intent.
    assert_eq!(state.velocity, V2 { x: 100_000, y: 0 });
    // The dash was rejected (cooldown still running) and the cooldown
    // kept counting down.
    assert!(!state.dash.is_dashing);
    assert_eq!(state.dash.cooldown, PLAYER_DASH_COOLDOWN - 100);
    assert!(!out.effect_reset);
    // The projectile spawned along the aim taken this same tick:
    // straight up, one spawn offset away.
    assert_eq!(out.spawned.len(), 1);
    assert_eq!(
        out.spawned[0].transform.pos,
        V2 {
            x: 0,
            y: PROJECTILE_SPAWN_OFFSET
        }
    );
    assert_eq!(out.spawned[0].transform.heading, V2 { x: 0, y: 10_000 });
    // One touching swarm agent dealt exactly one hit, after the attack.
    assert_eq!(out.damage, vec![PlayerDamageEvent::Collision(1_000)]);
    assert_eq!(state.health, Health(1_000));
    // Health stayed above the threshold: no death, no game over.
    assert!(out.deaths.is_empty());
    assert!(!out.game_over);
}

#[test]
fn death_resolves_after_all_hits_of_the_tick() {
    // Two touching agents, health 2.0: both hits land this tick, and
    // exactly one death event fires at the end of it.
    let mut state = fresh_player();
    let out = player_fixed_update(
        &mut state,
        None,
        &Vec::new(),
        &Vec::new(),
        &vec![3u64, 4],
        &vec![3u64, 4],
        100,
    );
    assert_eq!(state.health, Health(0));
    assert_eq!(out.deaths, vec![PlayerDeathEvent::Death]);
    assert!(out.game_over);
}

#[test]
fn quiet_tick_only_runs_the_clocks() {
    let mut state = fresh_player();
    let before = state;
    let out = player_fixed_update(
        &mut state,
        None,
        &Vec::new(),
        &Vec::new(),
        &Vec::new(),
        &Vec::new(),
        250,
    );
    assert_eq!(state.transform, before.transform);
    assert_eq!(state.velocity, before.velocity);
    assert_eq!(state.health, before.health);
    assert_eq!(state.dash.cooldown, PLAYER_DASH_COOLDOWN - 250);
    assert!(out.spawned.is_empty());
    assert!(out.damage.is_empty());
    assert!(!out.game_over);
}

fn body_at(x: i64, displacement: i64) -> ProjectileBody {
    ProjectileBody {
        transform: Transform2 {
            pos: V2 { x, y: 0 },
            heading: V2 { x: 1000, y: 0 },
        },
        velocity: V2 { x: 0, y: 0 },
        projectile: Projectile {
            displacement,
            range: 500_000,
            damage: 1_000,
            speed: 500_000,
        },
    }
}

#[test]
fn volley_moves_every_projectile_and_lands_each_hit_once() {
    // Two projectiles touch the same target in one tick: it takes each
    // one's damage exactly once, and both projectiles despawn with
    // their hits.
    let mut bodies = vec![body_at(0, 0), body_at(10_000, 0)];
    let contacts = vec![vec![5u64], vec![5u64]];
    let mut targets = vec![Target {
        id: 5,
        health: Health(10_000),
        is_player: false,
    }];
    let despawn = projectile_fixed_update(&mut bodies, &contacts, &mut targets, 100);
    assert_eq!(targets[0].health, Health(8_000));
    assert_eq!(despawn, vec![true, true]);
    assert_eq!(bodies[0].projectile.displacement, 50_000);
    assert_eq!(bodies[0].velocity, V2 { x: 500_000, y: 0 });
}

#[test]
fn fizzled_projectile_deals_no_damage() {
    // The first projectile overruns its range this very tick: it
    // fizzles before the contact stage and its touching target keeps
    // its health; the second, still in range, lands its hit.
    let mut bodies = vec![body_at(0, 480_000), body_at(0, 0)];
    let contacts = vec![vec![5u64], vec![5u64]];
    let mut targets = vec![Target {
        id: 5,
        health: Health(10_000),
        is_player: false,
    }];
    let despawn = projectile_fixed_update(&mut bodies, &contacts, &mut targets, 100);
    assert_eq!(despawn, vec![true, true]);
    assert_eq!(targets[0].health, Health(9_000));
}

#[test]
fn contactless_volley_flies_on() {
    let mut bodies = vec![body_at(0, 0)];
    let contacts = vec![Vec::new()];
    let mut targets: Vec<Target> = Vec::new();
    let despawn = projectile_fixed_update(&mut bodies, &contacts, &mut targets, 100);
    assert_eq!(despawn, vec![false]);
    assert_eq!(bodies[0].projectile.displacement, 50_000);
}
