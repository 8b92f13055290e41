use swarmy::consts::{
    Health, DEATH_THRESHOLD, PLAYER_DASH_COOLDOWN, PLAYER_DASH_DURATION, PLAYER_DASH_SPEED,
    PROJECTILE_SPAWN_OFFSET, SWARMLING_COLLISION_DAMAGE,
};
use swarmy::input::{PlayerAttackEvent, PlayerMovementEvent};
use swarmy::math::{Transform2, V2};
use swarmy::player::{
    dash_request, player_aim, player_attack, player_collision, player_dash, player_death,
    player_move, player_take_damage, sample_dash_velocity, Dash, PlayerDamageEvent,
    PlayerDeathEvent,
};

fn fresh_dash() -> Dash {
    Dash::default()
}

#[test]
fn dash_rejected_while_cooldown_runs() {
    // Cooldown still positive: the request must leave the state untouched.
    let mut dash = fresh_dash();
    assert_eq!(dash.cooldown, PLAYER_DASH_COOLDOWN);
    let before = dash;
    let accepted = dash_request(&mut dash, V2 { x: 1000, y: 0 });
    assert!(!accepted);
    assert_eq!(dash, before);
}

#[test]
fn dash_activates_at_zero_cooldown() {
    let mut dash = fresh_dash();
    dash.cooldown = 0;
    let accepted = dash_request(&mut dash, V2 { x: 0, y: -1000 });
    assert!(accepted);
    assert!(dash.is_dashing);
    assert_eq!(dash.direction, V2 { x: 0, y: -1000 });
}

#[test]
fn dash_velocity_full_speed_at_start() {
    // Sampled at elapsed = 0 along a unit direction, the dash velocity
    // has magnitude exactly the dash speed.
    let v = sample_dash_velocity(V2 { x: 1000, y: 0 }, 0, PLAYER_DASH_DURATION);
    assert_eq!(v, V2 { x: PLAYER_DASH_SPEED, y: 0 });
    let v = sample_dash_velocity(V2 { x: 0, y: -1000 }, 0, PLAYER_DASH_DURATION);
    assert_eq!(v, V2 { x: 0, y: -PLAYER_DASH_SPEED });
}

#[test]
fn dash_velocity_zero_at_duration() {
    // At the boundary elapsed = duration, the ease-out curve has fully
    // decayed.
    let v = sample_dash_velocity(
        V2 { x: 1000, y: 0 },
        PLAYER_DASH_DURATION,
        PLAYER_DASH_DURATION,
    );
    assert_eq!(v, V2 { x: 0, y: 0 });
}

#[test]
fn dash_velocity_mid_dash_value() {
    // Halfway through: progress 500, ease 750, a quarter of the speed
    // remains.
    let v = sample_dash_velocity(V2 { x: 1000, y: 0 }, 250, 500);
    assert_eq!(v, V2 { x: 250_000, y: 0 });
}

#[test]
fn dash_update_runs_clock_and_ends_dash() {
    let mut dash = fresh_dash();
    dash.cooldown = 0;
    assert!(dash_request(&mut dash, V2 { x: 1000, y: 0 }));
    let mut velocity = V2 { x: 0, y: 0 };
    // First tick: clock runs, velocity sampled from the curve.
    let reset = player_dash(&mut velocity, &mut dash, 250);
    assert!(!reset);
    assert!(dash.is_dashing);
    assert_eq!(dash.elapsed, 250);
    assert_eq!(velocity, V2 { x: 250_000, y: 0 });
    // Second tick pushes past the duration: dash ends, cooldown restarts,
    // the visual effect is asked to reset, velocity is left alone.
    let reset = player_dash(&mut velocity, &mut dash, 300);
    assert!(reset);
    assert!(!dash.is_dashing);
    assert_eq!(dash.elapsed, 0);
    assert_eq!(dash.direction, V2 { x: 0, y: 0 });
    assert_eq!(dash.cooldown, PLAYER_DASH_COOLDOWN);
    assert_eq!(velocity, V2 { x: 250_000, y: 0 });
}

#[test]
fn dash_cooldown_counts_down_clamped() {
    let mut dash = fresh_dash();
    let mut velocity = V2 { x: 7, y: 7 };
    let reset = player_dash(&mut velocity, &mut dash, 400);
    assert!(!reset);
    assert_eq!(dash.cooldown, PLAYER_DASH_COOLDOWN - 400);
    assert_eq!(velocity, V2 { x: 7, y: 7 });
    // A huge tick clamps at zero instead of going negative.
    let _ = player_dash(&mut velocity, &mut dash, 10_000);
    assert_eq!(dash.cooldown, 0);
}

#[test]
fn move_event_sets_walking_velocity() {
    let mut velocity = V2 { x: 0, y: 0 };
    let mut dash = fresh_dash();
    let events = vec![PlayerMovementEvent::Move(V2 { x: 1000, y: -1000 })];
    player_move(&events, &mut velocity, &mut dash);
    assert_eq!(velocity, V2 { x: 100_000, y: -100_000 });
    assert!(!dash.is_dashing);
}

#[test]
fn move_then_dash_same_tick() {
    let mut velocity = V2 { x: 0, y: 0 };
    let mut dash = fresh_dash();
    dash.cooldown = 0;
    let events = vec![
        PlayerMovementEvent::Move(V2 { x: 0, y: 1000 }),
        PlayerMovementEvent::Dash(V2 { x: 0, y: 1000 }),
    ];
    player_move(&events, &mut velocity, &mut dash);
    assert_eq!(velocity, V2 { x: 0, y: 100_000 });
    assert!(dash.is_dashing);
    assert_eq!(dash.direction, V2 { x: 0, y: 1000 });
}

#[test]
fn aim_at_cursor_right_of_player_is_rotation_zero() {
    // Player at the origin, cursor at (10, 0) in world units: the aim
    // heading points along positive x, a rotation of zero radians.
    let mut t = Transform2 {
        pos: V2 { x: 0, y: 0 },
        heading: V2 { x: 1000, y: 0 },
    };
    player_aim(&mut t, Some(V2 { x: 10_000, y: 0 }));
    assert_eq!(t.heading, V2 { x: 10_000, y: 0 });
    assert!(t.heading.y == 0 && t.heading.x > 0);
}

#[test]
fn aim_without_cursor_is_skipped() {
    let mut t = Transform2 {
        pos: V2 { x: 5_000, y: 5_000 },
        heading: V2 { x: 0, y: 1000 },
    };
    let before = t;
    player_aim(&mut t, None);
    assert_eq!(t, before);
}

#[test]
fn aim_at_own_position_is_rotation_zero() {
    // The offset is the zero vector; its angle is taken as zero.
    let mut t = Transform2 {
        pos: V2 { x: 5_000, y: 5_000 },
        heading: V2 { x: 0, y: 1000 },
    };
    player_aim(&mut t, Some(V2 { x: 5_000, y: 5_000 }));
    assert_eq!(t.heading, V2 { x: 1000, y: 0 });
}

#[test]
fn attack_spawns_projectile_ahead_of_player() {
    let player = Transform2 {
        pos: V2 { x: 2_000, y: 3_000 },
        heading: V2 { x: 1000, y: 0 },
    };
    let spawned = player_attack(&vec![PlayerAttackEvent::PrimaryFire], &player);
    assert_eq!(spawned.len(), 1);
    let s = &spawned[0];
    assert_eq!(
        s.transform.pos,
        V2 { x: 2_000 + PROJECTILE_SPAWN_OFFSET, y: 3_000 }
    );
    assert_eq!(s.transform.heading, player.heading);
    assert_eq!(s.projectile.displacement, 0);
    assert_eq!(s.projectile.range, 750_000);
    assert_eq!(s.projectile.damage, 1_000);
    assert_eq!(s.projectile.speed, 500_000);
}

#[test]
fn attack_offset_follows_unnormalized_heading() {
    // A long diagonal heading still puts the projectile 25 units out.
    let player = Transform2 {
        pos: V2 { x: 0, y: 0 },
        heading: V2 { x: 3_000, y: 4_000 },
    };
    let spawned = player_attack(&vec![PlayerAttackEvent::PrimaryFire], &player);
    assert_eq!(spawned.len(), 1);
    // |(3,4)| = 5 units, so the offset is (3/5, 4/5) * 25 units.
    assert_eq!(spawned[0].transform.pos, V2 { x: 15_000, y: 20_000 });
}

#[test]
fn attack_without_intent_spawns_nothing() {
    let player = Transform2 {
        pos: V2 { x: 0, y: 0 },
        heading: V2 { x: 1000, y: 0 },
    };
    let spawned = player_attack(&Vec::new(), &player);
    assert!(spawned.is_empty());
}

#[test]
fn collision_emits_one_event_per_touching_swarmling() {
    // Touching entities 1, 2, 3; of those, 2 and 3 are swarm agents:
    // exactly two damage events, one per colliding pair, this tick.
    let colliding = vec![1u64, 2, 3];
    let swarmlings = vec![2u64, 3, 5];
    let events = player_collision(&colliding, &swarmlings);
    assert_eq!(events.len(), 2);
    for e in &events {
        assert_eq!(*e, PlayerDamageEvent::Collision(SWARMLING_COLLISION_DAMAGE));
    }
}

#[test]
fn collision_with_empty_set_emits_nothing() {
    let events = player_collision(&Vec::new(), &vec![1u64, 2]);
    assert!(events.is_empty());
}

#[test]
fn two_hits_in_one_tick_kill_exactly_once() {
    // Health 2.0, two collision hits of 1.0 in the same tick: health
    // lands on 0.0 and exactly one death event fires.
    let mut health = Health(2_000);
    let events = vec![
        PlayerDamageEvent::Collision(1_000),
        PlayerDamageEvent::Collision(1_000),
    ];
    let deaths = player_take_damage(&events, &mut health);
    assert_eq!(health.0, 0);
    assert_eq!(deaths.len(), 1);
    assert_eq!(deaths[0], PlayerDeathEvent::Death);
}

#[test]
fn death_never_fires_twice() {
    let mut health = Health(2_000);
    let hit = vec![PlayerDamageEvent::Collision(1_000)];
    // First tick: survives, no death.
    let deaths = player_take_damage(&hit, &mut health);
    assert_eq!(health.0, 1_000);
    assert_eq!(deaths.len(), 0);
    // Second tick: crosses the threshold, fires once.
    let deaths = player_take_damage(&hit, &mut health);
    assert_eq!(health.0, 0);
    assert_eq!(deaths.len(), 1);
    // Third tick: already dead, fires no further event.
    let deaths = player_take_damage(&hit, &mut health);
    assert_eq!(health.0, -1_000);
    assert_eq!(deaths.len(), 0);
}

#[test]
fn damage_landing_on_threshold_kills() {
    let mut health = Health(1_100);
    let deaths = player_take_damage(&vec![PlayerDamageEvent::Collision(1_000)], &mut health);
    assert_eq!(health.0, DEATH_THRESHOLD);
    assert_eq!(deaths.len(), 1);
}

#[test]
fn death_hook_reports_game_over() {
    assert!(!player_death(&Vec::new()));
    assert!(player_death(&vec![PlayerDeathEvent::Death]));
}
