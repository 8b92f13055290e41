use swarmy::consts::{Health, DEATH_THRESHOLD, SWARMLING_LAUNCH_SPEED};
use swarmy::math::{Transform2, V2};
use swarmy::swarm::{
    swarmling_behavior_control, swarmling_death, swarmling_move, swarmling_spawn, BehaviorState,
    RepeatingTimer, SpawnerSite, SwarmAgent, SwarmSpawner, Swarmling, SWARMLING_SPAWN_OFFSET,
};

fn site_at(x: i64, y: i64) -> SpawnerSite {
    SpawnerSite {
        spawner: SwarmSpawner {
            spawn_timer: RepeatingTimer {
                duration: 1_000,
                elapsed: 0,
            },
        },
        position: V2 { x, y },
    }
}

#[test]
fn fresh_swarmling_wanders_with_random_seed() {
    // The seed comes from the process-wide random source; whatever was
    // drawn, it lies in the stated range and the agent wanders.
    let s = Swarmling::default();
    assert_eq!(s.state, BehaviorState::Wander);
    assert!(0 <= s.seed && s.seed < 100_000);
}

#[test]
fn chosen_seed_is_kept() {
    let s = Swarmling::new(4321);
    assert_eq!(s.state, BehaviorState::Wander);
    assert_eq!(s.seed, 4321);
}

#[test]
fn repeating_timer_wraps_and_reports() {
    let mut t = RepeatingTimer {
        duration: 1_000,
        elapsed: 0,
    };
    assert!(!t.tick(400));
    assert_eq!(t.elapsed, 400);
    assert!(t.tick(700));
    assert_eq!(t.elapsed, 100);
}

#[test]
fn spawner_fires_twice_in_five_half_second_steps() {
    // A one-second repeating timer stepped through 2.5 seconds in 0.5
    // second steps fires exactly twice — at 1.0 and 2.0 seconds — and
    // not on every step.
    let mut sites = vec![site_at(0, 200_000)];
    let mut total_orders = 0;
    let mut fired_steps = Vec::new();
    for step in 1..=5 {
        let orders = swarmling_spawn(&mut sites, 500);
        total_orders += orders.len();
        if !orders.is_empty() {
            fired_steps.push(step);
        }
    }
    assert_eq!(total_orders, 2);
    assert_eq!(fired_steps, vec![2, 4]);
}

#[test]
fn spawn_order_places_hatchling_above_spawner() {
    let mut sites = vec![site_at(1_000, 200_000)];
    let orders = swarmling_spawn(&mut sites, 1_000);
    assert_eq!(orders.len(), 1);
    let o = &orders[0];
    assert_eq!(
        o.position,
        V2 {
            x: 1_000,
            y: 200_000 + SWARMLING_SPAWN_OFFSET
        }
    );
    assert_eq!(
        o.impulse,
        V2 {
            x: 0,
            y: SWARMLING_LAUNCH_SPEED
        }
    );
    assert_eq!(o.swarmling.state, BehaviorState::Wander);
    assert!(0 <= o.swarmling.seed && o.swarmling.seed < 100_000);
    // The timer wrapped and keeps running.
    assert_eq!(sites[0].spawner.spawn_timer.elapsed, 0);
}

#[test]
fn every_spawner_is_processed_independently() {
    // One spawner firing never keeps another from being ticked.
    let mut sites = vec![site_at(0, 0), site_at(5_000, 0)];
    sites[1].spawner.spawn_timer.elapsed = 900;
    let orders = swarmling_spawn(&mut sites, 100);
    // Only the second fires this tick.
    assert_eq!(orders.len(), 1);
    assert_eq!(orders[0].position.x, 5_000);
    assert_eq!(sites[0].spawner.spawn_timer.elapsed, 100);
    assert_eq!(sites[1].spawner.spawn_timer.elapsed, 0);
}

#[test]
fn wandering_agent_steers_by_its_noise_sample() {
    let mut agents = vec![SwarmAgent {
        impulse: V2 { x: 10, y: -10 },
        swarmling: Swarmling::new(1),
    }];
    // Noise sampled at (t, 0) and (0, t), scaled by the swarm speed:
    // a sample of (1.0, -0.5) adds (50, -25) units of impulse.
    let samples = vec![V2 { x: 1_000, y: -500 }];
    swarmling_move(&mut agents, &samples, true);
    assert_eq!(
        agents[0].impulse,
        V2 {
            x: 10 + 50_000,
            y: -10 - 25_000
        }
    );
}

#[test]
fn fleeing_and_attacking_agents_do_not_steer_yet() {
    // The flee and attack steering laws are an open extension point.
    let mut agents = vec![
        SwarmAgent {
            impulse: V2 { x: 0, y: 0 },
            swarmling: Swarmling {
                state: BehaviorState::Flee,
                seed: 1,
            },
        },
        SwarmAgent {
            impulse: V2 { x: 0, y: 0 },
            swarmling: Swarmling {
                state: BehaviorState::Attack,
                seed: 2,
            },
        },
    ];
    let samples = vec![V2 { x: 1_000, y: 1_000 }, V2 { x: 1_000, y: 1_000 }];
    swarmling_move(&mut agents, &samples, true);
    assert_eq!(agents[0].impulse, V2 { x: 0, y: 0 });
    assert_eq!(agents[1].impulse, V2 { x: 0, y: 0 });
}

#[test]
fn no_player_no_steering() {
    let mut agents = vec![SwarmAgent {
        impulse: V2 { x: 3, y: 4 },
        swarmling: Swarmling::new(1),
    }];
    let samples = vec![V2 { x: 1_000, y: 1_000 }];
    swarmling_move(&mut agents, &samples, false);
    assert_eq!(agents[0].impulse, V2 { x: 3, y: 4 });
}

#[test]
fn behavior_control_is_a_stable_extension_point() {
    let mut s = Swarmling::new(77);
    let player = Transform2 {
        pos: V2 { x: 0, y: 0 },
        heading: V2 { x: 1000, y: 0 },
    };
    swarmling_behavior_control(&mut s, &player);
    assert_eq!(s, Swarmling::new(77));
}

#[test]
fn swarmling_dies_at_threshold() {
    assert!(swarmling_death(&Health(DEATH_THRESHOLD)));
    assert!(swarmling_death(&Health(0)));
    assert!(swarmling_death(&Health(-500)));
    assert!(!swarmling_death(&Health(DEATH_THRESHOLD + 1)));
    assert!(!swarmling_death(&Health(2_000)));
}
