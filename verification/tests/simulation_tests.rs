use predator_prey::agent::{Agent, MatingTarget, PredatorStatus, PreyStatus, Species};
use predator_prey::boundary::wiggle_squares;
use predator_prey::environment::Environment;
use predator_prey::geometry::{PositionSize, UNIT};
use predator_prey::settings::Settings;
use predator_prey::simulation::{setup, step, tick};
use predator_prey::world::World;

fn settings() -> Settings {
    Settings {
        window_width: 800 * UNIT,
        window_height: 600 * UNIT,
        predator_population: 3,
        prey_population: 5,
        predator_speed: 2 * UNIT,
        prey_speed: UNIT,
        predator_life: 90,
        prey_life: 20,
        prey_energy_loss: 3,
        predator_energy_loss: 2,
        prey_idle_energy_gain: 1,
        predator_hunt_energy_gain: 500,
        prey_reproduction_energy: 50,
        predator_reproduction_energy: 70,
        prey_detection_range: 60 * UNIT,
        predator_detection_range: 60 * UNIT,
        default_dimensions: UNIT,
        environment_grow_rate: UNIT,
        environment_max: 10,
        wiggle_when_hunted: false,
    }
}

fn at(x: i32, y: i32) -> PositionSize {
    PositionSize { x: x * UNIT, y: y * UNIT, width: UNIT, height: UNIT }
}

fn predator(ordinal: u64, x: i32, y: i32, life: i32) -> Agent {
    Agent {
        ordinal,
        species: Species::Predator(PredatorStatus::Idle),
        body: at(x, y),
        life,
        mortal: false,
        mating_target: None,
    }
}

fn prey(ordinal: u64, x: i32, y: i32, life: i32) -> Agent {
    Agent { ordinal, species: Species::Prey(PreyStatus::Idle), body: at(x, y), life, mortal: false, mating_target: None }
}

#[test]
fn new_world_is_empty() {
    let world = World::new();
    assert!(world.agents.is_empty());
    assert_eq!(world.next_ordinal, 0);
    assert_eq!(world.population(), (0, 0));
    assert!(world.can_spawn(1));
}

#[test]
fn spawn_hands_out_ascending_ordinals() {
    let mut world = World::new();
    assert_eq!(world.spawn(Species::Predator(PredatorStatus::Hunting), at(1, 2), 30), 0);
    assert_eq!(world.spawn(Species::Prey(PreyStatus::Avoiding), at(3, 4), 40), 1);
    assert_eq!(world.agents, vec![predator(0, 1, 2, 30), prey(1, 3, 4, 40)]);
    assert_eq!(world.next_ordinal, 2);
    assert_eq!(world.population(), (1, 1));
}

#[test]
fn ordinal_space_can_run_out() {
    let world = World { agents: Vec::new(), next_ordinal: u64::MAX - 2 };
    assert!(world.can_spawn(0));
    assert!(world.can_spawn(2));
    assert!(!world.can_spawn(3));
    assert!(!world.can_spawn(usize::MAX));
}

#[test]
fn population_counts_both_species() {
    let world = World {
        agents: vec![prey(0, 0, 0, 1), predator(1, 0, 0, 1), prey(2, 0, 0, 1), prey(5, 0, 0, 1)],
        next_ordinal: 6,
    };
    assert_eq!(world.population(), (1, 3));
}

#[test]
fn setup_founds_the_configured_population() {
    let rules = settings();
    let (world, pool) = setup(&rules);
    assert_eq!(pool, Environment { energy_pool: 5, max_pool: 10 });
    assert_eq!(world.agents.len(), 8);
    assert_eq!(world.next_ordinal, 8);
    assert_eq!(world.population(), (3, 5));
    for (i, agent) in world.agents.iter().enumerate() {
        assert_eq!(agent.ordinal, i as u64);
        assert!(!agent.mortal);
        assert_eq!(agent.mating_target, None);
        assert_eq!(agent.body.width, UNIT);
        assert_eq!(agent.body.height, UNIT);
        assert!(-400 * UNIT <= agent.body.x && agent.body.x < 400 * UNIT);
        assert!(-300 * UNIT <= agent.body.y && agent.body.y < 300 * UNIT);
        if i < 3 {
            assert_eq!(agent.species, Species::Predator(PredatorStatus::Idle));
            assert_eq!(agent.life, 90);
        } else {
            assert_eq!(agent.species, Species::Prey(PreyStatus::Idle));
            assert_eq!(agent.life, 20);
        }
    }
}

#[test]
fn setup_scatters_the_founders() {
    let mut rules = settings();
    rules.predator_population = 200;
    rules.prey_population = 200;
    let (world, _) = setup(&rules);
    assert_eq!(world.agents.len(), 400);
    assert!(world.agents.iter().any(|a| a.body.x != -400 * UNIT));
    assert!(world.agents.iter().any(|a| a.body.y != -300 * UNIT));
    assert!(world.agents.iter().any(|a| a.body.x != world.agents[0].body.x));
    assert!(world.agents.iter().any(|a| a.body.y != world.agents[0].body.y));
}

#[test]
fn setup_with_nothing_to_found() {
    let mut rules = settings();
    rules.predator_population = -4;
    rules.prey_population = 0;
    rules.environment_max = -1;
    let (world, pool) = setup(&rules);
    assert!(world.agents.is_empty());
    assert_eq!(world.next_ordinal, 0);
    assert_eq!(pool, Environment { energy_pool: 0, max_pool: 0 });
}

#[test]
fn setup_in_an_arena_without_extent() {
    let mut rules = settings();
    rules.window_width = 1;
    rules.window_height = -1;
    let (world, _) = setup(&rules);
    assert_eq!(world.agents.len(), 8);
    assert!(world.agents.iter().all(|a| a.body.x == 0 && a.body.y == 0));
}

#[test]
fn setup_in_a_negative_arena() {
    let mut rules = settings();
    rules.window_width = -20;
    rules.window_height = -4;
    rules.prey_population = 50;
    let (world, _) = setup(&rules);
    assert!(world.agents.iter().all(|a| -10 <= a.body.x && a.body.x < 10 && -2 <= a.body.y && a.body.y < 2));
}

#[test]
fn jitter_stays_below_one_unit() {
    let agents: Vec<Agent> = (0..300).map(|i| prey(i, 0, 0, 10)).collect();
    let mut world = World { agents: agents.clone(), next_ordinal: 300 };
    wiggle_squares(&mut world);
    assert_eq!(world.agents.len(), 300);
    assert_eq!(world.next_ordinal, 300);
    for (before, after) in agents.iter().zip(world.agents.iter()) {
        assert!(-UNIT <= after.body.x && after.body.x < UNIT);
        assert!(-UNIT <= after.body.y && after.body.y < UNIT);
        assert_eq!(Agent { body: before.body, ..*after }, *before);
    }
    assert!(world.agents.iter().any(|a| a.body.x != -UNIT));
    assert!(world.agents.iter().any(|a| a.body.y != -UNIT));
    assert!(world.agents.iter().any(|a| a.body.x != world.agents[0].body.x));
    assert!(world.agents.iter().any(|a| a.body.x != a.body.y));
}

#[test]
fn jitter_saturates_at_the_edge_of_the_plane() {
    let corner = Agent { body: PositionSize { x: i32::MAX, y: i32::MIN, width: 1, height: 1 }, ..prey(0, 0, 0, 1) };
    let mut world = World { agents: vec![corner], next_ordinal: 1 };
    wiggle_squares(&mut world);
    assert!(world.agents[0].body.x > i32::MAX - UNIT);
    assert!(world.agents[0].body.y < i32::MIN + UNIT);
}

#[test]
fn predator_seeks_prey_in_one_step() {
    let mut world = World { agents: vec![predator(0, 0, 0, 90), prey(1, 10, 0, 20)], next_ordinal: 2 };
    let mut pool = Environment { energy_pool: 5, max_pool: 10 };
    step(&mut world, &mut pool, &settings());
    assert_eq!(world.agents.len(), 2);
    assert_eq!(world.agents[0].body.x, 2 * UNIT);
    assert_eq!(world.agents[0].body.y, 0);
    assert_eq!(world.agents[0].species, Species::Predator(PredatorStatus::Hunting));
    assert_eq!(world.agents[0].life, 88);
    assert_eq!(world.agents[1].body, at(11, 0));
    assert_eq!(world.agents[1].species, Species::Prey(PreyStatus::Avoiding));
}

#[test]
fn lone_prey_feeds_in_one_step() {
    let mut world = World { agents: vec![prey(0, 0, 0, 10)], next_ordinal: 1 };
    let mut pool = Environment { energy_pool: 5, max_pool: 10 };
    step(&mut world, &mut pool, &settings());
    assert_eq!(world.agents, vec![prey(0, 0, 0, 11)]);
    assert_eq!(pool, Environment { energy_pool: 4, max_pool: 10 });
    assert_eq!(world.next_ordinal, 1);
}

#[test]
fn prey_out_of_range_of_a_predator_feeds() {
    let mut world = World { agents: vec![prey(0, 0, 0, 10), predator(1, 100, 0, 90)], next_ordinal: 2 };
    let mut pool = Environment { energy_pool: 1, max_pool: 1 };
    step(&mut world, &mut pool, &settings());
    assert_eq!(world.agents[0], prey(0, 0, 0, 11));
    assert_eq!(world.agents[1], predator(1, 100, 0, 88));
    assert_eq!(pool.energy_pool, 0);
}

#[test]
fn pool_regrows_before_the_prey_feed() {
    let mut rules = settings();
    rules.environment_grow_rate = 2 * UNIT;
    let mut world = World { agents: vec![prey(0, 0, 0, 10), prey(1, 200, 0, 10)], next_ordinal: 2 };
    let mut pool = Environment { energy_pool: 3, max_pool: 10 };
    step(&mut world, &mut pool, &rules);
    assert_eq!(pool.energy_pool, 4);
    step(&mut world, &mut pool, &rules);
    assert_eq!(pool.energy_pool, 6);
    step(&mut world, &mut pool, &rules);
    assert_eq!(pool.energy_pool, 8);
    step(&mut world, &mut pool, &rules);
    assert_eq!(pool.energy_pool, 8);
    assert_eq!(world.agents[0].life, 14);
}

#[test]
fn starved_predator_is_gone_after_the_step() {
    let mut world = World { agents: vec![predator(0, 0, 0, 2), predator(1, 300, 0, 3)], next_ordinal: 2 };
    let mut pool = Environment { energy_pool: 5, max_pool: 10 };
    step(&mut world, &mut pool, &settings());
    assert_eq!(world.agents, vec![predator(1, 300, 0, 1)]);
    step(&mut world, &mut pool, &settings());
    assert!(world.agents.is_empty());
    assert_eq!(world.next_ordinal, 2);
}

#[test]
fn caught_prey_is_gone_after_the_step() {
    let mut world = World { agents: vec![predator(0, 0, 0, 90), prey(1, 1, 0, 20)], next_ordinal: 2 };
    let mut pool = Environment { energy_pool: 5, max_pool: 10 };
    step(&mut world, &mut pool, &settings());
    assert_eq!(world.agents.len(), 1);
    assert_eq!(world.agents[0].ordinal, 0);
    assert_eq!(world.agents[0].life, 588);
    assert_eq!(world.agents[0].body, at(2, 0));
    assert_eq!(pool.energy_pool, 4);
}

#[test]
fn pair_of_prey_meets_and_has_one_child() {
    let mut rules = settings();
    rules.default_dimensions = 4 * UNIT;
    let big = |agent: Agent| Agent { body: PositionSize { width: 4 * UNIT, height: 4 * UNIT, ..agent.body }, ..agent };
    let mut world = World { agents: vec![big(prey(3, 0, 0, 100)), big(prey(7, 7, 0, 100))], next_ordinal: 8 };
    let mut pool = Environment { energy_pool: 0, max_pool: 0 };
    step(&mut world, &mut pool, &rules);
    assert_eq!(world.agents.len(), 2);
    assert_eq!(world.agents[0].body.x, UNIT);
    assert_eq!(world.agents[1].body.x, 6 * UNIT);
    assert_eq!(world.agents[0].species, Species::Prey(PreyStatus::Mating));
    assert_eq!(world.agents[0].mating_target, Some(MatingTarget { position: big(prey(7, 7, 0, 100)).body, ordinal: 7 }));
    assert_eq!(world.agents[1].mating_target, Some(MatingTarget { position: big(prey(3, 0, 0, 100)).body, ordinal: 3 }));
    step(&mut world, &mut pool, &rules);
    assert_eq!(world.agents.len(), 2);
    step(&mut world, &mut pool, &rules);
    assert_eq!(world.agents.len(), 3);
    assert_eq!(world.next_ordinal, 9);
    assert_eq!(world.agents[0].ordinal, 3);
    assert_eq!(world.agents[0].life, 100);
    assert_eq!(world.agents[0].mating_target, Some(MatingTarget { position: at4(5), ordinal: 7 }));
    assert_eq!(world.agents[1].ordinal, 7);
    assert_eq!(world.agents[1].life, 50);
    assert_eq!(world.agents[1].mating_target, None);
    assert_eq!(world.agents[2].ordinal, 8);
    assert_eq!(world.agents[2].life, 20);
    assert_eq!(world.agents[2].species, Species::Prey(PreyStatus::Idle));
    assert_eq!(world.agents[2].mating_target, None);
    assert_eq!(world.agents[2].body, PositionSize { x: 3 * UNIT, y: 0, width: 4 * UNIT, height: 4 * UNIT });
}

fn at4(x: i32) -> PositionSize {
    PositionSize { x: x * UNIT, y: 0, width: 4 * UNIT, height: 4 * UNIT }
}

#[test]
fn step_holds_everyone_inside_the_walls() {
    let mut rules = settings();
    rules.window_width = 20 * UNIT;
    rules.window_height = 20 * UNIT;
    let mut world = World { agents: vec![prey(0, 50, -50, 10), predator(1, -50, 0, 90)], next_ordinal: 2 };
    let mut pool = Environment { energy_pool: 5, max_pool: 10 };
    step(&mut world, &mut pool, &rules);
    assert_eq!(world.agents[0].body, at(10, -10));
    assert_eq!(world.agents[1].body, at(-10, 0));
}

#[test]
fn tick_is_a_step_and_a_jitter() {
    let rules = settings();
    let start = World {
        agents: vec![predator(0, 0, 0, 90), prey(1, 10, 0, 20), prey(2, 100, 100, 60), prey(3, 101, 100, 60)],
        next_ordinal: 4,
    };
    let mut exact = start.clone();
    let mut exact_pool = Environment { energy_pool: 5, max_pool: 10 };
    step(&mut exact, &mut exact_pool, &rules);
    let mut world = start.clone();
    let mut pool = Environment { energy_pool: 5, max_pool: 10 };
    tick(&mut world, &mut pool, &rules);
    assert_eq!(pool, exact_pool);
    assert_eq!(world.next_ordinal, exact.next_ordinal);
    assert_eq!(world.agents.len(), exact.agents.len());
    for (jittered, plain) in world.agents.iter().zip(exact.agents.iter()) {
        assert_eq!(Agent { body: plain.body, ..*jittered }, *plain);
        assert_eq!(jittered.body.width, plain.body.width);
        assert_eq!(jittered.body.height, plain.body.height);
        assert!((jittered.body.x - plain.body.x).abs() <= UNIT);
        assert!((jittered.body.y - plain.body.y).abs() <= UNIT);
        assert!(jittered.body.x - plain.body.x < UNIT);
        assert!(jittered.body.y - plain.body.y < UNIT);
    }
}

#[test]
fn pool_stays_bounded_over_many_ticks() {
    let mut rules = settings();
    rules.environment_grow_rate = 3 * UNIT / 2;
    rules.prey_population = 12;
    rules.predator_population = 2;
    rules.environment_max = 7;
    let (mut world, mut pool) = setup(&rules);
    for _ in 0..200 {
        if !world.can_spawn(world.agents.len()) {
            break;
        }
        tick(&mut world, &mut pool, &rules);
        assert!(0 <= pool.energy_pool && pool.energy_pool <= pool.max_pool);
        assert_eq!(pool.max_pool, 7);
        assert!(world.agents.iter().all(|a| !a.mortal));
        assert!(world.agents.windows(2).all(|w| w[0].ordinal < w[1].ordinal));
        assert!(world.agents.iter().all(|a| a.ordinal < world.next_ordinal));
    }
}

#[test]
fn hand_made_stores_can_be_checked() {
    let good = World { agents: vec![prey(3, 0, 0, 1), predator(7, 0, 0, 1)], next_ordinal: 8 };
    assert!(good.is_well_formed());
    let empty = World { agents: Vec::new(), next_ordinal: 0 };
    assert!(empty.is_well_formed());
    let twice = World { agents: vec![prey(3, 0, 0, 1), predator(3, 0, 0, 1)], next_ordinal: 8 };
    assert!(!twice.is_well_formed());
    let unordered = World { agents: vec![prey(7, 0, 0, 1), predator(3, 0, 0, 1)], next_ordinal: 8 };
    assert!(!unordered.is_well_formed());
    let ahead = World { agents: vec![prey(3, 0, 0, 1), predator(8, 0, 0, 1)], next_ordinal: 8 };
    assert!(!ahead.is_well_formed());
    let far = World { agents: vec![prey(1, 0, 0, 1), prey(2, 0, 0, 1), prey(2, 0, 0, 1)], next_ordinal: 9 };
    assert!(!far.is_well_formed());
}

#[test]
fn stores_grown_by_the_passes_stay_well_formed() {
    let rules = settings();
    let (mut world, mut pool) = setup(&rules);
    assert!(world.is_well_formed());
    for _ in 0..20 {
        step(&mut world, &mut pool, &rules);
        assert!(world.is_well_formed());
    }
}
