use predator_prey::boundary::{wiggle, window_collision};
use predator_prey::agent::{Agent, PreyStatus, Species};
use predator_prey::geometry::{in_detection_range, is_colliding, PositionSize, UNIT};
use predator_prey::numeric::{halfway, saturated, saturating_difference, saturating_sum};
use predator_prey::settings::Settings;
use predator_prey::steering::{avoid, integer_root, move_towards};
use predator_prey::world::World;

fn boxed(x: i32, y: i32, width: i32, height: i32) -> PositionSize {
    PositionSize { x, y, width, height }
}

fn arena(width: i32, height: i32) -> Settings {
    Settings {
        window_width: width,
        window_height: height,
        predator_population: 0,
        prey_population: 0,
        predator_speed: 2 * UNIT,
        prey_speed: UNIT,
        predator_life: 100,
        prey_life: 100,
        prey_energy_loss: 1,
        predator_energy_loss: 1,
        prey_idle_energy_gain: 1,
        predator_hunt_energy_gain: 500,
        prey_reproduction_energy: 50,
        predator_reproduction_energy: 50,
        prey_detection_range: 60 * UNIT,
        predator_detection_range: 60 * UNIT,
        default_dimensions: 10 * UNIT,
        environment_grow_rate: UNIT,
        environment_max: 1000,
        wiggle_when_hunted: false,
    }
}

fn prey_at(ordinal: u64, x: i32, y: i32) -> Agent {
    Agent {
        ordinal,
        species: Species::Prey(PreyStatus::Idle),
        body: boxed(x, y, 10, 10),
        life: 10,
        mortal: false,
        mating_target: None,
    }
}

#[test]
fn unit_is_a_power_of_two() {
    assert_eq!(UNIT, 1024);
}

#[test]
fn overlapping_boxes_collide() {
    assert!(is_colliding(&boxed(0, 0, 10, 10), &boxed(5, 5, 10, 10)));
    assert!(is_colliding(&boxed(5, 5, 10, 10), &boxed(0, 0, 10, 10)));
    assert!(is_colliding(&boxed(0, 0, 10, 10), &boxed(2, 2, 1, 1)));
}

#[test]
fn touching_edges_do_not_collide() {
    assert!(!is_colliding(&boxed(0, 0, 10, 10), &boxed(10, 0, 10, 10)));
    assert!(!is_colliding(&boxed(0, 0, 10, 10), &boxed(0, 10, 10, 10)));
    assert!(!is_colliding(&boxed(10, 10, 10, 10), &boxed(0, 0, 10, 10)));
    assert!(is_colliding(&boxed(0, 0, 10, 10), &boxed(9, 9, 10, 10)));
}

#[test]
fn distant_boxes_do_not_collide() {
    assert!(!is_colliding(&boxed(0, 0, 10, 10), &boxed(100, 0, 10, 10)));
    assert!(!is_colliding(&boxed(0, 0, 10, 10), &boxed(0, -100, 10, 10)));
}

#[test]
fn empty_box_collides_with_nothing_it_only_touches() {
    assert!(!is_colliding(&boxed(0, 0, 0, 0), &boxed(0, 0, 10, 10)));
    assert!(is_colliding(&boxed(1, 1, 0, 0), &boxed(0, 0, 10, 10)));
}

#[test]
fn collision_at_the_limits_of_the_plane() {
    let far = boxed(i32::MAX, i32::MAX, i32::MAX, i32::MAX);
    let near = boxed(i32::MIN, i32::MIN, i32::MAX, i32::MAX);
    assert!(!is_colliding(&far, &near));
    assert!(is_colliding(&far, &far));
}

#[test]
fn range_test_gives_squared_distance() {
    let a = boxed(0, 0, 1, 1);
    let b = boxed(3, 4, 1, 1);
    assert_eq!(in_detection_range(&a, &b, 5), (true, 25));
    assert_eq!(in_detection_range(&b, &a, 5), (true, 25));
    assert_eq!(in_detection_range(&a, &b, 4), (false, 25));
    assert_eq!(in_detection_range(&a, &b, 6), (true, 25));
}

#[test]
fn range_test_at_distance_zero() {
    let a = boxed(7, -7, 1, 1);
    assert_eq!(in_detection_range(&a, &a, 0), (true, 0));
}

#[test]
fn negative_radius_detects_nothing() {
    let a = boxed(0, 0, 1, 1);
    assert_eq!(in_detection_range(&a, &a, -1), (false, 0));
    assert_eq!(in_detection_range(&a, &boxed(1, 0, 1, 1), i32::MIN), (false, 1));
}

#[test]
fn range_test_across_the_whole_plane() {
    let a = boxed(i32::MIN, i32::MIN, 1, 1);
    let b = boxed(i32::MAX, i32::MAX, 1, 1);
    let side: u128 = 4294967295;
    assert_eq!(in_detection_range(&a, &b, i32::MAX), (false, 2 * side * side));
}

#[test]
fn integer_root_rounds_down() {
    assert_eq!(integer_root(0), 0);
    assert_eq!(integer_root(1), 1);
    assert_eq!(integer_root(3), 1);
    assert_eq!(integer_root(4), 2);
    assert_eq!(integer_root(15), 3);
    assert_eq!(integer_root(16), 4);
    assert_eq!(integer_root(17), 4);
    assert_eq!(integer_root(1 << 62), 1 << 31);
    assert_eq!(integer_root(u64::MAX), 4294967295);
}

#[test]
fn seek_along_an_axis() {
    let mut mover = boxed(0, 0, UNIT, UNIT);
    move_towards(&mut mover, &boxed(10 * UNIT, 0, UNIT, UNIT), 2 * UNIT);
    assert_eq!(mover, boxed(2 * UNIT, 0, UNIT, UNIT));
}

#[test]
fn seek_along_a_diagonal() {
    let mut mover = boxed(0, 0, 1, 1);
    move_towards(&mut mover, &boxed(3, 4, 1, 1), 5);
    assert_eq!(mover, boxed(3, 4, 1, 1));
    let mut other = boxed(0, 0, 1, 1);
    move_towards(&mut other, &boxed(-30, 40, 1, 1), 10);
    assert_eq!(other, boxed(-6, 8, 1, 1));
}

#[test]
fn step_components_are_cut_off_toward_zero() {
    let mut mover = boxed(0, 0, 1, 1);
    move_towards(&mut mover, &boxed(1, 1, 1, 1), 10);
    assert_eq!(mover, boxed(7, 7, 1, 1));
    let mut back = boxed(0, 0, 1, 1);
    move_towards(&mut back, &boxed(-1, -1, 1, 1), 10);
    assert_eq!(back, boxed(-7, -7, 1, 1));
}

#[test]
fn seek_may_overshoot_a_near_target() {
    let mut mover = boxed(0, 0, 1, 1);
    move_towards(&mut mover, &boxed(1, 0, 1, 1), 5);
    assert_eq!(mover, boxed(5, 0, 1, 1));
}

#[test]
fn flee_moves_directly_away() {
    let mut mover = boxed(0, 0, 1, 1);
    avoid(&mut mover, &boxed(3, 4, 1, 1), 5);
    assert_eq!(mover, boxed(-3, -4, 1, 1));
}

#[test]
fn step_on_a_shared_origin_goes_along_x() {
    let mut seeker = boxed(5, 5, 1, 1);
    move_towards(&mut seeker, &boxed(5, 5, 9, 9), 7);
    assert_eq!(seeker, boxed(12, 5, 1, 1));
    let mut fleer = boxed(5, 5, 1, 1);
    avoid(&mut fleer, &boxed(5, 5, 9, 9), 7);
    assert_eq!(fleer, boxed(-2, 5, 1, 1));
}

#[test]
fn negative_speed_reverses_the_step() {
    let mut mover = boxed(0, 0, 1, 1);
    move_towards(&mut mover, &boxed(3, 4, 1, 1), -5);
    assert_eq!(mover, boxed(-3, -4, 1, 1));
}

#[test]
fn zero_speed_stays_put() {
    let mut mover = boxed(9, 9, 1, 1);
    move_towards(&mut mover, &boxed(3, 4, 1, 1), 0);
    assert_eq!(mover, boxed(9, 9, 1, 1));
}

#[test]
fn steps_saturate_at_the_coordinate_limits() {
    let mut mover = boxed(i32::MAX - 1, 0, 1, 1);
    move_towards(&mut mover, &boxed(i32::MAX, 0, 1, 1), 10);
    assert_eq!(mover, boxed(i32::MAX, 0, 1, 1));
    let mut other = boxed(0, 0, 1, 1);
    avoid(&mut other, &boxed(1, 0, 1, 1), i32::MIN);
    assert_eq!(other, boxed(i32::MAX, 0, 1, 1));
    let mut third = boxed(i32::MIN, i32::MIN, 1, 1);
    move_towards(&mut third, &boxed(i32::MAX, i32::MAX, 1, 1), i32::MAX);
    assert_eq!(third, boxed(i32::MIN + 1518500249, i32::MIN + 1518500249, 1, 1));
}

#[test]
fn halfway_rounds_down() {
    assert_eq!(halfway(0, 10), 5);
    assert_eq!(halfway(0, 5), 2);
    assert_eq!(halfway(-5, 0), -3);
    assert_eq!(halfway(-3, 3), 0);
    assert_eq!(halfway(i32::MAX, i32::MAX), i32::MAX);
    assert_eq!(halfway(i32::MIN, i32::MIN), i32::MIN);
    assert_eq!(halfway(i32::MIN, i32::MAX), -1);
}

#[test]
fn sums_and_differences_saturate() {
    assert_eq!(saturating_sum(1, 2), 3);
    assert_eq!(saturating_sum(i32::MAX, 1), i32::MAX);
    assert_eq!(saturating_sum(i32::MIN, -1), i32::MIN);
    assert_eq!(saturating_difference(1, 2), -1);
    assert_eq!(saturating_difference(i32::MIN, 1), i32::MIN);
    assert_eq!(saturating_difference(i32::MAX, -1), i32::MAX);
    assert_eq!(saturating_difference(0, i32::MIN), i32::MAX);
    assert_eq!(saturated(5), 5);
    assert_eq!(saturated(i64::MAX), i32::MAX);
    assert_eq!(saturated(i64::MIN), i32::MIN);
    assert_eq!(saturated(i32::MAX as i64 + 1), i32::MAX);
}

#[test]
fn wiggle_moves_by_the_given_amounts() {
    let mut body = boxed(10, 20, 3, 4);
    wiggle(&mut body, -7, 5);
    assert_eq!(body, boxed(3, 25, 3, 4));
    let mut edge = boxed(i32::MAX, i32::MIN, 3, 4);
    wiggle(&mut edge, 1, -1);
    assert_eq!(edge, boxed(i32::MAX, i32::MIN, 3, 4));
}

#[test]
fn walls_hold_positions_inside_the_arena() {
    let settings = arena(800, 600);
    let mut world = World {
        agents: vec![prey_at(0, 1000, -1000), prey_at(1, -401, 301), prey_at(2, 400, -300), prey_at(3, 17, 18)],
        next_ordinal: 4,
    };
    window_collision(&mut world, &settings);
    assert_eq!(world.agents[0].body, boxed(400, -300, 10, 10));
    assert_eq!(world.agents[1].body, boxed(-400, 300, 10, 10));
    assert_eq!(world.agents[2].body, boxed(400, -300, 10, 10));
    assert_eq!(world.agents[3].body, boxed(17, 18, 10, 10));
    assert_eq!(world.next_ordinal, 4);
}

#[test]
fn walls_are_idempotent() {
    let settings = arena(801, 599);
    let mut world = World {
        agents: vec![prey_at(0, 1000, -1000), prey_at(1, -5000, 5000), prey_at(2, 3, 4)],
        next_ordinal: 3,
    };
    window_collision(&mut world, &settings);
    let once = world.agents.clone();
    assert_eq!(once[0].body, boxed(400, -299, 10, 10));
    assert_eq!(once[1].body, boxed(-400, 299, 10, 10));
    window_collision(&mut world, &settings);
    assert_eq!(world.agents, once);
}

#[test]
fn walls_of_a_negative_arena_pin_to_one_corner() {
    let settings = arena(-800, -600);
    let mut world = World { agents: vec![prey_at(0, 0, 0), prey_at(1, 1000, -1000)], next_ordinal: 2 };
    window_collision(&mut world, &settings);
    assert_eq!(world.agents[0].body, boxed(400, 300, 10, 10));
    assert_eq!(world.agents[1].body, boxed(400, 300, 10, 10));
    let once = world.agents.clone();
    window_collision(&mut world, &settings);
    assert_eq!(world.agents, once);
}

#[test]
fn walls_of_an_empty_arena_pin_to_the_centre() {
    let settings = arena(1, 0);
    let mut world = World { agents: vec![prey_at(0, 55, -55)], next_ordinal: 1 };
    window_collision(&mut world, &settings);
    assert_eq!(world.agents[0].body, boxed(0, 0, 10, 10));
}
