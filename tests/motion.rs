use scene_core::direction::{Direction, UNIT};
use scene_core::fixed::{ceil_sqrt, scale_toward_zero};
use scene_core::motion::{
    accelerate, clamp_length_max, decay_velocity, step_player, Player, Transform, Vec3,
    DECAY_ONE, TIME_ONE,
};
use scene_core::player::{first_intents, intent_for, move_player, Actor, Movement, PlayerMoveEvent};

const FRAME: u64 = 16_667;

fn decay_for(friction: u64, dt: u64) -> u64 {
    let f = friction as f64 / DECAY_ONE as f64;
    (f.powf(dt as f64 / TIME_ONE as f64) * DECAY_ONE as f64) as u64
}

fn origin() -> Transform {
    Transform { translation: Vec3 { x: 0, y: 0, z: 0 }, heading_x: UNIT, heading_z: 0 }
}

fn at_rest() -> Player {
    let mut p = Player::new();
    p.velocity = Vec3 { x: 0, y: 0, z: 0 };
    p
}

fn len2(v: Vec3) -> i128 {
    (v.x as i128) * (v.x as i128) + (v.y as i128) * (v.y as i128) + (v.z as i128) * (v.z as i128)
}

#[test]
fn new_player_has_default_tuning() {
    let p = Player::new();
    assert_eq!(p.speed, 40 * UNIT);
    assert_eq!(p.friction, 100_000);
    assert_eq!(p.rotation_speed, TIME_ONE);
    assert_eq!(p.velocity, Vec3 { x: 0, y: 0, z: 0 });
    assert!(p.random >= 500_000 && p.random < 1_000_000);
}

#[test]
fn steady_up_intent_approaches_top_speed() {
    let mut p = at_rest();
    let mut t = origin();
    let decay = decay_for(p.friction, FRAME);
    let mut last_speed: i128 = 0;
    let mut last_z: i64 = 0;
    for _ in 0..10 {
        step_player(&mut p, &mut t, Some(Direction::up()), decay, FRAME);
        assert_eq!(p.velocity.x, 0);
        assert!(p.velocity.z < 0);
        assert!(len2(p.velocity) <= (40 * UNIT as i128) * (40 * UNIT as i128));
        assert!(len2(p.velocity) > last_speed);
        assert!(t.translation.z < last_z);
        last_speed = len2(p.velocity);
        last_z = t.translation.z;
    }
}

#[test]
fn one_frame_from_rest_exact_values() {
    let mut p = at_rest();
    let mut t = origin();
    step_player(&mut p, &mut t, Some(Direction::up()), 962_351, FRAME);
    assert_eq!(p.velocity, Vec3 { x: 0, y: 0, z: -666_680 });
    assert_eq!(t.translation, Vec3 { x: 0, y: 0, z: -11_111 });
    assert_eq!((t.heading_x, t.heading_z), (999_855, -16_947));
}

#[test]
fn coasting_slows_down() {
    let v = Vec3 { x: 0, y: 0, z: -1_000_000 };
    let r = decay_velocity(v, 962_351, 40 * UNIT);
    assert_eq!(r, Vec3 { x: 0, y: 0, z: -962_351 });
    let mut p = at_rest();
    p.velocity = Vec3 { x: 3_000_000, y: 0, z: -4_000_000 };
    let mut t = origin();
    let before = len2(p.velocity);
    let decay = decay_for(p.friction, FRAME);
    step_player(&mut p, &mut t, None, decay, FRAME);
    assert!(len2(p.velocity) < before);
}

#[test]
fn at_rest_without_intent_stays_put() {
    let mut p = at_rest();
    let mut t = Transform { translation: Vec3 { x: 5, y: 6, z: 7 }, heading_x: 0, heading_z: -3 };
    step_player(&mut p, &mut t, None, 962_351, FRAME);
    assert_eq!(t.translation, Vec3 { x: 5, y: 6, z: 7 });
    assert_eq!(p.velocity, Vec3 { x: 0, y: 0, z: 0 });
    assert_eq!((t.heading_x, t.heading_z), (0, -3));
}

#[test]
fn clamp_caps_at_top_speed() {
    let mut p = at_rest();
    p.velocity = Vec3 { x: 0, y: 0, z: -40 * UNIT };
    let mut t = origin();
    step_player(&mut p, &mut t, Some(Direction::up()), DECAY_ONE - 1, FRAME);
    assert_eq!(p.velocity, Vec3 { x: 0, y: 0, z: -40 * UNIT });
    let c = clamp_length_max(Vec3 { x: 30, y: 0, z: 40 }, 10);
    assert_eq!(c, Vec3 { x: 6, y: 0, z: 8 });
    let same = clamp_length_max(Vec3 { x: 3, y: 0, z: 4 }, 10);
    assert_eq!(same, Vec3 { x: 3, y: 0, z: 4 });
}

#[test]
fn accelerate_along_diagonal() {
    let d = Direction::up().add(Direction::right());
    assert_eq!(d.normalize_or_zero(), (707_106, -707_106));
    let far = Direction { x: 3, z: 4 };
    assert_eq!(far.normalize_or_zero(), (600_000, 800_000));
    let v = accelerate(Vec3 { x: 0, y: 0, z: 0 }, d, 40 * UNIT, TIME_ONE / 2);
    assert_eq!(v, Vec3 { x: 14_142_120, y: 0, z: -14_142_120 });
}

#[test]
fn neutral_direction_normalizes_to_zero() {
    let d = Direction::up().add(Direction::down());
    assert!(d.is_neutral());
    assert_eq!(d.normalize_or_zero(), (0, 0));
    assert_eq!(Direction::left().normalize_or_zero(), (-UNIT, 0));
}

#[test]
fn slow_actor_keeps_heading() {
    let mut p = at_rest();
    p.velocity = Vec3 { x: 400_000, y: 0, z: 0 };
    let mut t = Transform { translation: Vec3 { x: 0, y: 0, z: 0 }, heading_x: 0, heading_z: 9 };
    step_player(&mut p, &mut t, None, 962_351, FRAME);
    assert_eq!((t.heading_x, t.heading_z), (0, 9));
}

#[test]
fn full_turn_toward_motion() {
    let mut p = at_rest();
    p.rotation_speed = 100 * TIME_ONE;
    p.velocity = Vec3 { x: 10 * UNIT, y: 0, z: 0 };
    let mut t = Transform { translation: Vec3 { x: 0, y: 0, z: 0 }, heading_x: 0, heading_z: 9 };
    step_player(&mut p, &mut t, None, DECAY_ONE - 1, TIME_ONE / 10);
    assert_eq!(p.velocity, Vec3 { x: 9_999_990, y: 0, z: 0 });
    assert_eq!((t.heading_x, t.heading_z), (1_000_000, 0));
}

#[test]
fn fixed_point_helpers() {
    assert_eq!(scale_toward_zero(-7, 1, 2), -3);
    assert_eq!(scale_toward_zero(7, 1, 2), 3);
    assert_eq!(ceil_sqrt(0), 0);
    assert_eq!(ceil_sqrt(1), 1);
    assert_eq!(ceil_sqrt(2), 2);
    assert_eq!(ceil_sqrt(16), 4);
    assert_eq!(ceil_sqrt(17), 5);
    assert_eq!(ceil_sqrt(u64::MAX), 1 << 32);
}

fn ev(entity: u64, d: Direction) -> PlayerMoveEvent {
    PlayerMoveEvent { entity, movement: Movement::Normal(d) }
}

#[test]
fn first_intent_wins() {
    let events = vec![ev(7, Direction::up()), ev(3, Direction::left()), ev(7, Direction::down())];
    let firsts = first_intents(&events);
    assert_eq!(firsts, vec![ev(7, Direction::up()), ev(3, Direction::left())]);
    assert_eq!(intent_for(&events, 7), Some(Direction::up()));
    assert_eq!(intent_for(&events, 3), Some(Direction::left()));
    assert_eq!(intent_for(&events, 4), None);
}

#[test]
fn two_intents_same_frame_apply_first() {
    let mut actors = vec![
        Actor { entity: 7, player: at_rest(), transform: origin() },
        Actor { entity: 8, player: at_rest(), transform: origin() },
    ];
    let events = vec![ev(7, Direction::up()), ev(7, Direction::down())];
    move_player(&mut actors, &events, &vec![962_351, 962_351], FRAME);
    assert_eq!(actors[0].player.velocity, Vec3 { x: 0, y: 0, z: -666_680 });
    assert_eq!(actors[0].transform.translation.z, -11_111);
    assert_eq!(actors[1].player.velocity, Vec3 { x: 0, y: 0, z: 0 });
    assert_eq!(actors[1].transform.translation, Vec3 { x: 0, y: 0, z: 0 });
}

#[test]
fn zero_length_frame_changes_nothing() {
    let mut p = at_rest();
    p.velocity = Vec3 { x: 3_000_000, y: 0, z: -4_000_000 };
    let mut t = origin();
    step_player(&mut p, &mut t, None, DECAY_ONE, 0);
    assert_eq!(p.velocity, Vec3 { x: 3_000_000, y: 0, z: -4_000_000 });
    assert_eq!(t, origin());
}
