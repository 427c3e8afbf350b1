use scene_core::direction::Direction;
use scene_core::input::{
    actions_for, default_input_map, handle_controllers, movement_intent, ActionState, ButtonState,
    ControllerReport, GameButton, InputBinding, Key, PadButton, PlayerAction,
};
use scene_core::player::{handle_input, Movement, PlayerBundle, PlayerMoveEvent};

fn report(pressed: Vec<GameButton>, just_pressed: Vec<GameButton>) -> ControllerReport {
    ControllerReport { pressed, just_pressed }
}

#[test]
fn press_release_tick() {
    let mut s = ActionState::new();
    assert!(!s.pressed(PlayerAction::Up));
    s.press(PlayerAction::Up);
    assert_eq!(s.state(PlayerAction::Up), ButtonState::JustPressed);
    assert!(s.just_pressed(PlayerAction::Up));
    s.press(PlayerAction::Up);
    assert_eq!(s.state(PlayerAction::Up), ButtonState::JustPressed);
    s.tick();
    assert_eq!(s.state(PlayerAction::Up), ButtonState::Pressed);
    assert!(s.pressed(PlayerAction::Up));
    assert!(!s.just_pressed(PlayerAction::Up));
    s.release(PlayerAction::Up);
    assert_eq!(s.state(PlayerAction::Up), ButtonState::JustReleased);
    s.tick();
    assert_eq!(s.state(PlayerAction::Up), ButtonState::Released);
}

#[test]
fn combined_directions() {
    let mut s = ActionState::new();
    assert_eq!(movement_intent(&s), None);
    s.press(PlayerAction::Up);
    assert_eq!(movement_intent(&s), Some(Direction::up()));
    s.press(PlayerAction::Right);
    assert_eq!(movement_intent(&s), Some(Direction { x: 1, z: -1 }));
    s.press(PlayerAction::Down);
    assert_eq!(movement_intent(&s), Some(Direction::right()));
    s.press(PlayerAction::Left);
    assert_eq!(movement_intent(&s), None);
    s.press(PlayerAction::ActionUp);
    assert_eq!(movement_intent(&s), None);
}

#[test]
fn handle_input_sends_one_event() {
    let mut s = ActionState::new();
    let mut events: Vec<PlayerMoveEvent> = Vec::new();
    handle_input(4, &s, &mut events);
    assert!(events.is_empty());
    s.press(PlayerAction::Left);
    handle_input(4, &s, &mut events);
    assert_eq!(events, vec![PlayerMoveEvent { entity: 4, movement: Movement::Normal(Direction::left()) }]);
}

#[test]
fn controller_buttons_fold_into_actions() {
    let mut s = ActionState::new();
    s.tick();
    handle_controllers(&mut s, &vec![report(vec![GameButton::Up, GameButton::ActionDown], vec![])]);
    assert!(s.pressed(PlayerAction::Up));
    assert!(s.pressed(PlayerAction::ActionDown));
    assert!(!s.pressed(PlayerAction::Down));
    assert_eq!(movement_intent(&s), Some(Direction::up()));
    s.tick();
    handle_controllers(&mut s, &vec![report(vec![GameButton::ActionDown], vec![])]);
    assert!(!s.pressed(PlayerAction::Up));
    assert_eq!(s.state(PlayerAction::Up), ButtonState::JustReleased);
    assert_eq!(s.state(PlayerAction::ActionDown), ButtonState::Pressed);
}

#[test]
fn controller_edge_shows_as_fresh_press() {
    let mut s = ActionState::new();
    handle_controllers(&mut s, &vec![report(vec![GameButton::ActionUp], vec![])]);
    s.tick();
    assert!(!s.just_pressed(PlayerAction::ActionUp));
    handle_controllers(&mut s, &vec![report(vec![GameButton::ActionUp], vec![GameButton::ActionUp])]);
    assert!(s.just_pressed(PlayerAction::ActionUp));
    s.tick();
    handle_controllers(&mut s, &vec![report(vec![], vec![GameButton::ActionLeft])]);
    assert!(s.just_pressed(PlayerAction::ActionLeft));
    assert!(!s.pressed(PlayerAction::ActionUp));
}

#[test]
fn default_bindings_layout() {
    let m = default_input_map();
    assert_eq!(m.gamepad, 0);
    assert_eq!(m.bindings.len(), 18);
    assert_eq!(actions_for(&m, InputBinding::Key(Key::W)), vec![PlayerAction::Up]);
    assert_eq!(actions_for(&m, InputBinding::Key(Key::Q)), vec![PlayerAction::Left]);
    assert_eq!(actions_for(&m, InputBinding::Pad(PadButton::East)), vec![PlayerAction::ActionRight]);
}

#[test]
fn action_directions() {
    assert_eq!(PlayerAction::Up.direction(), Direction::up());
    assert_eq!(PlayerAction::Right.direction(), Direction { x: 1, z: 0 });
    assert!(PlayerAction::ActionDown.direction().is_neutral());
    assert_eq!(PlayerAction::ActionRight.index(), 7);
}

#[test]
fn bundle_starts_released() {
    let b = PlayerBundle::new();
    assert!(!b.action_state.pressed(PlayerAction::Up));
    assert_eq!(b.input_map.bindings.len(), 18);
    assert_eq!(b.player.speed, 40_000_000);
}

#[test]
fn edge_survives_a_later_controller() {
    let mut s = ActionState::new();
    handle_controllers(
        &mut s,
        &vec![report(vec![], vec![GameButton::ActionUp]), report(vec![], vec![])],
    );
    assert!(s.just_pressed(PlayerAction::ActionUp));
    assert!(s.pressed(PlayerAction::ActionUp));
}

#[test]
fn held_on_one_controller_edge_on_another() {
    let mut s = ActionState::new();
    handle_controllers(&mut s, &vec![report(vec![GameButton::ActionDown], vec![])]);
    s.tick();
    handle_controllers(
        &mut s,
        &vec![report(vec![GameButton::ActionDown], vec![]), report(vec![], vec![GameButton::ActionDown])],
    );
    assert!(s.just_pressed(PlayerAction::ActionDown));
}

#[test]
fn bundle_tuning() {
    let b = PlayerBundle::new();
    assert_eq!(b.player.friction, 100_000);
    assert_eq!(b.player.rotation_speed, 1_000_000);
    assert!(b.player.random >= 500_000 && b.player.random < 1_000_000);
}
