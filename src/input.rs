use vstd::prelude::*;
use crate::direction::Direction;

verus! {

/// The eight logical actions of a controlled actor.
#[derive(Clone, Copy, Debug, PartialEq, Eq, Structural, Hash)]
pub enum PlayerAction {
    Up,
    Down,
    Left,
    Right,
    ActionUp,
    ActionDown,
    ActionLeft,
    ActionRight,
}

/// Where each action's state is kept in an `ActionState`.
pub open spec fn spec_action_index(a: PlayerAction) -> int {
    match a {
        PlayerAction::Up => 0,
        PlayerAction::Down => 1,
        PlayerAction::Left => 2,
        PlayerAction::Right => 3,
        PlayerAction::ActionUp => 4,
        PlayerAction::ActionDown => 5,
        PlayerAction::ActionLeft => 6,
        PlayerAction::ActionRight => 7,
    }
}

pub open spec fn is_directional(a: PlayerAction) -> bool {
    spec_action_index(a) < 4
}

impl PlayerAction {
    pub fn index(self) -> (r: usize)
        ensures
            r == spec_action_index(self),
            r < 8,
    {
        match self {
            PlayerAction::Up => 0,
            PlayerAction::Down => 1,
            PlayerAction::Left => 2,
            PlayerAction::Right => 3,
            PlayerAction::ActionUp => 4,
            PlayerAction::ActionDown => 5,
            PlayerAction::ActionLeft => 6,
            PlayerAction::ActionRight => 7,
        }
    }

    /// The unit direction of a directional action; the neutral direction for
    /// the others.
    pub fn direction(self) -> (r: Direction)
        ensures
            r.is_cardinal_sum(),
            r.x == (if self == PlayerAction::Right { 1int } else if self == PlayerAction::Left {
                -1int
            } else {
                0int
            }),
            r.z == (if self == PlayerAction::Down { 1int } else if self == PlayerAction::Up {
                -1int
            } else {
                0int
            }),
    {
        match self {
            PlayerAction::Up => Direction::up(),
            PlayerAction::Down => Direction::down(),
            PlayerAction::Left => Direction::left(),
            PlayerAction::Right => Direction::right(),
            _ => Direction::neutral(),
        }
    }
}

/// The state of one action: pressed or released, and whether that changed
/// during the current frame.
#[derive(Clone, Copy, Debug, PartialEq, Eq, Structural)]
pub enum ButtonState {
    JustPressed,
    Pressed,
    JustReleased,
    Released,
}

pub open spec fn is_down(b: ButtonState) -> bool {
    b == ButtonState::JustPressed || b == ButtonState::Pressed
}

/// Pressing a released button makes it just pressed; a held one stays as it is.
pub open spec fn pressed_state(b: ButtonState) -> ButtonState {
    if is_down(b) {
        b
    } else {
        ButtonState::JustPressed
    }
}

/// Releasing a held button makes it just released; a released one stays as it is.
pub open spec fn released_state(b: ButtonState) -> ButtonState {
    if is_down(b) {
        ButtonState::JustReleased
    } else {
        b
    }
}

/// A new frame: the changes of the last one are no longer news.
pub open spec fn ticked_state(b: ButtonState) -> ButtonState {
    match b {
        ButtonState::JustPressed => ButtonState::Pressed,
        ButtonState::JustReleased => ButtonState::Released,
        _ => b,
    }
}

/// The state of all eight actions of one actor, by `PlayerAction::index`.
pub struct ActionState {
    pub buttons: Vec<ButtonState>,
}

impl ActionState {
    pub open spec fn wf(&self) -> bool {
        self.buttons@.len() == 8
    }

    pub open spec fn state_of(&self, a: PlayerAction) -> ButtonState {
        self.buttons@[spec_action_index(a)]
    }

    /// All actions released.
    pub fn new() -> (r: ActionState)
        ensures
            r.wf(),
            forall|i: int| 0 <= i < 8 ==> r.buttons@[i] == ButtonState::Released,
    {
        ActionState { buttons: vec![ButtonState::Released; 8] }
    }

    pub fn state(&self, a: PlayerAction) -> (r: ButtonState)
        requires
            self.wf(),
        ensures
            r == self.state_of(a),
    {
        self.buttons[a.index()]
    }

    /// Held down (whether or not that began this frame).
    pub fn pressed(&self, a: PlayerAction) -> (r: bool)
        requires
            self.wf(),
        ensures
            r == is_down(self.state_of(a)),
    {
        let b = self.buttons[a.index()];
        b == ButtonState::JustPressed || b == ButtonState::Pressed
    }

    /// Went down during this frame.
    pub fn just_pressed(&self, a: PlayerAction) -> (r: bool)
        requires
            self.wf(),
        ensures
            r == (self.state_of(a) == ButtonState::JustPressed),
    {
        self.buttons[a.index()] == ButtonState::JustPressed
    }

    pub fn press(&mut self, a: PlayerAction)
        requires
            old(self).wf(),
        ensures
            final(self).wf(),
            final(self).buttons@ == old(self).buttons@.update(
                spec_action_index(a),
                pressed_state(old(self).state_of(a)),
            ),
    {
        let i = a.index();
        let b = self.buttons[i];
        if !(b == ButtonState::JustPressed || b == ButtonState::Pressed) {
            self.buttons[i] = ButtonState::JustPressed;
        }
        proof {
            assert(final(self).buttons@ =~= old(self).buttons@.update(
                spec_action_index(a),
                pressed_state(old(self).state_of(a)),
            ));
        }
    }

    pub fn release(&mut self, a: PlayerAction)
        requires
            old(self).wf(),
        ensures
            final(self).wf(),
            final(self).buttons@ == old(self).buttons@.update(
                spec_action_index(a),
                released_state(old(self).state_of(a)),
            ),
    {
        let i = a.index();
        let b = self.buttons[i];
        if b == ButtonState::JustPressed || b == ButtonState::Pressed {
            self.buttons[i] = ButtonState::JustReleased;
        }
        proof {
            assert(final(self).buttons@ =~= old(self).buttons@.update(
                spec_action_index(a),
                released_state(old(self).state_of(a)),
            ));
        }
    }

    /// Starts a new frame: just-pressed becomes pressed, just-released
    /// becomes released.
    pub fn tick(&mut self)
        requires
            old(self).wf(),
        ensures
            final(self).wf(),
            forall|i: int|
                0 <= i < 8 ==> #[trigger] final(self).buttons@[i] == ticked_state(
                    old(self).buttons@[i],
                ),
    {
        let mut i: usize = 0;
        while i < 8
            invariant
                self.wf(),
                0 <= i <= 8,
                forall|j: int| 0 <= j < i ==> self.buttons@[j] == ticked_state(old(self).buttons@[j]),
                forall|j: int| i <= j < 8 ==> self.buttons@[j] == old(self).buttons@[j],
            decreases 8 - i,
        {
            let b = self.buttons[i];
            let n = match b {
                ButtonState::JustPressed => ButtonState::Pressed,
                ButtonState::JustReleased => ButtonState::Released,
                _ => b,
            };
            self.buttons[i] = n;
            i = i + 1;
        }
    }
}

/// A keyboard key that a binding can name.
#[derive(Clone, Copy, Debug, PartialEq, Eq, Structural, Hash)]
pub enum Key {
    W,
    Z,
    S,
    A,
    Q,
    D,
    I,
    K,
    J,
    L,
}

/// A gamepad button that a binding can name.
#[derive(Clone, Copy, Debug, PartialEq, Eq, Structural, Hash)]
pub enum PadButton {
    DPadUp,
    DPadDown,
    DPadLeft,
    DPadRight,
    North,
    South,
    West,
    East,
}

/// A physical input that drives an action.
#[derive(Clone, Copy, Debug, PartialEq, Eq, Structural, Hash)]
pub enum InputBinding {
    Key(Key),
    Pad(PadButton),
}

/// Which physical inputs drive which actions, and which gamepad is read.
pub struct InputMap {
    pub gamepad: u64,
    pub bindings: Vec<(InputBinding, PlayerAction)>,
}

/// The default layout: WASD (and ZQSD) or the d-pad move; IJKL or the face
/// buttons act.
pub open spec fn default_bindings() -> Seq<(InputBinding, PlayerAction)> {
    seq![
        (InputBinding::Key(Key::W), PlayerAction::Up),
        (InputBinding::Key(Key::Z), PlayerAction::Up),
        (InputBinding::Pad(PadButton::DPadUp), PlayerAction::Up),
        (InputBinding::Key(Key::S), PlayerAction::Down),
        (InputBinding::Pad(PadButton::DPadDown), PlayerAction::Down),
        (InputBinding::Key(Key::A), PlayerAction::Left),
        (InputBinding::Key(Key::Q), PlayerAction::Left),
        (InputBinding::Pad(PadButton::DPadLeft), PlayerAction::Left),
        (InputBinding::Key(Key::D), PlayerAction::Right),
        (InputBinding::Pad(PadButton::DPadRight), PlayerAction::Right),
        (InputBinding::Key(Key::I), PlayerAction::ActionUp),
        (InputBinding::Pad(PadButton::North), PlayerAction::ActionUp),
        (InputBinding::Key(Key::K), PlayerAction::ActionDown),
        (InputBinding::Pad(PadButton::South), PlayerAction::ActionDown),
        (InputBinding::Key(Key::J), PlayerAction::ActionLeft),
        (InputBinding::Pad(PadButton::West), PlayerAction::ActionLeft),
        (InputBinding::Key(Key::L), PlayerAction::ActionRight),
        (InputBinding::Pad(PadButton::East), PlayerAction::ActionRight),
    ]
}

/// The default layout, read from the first gamepad.
pub fn default_input_map() -> (r: InputMap)
    ensures
        r.gamepad == 0,
        r.bindings@ == default_bindings(),
{
    let mut b: Vec<(InputBinding, PlayerAction)> = Vec::new();
    b.push((InputBinding::Key(Key::W), PlayerAction::Up));
    b.push((InputBinding::Key(Key::Z), PlayerAction::Up));
    b.push((InputBinding::Pad(PadButton::DPadUp), PlayerAction::Up));
    b.push((InputBinding::Key(Key::S), PlayerAction::Down));
    b.push((InputBinding::Pad(PadButton::DPadDown), PlayerAction::Down));
    b.push((InputBinding::Key(Key::A), PlayerAction::Left));
    b.push((InputBinding::Key(Key::Q), PlayerAction::Left));
    b.push((InputBinding::Pad(PadButton::DPadLeft), PlayerAction::Left));
    b.push((InputBinding::Key(Key::D), PlayerAction::Right));
    b.push((InputBinding::Pad(PadButton::DPadRight), PlayerAction::Right));
    b.push((InputBinding::Key(Key::I), PlayerAction::ActionUp));
    b.push((InputBinding::Pad(PadButton::North), PlayerAction::ActionUp));
    b.push((InputBinding::Key(Key::K), PlayerAction::ActionDown));
    b.push((InputBinding::Pad(PadButton::South), PlayerAction::ActionDown));
    b.push((InputBinding::Key(Key::J), PlayerAction::ActionLeft));
    b.push((InputBinding::Pad(PadButton::West), PlayerAction::ActionLeft));
    b.push((InputBinding::Key(Key::L), PlayerAction::ActionRight));
    b.push((InputBinding::Pad(PadButton::East), PlayerAction::ActionRight));
    assert(b@ =~= default_bindings());
    InputMap { gamepad: 0, bindings: b }
}

/// The actions that input `i` drives under `map`, in binding order.
pub fn actions_for(map: &InputMap, i: InputBinding) -> (r: Vec<PlayerAction>)
    ensures
        r@ == map.bindings@.filter(|b: (InputBinding, PlayerAction)| b.0 == i).map_values(
            |b: (InputBinding, PlayerAction)| b.1,
        ),
{
    let mut r: Vec<PlayerAction> = Vec::new();
    let mut k: usize = 0;
    while k < map.bindings.len()
        invariant
            0 <= k <= map.bindings@.len(),
            r@ == map.bindings@.subrange(0, k as int).filter(
                |b: (InputBinding, PlayerAction)| b.0 == i,
            ).map_values(|b: (InputBinding, PlayerAction)| b.1),
        decreases map.bindings@.len() - k,
    {
        let b = map.bindings[k];
        proof {
            let s = map.bindings@.subrange(0, k + 1);
            assert(s.drop_last() =~= map.bindings@.subrange(0, k as int));
            reveal(Seq::filter);
        }
        if b.0 == i {
            r.push(b.1);
        }
        k = k + 1;
        proof {
            assert(r@ =~= map.bindings@.subrange(0, k as int).filter(
                |b: (InputBinding, PlayerAction)| b.0 == i,
            ).map_values(|b: (InputBinding, PlayerAction)| b.1));
        }
    }
    assert(map.bindings@.subrange(0, map.bindings@.len() as int) =~= map.bindings@);
    r
}

/// A button as an external controller reports it.
#[derive(Clone, Copy, Debug, PartialEq, Eq, Structural, Hash)]
pub enum GameButton {
    Up,
    Down,
    Left,
    Right,
    ActionUp,
    ActionDown,
    ActionLeft,
    ActionRight,
}

pub open spec fn button_of(a: PlayerAction) -> GameButton {
    match a {
        PlayerAction::Up => GameButton::Up,
        PlayerAction::Down => GameButton::Down,
        PlayerAction::Left => GameButton::Left,
        PlayerAction::Right => GameButton::Right,
        PlayerAction::ActionUp => GameButton::ActionUp,
        PlayerAction::ActionDown => GameButton::ActionDown,
        PlayerAction::ActionLeft => GameButton::ActionLeft,
        PlayerAction::ActionRight => GameButton::ActionRight,
    }
}

fn button_for(a: PlayerAction) -> (r: GameButton)
    ensures
        r == button_of(a),
{
    match a {
        PlayerAction::Up => GameButton::Up,
        PlayerAction::Down => GameButton::Down,
        PlayerAction::Left => GameButton::Left,
        PlayerAction::Right => GameButton::Right,
        PlayerAction::ActionUp => GameButton::ActionUp,
        PlayerAction::ActionDown => GameButton::ActionDown,
        PlayerAction::ActionLeft => GameButton::ActionLeft,
        PlayerAction::ActionRight => GameButton::ActionRight,
    }
}

/// One controller's report for a frame: the buttons held, and the buttons
/// that went down since the last report.
pub struct ControllerReport {
    pub pressed: Vec<GameButton>,
    pub just_pressed: Vec<GameButton>,
}

/// What one report's held buttons do to an action's state. A directional
/// action is released and pressed again while held, so it follows the
/// controller exactly; another action is pressed while held and released
/// otherwise.
pub open spec fn level_state(b: ButtonState, directional: bool, held: bool) -> ButtonState {
    if directional {
        if held {
            pressed_state(released_state(b))
        } else {
            released_state(b)
        }
    } else if held {
        pressed_state(b)
    } else {
        released_state(b)
    }
}

/// What one report's edges do to an action's state: a reported edge on an
/// action button always shows as a fresh press, even when the button was
/// already held. Edges on directional buttons are not used.
pub open spec fn edge_state(b: ButtonState, directional: bool, edge: bool) -> ButtonState {
    if !directional && edge {
        pressed_state(released_state(b))
    } else {
        b
    }
}

/// The state of action `a` after the held buttons of `reports`, in order.
pub open spec fn levels_folded(
    b: ButtonState,
    a: PlayerAction,
    reports: Seq<ControllerReport>,
) -> ButtonState
    decreases reports.len(),
{
    if reports.len() == 0 {
        b
    } else {
        level_state(
            levels_folded(b, a, reports.drop_last()),
            is_directional(a),
            reports.last().pressed@.contains(button_of(a)),
        )
    }
}

/// The state of action `a` after the edges of `reports`, in order.
pub open spec fn edges_folded(
    b: ButtonState,
    a: PlayerAction,
    reports: Seq<ControllerReport>,
) -> ButtonState
    decreases reports.len(),
{
    if reports.len() == 0 {
        b
    } else {
        edge_state(
            edges_folded(b, a, reports.drop_last()),
            is_directional(a),
            reports.last().just_pressed@.contains(button_of(a)),
        )
    }
}

/// What the controllers' reports of a frame make of action `a`: first the
/// held buttons of every report, then the edges of every report, so that no
/// report's held state hides another report's edge.
pub open spec fn controllers_folded(
    b: ButtonState,
    a: PlayerAction,
    reports: Seq<ControllerReport>,
) -> ButtonState {
    edges_folded(levels_folded(b, a, reports), a, reports)
}

fn has_button(v: &Vec<GameButton>, b: GameButton) -> (r: bool)
    ensures
        r == v@.contains(b),
{
    let mut i: usize = 0;
    while i < v.len()
        invariant
            0 <= i <= v@.len(),
            forall|j: int| 0 <= j < i ==> v@[j] != b,
        decreases v@.len() - i,
    {
        if v[i] == b {
            return true;
        }
        i = i + 1;
    }
    false
}

impl ActionState {
    fn level_action(&mut self, a: PlayerAction, report: &ControllerReport)
        requires
            old(self).wf(),
        ensures
            final(self).wf(),
            final(self).buttons@ == old(self).buttons@.update(
                spec_action_index(a),
                level_state(
                    old(self).state_of(a),
                    is_directional(a),
                    report.pressed@.contains(button_of(a)),
                ),
            ),
    {
        let held = has_button(&report.pressed, button_for(a));
        if a.index() < 4 {
            self.release(a);
            if held {
                self.press(a);
            }
        } else if held {
            self.press(a);
        } else {
            self.release(a);
        }
        proof {
            assert(final(self).buttons@ =~= old(self).buttons@.update(
                spec_action_index(a),
                level_state(
                    old(self).state_of(a),
                    is_directional(a),
                    report.pressed@.contains(button_of(a)),
                ),
            ));
        }
    }

    fn edge_action(&mut self, a: PlayerAction, report: &ControllerReport)
        requires
            old(self).wf(),
        ensures
            final(self).wf(),
            final(self).buttons@ == old(self).buttons@.update(
                spec_action_index(a),
                edge_state(
                    old(self).state_of(a),
                    is_directional(a),
                    report.just_pressed@.contains(button_of(a)),
                ),
            ),
    {
        let edge = has_button(&report.just_pressed, button_for(a));
        if a.index() >= 4 && edge {
            self.release(a);
            self.press(a);
        }
        proof {
            assert(final(self).buttons@ =~= old(self).buttons@.update(
                spec_action_index(a),
                edge_state(
                    old(self).state_of(a),
                    is_directional(a),
                    report.just_pressed@.contains(button_of(a)),
                ),
            ));
        }
    }

    /// Applies one report's held buttons.
    pub fn apply_levels(&mut self, report: &ControllerReport)
        requires
            old(self).wf(),
        ensures
            final(self).wf(),
            forall|a: PlayerAction|
                #[trigger] final(self).state_of(a) == level_state(
                    old(self).state_of(a),
                    is_directional(a),
                    report.pressed@.contains(button_of(a)),
                ),
    {
        self.level_action(PlayerAction::Left, report);
        self.level_action(PlayerAction::Right, report);
        self.level_action(PlayerAction::Up, report);
        self.level_action(PlayerAction::Down, report);
        self.level_action(PlayerAction::ActionDown, report);
        self.level_action(PlayerAction::ActionUp, report);
        self.level_action(PlayerAction::ActionLeft, report);
        self.level_action(PlayerAction::ActionRight, report);
    }

    /// Applies one report's edges.
    pub fn apply_edges(&mut self, report: &ControllerReport)
        requires
            old(self).wf(),
        ensures
            final(self).wf(),
            forall|a: PlayerAction|
                #[trigger] final(self).state_of(a) == edge_state(
                    old(self).state_of(a),
                    is_directional(a),
                    report.just_pressed@.contains(button_of(a)),
                ),
    {
        self.edge_action(PlayerAction::ActionUp, report);
        self.edge_action(PlayerAction::ActionDown, report);
        self.edge_action(PlayerAction::ActionRight, report);
        self.edge_action(PlayerAction::ActionLeft, report);
        self.edge_action(PlayerAction::Left, report);
        self.edge_action(PlayerAction::Right, report);
        self.edge_action(PlayerAction::Up, report);
        self.edge_action(PlayerAction::Down, report);
    }
}

/// Folds the controllers' reports of a frame into an actor's action state,
/// so that a press on a controller and one on the keyboard look alike
/// downstream: first the held buttons of every report, then the edges of
/// every report.
pub fn handle_controllers(state: &mut ActionState, reports: &Vec<ControllerReport>)
    requires
        old(state).wf(),
    ensures
        final(state).wf(),
        forall|a: PlayerAction|
            #[trigger] final(state).state_of(a) == controllers_folded(
                old(state).state_of(a),
                a,
                reports@,
            ),
{
    let ghost start = *state;
    let mut i: usize = 0;
    while i < reports.len()
        invariant
            state.wf(),
            0 <= i <= reports@.len(),
            forall|a: PlayerAction|
                #[trigger] state.state_of(a) == levels_folded(
                    start.state_of(a),
                    a,
                    reports@.subrange(0, i as int),
                ),
        decreases reports@.len() - i,
    {
        state.apply_levels(&reports[i]);
        proof {
            assert(reports@.subrange(0, i + 1).drop_last() =~= reports@.subrange(0, i as int));
        }
        i = i + 1;
    }
    assert(reports@.subrange(0, reports@.len() as int) =~= reports@);
    let ghost levelled = *state;
    let mut j: usize = 0;
    while j < reports.len()
        invariant
            state.wf(),
            0 <= j <= reports@.len(),
            forall|a: PlayerAction|
                #[trigger] levelled.state_of(a) == levels_folded(start.state_of(a), a, reports@),
            forall|a: PlayerAction|
                #[trigger] state.state_of(a) == edges_folded(
                    levelled.state_of(a),
                    a,
                    reports@.subrange(0, j as int),
                ),
        decreases reports@.len() - j,
    {
        state.apply_edges(&reports[j]);
        proof {
            assert(reports@.subrange(0, j + 1).drop_last() =~= reports@.subrange(0, j as int));
        }
        j = j + 1;
    }
    assert(reports@.subrange(0, reports@.len() as int) =~= reports@);
}

/// The combined direction of the held directional actions, if it is not
/// neutral: right minus left across, down minus up along.
pub open spec fn spec_movement_intent(s: ActionState) -> Option<Direction> {
    let x = (if is_down(s.state_of(PlayerAction::Right)) { 1int } else { 0int }) - (if is_down(
        s.state_of(PlayerAction::Left),
    ) {
        1int
    } else {
        0int
    });
    let z = (if is_down(s.state_of(PlayerAction::Down)) { 1int } else { 0int }) - (if is_down(
        s.state_of(PlayerAction::Up),
    ) {
        1int
    } else {
        0int
    });
    if x == 0 && z == 0 {
        None
    } else {
        Some(Direction { x: x as i8, z: z as i8 })
    }
}

/// Sums the held directional actions into one direction; `None` when they
/// cancel out or none is held.
pub fn movement_intent(state: &ActionState) -> (r: Option<Direction>)
    requires
        state.wf(),
    ensures
        r == spec_movement_intent(*state),
        r matches Some(d) ==> d.is_cardinal_sum() && !d.spec_is_neutral(),
{
    let mut direction = Direction::neutral();
    if state.pressed(PlayerAction::Up) {
        direction = direction.add(PlayerAction::Up.direction());
    }
    if state.pressed(PlayerAction::Down) {
        direction = direction.add(PlayerAction::Down.direction());
    }
    if state.pressed(PlayerAction::Left) {
        direction = direction.add(PlayerAction::Left.direction());
    }
    if state.pressed(PlayerAction::Right) {
        direction = direction.add(PlayerAction::Right.direction());
    }
    if direction.is_neutral() {
        None
    } else {
        Some(direction)
    }
}

} // verus!
