use vstd::prelude::*;
use crate::direction::{Direction, UNIT};
use crate::input::{
    default_bindings, default_input_map, movement_intent, spec_movement_intent,
    ActionState, ButtonState, InputMap, PlayerAction,
};
use crate::motion::{
    intent_ok, is_zero, next_transform, next_velocity, norm2, step_player, Player, Transform,
    DECAY_ONE, MAX_DT, RANDOM_LOW, TIME_ONE,
};

verus! {

/// How an actor wants to move this frame.
#[derive(Clone, Copy, Debug, PartialEq, Eq, Structural)]
pub enum Movement {
    Normal(Direction),
}

/// A movement intent: actor `entity` wants to move this frame.
#[derive(Clone, Copy, Debug, PartialEq, Eq, Structural)]
pub struct PlayerMoveEvent {
    pub entity: u64,
    pub movement: Movement,
}

pub open spec fn direction_of(e: PlayerMoveEvent) -> Direction {
    match e.movement {
        Movement::Normal(d) => d,
    }
}

/// The direction of the first event in `events` that names `entity`.
pub open spec fn first_intent(events: Seq<PlayerMoveEvent>, entity: u64) -> Option<Direction>
    decreases events.len(),
{
    if events.len() == 0 {
        None
    } else {
        match first_intent(events.drop_last(), entity) {
            Some(d) => Some(d),
            None => if events.last().entity == entity {
                Some(direction_of(events.last()))
            } else {
                None
            },
        }
    }
}

pub open spec fn entities_unique(events: Seq<PlayerMoveEvent>) -> bool {
    forall|i: int, j: int|
        0 <= i < j < events.len() ==> #[trigger] events[i].entity != #[trigger] events[j].entity
}

/// `e` is one of `events`.
pub open spec fn sent_in(events: Seq<PlayerMoveEvent>, e: PlayerMoveEvent) -> bool {
    exists|i: int| 0 <= i < events.len() && events[i] == e
}

pub open spec fn events_ok(events: Seq<PlayerMoveEvent>) -> bool {
    forall|i: int| 0 <= i < events.len() ==> #[trigger] direction_of(events[i]).wf()
}

proof fn lemma_first_intent_none(events: Seq<PlayerMoveEvent>, entity: u64)
    ensures
        first_intent(events, entity) is None <==> forall|i: int|
            0 <= i < events.len() ==> #[trigger] events[i].entity != entity,
    decreases events.len(),
{
    if events.len() > 0 {
        lemma_first_intent_none(events.drop_last(), entity);
        assert(forall|i: int|
            0 <= i < events.len() - 1 ==> #[trigger] events.drop_last()[i] == events[i]);
        assert(events.last() == events[events.len() - 1]);
        if first_intent(events, entity) is None {
            assert forall|i: int| 0 <= i < events.len() implies #[trigger] events[i].entity
                != entity by {
                if i < events.len() - 1 {
                    assert(events.drop_last()[i] == events[i]);
                }
            }
        }
    }
}

/// The intent found for an actor is the first one sent for it in the frame.
proof fn lemma_first_intent_is_first(events: Seq<PlayerMoveEvent>, entity: u64, i: int)
    requires
        0 <= i < events.len(),
        events[i].entity == entity,
        forall|k: int| 0 <= k < i ==> #[trigger] events[k].entity != entity,
    ensures
        first_intent(events, entity) == Some(direction_of(events[i])),
    decreases events.len(),
{
    if i < events.len() - 1 {
        lemma_first_intent_is_first(events.drop_last(), entity, i);
    } else {
        lemma_first_intent_none(events.drop_last(), entity);
        assert(forall|k: int|
            0 <= k < events.len() - 1 ==> #[trigger] events.drop_last()[k] == events[k]);
    }
}

/// Of two intents for one actor in one frame, the first one sent wins.
pub proof fn lemma_first_of_two_wins(events: Seq<PlayerMoveEvent>, i: int, j: int)
    requires
        0 <= i < j < events.len(),
        events[i].entity == events[j].entity,
        forall|k: int| 0 <= k < i ==> #[trigger] events[k].entity != events[i].entity,
    ensures
        first_intent(events, events[j].entity) == Some(direction_of(events[i])),
{
    lemma_first_intent_is_first(events, events[i].entity, i);
}

/// Collapses a frame's movement intents to one per actor, keeping the first
/// one sent for each, in the order they were sent.
pub fn first_intents(events: &Vec<PlayerMoveEvent>) -> (r: Vec<PlayerMoveEvent>)
    ensures
        entities_unique(r@),
        r@.len() <= events@.len(),
        forall|e: u64| #[trigger] first_intent(r@, e) == first_intent(events@, e),
        forall|k: int| 0 <= k < r@.len() ==> sent_in(events@, #[trigger] r@[k]),
{
    let mut r: Vec<PlayerMoveEvent> = Vec::new();
    let mut i: usize = 0;
    while i < events.len()
        invariant
            0 <= i <= events@.len(),
            entities_unique(r@),
            r@.len() <= i,
            forall|e: u64|
                #[trigger] first_intent(r@, e) == first_intent(events@.subrange(0, i as int), e),
            forall|k: int| 0 <= k < r@.len() ==> sent_in(events@, #[trigger] r@[k]),
        decreases events@.len() - i,
    {
        let ev = events[i];
        let found = intent_for(&r, ev.entity);
        let ghost old_r = r@;
        let ghost pre = events@.subrange(0, i as int);
        let ghost post = events@.subrange(0, i + 1);
        proof {
            assert(post.drop_last() =~= pre);
            assert(post.last() == ev);
        }
        proof {
            if found is Some {
                assert forall|e: u64| #[trigger] first_intent(r@, e) == first_intent(post, e) by {
                    assert(first_intent(old_r, e) == first_intent(pre, e));
                    assert(first_intent(old_r, ev.entity) == first_intent(pre, ev.entity));
                }
            }
        }
        if found.is_none() {
            r.push(ev);
            proof {
                assert(r@.drop_last() =~= old_r);
                assert forall|e: u64| #[trigger] first_intent(r@, e) == first_intent(post, e) by {
                    assert(first_intent(old_r, e) == first_intent(pre, e));
                }
                lemma_first_intent_none(old_r, ev.entity);
                assert forall|a: int, b: int|
                    0 <= a < b < r@.len() implies #[trigger] r@[a].entity != #[trigger] r@[b].entity by {
                    if b == r@.len() - 1 {
                        assert(old_r[a] == r@[a]);
                    } else {
                        assert(old_r[a] == r@[a] && old_r[b] == r@[b]);
                    }
                }
                assert forall|k: int| 0 <= k < r@.len() implies sent_in(events@, #[trigger] r@[k]) by {
                    if k == r@.len() - 1 {
                        assert(events@[i as int] == r@[k]);
                    } else {
                        assert(old_r[k] == r@[k]);
                    }
                }
            }
        }
        i = i + 1;
    }
    assert(events@.subrange(0, events@.len() as int) =~= events@);
    r
}

/// The intent for `entity` in a frame's events, if there is one: the first
/// sent for it.
pub fn intent_for(events: &Vec<PlayerMoveEvent>, entity: u64) -> (r: Option<Direction>)
    ensures
        r == first_intent(events@, entity),
{
    let mut i: usize = 0;
    while i < events.len()
        invariant
            0 <= i <= events@.len(),
            forall|k: int| 0 <= k < i ==> #[trigger] events@[k].entity != entity,
        decreases events@.len() - i,
    {
        if events[i].entity == entity {
            proof {
                lemma_first_intent_is_first(events@, entity, i as int);
            }
            return match events[i].movement {
                Movement::Normal(d) => Some(d),
            };
        }
        i = i + 1;
    }
    proof {
        lemma_first_intent_none(events@, entity);
    }
    None
}

/// Reads one actor's action state and, if its held directions do not cancel
/// out, sends one movement intent for it.
pub fn handle_input(entity: u64, state: &ActionState, events: &mut Vec<PlayerMoveEvent>)
    requires
        state.wf(),
    ensures
        match spec_movement_intent(*state) {
            Some(d) => final(events)@ == old(events)@.push(
                PlayerMoveEvent { entity, movement: Movement::Normal(d) },
            ),
            None => final(events)@ == old(events)@,
        },
{
    match movement_intent(state) {
        Some(d) => events.push(PlayerMoveEvent { entity, movement: Movement::Normal(d) }),
        None => {},
    }
}

/// A controlled actor as the integrator sees it.
#[derive(Clone, Copy, Debug, PartialEq, Eq, Structural)]
pub struct Actor {
    pub entity: u64,
    pub player: Player,
    pub transform: Transform,
}

impl Actor {
    pub open spec fn wf(self) -> bool {
        self.player.wf() && self.transform.wf()
    }
}

/// `a` after one frame of the integrator, given the frame's intents.
pub open spec fn moved_actor(
    a: Actor,
    events: Seq<PlayerMoveEvent>,
    decay: u64,
    dt: u64,
) -> Actor {
    let v = next_velocity(a.player, first_intent(events, a.entity), decay, dt);
    Actor {
        entity: a.entity,
        player: Player { velocity: v, ..a.player },
        transform: next_transform(a.transform, v, a.player.rotation_speed, dt),
    }
}

/// Runs one frame of the motion integrator over all actors. Each actor moves
/// by the first intent sent for it this frame, if any; `decays[i]` is actor
/// `i`'s friction raised to the frame length in seconds, out of `DECAY_ONE`.
pub fn move_player(
    actors: &mut Vec<Actor>,
    events: &Vec<PlayerMoveEvent>,
    decays: &Vec<u64>,
    dt: u64,
)
    requires
        forall|i: int| 0 <= i < old(actors)@.len() ==> #[trigger] old(actors)@[i].wf(),
        decays@.len() == old(actors)@.len(),
        forall|i: int| 0 <= i < decays@.len() ==> #[trigger] decays@[i] <= DECAY_ONE,
        events_ok(events@),
        dt <= MAX_DT,
    ensures
        final(actors)@.len() == old(actors)@.len(),
        forall|i: int|
            0 <= i < final(actors)@.len() ==> #[trigger] final(actors)@[i] == moved_actor(
                old(actors)@[i],
                events@,
                decays@[i],
                dt,
            ),
        forall|i: int|
            0 <= i < final(actors)@.len() ==> norm2(#[trigger] final(actors)@[i].player.velocity)
                <= final(actors)@[i].player.speed * final(actors)@[i].player.speed,
        forall|i: int|
            0 <= i < final(actors)@.len() ==> #[trigger] final(actors)@[i].transform.has_valid_heading(),
{
    let intents = first_intents(events);
    let mut i: usize = 0;
    while i < actors.len()
        invariant
            0 <= i <= actors@.len(),
            actors@.len() == old(actors)@.len(),
            decays@.len() == old(actors)@.len(),
            forall|e: u64| #[trigger] first_intent(intents@, e) == first_intent(events@, e),
            forall|k: int| 0 <= k < intents@.len() ==> sent_in(events@, #[trigger] intents@[k]),
            events_ok(events@),
            forall|k: int| 0 <= k < decays@.len() ==> #[trigger] decays@[k] <= DECAY_ONE,
            dt <= MAX_DT,
            forall|k: int| 0 <= k < i ==> #[trigger] actors@[k] == moved_actor(
                old(actors)@[k],
                events@,
                decays@[k],
                dt,
            ),
            forall|k: int|
                0 <= k < i ==> norm2(#[trigger] actors@[k].player.velocity)
                    <= actors@[k].player.speed * actors@[k].player.speed,
            forall|k: int| 0 <= k < i ==> #[trigger] actors@[k].transform.has_valid_heading(),
            forall|k: int| i <= k < actors@.len() ==> #[trigger] actors@[k] == old(actors)@[k],
            forall|k: int| 0 <= k < old(actors)@.len() ==> #[trigger] old(actors)@[k].wf(),
        decreases actors@.len() - i,
    {
        let entity = actors[i].entity;
        let intent = intent_for(&intents, entity);
        proof {
            match intent {
                Some(d) => {
                    lemma_first_intent_is_some(intents@, entity);
                    let k = choose|k: int|
                        0 <= k < intents@.len() && intents@[k].entity == entity && direction_of(
                            intents@[k],
                        ) == d;
                    assert(sent_in(events@, intents@[k]));
                    let j = choose|j: int| 0 <= j < events@.len() && events@[j] == intents@[k];
                    assert(direction_of(events@[j]).wf());
                },
                None => {},
            }
        }
        let decay = decays[i];
        assert(intent_ok(intent));
        assert(actors@[i as int].wf());
        let actor = &mut actors[i];
        step_player(&mut actor.player, &mut actor.transform, intent, decay, dt);
        i = i + 1;
    }
}

/// What `first_intent` finds is the direction of one of the events.
proof fn lemma_first_intent_is_some(events: Seq<PlayerMoveEvent>, entity: u64)
    ensures
        first_intent(events, entity) matches Some(d) ==> exists|k: int|
            0 <= k < events.len() && events[k].entity == entity && direction_of(events[k]) == d,
    decreases events.len(),
{
    if events.len() > 0 {
        lemma_first_intent_is_some(events.drop_last(), entity);
        if first_intent(events.drop_last(), entity) is Some {
            let d = first_intent(events, entity)->Some_0;
            let k = choose|k: int|
                0 <= k < events.len() - 1 && events.drop_last()[k].entity == entity && direction_of(
                    events.drop_last()[k],
                ) == d;
            assert(events[k] == events.drop_last()[k]);
        }
    }
}

/// Everything a controlled actor starts with: its tuning, its key bindings,
/// and all of its actions released.
pub struct PlayerBundle {
    pub player: Player,
    pub input_map: InputMap,
    pub action_state: ActionState,
}

impl PlayerBundle {
    pub fn new() -> (r: PlayerBundle)
        ensures
            r.player.wf(),
            is_zero(r.player.velocity),
            r.input_map.gamepad == 0,
            r.input_map.bindings@ == default_bindings(),
            r.player.speed == 40 * UNIT,
            r.player.rotation_speed == TIME_ONE,
            r.player.friction == DECAY_ONE / 10,
            RANDOM_LOW <= r.player.random < DECAY_ONE,
            r.action_state.wf(),
            forall|a: PlayerAction| #[trigger] r.action_state.state_of(a) == ButtonState::Released,
    {
        let action_state = ActionState::new();
        PlayerBundle { player: Player::new(), input_map: default_input_map(), action_state }
    }
}

} // verus!
