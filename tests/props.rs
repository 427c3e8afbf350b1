use scene_core::props::{
    attach, break_events_for, handle_break_events, handle_breakables, hook_matches, mesh_name,
    nodes_to_attach, react_to_contacts, strip_components_for,
    remove_dynamic_rapier_components_for_props, restore_dynamic_rapier_components,
    AssetAvailability, BodyMode, BreakOutcome, Breakable, BreakableRegistry, BreakableType,
    BrokenMug, Component, ComponentAdder, ContactForceEvent, GameState, Membership, Plate,
    PropKind, PROP_BREAK_THRESHOLD,
};

const LOADED: AssetAvailability = AssetAvailability { broken_plate: true, broken_mug: true };
const NOT_LOADED: AssetAvailability = AssetAvailability { broken_plate: false, broken_mug: false };

fn contact(a: u64, b: u64, force: u64) -> ContactForceEvent {
    ContactForceEvent { collider1: a, collider2: b, total_force_magnitude: force }
}

#[test]
fn zero_force_contact_still_breaks() {
    let mut reg = BreakableRegistry::new();
    reg.insert(10, BreakableType::Plate);
    let out = handle_breakables(&mut reg, &vec![contact(10, 99, 0)], LOADED);
    assert_eq!(
        out,
        vec![BreakOutcome {
            entity: 10,
            breakable_type: BreakableType::Plate,
            replacement: Some(PropKind::BrokenPlate),
        }]
    );
    assert_eq!(reg.get(10), None);
}

#[test]
fn missing_asset_scores_without_spawning() {
    let mut reg = BreakableRegistry::new();
    reg.insert(10, BreakableType::Plate);
    let out = handle_breakables(&mut reg, &vec![contact(99, 10, 5_000)], NOT_LOADED);
    assert_eq!(out.len(), 1);
    assert_eq!(out[0].replacement, None);
    assert_eq!(reg.get(10), None);
    let mut state = GameState { score: 0 };
    handle_break_events(&mut state, &break_events_for(&out));
    assert_eq!(state.score, 1);
}

#[test]
fn named_twice_breaks_once() {
    let mut reg = BreakableRegistry::new();
    reg.insert(10, BreakableType::Mug);
    reg.insert(11, BreakableType::Plate);
    let events = vec![contact(10, 1, 7), contact(2, 10, 7)];
    let out = handle_breakables(&mut reg, &events, LOADED);
    assert_eq!(
        out,
        vec![BreakOutcome {
            entity: 10,
            breakable_type: BreakableType::Mug,
            replacement: Some(PropKind::BrokenMug),
        }]
    );
    assert_eq!(reg.get(11), Some(BreakableType::Plate));
    let mut state = GameState { score: 4 };
    handle_break_events(&mut state, &break_events_for(&out));
    assert_eq!(state.score, 5);
    let again = handle_breakables(&mut reg, &events, LOADED);
    assert!(again.is_empty());
}

#[test]
fn both_colliders_can_break() {
    let mut reg = BreakableRegistry::new();
    reg.insert(10, BreakableType::Mug);
    reg.insert(11, BreakableType::Plate);
    let out = handle_breakables(&mut reg, &vec![contact(11, 10, 1)], AssetAvailability {
        broken_plate: true,
        broken_mug: false,
    });
    assert_eq!(out.len(), 2);
    assert_eq!(out[0].entity, 11);
    assert_eq!(out[0].replacement, Some(PropKind::BrokenPlate));
    assert_eq!(out[1].entity, 10);
    assert_eq!(out[1].replacement, None);
    assert_eq!(reg.get(10), None);
    assert_eq!(reg.get(11), None);
}

#[test]
fn contact_between_unbreakables_does_nothing() {
    let mut reg = BreakableRegistry::new();
    reg.insert(10, BreakableType::Mug);
    let out = handle_breakables(&mut reg, &vec![contact(1, 2, 1)], LOADED);
    assert!(out.is_empty());
    assert_eq!(reg.get(10), Some(BreakableType::Mug));
    assert_eq!(reg.remove(10), Some(BreakableType::Mug));
    assert_eq!(reg.remove(10), None);
}

#[test]
fn plate_components() {
    let c = attach(PropKind::Plate);
    assert_eq!(c.len(), 12);
    assert_eq!(c[0], Component::Cuboid { half_x: 300, half_y: 50, half_z: 300 });
    assert_eq!(c[1], Component::Breakable(Breakable { breakable_type: BreakableType::Plate }));
    assert_eq!(c[4], Component::Restitution(900));
    assert_eq!(c[5], Component::Density(10));
    assert_eq!(c[9], Component::RigidBody(BodyMode::Dynamic));
    assert_eq!(c[11], Component::ContactForceThreshold(PROP_BREAK_THRESHOLD));
    let mut via_trait = Vec::new();
    Plate::add_components(&mut via_trait);
    assert_eq!(via_trait, c);
}

#[test]
fn broken_components_are_not_breakable() {
    let c = attach(PropKind::BrokenMug);
    assert_eq!(c.len(), 9);
    assert!(!c.iter().any(|x| matches!(x, Component::Breakable(_))));
    assert!(!c.contains(&Component::ContactForceEvents));
    let mut via_trait = Vec::new();
    BrokenMug::add_components(&mut via_trait);
    assert_eq!(via_trait, c);
}

#[test]
fn strip_and_restore() {
    let mut c = Vec::new();
    remove_dynamic_rapier_components_for_props(&mut c);
    assert_eq!(
        c,
        vec![
            Component::CollisionGroups(Membership::NoGroups),
            Component::ZeroVelocity,
            Component::Visible(false),
            Component::RigidBody(BodyMode::Fixed),
        ]
    );
    restore_dynamic_rapier_components(&mut c);
    assert_eq!(c.len(), 8);
    assert_eq!(c[4], Component::CollisionGroups(Membership::AllGroups));
    assert_eq!(c[6], Component::Visible(true));
}

#[test]
fn fragment_node_names() {
    assert_eq!(mesh_name(BreakableType::Plate), "plate");
    assert_eq!(mesh_name(BreakableType::Mug), "mug");
    assert!(hook_matches("broken_plate.001", BreakableType::Plate));
    assert!(!hook_matches("broken_plate.001", BreakableType::Mug));
    assert!(hook_matches("mug", BreakableType::Mug));
    assert!(!hook_matches("mu", BreakableType::Mug));
}

#[test]
fn fragment_nodes_to_attach() {
    let names = vec![
        "root".to_string(),
        "plate_shard_a".to_string(),
        "mug_handle".to_string(),
        "plate_shard_b".to_string(),
    ];
    assert_eq!(nodes_to_attach(&names, BreakableType::Plate), vec![1, 3]);
    assert_eq!(nodes_to_attach(&names, BreakableType::Mug), vec![2]);
    assert!(nodes_to_attach(&Vec::new(), BreakableType::Mug).is_empty());
}

fn stripped() -> Vec<Component> {
    vec![
        Component::CollisionGroups(Membership::NoGroups),
        Component::ZeroVelocity,
        Component::Visible(false),
        Component::RigidBody(BodyMode::Fixed),
    ]
}

#[test]
fn broken_props_are_stripped() {
    let out = vec![
        BreakOutcome { entity: 3, breakable_type: BreakableType::Mug, replacement: None },
        BreakOutcome {
            entity: 9,
            breakable_type: BreakableType::Plate,
            replacement: Some(PropKind::BrokenPlate),
        },
    ];
    assert_eq!(strip_components_for(&out), vec![(3, stripped()), (9, stripped())]);
}

#[test]
fn reaction_without_asset_strips_and_scores() {
    let mut reg = BreakableRegistry::new();
    reg.insert(10, BreakableType::Plate);
    let r = react_to_contacts(&mut reg, &vec![contact(10, 11, 0), contact(11, 10, 0)], NOT_LOADED);
    assert_eq!(r.outcomes.len(), 1);
    assert_eq!(r.outcomes[0].replacement, None);
    assert_eq!(r.strips, vec![(10, stripped())]);
    assert_eq!(r.break_events.len(), 1);
    assert_eq!(reg.get(10), None);
    let mut state = GameState { score: 0 };
    handle_break_events(&mut state, &r.break_events);
    assert_eq!(state.score, 1);
}

#[test]
fn score_stops_at_its_limit() {
    let mut state = GameState { score: u64::MAX - 1 };
    handle_break_events(&mut state, &vec![scene_core::props::BreakEvent; 3]);
    assert_eq!(state.score, u64::MAX);
}
