use vstd::prelude::*;
use std::collections::HashMap;

verus! {

broadcast use vstd::std_specs::hash::group_hash_axioms;

/// The kinds of prop that break.
#[derive(Clone, Copy, Debug, PartialEq, Eq, Structural, Hash)]
pub enum BreakableType {
    Plate,
    Mug,
}

/// The tag that makes an entity breakable, and of what kind.
#[derive(Clone, Copy, Debug, PartialEq, Eq, Structural)]
pub struct Breakable {
    pub breakable_type: BreakableType,
}

/// Sent once for every prop that breaks; each one is worth a point.
#[derive(Clone, Copy, Debug, PartialEq, Eq, Structural)]
pub struct BreakEvent;

/// Marker of an intact plate.
#[derive(Clone, Copy, Debug, PartialEq, Eq, Structural)]
pub struct Plate;

/// Marker of a plate's fragments.
#[derive(Clone, Copy, Debug, PartialEq, Eq, Structural)]
pub struct BrokenPlate;

/// Marker of an intact mug.
#[derive(Clone, Copy, Debug, PartialEq, Eq, Structural)]
pub struct Mug;

/// Marker of a mug's fragments.
#[derive(Clone, Copy, Debug, PartialEq, Eq, Structural)]
pub struct BrokenMug;

/// Every kind of prop entity, intact or broken.
#[derive(Clone, Copy, Debug, PartialEq, Eq, Structural)]
pub enum PropKind {
    Plate,
    BrokenPlate,
    Mug,
    BrokenMug,
}

/// Which collision groups an entity belongs to.
#[derive(Clone, Copy, Debug, PartialEq, Eq, Structural)]
pub enum Membership {
    AllGroups,
    NoGroups,
}

/// How the physics simulation treats a body.
#[derive(Clone, Copy, Debug, PartialEq, Eq, Structural)]
pub enum BodyMode {
    Dynamic,
    Fixed,
}

/// A component attached to a prop entity. Lengths, coefficients and
/// densities are in thousandths; the contact force threshold is in millionths.
#[derive(Clone, Copy, Debug, PartialEq, Eq, Structural)]
pub enum Component {
    /// A box collider with these half extents.
    Cuboid { half_x: u64, half_y: u64, half_z: u64 },
    Restitution(u64),
    Density(u64),
    CollisionGroups(Membership),
    /// Velocity set to zero.
    ZeroVelocity,
    Visible(bool),
    RigidBody(BodyMode),
    Breakable(Breakable),
    Marker(PropKind),
    /// Removed when the play session ends.
    CleanupMarker,
    ContactForceEvents,
    ContactForceThreshold(u64),
}

/// The contact force above which the physics simulation reports a contact
/// on a breakable prop: 0.00001, in millionths.
pub const PROP_BREAK_THRESHOLD: u64 = 10;

pub open spec fn dynamic_components() -> Seq<Component> {
    seq![
        Component::Restitution(900),
        Component::Density(10),
        Component::CollisionGroups(Membership::AllGroups),
        Component::ZeroVelocity,
        Component::Visible(true),
        Component::RigidBody(BodyMode::Dynamic),
    ]
}

pub open spec fn restored_components() -> Seq<Component> {
    seq![
        Component::CollisionGroups(Membership::AllGroups),
        Component::ZeroVelocity,
        Component::Visible(true),
        Component::RigidBody(BodyMode::Dynamic),
    ]
}

pub open spec fn stripped_components() -> Seq<Component> {
    seq![
        Component::CollisionGroups(Membership::NoGroups),
        Component::ZeroVelocity,
        Component::Visible(false),
        Component::RigidBody(BodyMode::Fixed),
    ]
}

pub open spec fn breakable_components() -> Seq<Component> {
    seq![
        Component::ContactForceEvents,
        Component::ContactForceThreshold(PROP_BREAK_THRESHOLD),
    ]
}

pub open spec fn prop_collider() -> Component {
    Component::Cuboid { half_x: 300, half_y: 50, half_z: 300 }
}

/// Everything a prop entity of kind `k` is given when it is spawned.
pub open spec fn components_of(k: PropKind) -> Seq<Component> {
    match k {
        PropKind::Plate => seq![
            prop_collider(),
            Component::Breakable(Breakable { breakable_type: BreakableType::Plate }),
            Component::Marker(PropKind::Plate),
            Component::CleanupMarker,
        ] + dynamic_components() + breakable_components(),
        PropKind::BrokenPlate => seq![
            prop_collider(),
            Component::Marker(PropKind::BrokenPlate),
            Component::CleanupMarker,
        ] + dynamic_components(),
        PropKind::Mug => seq![
            prop_collider(),
            Component::Breakable(Breakable { breakable_type: BreakableType::Mug }),
            Component::CleanupMarker,
            Component::Marker(PropKind::Mug),
        ] + dynamic_components() + breakable_components(),
        PropKind::BrokenMug => seq![
            prop_collider(),
            Component::CleanupMarker,
            Component::Marker(PropKind::BrokenMug),
        ] + dynamic_components(),
    }
}

/// Makes a prop take part in the simulation as a light, bouncy dynamic body.
fn add_dynamic_rapier_components_for_props(c: &mut Vec<Component>)
    ensures
        final(c)@ == old(c)@ + dynamic_components(),
{
    c.push(Component::Restitution(900));
    c.push(Component::Density(10));
    c.push(Component::CollisionGroups(Membership::AllGroups));
    c.push(Component::ZeroVelocity);
    c.push(Component::Visible(true));
    c.push(Component::RigidBody(BodyMode::Dynamic));
    assert(final(c)@ =~= old(c)@ + dynamic_components());
}

/// Puts a prop that was taken out of the simulation back into it.
pub fn restore_dynamic_rapier_components(c: &mut Vec<Component>)
    ensures
        final(c)@ == old(c)@ + restored_components(),
{
    c.push(Component::CollisionGroups(Membership::AllGroups));
    c.push(Component::ZeroVelocity);
    c.push(Component::Visible(true));
    c.push(Component::RigidBody(BodyMode::Dynamic));
    assert(final(c)@ =~= old(c)@ + restored_components());
}

/// Takes a prop out of the simulation without despawning it: no collision
/// group, no velocity, hidden, and fixed in place.
pub fn remove_dynamic_rapier_components_for_props(c: &mut Vec<Component>)
    ensures
        final(c)@ == old(c)@ + stripped_components(),
{
    c.push(Component::CollisionGroups(Membership::NoGroups));
    c.push(Component::ZeroVelocity);
    c.push(Component::Visible(false));
    c.push(Component::RigidBody(BodyMode::Fixed));
    assert(final(c)@ =~= old(c)@ + stripped_components());
}

/// Asks the simulation to report contact forces on a prop.
fn add_breakable_rapier_components(c: &mut Vec<Component>)
    ensures
        final(c)@ == old(c)@ + breakable_components(),
{
    c.push(Component::ContactForceEvents);
    c.push(Component::ContactForceThreshold(PROP_BREAK_THRESHOLD));
    assert(final(c)@ =~= old(c)@ + breakable_components());
}

/// The components a prop of kind `k` is spawned with.
pub fn attach(k: PropKind) -> (r: Vec<Component>)
    ensures
        r@ == components_of(k),
{
    let mut c: Vec<Component> = Vec::new();
    c.push(Component::Cuboid { half_x: 300, half_y: 50, half_z: 300 });
    match k {
        PropKind::Plate => {
            c.push(Component::Breakable(Breakable { breakable_type: BreakableType::Plate }));
            c.push(Component::Marker(PropKind::Plate));
            c.push(Component::CleanupMarker);
        },
        PropKind::BrokenPlate => {
            c.push(Component::Marker(PropKind::BrokenPlate));
            c.push(Component::CleanupMarker);
        },
        PropKind::Mug => {
            c.push(Component::Breakable(Breakable { breakable_type: BreakableType::Mug }));
            c.push(Component::CleanupMarker);
            c.push(Component::Marker(PropKind::Mug));
        },
        PropKind::BrokenMug => {
            c.push(Component::CleanupMarker);
            c.push(Component::Marker(PropKind::BrokenMug));
        },
    }
    add_dynamic_rapier_components_for_props(&mut c);
    match k {
        PropKind::Plate | PropKind::Mug => add_breakable_rapier_components(&mut c),
        _ => {},
    }
    assert(c@ =~= components_of(k));
    c
}

fn push_all(c: &mut Vec<Component>, more: &Vec<Component>)
    ensures
        final(c)@ == old(c)@ + more@,
{
    let mut i: usize = 0;
    while i < more.len()
        invariant
            0 <= i <= more@.len(),
            c@ == old(c)@ + more@.subrange(0, i as int),
        decreases more@.len() - i,
    {
        c.push(more[i]);
        i = i + 1;
        assert(c@ =~= old(c)@ + more@.subrange(0, i as int));
    }
    assert(more@.subrange(0, more@.len() as int) =~= more@);
}

/// Gives a freshly spawned prop entity the components of its kind.
pub trait ComponentAdder {
    spec fn prop_kind() -> PropKind;

    fn add_components(c: &mut Vec<Component>)
        ensures
            final(c)@ == old(c)@ + components_of(Self::prop_kind()),
    ;
}

impl ComponentAdder for Plate {
    open spec fn prop_kind() -> PropKind {
        PropKind::Plate
    }

    fn add_components(c: &mut Vec<Component>) {
        push_all(c, &attach(PropKind::Plate));
    }
}

impl ComponentAdder for BrokenPlate {
    open spec fn prop_kind() -> PropKind {
        PropKind::BrokenPlate
    }

    fn add_components(c: &mut Vec<Component>) {
        push_all(c, &attach(PropKind::BrokenPlate));
    }
}

impl ComponentAdder for Mug {
    open spec fn prop_kind() -> PropKind {
        PropKind::Mug
    }

    fn add_components(c: &mut Vec<Component>) {
        push_all(c, &attach(PropKind::Mug));
    }
}

impl ComponentAdder for BrokenMug {
    open spec fn prop_kind() -> PropKind {
        PropKind::BrokenMug
    }

    fn add_components(c: &mut Vec<Component>) {
        push_all(c, &attach(PropKind::BrokenMug));
    }
}

/// The fragments that replace a broken prop of type `t`.
pub open spec fn spec_broken_variant(t: BreakableType) -> PropKind {
    match t {
        BreakableType::Plate => PropKind::BrokenPlate,
        BreakableType::Mug => PropKind::BrokenMug,
    }
}

pub fn broken_variant(t: BreakableType) -> (r: PropKind)
    ensures
        r == spec_broken_variant(t),
{
    match t {
        BreakableType::Plate => PropKind::BrokenPlate,
        BreakableType::Mug => PropKind::BrokenMug,
    }
}

/// The entities that are breakable now, and of which type.
pub struct BreakableRegistry {
    entries: HashMap<u64, BreakableType>,
}

impl View for BreakableRegistry {
    type V = Map<u64, BreakableType>;

    closed spec fn view(&self) -> Map<u64, BreakableType> {
        self.entries@
    }
}

impl BreakableRegistry {
    pub fn new() -> (r: BreakableRegistry)
        ensures
            r@ == Map::<u64, BreakableType>::empty(),
    {
        BreakableRegistry { entries: HashMap::new() }
    }

    /// Marks `entity` as breakable, of type `t`.
    pub fn insert(&mut self, entity: u64, t: BreakableType)
        ensures
            final(self)@ == old(self)@.insert(entity, t),
    {
        self.entries.insert(entity, t);
    }

    pub fn get(&self, entity: u64) -> (r: Option<BreakableType>)
        ensures
            r == (if self@.contains_key(entity) {
                Some(self@[entity])
            } else {
                None
            }),
    {
        match self.entries.get(&entity) {
            Some(t) => Some(*t),
            None => None,
        }
    }

    /// Takes `entity` out of the registry, handing back its type if it was in.
    pub fn remove(&mut self, entity: u64) -> (r: Option<BreakableType>)
        ensures
            final(self)@ == old(self)@.remove(entity),
            r == (if old(self)@.contains_key(entity) {
                Some(old(self)@[entity])
            } else {
                None
            }),
    {
        self.entries.remove(&entity)
    }
}

/// A contact reported by the physics simulation between two colliders. The
/// force (in millionths) is carried along but does not decide anything: any
/// reported contact breaks a breakable prop.
#[derive(Clone, Copy, Debug, PartialEq, Eq, Structural)]
pub struct ContactForceEvent {
    pub collider1: u64,
    pub collider2: u64,
    pub total_force_magnitude: u64,
}

/// Which fragment assets are loaded and ready to spawn.
#[derive(Clone, Copy, Debug, PartialEq, Eq, Structural)]
pub struct AssetAvailability {
    pub broken_plate: bool,
    pub broken_mug: bool,
}

/// One prop that broke: it is to be taken out of the simulation (see
/// `remove_dynamic_rapier_components_for_props`), a point is scored, and, when
/// `replacement` is given, that kind of fragments is spawned where it was,
/// moving as it moved.
#[derive(Clone, Copy, Debug, PartialEq, Eq, Structural)]
pub struct BreakOutcome {
    pub entity: u64,
    pub breakable_type: BreakableType,
    pub replacement: Option<PropKind>,
}

pub open spec fn replacement_for(t: BreakableType, assets: AssetAvailability) -> Option<PropKind> {
    let loaded = match t {
        BreakableType::Plate => assets.broken_plate,
        BreakableType::Mug => assets.broken_mug,
    };
    if loaded {
        Some(spec_broken_variant(t))
    } else {
        None
    }
}

/// The entities named by `events`, on either side of a contact.
pub open spec fn named_set(events: Seq<ContactForceEvent>) -> Set<u64>
    decreases events.len(),
{
    if events.len() == 0 {
        Set::empty()
    } else {
        named_set(events.drop_last()).insert(events.last().collider1).insert(
            events.last().collider2,
        )
    }
}

pub open spec fn has_outcome(out: Seq<BreakOutcome>, k: u64) -> bool {
    exists|a: int| 0 <= a < out.len() && out[a].entity == k
}

/// What breaking the props named in `names` does, starting from registry
/// `before`: exactly the registered ones among them break, each once, with
/// their registered type and the replacement the assets allow; they leave the
/// registry, and nothing else changes in it.
pub open spec fn breaks(
    before: Map<u64, BreakableType>,
    after: Map<u64, BreakableType>,
    out: Seq<BreakOutcome>,
    names: Set<u64>,
    assets: AssetAvailability,
) -> bool {
    &&& forall|k: u64|
        #[trigger] after.contains_key(k) <==> before.contains_key(k) && !has_outcome(out, k)
    &&& forall|k: u64| #[trigger] after.contains_key(k) ==> after[k] == before[k]
    &&& forall|a: int, b: int|
        0 <= a < b < out.len() ==> #[trigger] out[a].entity != #[trigger] out[b].entity
    &&& forall|a: int|
        0 <= a < out.len() ==> {
            &&& before.contains_key(#[trigger] out[a].entity)
            &&& before[out[a].entity] == out[a].breakable_type
            &&& out[a].replacement == replacement_for(out[a].breakable_type, assets)
            &&& names.contains(out[a].entity)
        }
    &&& forall|k: u64| before.contains_key(k) && #[trigger] names.contains(k) ==> has_outcome(out, k)
}

fn break_one(
    registry: &mut BreakableRegistry,
    out: &mut Vec<BreakOutcome>,
    entity: u64,
    assets: AssetAvailability,
    Ghost(before): Ghost<Map<u64, BreakableType>>,
    Ghost(names): Ghost<Set<u64>>,
)
    requires
        breaks(before, old(registry)@, old(out)@, names, assets),
    ensures
        breaks(before, final(registry)@, final(out)@, names.insert(entity), assets),
{
    let ghost out0 = out@;
    match registry.remove(entity) {
        Some(t) => {
            let replacement = match t {
                BreakableType::Plate => if assets.broken_plate {
                    Some(PropKind::BrokenPlate)
                } else {
                    None
                },
                BreakableType::Mug => if assets.broken_mug {
                    Some(PropKind::BrokenMug)
                } else {
                    None
                },
            };
            out.push(BreakOutcome { entity, breakable_type: t, replacement });
            proof {
                let n = out0.len() as int;
                assert(out@[n].entity == entity);
                assert(forall|a: int| 0 <= a < n ==> #[trigger] out@[a] == out0[a]);
                assert(!has_outcome(out0, entity));
                assert forall|k: u64| has_outcome(out0, k) implies has_outcome(out@, k) by {
                    let a = choose|a: int| 0 <= a < out0.len() && out0[a].entity == k;
                    assert(out@[a] == out0[a]);
                }
                assert forall|k: u64| has_outcome(out@, k) implies has_outcome(out0, k) || k
                    == entity by {
                    let a = choose|a: int| 0 <= a < out@.len() && out@[a].entity == k;
                    if a < n {
                        assert(out@[a] == out0[a]);
                    }
                }
                assert(has_outcome(out@, entity));
                assert forall|a: int, b: int|
                    0 <= a < b < out@.len() implies #[trigger] out@[a].entity
                    != #[trigger] out@[b].entity by {
                    if b == n {
                        assert(out@[a] == out0[a]);
                    } else {
                        assert(out@[a] == out0[a] && out@[b] == out0[b]);
                    }
                }
                assert(before.contains_key(entity));
            }
        },
        None => {
            proof {
                if before.contains_key(entity) {
                    assert(has_outcome(out0, entity));
                }
            }
        },
    }
}

/// Reacts to a frame's contact reports: every breakable prop that a report
/// names breaks, once, however often it is named, and leaves the registry.
/// A missing fragment asset only means no replacement is spawned.
pub fn handle_breakables(
    registry: &mut BreakableRegistry,
    events: &Vec<ContactForceEvent>,
    assets: AssetAvailability,
) -> (out: Vec<BreakOutcome>)
    ensures
        breaks(old(registry)@, final(registry)@, out@, named_set(events@), assets),
{
    let mut out: Vec<BreakOutcome> = Vec::new();
    let ghost before = registry@;
    let mut i: usize = 0;
    while i < events.len()
        invariant
            0 <= i <= events@.len(),
            before == old(registry)@,
            breaks(before, registry@, out@, named_set(events@.subrange(0, i as int)), assets),
        decreases events@.len() - i,
    {
        let e = events[i];
        let ghost names = named_set(events@.subrange(0, i as int));
        break_one(registry, &mut out, e.collider1, assets, Ghost(before), Ghost(names));
        break_one(
            registry,
            &mut out,
            e.collider2,
            assets,
            Ghost(before),
            Ghost(names.insert(e.collider1)),
        );
        proof {
            assert(events@.subrange(0, i + 1).drop_last() =~= events@.subrange(0, i as int));
        }
        i = i + 1;
    }
    assert(events@.subrange(0, events@.len() as int) =~= events@);
    out
}

/// For each prop that broke, in order, the components that take it out of
/// the simulation (no collision group, zero velocity, hidden, fixed). The
/// entity itself stays; only its replacement, if any, is a new entity.
pub fn strip_components_for(out: &Vec<BreakOutcome>) -> (r: Vec<(u64, Vec<Component>)>)
    ensures
        r@.len() == out@.len(),
        forall|k: int|
            0 <= k < r@.len() ==> (#[trigger] r@[k]).0 == out@[k].entity && r@[k].1@
                == stripped_components(),
{
    let mut r: Vec<(u64, Vec<Component>)> = Vec::new();
    let mut i: usize = 0;
    while i < out.len()
        invariant
            0 <= i <= out@.len(),
            r@.len() == i,
            forall|k: int|
                0 <= k < r@.len() ==> (#[trigger] r@[k]).0 == out@[k].entity && r@[k].1@
                    == stripped_components(),
        decreases out@.len() - i,
    {
        let mut c: Vec<Component> = Vec::new();
        remove_dynamic_rapier_components_for_props(&mut c);
        assert(c@ =~= stripped_components());
        r.push((out[i].entity, c));
        i = i + 1;
    }
    r
}

/// One break event for each prop that broke.
pub fn break_events_for(out: &Vec<BreakOutcome>) -> (r: Vec<BreakEvent>)
    ensures
        r@.len() == out@.len(),
{
    let mut r: Vec<BreakEvent> = Vec::new();
    let mut i: usize = 0;
    while i < out.len()
        invariant
            0 <= i <= out@.len(),
            r@.len() == i,
        decreases out@.len() - i,
    {
        r.push(BreakEvent);
        i = i + 1;
    }
    r
}

/// `pattern` occurs in `s` as a run of consecutive characters.
pub open spec fn occurs_in(pattern: Seq<char>, s: Seq<char>) -> bool {
    exists|i: int| 0 <= i <= s.len() - pattern.len() && #[trigger] s.subrange(i, i + pattern.len()) == pattern
}

/// Relies on str::contains with a `&str` pattern: true exactly when the
/// pattern matches a sub-slice of the string.
#[verifier::external_body]
fn str_contains(s: &str, pattern: &str) -> (r: bool)
    ensures
        r == occurs_in(pattern@, s@),
{
    s.contains(pattern)
}

/// The part of a fragment scene's node names that marks the node that gets
/// the fragment's components.
pub open spec fn mesh_pattern(t: BreakableType) -> Seq<char> {
    match t {
        BreakableType::Plate => seq!['p', 'l', 'a', 't', 'e'],
        BreakableType::Mug => seq!['m', 'u', 'g'],
    }
}

pub fn mesh_name(t: BreakableType) -> (r: &'static str)
    ensures
        r@ == mesh_pattern(t),
{
    match t {
        BreakableType::Plate => {
            proof {
                reveal_strlit("plate");
            }
            assert("plate"@ =~= mesh_pattern(t));
            "plate"
        },
        BreakableType::Mug => {
            proof {
                reveal_strlit("mug");
            }
            assert("mug"@ =~= mesh_pattern(t));
            "mug"
        },
    }
}

/// Whether a node named `name`, in the fragments of a broken prop of type
/// `t`, is the one that takes the fragment's components.
pub fn hook_matches(name: &str, t: BreakableType) -> (r: bool)
    ensures
        r == occurs_in(mesh_pattern(t), name@),
{
    str_contains(name, mesh_name(t))
}

/// A registered prop that a contact names breaks exactly once in the frame,
/// however many contacts name it, and is no longer breakable afterwards.
pub proof fn lemma_breaks_exactly_once(
    before: Map<u64, BreakableType>,
    after: Map<u64, BreakableType>,
    out: Seq<BreakOutcome>,
    names: Set<u64>,
    assets: AssetAvailability,
    k: u64,
)
    requires
        breaks(before, after, out, names, assets),
        before.contains_key(k),
        names.contains(k),
    ensures
        !after.contains_key(k),
        exists|a: int| 0 <= a < out.len() && out[a].entity == k,
        forall|a: int, b: int|
            0 <= a < out.len() && 0 <= b < out.len() && out[a].entity == k && out[b].entity == k
                ==> a == b,
{
    assert(has_outcome(out, k));
    assert forall|a: int, b: int|
        0 <= a < out.len() && 0 <= b < out.len() && out[a].entity == k && out[b].entity
            == k implies a == b by {
        if a < b {
            assert(out[a].entity != out[b].entity);
        } else if b < a {
            assert(out[b].entity != out[a].entity);
        }
    }
}

/// Which nodes of a freshly spawned fragment scene, given by name in scene
/// order, take the fragment's components, the captured transform and the
/// captured velocity: those whose name holds the broken type's mesh name.
/// The engine calls this once the scene's nodes exist, which may be some
/// frames after the spawn.
pub fn nodes_to_attach(names: &Vec<String>, t: BreakableType) -> (r: Vec<usize>)
    ensures
        forall|k: int| 0 <= k < r@.len() ==> #[trigger] r@[k] < names@.len(),
        forall|a: int, b: int| 0 <= a < b < r@.len() ==> #[trigger] r@[a] < #[trigger] r@[b],
        forall|i: int|
            0 <= i < names@.len() ==> (r@.contains(i as usize) <==> occurs_in(
                mesh_pattern(t),
                #[trigger] names@[i]@,
            )),
{
    let mut r: Vec<usize> = Vec::new();
    let mut i: usize = 0;
    while i < names.len()
        invariant
            0 <= i <= names@.len(),
            forall|k: int| 0 <= k < r@.len() ==> #[trigger] r@[k] < i,
            forall|a: int, b: int| 0 <= a < b < r@.len() ==> #[trigger] r@[a] < #[trigger] r@[b],
            forall|j: int|
                0 <= j < i ==> (r@.contains(j as usize) <==> occurs_in(
                    mesh_pattern(t),
                    #[trigger] names@[j]@,
                )),
        decreases names@.len() - i,
    {
        let ghost old_r = r@;
        if hook_matches(names[i].as_str(), t) {
            r.push(i);
            proof {
                assert(r@[r@.len() - 1] == i);
                assert forall|j: int| 0 <= j < i + 1 implies (r@.contains(j as usize)
                    <==> occurs_in(mesh_pattern(t), #[trigger] names@[j]@)) by {
                    if r@.contains(j as usize) && j < i {
                        let k = choose|k: int| 0 <= k < r@.len() && r@[k] == j as usize;
                        assert(k < old_r.len());
                        assert(old_r[k] == r@[k]);
                        assert(old_r.contains(j as usize));
                    }
                    if j < i && old_r.contains(j as usize) {
                        let k = choose|k: int| 0 <= k < old_r.len() && old_r[k] == j as usize;
                        assert(r@[k] == old_r[k]);
                    }
                }
            }
        } else {
            proof {
                assert(!r@.contains(i)) by {
                    if r@.contains(i) {
                        let k = choose|k: int| 0 <= k < r@.len() && r@[k] == i;
                        assert(r@[k] < i);
                    }
                }
            }
        }
        i = i + 1;
    }
    r
}

/// Everything one frame's contact reports lead to, decided in one step: the
/// props that broke, the components that strip each of them, and one break
/// event (one point) for each.
pub struct BreakReaction {
    pub outcomes: Vec<BreakOutcome>,
    pub strips: Vec<(u64, Vec<Component>)>,
    pub break_events: Vec<BreakEvent>,
}

/// Reacts to a frame's contact reports: every breakable prop that a report
/// names breaks once, leaves the registry, is stripped out of the
/// simulation, and scores one break event, whether or not its fragments can
/// be spawned.
pub fn react_to_contacts(
    registry: &mut BreakableRegistry,
    events: &Vec<ContactForceEvent>,
    assets: AssetAvailability,
) -> (r: BreakReaction)
    ensures
        breaks(old(registry)@, final(registry)@, r.outcomes@, named_set(events@), assets),
        r.strips@.len() == r.outcomes@.len(),
        forall|k: int|
            0 <= k < r.strips@.len() ==> (#[trigger] r.strips@[k]).0 == r.outcomes@[k].entity
                && r.strips@[k].1@ == stripped_components(),
        r.break_events@.len() == r.outcomes@.len(),
{
    let outcomes = handle_breakables(registry, events, assets);
    let strips = strip_components_for(&outcomes);
    let break_events = break_events_for(&outcomes);
    BreakReaction { outcomes, strips, break_events }
}

/// The entities that broke, in order.
pub open spec fn broken_entities(out: Seq<BreakOutcome>) -> Seq<u64> {
    out.map_values(|o: BreakOutcome| o.entity)
}

/// A frame breaks exactly the registered props that its contacts name: as
/// many break events (points) as there are such props.
pub proof fn lemma_break_count(
    before: Map<u64, BreakableType>,
    after: Map<u64, BreakableType>,
    out: Seq<BreakOutcome>,
    names: Set<u64>,
    assets: AssetAvailability,
)
    requires
        breaks(before, after, out, names, assets),
    ensures
        broken_entities(out).to_set() == before.dom().intersect(names),
        out.len() == before.dom().intersect(names).len(),
{
    let e = broken_entities(out);
    assert forall|k: u64| e.to_set().contains(k) <==> before.dom().intersect(names).contains(k) by {
        if e.to_set().contains(k) {
            let a = choose|a: int| 0 <= a < e.len() && e[a] == k;
            assert(out[a].entity == k);
        }
        if before.dom().intersect(names).contains(k) {
            assert(has_outcome(out, k));
            let a = choose|a: int| 0 <= a < out.len() && out[a].entity == k;
            assert(e[a] == k);
            assert(e.contains(k));
        }
    }
    assert(e.to_set() =~= before.dom().intersect(names));
    assert forall|i: int, j: int| 0 <= i < e.len() && 0 <= j < e.len() && i != j implies e[i]
        != e[j] by {
        if i < j {
            assert(out[i].entity != out[j].entity);
        } else {
            assert(out[j].entity != out[i].entity);
        }
    }
    e.unique_seq_to_set();
}

/// The session's score.
#[derive(Clone, Copy, Debug, PartialEq, Eq, Structural)]
pub struct GameState {
    pub score: u64,
}

/// Scores one point for each break event of the frame; the score stops at
/// the largest value it can hold.
pub fn handle_break_events(state: &mut GameState, events: &Vec<BreakEvent>)
    ensures
        final(state).score == (if old(state).score + events@.len() <= u64::MAX {
            old(state).score + events@.len()
        } else {
            u64::MAX as int
        }),
{
    let mut i: usize = 0;
    while i < events.len()
        invariant
            0 <= i <= events@.len(),
            state.score == (if old(state).score + i <= u64::MAX {
                old(state).score + i
            } else {
                u64::MAX as int
            }),
        decreases events@.len() - i,
    {
        if state.score < u64::MAX {
            state.score = state.score + 1;
        }
        i = i + 1;
    }
}

} // verus!
