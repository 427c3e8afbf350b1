use vstd::prelude::*;
use rand::Rng;
use crate::direction::{Direction, MAX_COMPONENT, UNIT};
use crate::fixed::{abs, ceil_sqrt, lemma_scaled, scale_toward_zero, scaled, MAX_FACTOR};

verus! {

/// A vector in fixed point: `UNIT` stands for one unit of length (or of
/// length per second, for a velocity).
#[derive(Clone, Copy, Debug, PartialEq, Eq, Structural)]
pub struct Vec3 {
    pub x: i64,
    pub y: i64,
    pub z: i64,
}

/// One second of simulated time: frame lengths are given in microseconds.
pub const TIME_ONE: u64 = 1_000_000;

/// Longest frame the integrator accepts.
pub const MAX_DT: u64 = 1_000_000;

/// The fixed-point one of a per-frame decay factor.
pub const DECAY_ONE: u64 = 1_000_000;

/// Fastest top speed an actor may have: a thousand units per second.
pub const MAX_SPEED: i64 = 1_000_000_000;

/// Below this speed (half a unit per second) the facing is left alone.
pub const MIN_TURN_SPEED: i64 = 500_000;

/// Bound on each coordinate of a position.
pub const MAX_POSITION: i64 = 4_000_000_000_000_000_000;


pub open spec fn norm2(v: Vec3) -> int {
    v.x * v.x + v.y * v.y + v.z * v.z
}

pub open spec fn is_zero(v: Vec3) -> bool {
    v.x == 0 && v.y == 0 && v.z == 0
}

/// A controlled actor's tuning and motion state.
///
/// `friction` is the fraction of velocity (out of `DECAY_ONE`) kept after one
/// second of coasting: a smaller value stops the actor faster.
#[derive(Clone, Copy, Debug, PartialEq, Eq, Structural)]
pub struct Player {
    pub velocity: Vec3,
    pub speed: i64,
    pub rotation_speed: u64,
    pub friction: u64,
    pub random: u64,
}

/// Where an actor stands and which way it faces on the ground plane. The
/// facing `(heading_x, heading_z)` is a non-zero vector of length at most
/// `UNIT`; the integrator keeps it at length `UNIT` up to rounding.
#[derive(Clone, Copy, Debug, PartialEq, Eq, Structural)]
pub struct Transform {
    pub translation: Vec3,
    pub heading_x: i64,
    pub heading_z: i64,
}

/// Relies on rand::thread_rng and Rng::gen_range: a value drawn from the
/// half-open range `low..high`, which must not be empty.
#[verifier::external_body]
fn random_in(low: u64, high: u64) -> (r: u64)
    requires
        low < high,
    ensures
        low <= r < high,
{
    rand::thread_rng().gen_range(low..high)
}

/// Lower end of the per-actor random tuning value, out of `DECAY_ONE`.
pub const RANDOM_LOW: u64 = 500_000;

impl Player {
    /// A new actor at rest: top speed forty units per second, turning factor
    /// one per second, keeping a tenth of its velocity per second of coasting,
    /// and a random tuning value in `[RANDOM_LOW, DECAY_ONE)`.
    pub fn new() -> (r: Player)
        ensures
            r.wf(),
            is_zero(r.velocity),
            r.speed == 40 * UNIT,
            r.rotation_speed == TIME_ONE,
            r.friction == DECAY_ONE / 10,
            RANDOM_LOW <= r.random < DECAY_ONE,
    {
        Player {
            velocity: Vec3 { x: 0, y: 0, z: 0 },
            speed: 40 * UNIT,
            rotation_speed: TIME_ONE,
            friction: DECAY_ONE / 10,
            random: random_in(RANDOM_LOW, DECAY_ONE),
        }
    }

    pub open spec fn wf(self) -> bool {
        &&& 0 <= self.speed <= MAX_SPEED
        &&& norm2(self.velocity) <= self.speed * self.speed
        &&& 0 < self.friction < DECAY_ONE
        &&& self.rotation_speed <= MAX_FACTOR
    }
}

impl Transform {
    pub open spec fn wf(self) -> bool {
        &&& -MAX_POSITION <= self.translation.x <= MAX_POSITION
        &&& -MAX_POSITION <= self.translation.y <= MAX_POSITION
        &&& -MAX_POSITION <= self.translation.z <= MAX_POSITION
        &&& self.has_valid_heading()
    }

    /// The facing is a proper rotation: non-zero and no longer than `UNIT`.
    pub open spec fn has_valid_heading(self) -> bool {
        &&& !(self.heading_x == 0 && self.heading_z == 0)
        &&& self.heading_x * self.heading_x + self.heading_z * self.heading_z <= UNIT * UNIT
    }
}

/// Step 1: every component shrinks by the frame's decay factor.
pub open spec fn decayed(v: Vec3, decay: u64) -> Vec3 {
    Vec3 {
        x: scaled(v.x as int, decay as int, DECAY_ONE as int) as i64,
        y: scaled(v.y as int, decay as int, DECAY_ONE as int) as i64,
        z: scaled(v.z as int, decay as int, DECAY_ONE as int) as i64,
    }
}

/// How much speed a held direction adds over a frame of `dt` microseconds.
pub open spec fn speed_gain(speed: i64, dt: u64) -> int {
    speed * dt / TIME_ONE as int
}

/// Step 2: the unit direction times `speed * dt` is added.
pub open spec fn accelerated(v: Vec3, d: Direction, speed: i64, dt: u64) -> Vec3 {
    let u = d.spec_unit();
    let gain = speed_gain(speed, dt);
    Vec3 {
        x: (v.x + scaled(u.0 as int, gain, UNIT as int)) as i64,
        y: v.y,
        z: (v.z + scaled(u.1 as int, gain, UNIT as int)) as i64,
    }
}

/// The smallest `r` with `r * r >= n`.
pub open spec fn is_ceil_sqrt(r: int, n: int) -> bool {
    r >= 0 && r * r >= n && (r == 0 || (r - 1) * (r - 1) < n)
}

pub open spec fn spec_ceil_sqrt(n: int) -> int {
    choose|r: int| is_ceil_sqrt(r, n)
}

/// Step 3: a vector longer than `speed` is scaled back to length `speed`.
pub open spec fn clamped(v: Vec3, speed: i64) -> Vec3 {
    if norm2(v) <= speed * speed {
        v
    } else {
        let len = spec_ceil_sqrt(norm2(v));
        Vec3 {
            x: scaled(v.x as int, speed as int, len) as i64,
            y: scaled(v.y as int, speed as int, len) as i64,
            z: scaled(v.z as int, speed as int, len) as i64,
        }
    }
}

/// The velocity after one frame: decay, then the intent's push, then the clamp.
pub open spec fn next_velocity(p: Player, intent: Option<Direction>, decay: u64, dt: u64) -> Vec3 {
    let v1 = decayed(p.velocity, decay);
    let v2 = match intent {
        Some(d) => accelerated(v1, d, p.speed, dt),
        None => v1,
    };
    clamped(v2, p.speed)
}

/// Step 4: the distance covered at velocity `v` over `dt` microseconds.
pub open spec fn displacement(v: Vec3, dt: u64) -> Vec3 {
    Vec3 {
        x: scaled(v.x as int, dt as int, TIME_ONE as int) as i64,
        y: scaled(v.y as int, dt as int, TIME_ONE as int) as i64,
        z: scaled(v.z as int, dt as int, TIME_ONE as int) as i64,
    }
}

pub open spec fn moved(p: Vec3, d: Vec3) -> Vec3 {
    Vec3 { x: (p.x + d.x) as i64, y: (p.y + d.y) as i64, z: (p.z + d.z) as i64 }
}

/// The interpolation factor `rotation_speed * dt`, at most one (`TIME_ONE`).
pub open spec fn turn_factor(rotation_speed: u64, dt: u64) -> int {
    let f = rotation_speed * dt / TIME_ONE as int;
    if f > TIME_ONE {
        TIME_ONE as int
    } else {
        f
    }
}

/// The vector `(x, z)` scaled to length `UNIT` (rounded toward zero), or
/// `None` for the zero vector.
pub open spec fn unit_toward(x: int, z: int) -> Option<(i64, i64)> {
    let l = spec_ceil_sqrt(x * x + z * z);
    if l == 0 {
        None
    } else {
        Some((scaled(x, UNIT as int, l) as i64, scaled(z, UNIT as int, l) as i64))
    }
}

/// Steps 5 and 6: when the actor moves faster than `MIN_TURN_SPEED`, the
/// facing `(hx, hz)` is interpolated toward the unit vector of the horizontal
/// displacement `(dx, dz)` by the turn factor `f` (out of `TIME_ONE`), and the
/// result is scaled back to length `UNIT`. The old facing stays when the
/// actor is nearly still, has not moved across the ground, or the result is
/// not a proper (non-zero) direction.
pub open spec fn turned(hx: i64, hz: i64, dx: i64, dz: i64, f: int, v: Vec3) -> (i64, i64) {
    if norm2(v) <= MIN_TURN_SPEED * MIN_TURN_SPEED {
        (hx, hz)
    } else {
        match unit_toward(dx as int, dz as int) {
            None => (hx, hz),
            Some(u) => {
                let nx = hx + scaled(u.0 - hx, f, TIME_ONE as int);
                let nz = hz + scaled(u.1 - hz, f, TIME_ONE as int);
                match unit_toward(nx, nz) {
                    Some(r) => if r.0 == 0 && r.1 == 0 {
                        (hx, hz)
                    } else {
                        r
                    },
                    None => (hx, hz),
                }
            },
        }
    }
}

/// The transform after one frame in which the actor moved at velocity `v`.
pub open spec fn next_transform(t: Transform, v: Vec3, rotation_speed: u64, dt: u64) -> Transform {
    let d = displacement(v, dt);
    let h = turned(
        t.heading_x,
        t.heading_z,
        d.x,
        d.z,
        turn_factor(rotation_speed, dt),
        v,
    );
    Transform { translation: moved(t.translation, d), heading_x: h.0, heading_z: h.1 }
}

proof fn lemma_component_bound(c: int, v: Vec3, s: int)
    requires
        c == v.x || c == v.y || c == v.z,
        norm2(v) <= s * s,
        s >= 0,
    ensures
        -s <= c <= s,
{
    assert(v.x * v.x >= 0 && v.y * v.y >= 0 && v.z * v.z >= 0) by (nonlinear_arith);
    assert(c * c <= s * s);
    assert(-s <= c <= s) by (nonlinear_arith)
        requires
            c * c <= s * s,
            s >= 0,
    ;
}

proof fn lemma_ceil_sqrt_unique(a: int, b: int, n: int)
    requires
        is_ceil_sqrt(a, n),
        is_ceil_sqrt(b, n),
    ensures
        a == b,
{
    if a < b {
        assert(a * a <= (b - 1) * (b - 1)) by (nonlinear_arith)
            requires
                0 <= a <= b - 1,
        ;
    }
    if b < a {
        assert(b * b <= (a - 1) * (a - 1)) by (nonlinear_arith)
            requires
                0 <= b <= a - 1,
        ;
    }
}

/// Squares keep the order of magnitudes.
proof fn lemma_square_scaled(c: int, s: int, len: int)
    requires
        s >= 0,
        len > 0,
    ensures
        scaled(c, s, len) * scaled(c, s, len) * (len * len) <= c * c * (s * s),
{
    lemma_scaled(c, s, len);
    let q = abs(scaled(c, s, len));
    let a = abs(c);
    assert(q * len <= a * s);
    assert(q >= 0 && a >= 0);
    assert((q * len) * (q * len) <= (a * s) * (a * s)) by (nonlinear_arith)
        requires
            0 <= q * len <= a * s,
    ;
    assert(scaled(c, s, len) * scaled(c, s, len) == q * q) by (nonlinear_arith)
        requires
            q == scaled(c, s, len) || q == -scaled(c, s, len),
    ;
    assert(c * c == a * a) by (nonlinear_arith)
        requires
            a == c || a == -c,
    ;
    assert(q * q * (len * len) == (q * len) * (q * len)) by (nonlinear_arith);
    assert(a * a * (s * s) == (a * s) * (a * s)) by (nonlinear_arith);
}

/// Scaling by `speed / len`, where `len` is at least the vector's length,
/// gives a vector no longer than `speed`.
proof fn lemma_clamp_bound(v: Vec3, s: int, len: int)
    requires
        0 <= s <= MAX_SPEED,
        len > 0,
        len * len >= norm2(v),
    ensures
        norm2(
            Vec3 {
                x: scaled(v.x as int, s, len) as i64,
                y: scaled(v.y as int, s, len) as i64,
                z: scaled(v.z as int, s, len) as i64,
            },
        ) <= s * s,
        -s <= scaled(v.x as int, s, len) <= s,
        -s <= scaled(v.y as int, s, len) <= s,
        -s <= scaled(v.z as int, s, len) <= s,
{
    let x = scaled(v.x as int, s, len);
    let y = scaled(v.y as int, s, len);
    let z = scaled(v.z as int, s, len);
    lemma_square_scaled(v.x as int, s, len);
    lemma_square_scaled(v.y as int, s, len);
    lemma_square_scaled(v.z as int, s, len);
    let n2 = x * x + y * y + z * z;
    assert(n2 * (len * len) <= norm2(v) * (s * s)) by (nonlinear_arith)
        requires
            x * x * (len * len) <= v.x * v.x * (s * s),
            y * y * (len * len) <= v.y * v.y * (s * s),
            z * z * (len * len) <= v.z * v.z * (s * s),
            n2 == x * x + y * y + z * z,
            norm2(v) == v.x * v.x + v.y * v.y + v.z * v.z,
    ;
    assert(norm2(v) * (s * s) <= (len * len) * (s * s)) by (nonlinear_arith)
        requires
            len * len >= norm2(v),
    ;
    assert(n2 <= s * s) by (nonlinear_arith)
        requires
            n2 * (len * len) <= (len * len) * (s * s),
            len > 0,
    ;
    assert(x * x >= 0 && y * y >= 0 && z * z >= 0) by (nonlinear_arith);
    assert(-s <= x <= s) by (nonlinear_arith)
        requires
            x * x <= s * s,
            s >= 0,
    ;
    assert(-s <= y <= s) by (nonlinear_arith)
        requires
            y * y <= s * s,
            s >= 0,
    ;
    assert(-s <= z <= s) by (nonlinear_arith)
        requires
            z * z <= s * s,
            s >= 0,
    ;
}

/// Step 1 of a frame: the velocity decays by `decay` (out of `DECAY_ONE`),
/// which stands for `friction` raised to the frame length in seconds.
pub fn decay_velocity(v: Vec3, decay: u64, speed: i64) -> (r: Vec3)
    requires
        0 <= speed <= MAX_SPEED,
        norm2(v) <= speed * speed,
        decay <= DECAY_ONE,
    ensures
        r == decayed(v, decay),
        norm2(r) <= norm2(v),
        !is_zero(v) && decay < DECAY_ONE ==> norm2(r) < norm2(v),
        is_zero(v) ==> is_zero(r),
{
    proof {
        lemma_component_bound(v.x as int, v, speed as int);
        lemma_component_bound(v.y as int, v, speed as int);
        lemma_component_bound(v.z as int, v, speed as int);
        lemma_decay_shrinks(v, decay);
    }
    Vec3 {
        x: scale_toward_zero(v.x, decay, DECAY_ONE),
        y: scale_toward_zero(v.y, decay, DECAY_ONE),
        z: scale_toward_zero(v.z, decay, DECAY_ONE),
    }
}

proof fn lemma_square_shrinks(c: int, d: int)
    requires
        abs(d) <= abs(c),
    ensures
        d * d <= c * c,
        abs(d) < abs(c) ==> d * d < c * c,
{
    assert(d * d == abs(d) * abs(d)) by (nonlinear_arith)
        requires
            abs(d) == d || abs(d) == -d,
    ;
    assert(c * c == abs(c) * abs(c)) by (nonlinear_arith)
        requires
            abs(c) == c || abs(c) == -c,
    ;
    assert(abs(d) * abs(d) <= abs(c) * abs(c)) by (nonlinear_arith)
        requires
            0 <= abs(d) <= abs(c),
    ;
    if abs(d) < abs(c) {
        assert(abs(d) * abs(d) < abs(c) * abs(c)) by (nonlinear_arith)
            requires
                0 <= abs(d) < abs(c),
        ;
    }
}

/// Decay never lengthens a velocity, and a factor below one strictly
/// shortens every non-zero velocity.
pub proof fn lemma_decay_shrinks(v: Vec3, decay: u64)
    requires
        decay <= DECAY_ONE,
    ensures
        norm2(decayed(v, decay)) <= norm2(v),
        !is_zero(v) && decay < DECAY_ONE ==> norm2(decayed(v, decay)) < norm2(v),
        is_zero(v) ==> is_zero(decayed(v, decay)),
{
    let d = decayed(v, decay);
    lemma_scaled(v.x as int, decay as int, DECAY_ONE as int);
    lemma_scaled(v.y as int, decay as int, DECAY_ONE as int);
    lemma_scaled(v.z as int, decay as int, DECAY_ONE as int);
    lemma_square_shrinks(v.x as int, d.x as int);
    lemma_square_shrinks(v.y as int, d.y as int);
    lemma_square_shrinks(v.z as int, d.z as int);
}

/// Step 2 of a frame: push along the unit vector of `d` by `speed * dt`.
pub fn accelerate(v: Vec3, d: Direction, speed: i64, dt: u64) -> (r: Vec3)
    requires
        0 <= speed <= MAX_SPEED,
        norm2(v) <= speed * speed,
        d.wf(),
        dt <= MAX_DT,
    ensures
        r == accelerated(v, d, speed, dt),
        -2 * speed <= r.x <= 2 * speed,
        -2 * speed <= r.y <= 2 * speed,
        -2 * speed <= r.z <= 2 * speed,
{
    proof {
        lemma_component_bound(v.x as int, v, speed as int);
        lemma_component_bound(v.y as int, v, speed as int);
        lemma_component_bound(v.z as int, v, speed as int);
    }
    assert(speed * dt <= MAX_SPEED * MAX_DT) by (nonlinear_arith)
        requires
            0 <= speed <= MAX_SPEED,
            dt <= MAX_DT,
    ;
    let gain: u64 = (speed as u64) * dt / TIME_ONE;
    assert(gain as int * TIME_ONE <= speed * dt) by {
        vstd::arithmetic::div_mod::lemma_fundamental_div_mod(speed * dt, TIME_ONE as int);
        vstd::arithmetic::div_mod::lemma_mod_bound(speed * dt, TIME_ONE as int);
    }
    assert(gain <= speed) by (nonlinear_arith)
        requires
            gain as int * TIME_ONE <= speed * dt,
            dt <= TIME_ONE,
            speed >= 0,
    ;
    assert(gain == speed_gain(speed, dt));
    let u = d.normalize_or_zero();
    proof {
        lemma_scaled(u.0 as int, gain as int, UNIT as int);
        lemma_scaled(u.1 as int, gain as int, UNIT as int);
        assert(-UNIT <= u.0 <= UNIT && -UNIT <= u.1 <= UNIT) by (nonlinear_arith)
            requires
                u.0 * u.0 + u.1 * u.1 <= UNIT * UNIT,
        ;
        assert(abs(scaled(u.0 as int, gain as int, UNIT as int)) <= gain) by (nonlinear_arith)
            requires
                abs(scaled(u.0 as int, gain as int, UNIT as int)) * UNIT <= abs(u.0 as int) * gain,
                abs(u.0 as int) <= UNIT,
                gain >= 0,
        ;
        assert(abs(scaled(u.1 as int, gain as int, UNIT as int)) <= gain) by (nonlinear_arith)
            requires
                abs(scaled(u.1 as int, gain as int, UNIT as int)) * UNIT <= abs(u.1 as int) * gain,
                abs(u.1 as int) <= UNIT,
                gain >= 0,
        ;
    }
    let ax = scale_toward_zero(u.0, gain, UNIT as u64);
    let az = scale_toward_zero(u.1, gain, UNIT as u64);
    Vec3 { x: v.x + ax, y: v.y, z: v.z + az }
}

/// Step 3 of a frame: a velocity longer than `speed` is scaled back to it.
pub fn clamp_length_max(v: Vec3, speed: i64) -> (r: Vec3)
    requires
        0 <= speed <= MAX_SPEED,
        -2 * speed <= v.x <= 2 * speed,
        -2 * speed <= v.y <= 2 * speed,
        -2 * speed <= v.z <= 2 * speed,
    ensures
        r == clamped(v, speed),
        norm2(r) <= speed * speed,
{
    assert(v.x * v.x <= 4 * MAX_SPEED * MAX_SPEED) by (nonlinear_arith)
        requires
            0 <= speed <= MAX_SPEED,
            -2 * speed <= v.x <= 2 * speed,
    ;
    assert(v.y * v.y <= 4 * MAX_SPEED * MAX_SPEED) by (nonlinear_arith)
        requires
            0 <= speed <= MAX_SPEED,
            -2 * speed <= v.y <= 2 * speed,
    ;
    assert(v.z * v.z <= 4 * MAX_SPEED * MAX_SPEED) by (nonlinear_arith)
        requires
            0 <= speed <= MAX_SPEED,
            -2 * speed <= v.z <= 2 * speed,
    ;
    assert(v.x * v.x >= 0 && v.y * v.y >= 0 && v.z * v.z >= 0) by (nonlinear_arith);
    assert(speed * speed <= MAX_SPEED * MAX_SPEED) by (nonlinear_arith)
        requires
            0 <= speed <= MAX_SPEED,
    ;
    let n: i128 = (v.x as i128) * (v.x as i128) + (v.y as i128) * (v.y as i128) + (v.z as i128)
        * (v.z as i128);
    let s2: i128 = (speed as i128) * (speed as i128);
    if n <= s2 {
        v
    } else {
        let len = ceil_sqrt(n as u64);
        proof {
            assert(speed * speed >= 0) by (nonlinear_arith);
            assert(n as u64 == norm2(v));
            assert(is_ceil_sqrt(len as int, norm2(v)));
            lemma_ceil_sqrt_unique(len as int, spec_ceil_sqrt(norm2(v)), norm2(v));
            lemma_clamp_bound(v, speed as int, len as int);
        }
        Vec3 {
            x: scale_toward_zero(v.x, speed as u64, len),
            y: scale_toward_zero(v.y, speed as u64, len),
            z: scale_toward_zero(v.z, speed as u64, len),
        }
    }
}

/// Step 4 of a frame: the distance covered at velocity `v` in `dt` microseconds.
pub fn displacement_of(v: Vec3, speed: i64, dt: u64) -> (r: Vec3)
    requires
        0 <= speed <= MAX_SPEED,
        norm2(v) <= speed * speed,
        dt <= MAX_DT,
    ensures
        r == displacement(v, dt),
        -speed <= r.x <= speed,
        -speed <= r.y <= speed,
        -speed <= r.z <= speed,
        is_zero(v) ==> is_zero(r),
{
    proof {
        lemma_component_bound(v.x as int, v, speed as int);
        lemma_component_bound(v.y as int, v, speed as int);
        lemma_component_bound(v.z as int, v, speed as int);
        lemma_scaled(v.x as int, dt as int, TIME_ONE as int);
        lemma_scaled(v.y as int, dt as int, TIME_ONE as int);
        lemma_scaled(v.z as int, dt as int, TIME_ONE as int);
    }
    Vec3 {
        x: scale_toward_zero(v.x, dt, TIME_ONE),
        y: scale_toward_zero(v.y, dt, TIME_ONE),
        z: scale_toward_zero(v.z, dt, TIME_ONE),
    }
}

pub(crate) proof fn lemma_unit_toward(x: int, z: int)
    requires
        -MAX_SPEED <= x <= MAX_SPEED,
        -MAX_SPEED <= z <= MAX_SPEED,
    ensures
        is_ceil_sqrt(spec_ceil_sqrt(x * x + z * z), x * x + z * z),
        unit_toward(x, z) is None <==> (x == 0 && z == 0),
        unit_toward(x, z) matches Some(u) ==> {
            &&& u.0 * u.0 + u.1 * u.1 <= UNIT * UNIT
            &&& -UNIT <= u.0 <= UNIT
            &&& -UNIT <= u.1 <= UNIT
        },
{
    assert(x * x >= 0 && z * z >= 0) by (nonlinear_arith);
    lemma_ceil_sqrt_exists((x * x + z * z) as nat);
    let l = spec_ceil_sqrt(x * x + z * z);
    if l == 0 {
        assert(x * x + z * z <= 0);
        assert(x == 0) by (nonlinear_arith)
            requires
                x * x <= 0,
        ;
        assert(z == 0) by (nonlinear_arith)
            requires
                z * z <= 0,
        ;
    } else {
        if x == 0 && z == 0 {
            assert(x * x + z * z == 0);
            assert((l - 1) * (l - 1) >= 0) by (nonlinear_arith);
        }
        let w = Vec3 { x: x as i64, y: 0, z: z as i64 };
        assert(norm2(w) == x * x + z * z);
        lemma_clamp_bound(w, UNIT as int, l);
    }
}

/// A non-zero vector whose larger component is at least a unit long keeps a
/// non-zero unit vector.
pub(crate) proof fn lemma_unit_nonzero(x: int, z: int)
    requires
        -MAX_SPEED <= x <= MAX_SPEED,
        -MAX_SPEED <= z <= MAX_SPEED,
        x * x + z * z >= UNIT * UNIT,
    ensures
        unit_toward(x, z) matches Some(u) && !(u.0 == 0 && u.1 == 0),
{
    lemma_unit_toward(x, z);
    let n = x * x + z * z;
    let l = spec_ceil_sqrt(n);
    let w = Vec3 { x: x as i64, y: 0, z: z as i64 };
    assert(norm2(w) == n);
    lemma_scaled(x, UNIT as int, l);
    lemma_scaled(z, UNIT as int, l);
    let ux = scaled(x, UNIT as int, l);
    let uz = scaled(z, UNIT as int, l);
    assert(l > 0) by {
        if l == 0 {
            assert(l * l == 0);
        }
    }
    if ux == 0 && uz == 0 {
        // each |c| * UNIT < l, so n * UNIT^2 < 2 * l^2, while (l - 1)^2 < n
        assert(abs(ux) * l == 0 && abs(uz) * l == 0) by (nonlinear_arith)
            requires
                ux == 0,
                uz == 0,
        ;
        assert(abs(x) * UNIT < l && abs(z) * UNIT < l);
        assert(x * x * (UNIT * UNIT) < l * l) by (nonlinear_arith)
            requires
                0 <= abs(x) * UNIT < l,
                abs(x) == x || abs(x) == -x,
        ;
        assert(z * z * (UNIT * UNIT) < l * l) by (nonlinear_arith)
            requires
                0 <= abs(z) * UNIT < l,
                abs(z) == z || abs(z) == -z,
        ;
        assert((l - 1) * (l - 1) < n);
        assert(n * (UNIT * UNIT) < 2 * (l * l)) by (nonlinear_arith)
            requires
                x * x * (UNIT * UNIT) < l * l,
                z * z * (UNIT * UNIT) < l * l,
                n == x * x + z * z,
        ;
        assert(false) by (nonlinear_arith)
            requires
                n * (UNIT * UNIT) < 2 * (l * l),
                (l - 1) * (l - 1) < n,
                n >= UNIT * UNIT,
                l > 0,
        ;
    }
}

/// The vector `(x, z)` scaled to length `UNIT`, or `None` for zero.
pub(crate) fn unit_of(x: i64, z: i64) -> (r: Option<(i64, i64)>)
    requires
        -MAX_SPEED <= x <= MAX_SPEED,
        -MAX_SPEED <= z <= MAX_SPEED,
    ensures
        r == unit_toward(x as int, z as int),
{
    proof {
        lemma_unit_toward(x as int, z as int);
    }
    assert(x * x <= MAX_SPEED * MAX_SPEED && z * z <= MAX_SPEED * MAX_SPEED) by (nonlinear_arith)
        requires
            -MAX_SPEED <= x <= MAX_SPEED,
            -MAX_SPEED <= z <= MAX_SPEED,
    ;
    assert(x * x >= 0 && z * z >= 0) by (nonlinear_arith);
    let n: u64 = ((x as i128) * (x as i128) + (z as i128) * (z as i128)) as u64;
    let l = ceil_sqrt(n);
    proof {
        lemma_ceil_sqrt_unique(l as int, spec_ceil_sqrt(x * x + z * z), x * x + z * z);
    }
    if l == 0 {
        None
    } else {
        Some((scale_toward_zero(x, UNIT as u64, l), scale_toward_zero(z, UNIT as u64, l)))
    }
}

/// One component of the facing, moved from `h` toward `t` by `f / TIME_ONE`.
fn lerp_component(h: i64, t: i64, f: u64) -> (r: i64)
    requires
        -UNIT <= h <= UNIT,
        -UNIT <= t <= UNIT,
        f <= TIME_ONE,
    ensures
        r == h + scaled(t - h, f as int, TIME_ONE as int),
        -UNIT <= r <= UNIT,
{
    proof {
        lemma_scaled(t - h, f as int, TIME_ONE as int);
    }
    h + scale_toward_zero(t - h, f, TIME_ONE)
}

proof fn lemma_heading_components(t: Transform)
    requires
        t.has_valid_heading(),
    ensures
        -UNIT <= t.heading_x <= UNIT,
        -UNIT <= t.heading_z <= UNIT,
{
    let w = Vec3 { x: t.heading_x, y: 0, z: t.heading_z };
    lemma_component_bound(t.heading_x as int, w, UNIT as int);
    lemma_component_bound(t.heading_z as int, w, UNIT as int);
}

/// Steps 5 and 6 of a frame: the facing turns toward the horizontal
/// displacement `d`, unless the actor is nearly still or the result would not
/// be a proper direction.
pub fn turn_heading(t: &mut Transform, d: Vec3, v: Vec3, rotation_speed: u64, dt: u64)
    requires
        old(t).has_valid_heading(),
        -MAX_SPEED <= d.x <= MAX_SPEED,
        -MAX_SPEED <= d.z <= MAX_SPEED,
        -2 * MAX_SPEED <= v.x <= 2 * MAX_SPEED,
        -2 * MAX_SPEED <= v.y <= 2 * MAX_SPEED,
        -2 * MAX_SPEED <= v.z <= 2 * MAX_SPEED,
        rotation_speed <= MAX_FACTOR,
        dt <= MAX_DT,
    ensures
        (final(t).heading_x, final(t).heading_z) == turned(
            old(t).heading_x,
            old(t).heading_z,
            d.x,
            d.z,
            turn_factor(rotation_speed, dt),
            v,
        ),
        final(t).translation == old(t).translation,
        final(t).has_valid_heading(),
{
    proof {
        lemma_heading_components(*t);
    }
    assert(rotation_speed * dt <= MAX_FACTOR * MAX_DT) by (nonlinear_arith)
        requires
            rotation_speed <= MAX_FACTOR,
            dt <= MAX_DT,
    ;
    let raw: u64 = rotation_speed * dt / TIME_ONE;
    let f: u64 = if raw > TIME_ONE { TIME_ONE } else { raw };
    assert(v.x * v.x <= 4 * MAX_SPEED * MAX_SPEED) by (nonlinear_arith)
        requires
            -2 * MAX_SPEED <= v.x <= 2 * MAX_SPEED,
    ;
    assert(v.y * v.y <= 4 * MAX_SPEED * MAX_SPEED) by (nonlinear_arith)
        requires
            -2 * MAX_SPEED <= v.y <= 2 * MAX_SPEED,
    ;
    assert(v.z * v.z <= 4 * MAX_SPEED * MAX_SPEED) by (nonlinear_arith)
        requires
            -2 * MAX_SPEED <= v.z <= 2 * MAX_SPEED,
    ;
    assert(v.x * v.x >= 0 && v.y * v.y >= 0 && v.z * v.z >= 0) by (nonlinear_arith);
    let n: i128 = (v.x as i128) * (v.x as i128) + (v.y as i128) * (v.y as i128) + (v.z as i128)
        * (v.z as i128);
    let min2: i128 = 250_000_000_000;
    assert(min2 == MIN_TURN_SPEED * MIN_TURN_SPEED);
    if n <= min2 {
        return ;
    }
    let target = unit_of(d.x, d.z);
    proof {
        lemma_unit_toward(d.x as int, d.z as int);
    }
    match target {
        None => {},
        Some(u) => {
            let nx = lerp_component(t.heading_x, u.0, f);
            let nz = lerp_component(t.heading_z, u.1, f);
            proof {
                lemma_unit_toward(nx as int, nz as int);
            }
            match unit_of(nx, nz) {
                Some(r) => {
                    if !(r.0 == 0 && r.1 == 0) {
                        t.heading_x = r.0;
                        t.heading_z = r.1;
                    }
                },
                None => {},
            }
        },
    }
}

/// Whether a movement intent may be fed to the integrator: a well-formed
/// combined direction.
pub open spec fn intent_ok(intent: Option<Direction>) -> bool {
    match intent {
        Some(d) => d.wf(),
        None => true,
    }
}

/// Runs one frame of the motion integrator for one actor: decay, accelerate
/// along the intent (if any), clamp to `speed`, move, and turn to face the
/// direction of travel. `decay` stands for `friction` raised to the frame
/// length in seconds, out of `DECAY_ONE`.
pub fn step_player(
    player: &mut Player,
    transform: &mut Transform,
    intent: Option<Direction>,
    decay: u64,
    dt: u64,
)
    requires
        old(player).wf(),
        old(transform).wf(),
        intent_ok(intent),
        decay <= DECAY_ONE,
        dt <= MAX_DT,
    ensures
        final(player).velocity == next_velocity(*old(player), intent, decay, dt),
        final(player).speed == old(player).speed,
        final(player).rotation_speed == old(player).rotation_speed,
        final(player).friction == old(player).friction,
        final(player).random == old(player).random,
        *final(transform) == next_transform(
            *old(transform),
            final(player).velocity,
            old(player).rotation_speed,
            dt,
        ),
        final(player).wf(),
        norm2(final(player).velocity) <= old(player).speed * old(player).speed,
        final(transform).has_valid_heading(),
        -MAX_POSITION - MAX_SPEED <= final(transform).translation.x <= MAX_POSITION + MAX_SPEED,
        -MAX_POSITION - MAX_SPEED <= final(transform).translation.y <= MAX_POSITION + MAX_SPEED,
        -MAX_POSITION - MAX_SPEED <= final(transform).translation.z <= MAX_POSITION + MAX_SPEED,
{
    let speed = player.speed;
    let v1 = decay_velocity(player.velocity, decay, speed);
    let v2 = match intent {
        Some(d) => accelerate(v1, d, speed, dt),
        None => {
            proof {
                lemma_component_bound(v1.x as int, v1, speed as int);
                lemma_component_bound(v1.y as int, v1, speed as int);
                lemma_component_bound(v1.z as int, v1, speed as int);
            }
            v1
        },
    };
    let v = clamp_length_max(v2, speed);
    player.velocity = v;
    let d = displacement_of(v, speed, dt);
    proof {
        lemma_component_bound(v.x as int, v, speed as int);
        lemma_component_bound(v.y as int, v, speed as int);
        lemma_component_bound(v.z as int, v, speed as int);
    }
    turn_heading(transform, d, v, player.rotation_speed, dt);
    transform.translation = Vec3 {
        x: transform.translation.x + d.x,
        y: transform.translation.y + d.y,
        z: transform.translation.z + d.z,
    };
}

/// An actor at rest with no intent stays where it is.
pub proof fn lemma_rest_stays_put(p: Player, t: Transform, decay: u64, dt: u64)
    requires
        p.wf(),
        decay <= DECAY_ONE,
        is_zero(p.velocity),
    ensures
        is_zero(next_velocity(p, None, decay, dt)),
        next_transform(t, next_velocity(p, None, decay, dt), p.rotation_speed, dt).translation
            == t.translation,
{
    lemma_decay_shrinks(p.velocity, decay);
    let v = next_velocity(p, None, decay, dt);
    assert(p.speed * p.speed >= 0) by (nonlinear_arith);
    assert(v == decayed(p.velocity, decay));
    lemma_scaled(0, dt as int, TIME_ONE as int);
}

/// Without an intent, a moving actor always ends the frame slower than it
/// began it.
pub proof fn lemma_coasting_slows(p: Player, decay: u64, dt: u64)
    requires
        p.wf(),
        decay < DECAY_ONE,
        !is_zero(p.velocity),
    ensures
        norm2(next_velocity(p, None, decay, dt)) < norm2(p.velocity),
{
    lemma_decay_shrinks(p.velocity, decay);
    assert(next_velocity(p, None, decay, dt) == decayed(p.velocity, decay));
}

proof fn lemma_ceil_sqrt_exists(n: nat)
    ensures
        is_ceil_sqrt(spec_ceil_sqrt(n as int), n as int),
    decreases n,
{
    if n == 0 {
        assert(is_ceil_sqrt(0, 0));
    } else {
        lemma_ceil_sqrt_exists((n - 1) as nat);
        let r = spec_ceil_sqrt(n - 1);
        if r * r >= n {
            assert(r == 0 || (r - 1) * (r - 1) < n);
            assert(is_ceil_sqrt(r, n as int));
        } else {
            assert((r + 1) * (r + 1) == r * r + 2 * r + 1) by (nonlinear_arith);
            assert(r * r >= 0) by (nonlinear_arith);
            assert(is_ceil_sqrt(r + 1, n as int));
        }
    }
}

/// Whatever the intent, an actor never ends a frame faster than its top speed.
pub proof fn lemma_speed_bounded(p: Player, intent: Option<Direction>, decay: u64, dt: u64)
    requires
        p.wf(),
    ensures
        norm2(next_velocity(p, intent, decay, dt)) <= p.speed * p.speed,
{
    let v1 = decayed(p.velocity, decay);
    let v2 = match intent {
        Some(d) => accelerated(v1, d, p.speed, dt),
        None => v1,
    };
    if norm2(v2) > p.speed * p.speed {
        assert(v2.x * v2.x >= 0 && v2.y * v2.y >= 0 && v2.z * v2.z >= 0) by (nonlinear_arith);
        assert(p.speed * p.speed >= 0) by (nonlinear_arith);
        lemma_ceil_sqrt_exists(norm2(v2) as nat);
        let len = spec_ceil_sqrt(norm2(v2));
        if len == 0 {
            assert(len * len == 0);
        }
        lemma_clamp_bound(v2, p.speed as int, spec_ceil_sqrt(norm2(v2)));
    }
}

/// The facing after a frame is always a proper direction, also in frames
/// where the actor stands still.
pub proof fn lemma_heading_stays_valid(t: Transform, v: Vec3, rotation_speed: u64, dt: u64)
    requires
        t.has_valid_heading(),
        norm2(v) <= MAX_SPEED * MAX_SPEED,
        dt <= MAX_DT,
    ensures
        next_transform(t, v, rotation_speed, dt).has_valid_heading(),
{
    lemma_heading_components(t);
    lemma_component_bound(v.x as int, v, MAX_SPEED as int);
    lemma_component_bound(v.z as int, v, MAX_SPEED as int);
    lemma_scaled(v.x as int, dt as int, TIME_ONE as int);
    lemma_scaled(v.z as int, dt as int, TIME_ONE as int);
    let d = displacement(v, dt);
    let f = turn_factor(rotation_speed, dt);
    assert(rotation_speed * dt >= 0) by (nonlinear_arith)
        requires
            rotation_speed >= 0,
            dt >= 0,
    ;
    assert(f >= 0) by {
        vstd::arithmetic::div_mod::lemma_div_pos_is_pos(rotation_speed * dt, TIME_ONE as int);
    }
    lemma_unit_toward(d.x as int, d.z as int);
    if let Some(u) = unit_toward(d.x as int, d.z as int) {
        lemma_scaled(u.0 - t.heading_x, f, TIME_ONE as int);
        lemma_scaled(u.1 - t.heading_z, f, TIME_ONE as int);
        let nx = t.heading_x + scaled(u.0 - t.heading_x, f, TIME_ONE as int);
        let nz = t.heading_z + scaled(u.1 - t.heading_z, f, TIME_ONE as int);
        lemma_unit_toward(nx, nz);
    }
}

} // verus!
