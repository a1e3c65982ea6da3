//! What the renderer decides: the frame clock with its framerate counter, and
//! the ray marcher that finds, for the ray of one pixel, the face of the
//! first solid block that the ray enters.
//!
//! A ray starts at a position given in q8 block coordinates (256 is one
//! block) and goes in a direction whose components are in [-1..1], in q22.
//! It walks from block to block, always through the nearest block boundary
//! (a digital differential analyser), until it enters a solid block, leaves
//! the world through its top or bottom, or gets farther than the view
//! distance.

use vstd::prelude::*;
use crate::constants::{BlockFace, BlockType, CHUNK_HEIGHT, CHUNK_WIDTH};
use crate::world::World;

verus! {

/// Ray direction components are in [-1..1] in q22.
pub const STEP_SCALE_L2: u32 = 22;
/// `1 << STEP_SCALE_L2`: the direction component 1.
pub const STEP_SCALE: i32 = 4194304;
/// The view distance is `1 << (SETTINGS_VIEW_DISTANCE_L2 - 8)` blocks (16).
pub const SETTINGS_VIEW_DISTANCE_L2: u32 = 8 + 4;

/// `1 << STEP_SCALE_L2` and `1 << SETTINGS_VIEW_DISTANCE_L2`, widened.
pub const STEP_SCALE_WIDE: i64 = 4194304;
pub const VIEW_DISTANCE_WIDE: i64 = 4096;

/// The longest duration there is, in nanoseconds: `u64::MAX` seconds and
/// 999 999 999 nanoseconds.
pub const MAX_DURATION_NANOS: u128 = 18446744073709551615999999999;

/// The framerate is reported once a second (in nanoseconds).
pub const FRAMERATE_PERIOD_NANOS: u128 = 1_000_000_000;

/// The renderer's clock: when the last frame started, and how many frames
/// were drawn in how much time since the framerate was last reported. All
/// times are durations since the program started, in nanoseconds.
pub struct Renderer {
    framerate_age: u128,
    framerate_counter: u32,
    time_last: u128,
}

impl Renderer {
    /// Time since the framerate was last reported.
    pub closed spec fn age(&self) -> nat {
        self.framerate_age as nat
    }

    /// Frames counted since the framerate was last reported.
    pub closed spec fn counter(&self) -> nat {
        self.framerate_counter as nat
    }

    /// When the last frame started.
    pub closed spec fn last(&self) -> nat {
        self.time_last as nat
    }

    /// Whether `frame_start` accepts a frame starting at `time`: time does
    /// not run backwards, and neither the frame count nor the time since the
    /// last report overflows.
    pub open spec fn frame_start_ok(&self, time: nat) -> bool {
        &&& self.last() <= time
        &&& self.counter() < u32::MAX
        &&& self.age() + (time - self.last()) <= MAX_DURATION_NANOS
    }

    /// A clock that has counted nothing, with its last frame at time 0.
    pub fn new() -> (r: Self)
        ensures
            r.age() == 0,
            r.counter() == 0,
            r.last() == 0,
    {
        Self { framerate_age: 0, framerate_counter: 0, time_last: 0 }
    }

    /// Count a frame that took `time_delta`; once a second has gathered,
    /// report the number of frames counted in it (the title bar shows it)
    /// and start counting afresh.
    fn framerate_tick(&mut self, time_delta: u128) -> (fps: Option<u32>)
        requires
            old(self).counter() < u32::MAX,
            old(self).age() + time_delta <= MAX_DURATION_NANOS,
        ensures
            final(self).last() == old(self).last(),
            old(self).age() + time_delta >= FRAMERATE_PERIOD_NANOS ==> fps == Some(
                (old(self).counter() + 1) as u32,
            ) && final(self).age() == 0 && final(self).counter() == 0,
            old(self).age() + time_delta < FRAMERATE_PERIOD_NANOS ==> fps is None
                && final(self).age() == old(self).age() + time_delta
                && final(self).counter() == old(self).counter() + 1,
    {
        self.framerate_age = self.framerate_age + time_delta;
        self.framerate_counter = self.framerate_counter + 1;
        if self.framerate_age >= FRAMERATE_PERIOD_NANOS {
            let fps: u32 = self.framerate_counter;
            self.framerate_age = 0;
            self.framerate_counter = 0;
            Some(fps)
        } else {
            None
        }
    }

    /// Whether `frame_start` accepts a frame starting at `time`.
    pub fn frame_start_allowed(&self, time: u128) -> (ok: bool)
        ensures
            ok == self.frame_start_ok(time as nat),
    {
        time >= self.time_last && self.framerate_counter < u32::MAX && self.framerate_age
            <= MAX_DURATION_NANOS && time - self.time_last <= MAX_DURATION_NANOS - self.framerate_age
    }

    /// Start a frame at `time`: the time since the last frame goes to the
    /// framerate counter, which reports the frames of the last second once a
    /// second has gathered.
    pub fn frame_start(&mut self, time: u128) -> (fps: Option<u32>)
        requires
            old(self).frame_start_ok(time as nat),
        ensures
            final(self).last() == time,
            ({
                let age: int = old(self).age() + (time - old(self).last());
                &&& age >= FRAMERATE_PERIOD_NANOS ==> fps == Some((old(self).counter() + 1) as u32)
                    && final(self).age() == 0 && final(self).counter() == 0
                &&& age < FRAMERATE_PERIOD_NANOS ==> fps is None && final(self).age() == age
                    && final(self).counter() == old(self).counter() + 1
            }),
    {
        let time_delta: u128 = time - self.time_last;
        self.time_last = time;
        self.framerate_tick(time_delta)
    }
}

/// The three axes of the world.
#[derive(Clone, Copy, Debug, PartialEq, Eq, Structural)]
pub enum Axis {
    X,
    Y,
    Z,
}

/// Where a ray stops: the block it entered, and the face it entered through.
#[derive(Clone, Copy, Debug, PartialEq, Eq, Structural)]
pub struct RayHit {
    pub x: i32,
    pub y: i32,
    pub z: i32,
    pub face: BlockFace,
}

/// The direction of a ray, split per axis into a sign (-1, 0 or 1) and a
/// magnitude (in q22).
pub struct RayParams {
    pub sign_x: int,
    pub sign_y: int,
    pub sign_z: int,
    pub abs_x: int,
    pub abs_y: int,
    pub abs_z: int,
}

/// Where a ray is: the block it is in and, per axis, how far (in q8, along
/// that axis) the next block boundary that it crosses on that axis lies from
/// its start.
pub struct MarchState {
    pub x: int,
    pub y: int,
    pub z: int,
    pub rel_x: int,
    pub rel_y: int,
    pub rel_z: int,
}

pub open spec fn step_sign(step: int) -> int {
    if step > 0 {
        1
    } else if step < 0 {
        -1
    } else {
        0
    }
}

pub open spec fn step_abs(step: int) -> int {
    if step < 0 {
        -step
    } else {
        step
    }
}

/// The sign and magnitude of each component of a direction.
pub open spec fn ray_params(step_x: int, step_y: int, step_z: int) -> RayParams {
    RayParams {
        sign_x: step_sign(step_x),
        sign_y: step_sign(step_y),
        sign_z: step_sign(step_z),
        abs_x: step_abs(step_x),
        abs_y: step_abs(step_y),
        abs_z: step_abs(step_z),
    }
}

/// The block a q8 coordinate lies in.
pub open spec fn block_of(position: int) -> int {
    position / 256
}

/// How far along an axis the first boundary lies that a ray moving with the
/// given sign crosses; for a ray that does not move on the axis, the
/// distance back to the lower boundary, negated.
pub open spec fn first_boundary(position: int, sign: int) -> int {
    if sign < 0 {
        position - block_of(position) * 256
    } else {
        (block_of(position) + sign) * 256 - position
    }
}

/// The state in which a ray starts.
pub open spec fn ray_start(px: int, py: int, pz: int, p: RayParams) -> MarchState {
    MarchState {
        x: block_of(px),
        y: block_of(py),
        z: block_of(pz),
        rel_x: first_boundary(px, p.sign_x),
        rel_y: first_boundary(py, p.sign_y),
        rel_z: first_boundary(pz, p.sign_z),
    }
}

impl RayParams {
    pub open spec fn sign(self, a: Axis) -> int {
        match a {
            Axis::X => self.sign_x,
            Axis::Y => self.sign_y,
            Axis::Z => self.sign_z,
        }
    }

    pub open spec fn abs(self, a: Axis) -> int {
        match a {
            Axis::X => self.abs_x,
            Axis::Y => self.abs_y,
            Axis::Z => self.abs_z,
        }
    }

    pub open spec fn moving(self, a: Axis) -> bool {
        self.sign(a) != 0
    }
}

impl MarchState {
    pub open spec fn rel(self, a: Axis) -> int {
        match a {
            Axis::X => self.rel_x,
            Axis::Y => self.rel_y,
            Axis::Z => self.rel_z,
        }
    }

    /// The state after crossing the next boundary on axis `a`: one block
    /// further in the direction `sign`, and the next boundary on that axis a
    /// block farther away.
    pub open spec fn crossed(self, a: Axis, sign: int) -> MarchState {
        match a {
            Axis::X => MarchState { x: self.x + sign, rel_x: self.rel_x + 256, ..self },
            Axis::Y => MarchState { y: self.y + sign, rel_y: self.rel_y + 256, ..self },
            Axis::Z => MarchState { z: self.z + sign, rel_z: self.rel_z + 256, ..self },
        }
    }
}

/// The next boundary on axis `a` is strictly nearer along the ray than the
/// next one on axis `b`: `rel(a) / abs(a) < rel(b) / abs(b)`.
pub open spec fn nearer(p: RayParams, s: MarchState, a: Axis, b: Axis) -> bool {
    s.rel(a) * p.abs(b) < s.rel(b) * p.abs(a)
}

/// The axis whose boundary the ray crosses next; of boundaries at the same
/// distance, the one on z is crossed first, then the one on y.
pub open spec fn next_axis(p: RayParams, s: MarchState) -> Option<Axis> {
    if p.moving(Axis::X) && (!p.moving(Axis::Y) || nearer(p, s, Axis::X, Axis::Y)) {
        if !p.moving(Axis::Z) || nearer(p, s, Axis::X, Axis::Z) {
            Some(Axis::X)
        } else {
            Some(Axis::Z)
        }
    } else if p.moving(Axis::Y) && (!p.moving(Axis::Z) || nearer(p, s, Axis::Y, Axis::Z)) {
        Some(Axis::Y)
    } else if p.moving(Axis::Z) {
        Some(Axis::Z)
    } else {
        None
    }
}

/// The ray is below the world going down (or level), or above it going up
/// (or level): it can never enter a block of the world again.
pub open spec fn escaped(p: RayParams, s: MarchState) -> bool {
    (s.y < 0 && p.sign_y <= 0) || (s.y >= CHUNK_HEIGHT && p.sign_y >= 0)
}

/// The next boundary on axis `a` lies beyond the view distance:
/// `rel << STEP_SCALE_L2 > abs << SETTINGS_VIEW_DISTANCE_L2`.
pub open spec fn beyond_view(p: RayParams, s: MarchState, a: Axis) -> bool {
    s.rel(a) * STEP_SCALE_WIDE > p.abs(a) * VIEW_DISTANCE_WIDE
}

/// The face through which a ray moving on axis `a` enters a block.
pub open spec fn face_entered(p: RayParams, a: Axis) -> BlockFace {
    match a {
        Axis::X => if p.sign_x < 0 {
            BlockFace::West
        } else {
            BlockFace::East
        },
        Axis::Y => if p.sign_y < 0 {
            BlockFace::Top
        } else {
            BlockFace::Bottom
        },
        Axis::Z => if p.sign_z < 0 {
            BlockFace::North
        } else {
            BlockFace::South
        },
    }
}

/// How much marching is left at most on one axis: each crossing within the
/// view distance uses up `1 << 18` of it.
pub open spec fn axis_budget(abs: int, rel: int) -> nat {
    if abs + 0x40000 - 1024 * rel > 0 {
        (abs + 0x40000 - 1024 * rel) as nat
    } else {
        0
    }
}

pub open spec fn march_measure(p: RayParams, s: MarchState) -> nat {
    axis_budget(p.abs_x, s.rel_x) + axis_budget(p.abs_y, s.rel_y) + axis_budget(p.abs_z, s.rel_z)
}

/// Whether the ray, having entered the block of `s`, stops there: the block
/// is in the world's height and not air.
pub open spec fn stops_in(world: World, s: MarchState) -> bool {
    0 <= s.y < CHUNK_HEIGHT && world.block_at(s.x, s.y, s.z) != BlockType::Air
}

/// Where a ray from state `s` stops: the first solid block that it enters
/// before it escapes the world or passes the view distance, with the face it
/// entered through; `None` when there is none.
pub open spec fn march(world: World, p: RayParams, s: MarchState) -> Option<(int, int, int, BlockFace)>
    decreases march_measure(p, s),
{
    if escaped(p, s) {
        None
    } else {
        match next_axis(p, s) {
            None => None,
            Some(a) => if beyond_view(p, s, a) {
                None
            } else {
                let s2 = s.crossed(a, p.sign(a));
                if stops_in(world, s2) {
                    Some((s2.x, s2.y, s2.z, face_entered(p, a)))
                } else {
                    march(world, p, s2)
                }
            },
        }
    }
}

/// The exec view of a hit.
pub open spec fn hit_view(hit: Option<RayHit>) -> Option<(int, int, int, BlockFace)> {
    match hit {
        Some(h) => Some((h.x as int, h.y as int, h.z as int, h.face)),
        None => None,
    }
}

/// On every axis the ray moves on, the next boundary lies ahead of the
/// start and the ray has some speed.
pub open spec fn ray_consistent(p: RayParams, s: MarchState) -> bool {
    forall|a: Axis| #![trigger p.sign(a)] p.moving(a) ==> 0 <= s.rel(a) && p.abs(a) > 0
}

/// What a ray state holds in its bounds: on a moving axis the next boundary
/// lies ahead, within a block past the view distance; on a still axis it is
/// where the ray started.
pub open spec fn state_valid(p: RayParams, s: MarchState) -> bool {
    &&& forall|a: Axis|
        #![trigger p.sign(a)]
        p.moving(a) ==> 0 <= s.rel(a) <= 0x20_0100 && 1024 * s.rel(a) <= p.abs(a) + 0x40000
            && p.abs(a) > 0
    &&& forall|a: Axis| #![trigger p.sign(a)] !p.moving(a) ==> -256 < s.rel(a) <= 0 && p.abs(a) == 0
}

/// The ray always crosses the nearest block boundary: the boundary it
/// crosses next lies, along the ray, no farther than the next boundary on
/// any other axis it moves on (`rel(a) / abs(a) <= rel(b) / abs(b)`), and it
/// crosses none only when it does not move at all.
pub proof fn lemma_crosses_nearest_boundary(p: RayParams, s: MarchState)
    requires
        ray_consistent(p, s),
    ensures
        next_axis(p, s) is None <==> (!p.moving(Axis::X) && !p.moving(Axis::Y) && !p.moving(
            Axis::Z,
        )),
        next_axis(p, s) matches Some(a) ==> p.moving(a) && forall|b: Axis|
            p.moving(b) ==> #[trigger] (s.rel(a) * p.abs(b)) <= s.rel(b) * p.abs(a),
{
    assert(p.sign(Axis::X) == p.sign_x);
    assert(p.sign(Axis::Y) == p.sign_y);
    assert(p.sign(Axis::Z) == p.sign_z);
    if let Some(a) = next_axis(p, s) {
        assert forall|b: Axis| p.moving(b) implies #[trigger] (s.rel(a) * p.abs(b)) <= s.rel(b)
            * p.abs(a) by {
            if a == b {
                assert(s.rel(a) * p.abs(b) == s.rel(b) * p.abs(a));
            } else if !nearer(p, s, a, b) {
                // a tie broken toward `a`, or `b` strictly nearer, which the
                // choice of `a` excludes
                assert(s.rel(b) * p.abs(a) <= s.rel(a) * p.abs(b));
                lemma_not_nearer_tie(p, s, a, b);
            }
        }
    }
}

/// When the axis chosen is not strictly nearer than another moving axis,
/// the two boundaries are equally far.
proof fn lemma_not_nearer_tie(p: RayParams, s: MarchState, a: Axis, b: Axis)
    requires
        ray_consistent(p, s),
        next_axis(p, s) == Some(a),
        a != b,
        p.moving(b),
        !nearer(p, s, a, b),
    ensures
        s.rel(a) * p.abs(b) == s.rel(b) * p.abs(a),
{
    assert(p.sign(Axis::X) == p.sign_x);
    assert(p.sign(Axis::Y) == p.sign_y);
    assert(p.sign(Axis::Z) == p.sign_z);
    let (rx, ry, rz) = (s.rel_x, s.rel_y, s.rel_z);
    let (ax, ay, az) = (p.abs_x, p.abs_y, p.abs_z);
    if p.moving(Axis::X) && (!p.moving(Axis::Y) || nearer(p, s, Axis::X, Axis::Y)) {
        if a == Axis::Z && b == Axis::Y {
            // z <= x < y
            lemma_ratio_order(rz, az, rx, ax, ry, ay);
        }
    } else if p.moving(Axis::Y) && (!p.moving(Axis::Z) || nearer(p, s, Axis::Y, Axis::Z)) {
    } else {
        if a == Axis::Z && b == Axis::X {
            // z <= y <= x
            lemma_ratio_order(rz, az, ry, ay, rx, ax);
        }
    }
}

/// Distances along the ray, `r / a` with `a > 0`, are ordered transitively.
proof fn lemma_ratio_order(r1: int, a1: int, r2: int, a2: int, r3: int, a3: int)
    requires
        a1 > 0,
        a2 > 0,
        a3 > 0,
        r1 * a2 <= r2 * a1,
        r2 * a3 <= r3 * a2,
    ensures
        r1 * a3 <= r3 * a1,
        r2 * a3 < r3 * a2 ==> r1 * a3 < r3 * a1,
        r1 * a2 < r2 * a1 ==> r1 * a3 < r3 * a1,
{
    assert(r1 * a2 * a3 <= r2 * a1 * a3) by (nonlinear_arith)
        requires
            r1 * a2 <= r2 * a1,
            a3 > 0,
    ;
    assert(r2 * a3 * a1 <= r3 * a2 * a1) by (nonlinear_arith)
        requires
            r2 * a3 <= r3 * a2,
            a1 > 0,
    ;
    assert(a2 * (r1 * a3) <= a2 * (r3 * a1)) by (nonlinear_arith)
        requires
            r1 * a2 * a3 <= r2 * a1 * a3,
            r2 * a3 * a1 <= r3 * a2 * a1,
    ;
    assert(r1 * a3 <= r3 * a1) by (nonlinear_arith)
        requires
            a2 * (r1 * a3) <= a2 * (r3 * a1),
            a2 > 0,
    ;
    if r2 * a3 < r3 * a2 {
        assert(r2 * a3 * a1 < r3 * a2 * a1) by (nonlinear_arith)
            requires
                r2 * a3 < r3 * a2,
                a1 > 0,
        ;
        assert(r1 * a3 < r3 * a1) by (nonlinear_arith)
            requires
                r1 * a2 * a3 <= r2 * a1 * a3,
                r2 * a3 * a1 < r3 * a2 * a1,
                a2 > 0,
        ;
    }
    if r1 * a2 < r2 * a1 {
        assert(r1 * a2 * a3 < r2 * a1 * a3) by (nonlinear_arith)
            requires
                r1 * a2 < r2 * a1,
                a3 > 0,
        ;
        assert(r1 * a3 < r3 * a1) by (nonlinear_arith)
            requires
                r1 * a2 * a3 < r2 * a1 * a3,
                r2 * a3 * a1 <= r3 * a2 * a1,
                a2 > 0,
        ;
    }
}

/// Crossing times never go back: the boundary the ray crosses after a
/// crossing lies, along the ray, no nearer than the one it just crossed.
pub proof fn lemma_crossings_in_order(p: RayParams, s: MarchState)
    requires
        ray_consistent(p, s),
        next_axis(p, s) is Some,
        !beyond_view(p, s, next_axis(p, s)->0),
        next_axis(p, s.crossed(next_axis(p, s)->0, p.sign(next_axis(p, s)->0))) is Some,
    ensures
        ({
            let a = next_axis(p, s)->0;
            let s2 = s.crossed(a, p.sign(a));
            let b = next_axis(p, s2)->0;
            s.rel(a) * p.abs(b) <= s2.rel(b) * p.abs(a)
        }),
{
    let a = next_axis(p, s)->0;
    let s2 = s.crossed(a, p.sign(a));
    let b = next_axis(p, s2)->0;
    lemma_crosses_nearest_boundary(p, s);
    lemma_cross_next_consistent(p, s);
    lemma_crosses_nearest_boundary(p, s2);
    if a == b {
        assert(s2.rel(a) == s.rel(a) + 256);
        assert(s.rel(a) * p.abs(a) <= s2.rel(a) * p.abs(a)) by (nonlinear_arith)
            requires
                s2.rel(a) == s.rel(a) + 256,
                p.abs(a) > 0,
        ;
    } else {
        assert(s2.rel(b) == s.rel(b));
        assert(p.moving(b));
        assert(s.rel(a) * p.abs(b) <= s.rel(b) * p.abs(a));
    }
}

/// A crossing within the view distance keeps the ray state valid.
pub proof fn lemma_crossing_keeps_valid(p: RayParams, s: MarchState)
    requires
        state_valid(p, s),
        next_axis(p, s) is Some,
        !beyond_view(p, s, next_axis(p, s)->0),
        p.abs_x <= i32::MAX,
        p.abs_y <= i32::MAX,
        p.abs_z <= i32::MAX,
    ensures
        state_valid(p, s.crossed(next_axis(p, s)->0, p.sign(next_axis(p, s)->0))),
{
    let a = next_axis(p, s)->0;
    let s2 = s.crossed(a, p.sign(a));
    assert(p.sign(Axis::X) == p.sign_x);
    assert(p.sign(Axis::Y) == p.sign_y);
    assert(p.sign(Axis::Z) == p.sign_z);
    assert forall|c: Axis| #![trigger p.sign(c)] p.moving(c) implies 0 <= s2.rel(c) <= 0x20_0100
        && 1024 * s2.rel(c) <= p.abs(c) + 0x40000 && p.abs(c) > 0 by {
        assert(p.sign(c) == p.sign(c));
    }
    assert forall|c: Axis| #![trigger p.sign(c)] !p.moving(c) implies -256 < s2.rel(c) <= 0
        && p.abs(c) == 0 by {
        assert(p.sign(c) == p.sign(c));
    }
}

/// Where a ray stops is a solid block of the world: inside the chunk, within
/// its height, and not air.
pub proof fn lemma_hit_is_solid(world: World, p: RayParams, s: MarchState)
    ensures
        march(world, p, s) matches Some((x, y, z, face)) ==> 0 <= y < CHUNK_HEIGHT
            && world.block_at(x, y, z) != BlockType::Air && crate::world::in_chunk(x, y, z),
    decreases march_measure(p, s),
{
    if !escaped(p, s) {
        if let Some(a) = next_axis(p, s) {
            if !beyond_view(p, s, a) {
                let s2 = s.crossed(a, p.sign(a));
                if !stops_in(world, s2) {
                    lemma_hit_is_solid(world, p, s2);
                }
            }
        }
    }
}

/// A ray that moves on no axis never stops in a block.
pub proof fn lemma_still_ray_sees_nothing(world: World, p: RayParams, s: MarchState)
    requires
        !p.moving(Axis::X),
        !p.moving(Axis::Y),
        !p.moving(Axis::Z),
    ensures
        march(world, p, s) is None,
{
    assert(p.sign(Axis::X) == p.sign_x);
    assert(p.sign(Axis::Y) == p.sign_y);
    assert(p.sign(Axis::Z) == p.sign_z);
}

/// A ray starts with every boundary it moves toward ahead of it, so the laws
/// on ray states hold from its start on.
pub proof fn lemma_start_consistent(px: int, py: int, pz: int, step_x: int, step_y: int, step_z: int)
    ensures
        ray_consistent(
            ray_params(step_x, step_y, step_z),
            ray_start(px, py, pz, ray_params(step_x, step_y, step_z)),
        ),
{
    let p = ray_params(step_x, step_y, step_z);
    let s = ray_start(px, py, pz, p);
    vstd::arithmetic::div_mod::lemma_fundamental_div_mod(px, 256);
    vstd::arithmetic::div_mod::lemma_fundamental_div_mod(py, 256);
    vstd::arithmetic::div_mod::lemma_fundamental_div_mod(pz, 256);
    assert forall|a: Axis| #![trigger p.sign(a)] p.moving(a) implies 0 <= s.rel(a) && p.abs(a)
        > 0 by {
        assert(p.sign(a) == p.sign(a));
    }
}

/// The state after crossing the next boundary, whatever lies there.
pub open spec fn cross_next(p: RayParams, s: MarchState) -> MarchState {
    match next_axis(p, s) {
        Some(a) => s.crossed(a, p.sign(a)),
        None => s,
    }
}

/// The state after `k` crossings, whatever lies there.
pub open spec fn crossings(p: RayParams, s: MarchState, k: nat) -> MarchState
    decreases k,
{
    if k == 0 {
        s
    } else {
        cross_next(p, crossings(p, s, (k - 1) as nat))
    }
}

/// A crossing keeps the next boundaries ahead of the ray, and moves them
/// only farther.
proof fn lemma_cross_next_consistent(p: RayParams, s: MarchState)
    requires
        ray_consistent(p, s),
    ensures
        ray_consistent(p, cross_next(p, s)),
        forall|a: Axis| #[trigger] cross_next(p, s).rel(a) >= s.rel(a),
{
    assert(p.sign(Axis::X) == p.sign_x);
    assert(p.sign(Axis::Y) == p.sign_y);
    assert(p.sign(Axis::Z) == p.sign_z);
    let s2 = cross_next(p, s);
    assert forall|c: Axis| #![trigger p.sign(c)] p.moving(c) implies 0 <= s2.rel(c) && p.abs(c)
        > 0 by {
        assert(p.sign(c) == p.sign(c));
    }
}

/// Crossing `k + 1` times is crossing once, then `k` times.
proof fn lemma_crossings_shift(p: RayParams, s: MarchState, k: nat)
    ensures
        crossings(p, s, k + 1) == crossings(p, cross_next(p, s), k),
    decreases k,
{
    if k > 0 {
        lemma_crossings_shift(p, s, (k - 1) as nat);
        assert(crossings(p, s, k + 1) == cross_next(p, crossings(p, s, k)));
        assert(crossings(p, cross_next(p, s), k) == cross_next(
            p,
            crossings(p, cross_next(p, s), (k - 1) as nat),
        ));
    } else {
        assert(crossings(p, s, 1) == cross_next(p, crossings(p, s, 0)));
    }
}

/// The ray crosses block boundaries in the order in which the straight ray
/// meets them: after any number of crossings, every boundary crossed lies,
/// along the ray, no farther than every boundary still ahead. (On axis `a`
/// the last boundary crossed lies at `rel(a) - 256`.)
pub proof fn lemma_crossings_follow_the_ray(p: RayParams, s: MarchState, k: nat)
    requires
        ray_consistent(p, s),
    ensures
        ray_consistent(p, crossings(p, s, k)),
        forall|a: Axis| #[trigger] crossings(p, s, k).rel(a) >= s.rel(a),
        forall|a: Axis, b: Axis|
            p.moving(a) && p.moving(b) && #[trigger] crossings(p, s, k).rel(a) >= s.rel(a) + 256
                ==> (crossings(p, s, k).rel(a) - 256) * p.abs(b) <= #[trigger] crossings(
                p,
                s,
                k,
            ).rel(b) * p.abs(a),
    decreases k,
{
    if k > 0 {
        let k1 = (k - 1) as nat;
        lemma_crossings_follow_the_ray(p, s, k1);
        let sk = crossings(p, s, k1);
        let sn = crossings(p, s, k);
        assert(sn == cross_next(p, sk));
        lemma_cross_next_consistent(p, sk);
        lemma_crosses_nearest_boundary(p, sk);
        assert forall|a: Axis, b: Axis|
            p.moving(a) && p.moving(b) && #[trigger] sn.rel(a) >= s.rel(a) + 256 implies (sn.rel(a)
            - 256) * p.abs(b) <= #[trigger] sn.rel(b) * p.abs(a) by {
            assert(p.sign(a) == p.sign(a));
            assert(p.sign(b) == p.sign(b));
            assert(sk.rel(b) <= sn.rel(b));
            if next_axis(p, sk) == Some(a) {
                let c = a;
                assert(sn.rel(a) == sk.rel(a) + 256);
                if b == c {
                    assert(sk.rel(a) * p.abs(a) <= sn.rel(a) * p.abs(a)) by (nonlinear_arith)
                        requires
                            sn.rel(a) == sk.rel(a) + 256,
                            p.abs(a) > 0,
                    ;
                } else {
                    assert(sn.rel(b) == sk.rel(b));
                    assert(sk.rel(a) * p.abs(b) <= sk.rel(b) * p.abs(a));
                }
            } else {
                assert(sn.rel(a) == sk.rel(a));
                assert((sk.rel(a) - 256) * p.abs(b) <= sk.rel(b) * p.abs(a));
                assert(sk.rel(b) * p.abs(a) <= sn.rel(b) * p.abs(a)) by (nonlinear_arith)
                    requires
                        sk.rel(b) <= sn.rel(b),
                        p.abs(a) > 0,
                ;
            }
        }
    }
}

/// Where the ray stops is the first block, in the order of crossings, that
/// is solid: it is entered by crossing `k` for some `k >= 1`, and every
/// block entered before it is air or outside the world's height.
pub proof fn lemma_hit_is_first_solid(world: World, p: RayParams, s: MarchState)
    ensures
        march(world, p, s) matches Some((x, y, z, face)) ==> exists|k: nat|
            k >= 1 && #[trigger] crossings(p, s, k).x == x && crossings(p, s, k).y == y
                && crossings(p, s, k).z == z && stops_in(world, crossings(p, s, k)) && (forall|
                j: nat|
                1 <= j < k ==> !stops_in(world, #[trigger] crossings(p, s, j))),
    decreases march_measure(p, s),
{
    if !escaped(p, s) {
        if let Some(a) = next_axis(p, s) {
            if !beyond_view(p, s, a) {
                let s2 = s.crossed(a, p.sign(a));
                assert(cross_next(p, s) == s2);
                assert(crossings(p, s, 1) == s2) by {
                    assert(crossings(p, s, 0) == s);
                }
                if stops_in(world, s2) {
                    assert(crossings(p, s, 1).x == s2.x);
                } else {
                    lemma_hit_is_first_solid(world, p, s2);
                    if let Some((x, y, z, face)) = march(world, p, s2) {
                        let k2 = choose|k: nat|
                            k >= 1 && #[trigger] crossings(p, s2, k).x == x && crossings(p, s2, k).y
                                == y && crossings(p, s2, k).z == z && stops_in(
                                world,
                                crossings(p, s2, k),
                            ) && (forall|j: nat|
                                1 <= j < k ==> !stops_in(world, #[trigger] crossings(p, s2, j)));
                        lemma_crossings_shift(p, s, k2);
                        assert forall|j: nat| 1 <= j < k2 + 1 implies !stops_in(
                            world,
                            #[trigger] crossings(p, s, j),
                        ) by {
                            if j == 1 {
                            } else {
                                lemma_crossings_shift(p, s, (j - 1) as nat);
                                assert(crossings(p, s, j) == crossings(p, s2, (j - 1) as nat));
                            }
                        }
                        assert(crossings(p, s, k2 + 1).x == x);
                    }
                }
            }
        }
    }
}

/// The face where a ray enters a block looks back where the ray came from.
/// In the crossing that entered the block, the ray came from the
/// neighbouring block on that face's side, moving against the face:
/// it enters through the Bottom only when moving up from below, through the
/// Top only when moving down from above, West only when moving toward
/// lower x from the block at x + 1, East only toward higher x from x - 1,
/// North only toward lower z from z + 1, and South only toward higher z
/// from z - 1.
pub open spec fn entered_through(p: RayParams, before: MarchState, x: int, y: int, z: int, face: BlockFace) -> bool {
    match face {
        BlockFace::Bottom => p.sign_y > 0 && before.x == x && before.y == y - 1 && before.z == z,
        BlockFace::Top => p.sign_y < 0 && before.x == x && before.y == y + 1 && before.z == z,
        BlockFace::East => p.sign_x > 0 && before.x == x - 1 && before.y == y && before.z == z,
        BlockFace::West => p.sign_x < 0 && before.x == x + 1 && before.y == y && before.z == z,
        BlockFace::South => p.sign_z > 0 && before.x == x && before.y == y && before.z == z - 1,
        BlockFace::North => p.sign_z < 0 && before.x == x && before.y == y && before.z == z + 1,
    }
}

/// Each sign of a direction is -1, 0 or 1, as `ray_params` makes them.
pub open spec fn unit_signs(p: RayParams) -> bool {
    &&& -1 <= p.sign_x <= 1
    &&& -1 <= p.sign_y <= 1
    &&& -1 <= p.sign_z <= 1
}

/// Where the ray stops, the face it reports is the one facing against its
/// direction on the axis it last crossed: the block entered is crossing `k`
/// of the ray, and the block of crossing `k - 1` is its neighbour on the side
/// of that face (see `entered_through`). In particular a ray moving up stops
/// on a Bottom face or a side face, never on a Top face.
pub proof fn lemma_hit_face_looks_back(world: World, p: RayParams, s: MarchState)
    requires
        unit_signs(p),
    ensures
        march(world, p, s) matches Some((x, y, z, face)) ==> exists|k: nat|
            k >= 1 && #[trigger] crossings(p, s, k).x == x && crossings(p, s, k).y == y
                && crossings(p, s, k).z == z && entered_through(
                p,
                crossings(p, s, (k - 1) as nat),
                x,
                y,
                z,
                face,
            ),
        march(world, p, s) matches Some((x, y, z, face)) ==> (face == BlockFace::Top ==> p.sign_y
            < 0) && (face == BlockFace::Bottom ==> p.sign_y > 0) && (face == BlockFace::West
            ==> p.sign_x < 0) && (face == BlockFace::East ==> p.sign_x > 0) && (face
            == BlockFace::North ==> p.sign_z < 0) && (face == BlockFace::South ==> p.sign_z > 0),
    decreases march_measure(p, s),
{
    if !escaped(p, s) {
        if let Some(a) = next_axis(p, s) {
            if !beyond_view(p, s, a) {
                let s2 = s.crossed(a, p.sign(a));
                assert(cross_next(p, s) == s2);
                assert(crossings(p, s, 1) == s2) by {
                    assert(crossings(p, s, 0) == s);
                }
                if stops_in(world, s2) {
                    assert(p.moving(a)) by {
                        assert(p.sign(Axis::X) == p.sign_x);
                        assert(p.sign(Axis::Y) == p.sign_y);
                        assert(p.sign(Axis::Z) == p.sign_z);
                    }
                    assert(crossings(p, s, 0) == s);
                    assert(entered_through(
                        p,
                        crossings(p, s, 0),
                        s2.x,
                        s2.y,
                        s2.z,
                        face_entered(p, a),
                    ));
                    assert(crossings(p, s, 1).x == s2.x);
                } else {
                    lemma_hit_face_looks_back(world, p, s2);
                    if let Some((x, y, z, face)) = march(world, p, s2) {
                        let k2 = choose|k: nat|
                            k >= 1 && #[trigger] crossings(p, s2, k).x == x && crossings(p, s2, k).y
                                == y && crossings(p, s2, k).z == z && entered_through(
                                p,
                                crossings(p, s2, (k - 1) as nat),
                                x,
                                y,
                                z,
                                face,
                            );
                        lemma_crossings_shift(p, s, k2);
                        lemma_crossings_shift(p, s, (k2 - 1) as nat);
                        assert(crossings(p, s, k2) == crossings(p, s2, (k2 - 1) as nat));
                        assert(crossings(p, s, k2 + 1).x == x);
                    }
                }
            }
        }
    }
}

/// The block that a q8 coordinate lies in: `position >> 8`.
fn block_of_position(position: i32) -> (block: i32)
    ensures
        block == block_of(position as int),
        -0x80_0000 <= block < 0x80_0000,
{
    let block: i32 = position >> 8u32;
    assert(block * 256 <= position && position < block * 256 + 256 && -0x80_0000 <= block
        < 0x80_0000) by (bit_vector)
        requires
            block == position >> 8u32,
    ;
    proof {
        vstd::arithmetic::div_mod::lemma_fundamental_div_mod_converse(
            position as int,
            256,
            block as int,
            position - block * 256,
        );
    }
    block
}

proof fn lemma_product_bound(a: int, b: int)
    requires
        -0x40_0000 <= a <= 0x40_0000,
        0 <= b <= 0x8000_0000,
    ensures
        -0x20_0000_0000_0000 <= a * b <= 0x20_0000_0000_0000,
{
    assert(-0x20_0000_0000_0000 <= a * b <= 0x20_0000_0000_0000) by (nonlinear_arith)
        requires
            -0x40_0000 <= a <= 0x40_0000,
            0 <= b <= 0x8000_0000,
    ;
}

/// The block of the chunk at a position given in i32 block coordinates; air
/// outside the chunk.
fn block_at_position(world: &World, x: i32, y: i32, z: i32) -> (block: BlockType)
    requires
        world.wf(),
    ensures
        block == world.block_at(x as int, y as int, z as int),
{
    if 0 <= x && x < CHUNK_WIDTH as i32 && 0 <= y && y < CHUNK_HEIGHT as i32 && 0 <= z && z
        < CHUNK_WIDTH as i32 {
        world.block_get(x as u16, y as u8, z as u16)
    } else {
        BlockType::Air
    }
}

/// Follow the ray from a position (q8 block coordinates) in a direction
/// (components in [-1..1], q22; any magnitude that an i32 holds is taken)
/// through the world, and give the first solid block that it enters within
/// the view distance, with the face it entered through. A ray moving up on
/// an axis must start below the last block boundary that an i32 q8
/// coordinate can reach on it.
pub fn ray_march(
    world: &World,
    position_x: i32,
    position_y: i32,
    position_z: i32,
    step_x: i32,
    step_y: i32,
    step_z: i32,
) -> (hit: Option<RayHit>)
    requires
        world.wf(),
        step_x != i32::MIN,
        step_y != i32::MIN,
        step_z != i32::MIN,
        step_x > 0 ==> position_x < 0x7fff_ff00,
        step_y > 0 ==> position_y < 0x7fff_ff00,
        step_z > 0 ==> position_z < 0x7fff_ff00,
    ensures
        hit_view(hit) == march(
            *world,
            ray_params(step_x as int, step_y as int, step_z as int),
            ray_start(
                position_x as int,
                position_y as int,
                position_z as int,
                ray_params(step_x as int, step_y as int, step_z as int),
            ),
        ),
        hit matches Some(h) ==> (h.face == BlockFace::Top ==> step_y < 0) && (h.face
            == BlockFace::Bottom ==> step_y > 0) && (h.face == BlockFace::West ==> step_x < 0) && (
        h.face == BlockFace::East ==> step_x > 0) && (h.face == BlockFace::North ==> step_z < 0)
            && (h.face == BlockFace::South ==> step_z > 0),
{
    let ghost p = ray_params(step_x as int, step_y as int, step_z as int);
    let ghost start = ray_start(position_x as int, position_y as int, position_z as int, p);
    proof {
        lemma_hit_face_looks_back(*world, p, start);
    }

    // split signs and amounts
    let step_x_sign: i32 = if step_x > 0 { 1 } else if step_x < 0 { -1 } else { 0 };
    let step_y_sign: i32 = if step_y > 0 { 1 } else if step_y < 0 { -1 } else { 0 };
    let step_z_sign: i32 = if step_z > 0 { 1 } else if step_z < 0 { -1 } else { 0 };
    let step_x_abs: i32 = if step_x < 0 { -step_x } else { step_x };
    let step_y_abs: i32 = if step_y < 0 { -step_y } else { step_y };
    let step_z_abs: i32 = if step_z < 0 { -step_z } else { step_z };

    // current position, in full blocks world coordinates
    let mut check_x_block = block_of_position(position_x);
    let mut check_y_block = block_of_position(position_y);
    let mut check_z_block = block_of_position(position_z);

    // current position, in q8 relative to the start, at the next block boundary
    let mut check_x_relative: i32 = if step_x_sign < 0 {
        position_x - check_x_block * 256
    } else {
        (check_x_block + step_x_sign) * 256 - position_x
    };
    let mut check_y_relative: i32 = if step_y_sign < 0 {
        position_y - check_y_block * 256
    } else {
        (check_y_block + step_y_sign) * 256 - position_y
    };
    let mut check_z_relative: i32 = if step_z_sign < 0 {
        position_z - check_z_block * 256
    } else {
        (check_z_block + step_z_sign) * 256 - position_z
    };

    let ghost x0 = check_x_block as int;
    let ghost y0 = check_y_block as int;
    let ghost z0 = check_z_block as int;
    let ghost mut nx: int = 0;
    let ghost mut ny: int = 0;
    let ghost mut nz: int = 0;
    let ghost rx0 = check_x_relative as int;
    let ghost ry0 = check_y_relative as int;
    let ghost rz0 = check_z_relative as int;

    loop
        invariant
            world.wf(),
            p == ray_params(step_x as int, step_y as int, step_z as int),
            start == ray_start(position_x as int, position_y as int, position_z as int, p),
            march(*world, p, start) matches Some((x, y, z, face)) ==> (face == BlockFace::Top
                ==> p.sign_y < 0) && (face == BlockFace::Bottom ==> p.sign_y > 0) && (face
                == BlockFace::West ==> p.sign_x < 0) && (face == BlockFace::East ==> p.sign_x > 0)
                && (face == BlockFace::North ==> p.sign_z < 0) && (face == BlockFace::South
                ==> p.sign_z > 0),
            step_x_sign == p.sign_x,
            step_y_sign == p.sign_y,
            step_z_sign == p.sign_z,
            step_x_abs == p.abs_x,
            step_y_abs == p.abs_y,
            step_z_abs == p.abs_z,
            0 <= p.abs_x <= i32::MAX,
            0 <= p.abs_y <= i32::MAX,
            0 <= p.abs_z <= i32::MAX,
            state_valid(
                p,
                MarchState {
                    x: check_x_block as int,
                    y: check_y_block as int,
                    z: check_z_block as int,
                    rel_x: check_x_relative as int,
                    rel_y: check_y_relative as int,
                    rel_z: check_z_relative as int,
                },
            ),
            march(*world, p, start) == march(
                *world,
                p,
                MarchState {
                    x: check_x_block as int,
                    y: check_y_block as int,
                    z: check_z_block as int,
                    rel_x: check_x_relative as int,
                    rel_y: check_y_relative as int,
                    rel_z: check_z_relative as int,
                },
            ),
            -0x80_0000 <= x0 < 0x80_0000,
            -0x80_0000 <= y0 < 0x80_0000,
            -0x80_0000 <= z0 < 0x80_0000,
            0 <= nx <= 0x2001,
            0 <= ny <= 0x2001,
            0 <= nz <= 0x2001,
            x0 - nx <= check_x_block <= x0 + nx,
            y0 - ny <= check_y_block <= y0 + ny,
            z0 - nz <= check_z_block <= z0 + nz,
            check_x_relative == rx0 + 256 * nx,
            check_y_relative == ry0 + 256 * ny,
            check_z_relative == rz0 + 256 * nz,
            p.sign_x != 0 ==> rx0 >= 0,
            p.sign_y != 0 ==> ry0 >= 0,
            p.sign_z != 0 ==> rz0 >= 0,
            p.sign_x == 0 ==> nx == 0,
            p.sign_y == 0 ==> ny == 0,
            p.sign_z == 0 ==> nz == 0,
        decreases
            march_measure(
                p,
                MarchState {
                    x: check_x_block as int,
                    y: check_y_block as int,
                    z: check_z_block as int,
                    rel_x: check_x_relative as int,
                    rel_y: check_y_relative as int,
                    rel_z: check_z_relative as int,
                },
            ),
    {
        let ghost s = MarchState {
            x: check_x_block as int,
            y: check_y_block as int,
            z: check_z_block as int,
            rel_x: check_x_relative as int,
            rel_y: check_y_relative as int,
            rel_z: check_z_relative as int,
        };
        proof {
            assert(p.sign(Axis::X) == p.sign_x);
            assert(p.sign(Axis::Y) == p.sign_y);
            assert(p.sign(Axis::Z) == p.sign_z);
            lemma_product_bound(check_x_relative as int, step_y_abs as int);
            lemma_product_bound(check_y_relative as int, step_x_abs as int);
            lemma_product_bound(check_x_relative as int, step_z_abs as int);
            lemma_product_bound(check_z_relative as int, step_x_abs as int);
            lemma_product_bound(check_y_relative as int, step_z_abs as int);
            lemma_product_bound(check_z_relative as int, step_y_abs as int);
        }

        // escaped world forever?
        if (check_y_block < 0 && step_y_sign <= 0) || (check_y_block >= CHUNK_HEIGHT as i32
            && step_y_sign >= 0) {
            return None;
        }
        let face_hit: BlockFace;
        let ghost axis: Axis;

        // x boundary is closer than y boundary?
        if step_x_sign != 0 && (step_y_sign == 0 || (check_x_relative as i64 * step_y_abs as i64)
            < (check_y_relative as i64 * step_x_abs as i64)) {
            // x boundary is closer than z boundary?
            if step_z_sign == 0 || (check_x_relative as i64 * step_z_abs as i64) < (
            check_z_relative as i64 * step_x_abs as i64) {
                if check_x_relative as i64 * STEP_SCALE_WIDE > step_x_abs as i64
                    * VIEW_DISTANCE_WIDE {
                    return None;
                }
                check_x_block += step_x_sign;
                check_x_relative += 256;
                proof {
                    axis = Axis::X;
                    nx = nx + 1;
                }
                face_hit = if step_x_sign < 0 {
                    BlockFace::West
                } else {
                    BlockFace::East
                };
            }
            // z boundary is closer than x boundary?
             else {
                if check_z_relative as i64 * STEP_SCALE_WIDE > step_z_abs as i64
                    * VIEW_DISTANCE_WIDE {
                    return None;
                }
                check_z_block += step_z_sign;
                check_z_relative += 256;
                proof {
                    axis = Axis::Z;
                    nz = nz + 1;
                }
                face_hit = if step_z_sign < 0 {
                    BlockFace::North
                } else {
                    BlockFace::South
                };
            }
        }
        // y boundary is closer than x boundary?
         else {
            // y boundary is closer than z boundary?
            if step_y_sign != 0 && (step_z_sign == 0 || (check_y_relative as i64
                * step_z_abs as i64) < (check_z_relative as i64 * step_y_abs as i64)) {
                if check_y_relative as i64 * STEP_SCALE_WIDE > step_y_abs as i64
                    * VIEW_DISTANCE_WIDE {
                    return None;
                }
                check_y_block += step_y_sign;
                check_y_relative += 256;
                proof {
                    axis = Axis::Y;
                    ny = ny + 1;
                }
                face_hit = if step_y_sign < 0 {
                    BlockFace::Top
                } else {
                    BlockFace::Bottom
                };
            }
            // z boundary is closer than y boundary?
             else {
                if step_z_sign == 0 || check_z_relative as i64 * STEP_SCALE_WIDE
                    > step_z_abs as i64 * VIEW_DISTANCE_WIDE {
                    return None;
                }
                check_z_block += step_z_sign;
                check_z_relative += 256;
                proof {
                    axis = Axis::Z;
                    nz = nz + 1;
                }
                face_hit = if step_z_sign < 0 {
                    BlockFace::North
                } else {
                    BlockFace::South
                };
            }
        }

        let ghost s2 = MarchState {
            x: check_x_block as int,
            y: check_y_block as int,
            z: check_z_block as int,
            rel_x: check_x_relative as int,
            rel_y: check_y_relative as int,
            rel_z: check_z_relative as int,
        };
        assert(next_axis(p, s) == Some(axis));
        assert(s2 == s.crossed(axis, p.sign(axis)));
        assert(face_hit == face_entered(p, axis));

        // inside world?
        if check_y_block >= 0 && check_y_block < CHUNK_HEIGHT as i32 {
            let block = block_at_position(world, check_x_block, check_y_block, check_z_block);
            if block != BlockType::Air {
                return Some(
                    RayHit { x: check_x_block, y: check_y_block, z: check_z_block, face: face_hit },
                );
            }
        }
    }
}

} // verus!
