//! The animation of one piece record over one tick: the piece speeds up
//! towards its cell, slows down in time to stop on it, and hops while it
//! travels.
//!
//! Lengths are counted in thousandths of a cell, speeds in thousandths of a
//! cell per second, and the length of a tick in milliseconds. The step of a
//! tick and its shares on the two axes are rounded up, so that a travelling
//! piece makes headway in every tick; roots and the other quotients are
//! rounded down.
//!
//! With ticks of at most `BRIEF_TICK` milliseconds every piece comes to
//! rest on its cell (`lemma_settles`). Longer ticks carry no such promise:
//! a piece may step past its cell again and again.

use crate::roots::{isqrt, lemma_sqrt_floor, lemma_sqrt_floor_monotone, sqrt_floor};
use crate::visual::{target_x, target_z, PieceVisual, MAX_SPEED, POSITION_LIMIT, UNIT};
use vstd::prelude::*;

verus! {

/// Acceleration of a travelling piece, in thousandths of a cell per second
/// and second.
pub const ACCELERATION: u32 = 1000;

/// A piece closer to its cell than this, and slower than this, is at rest.
pub const REST_EPSILON: u32 = 50;

/// Longest tick, in milliseconds, for which every piece is proved to come
/// to rest.
pub const BRIEF_TICK: u32 = 18;

/// Longest step of a tick: the highest speed over the longest tick.
pub const MAX_STEP: u64 = 12_884_901_885;

/// Size of a difference, whatever its sign.
pub open spec fn magnitude(d: int) -> nat {
    if d >= 0 {
        d as nat
    } else {
        (-d) as nat
    }
}

/// Straight-line length of the way with the given differences on the two
/// axes.
pub open spec fn distance(dx: int, dz: int) -> nat {
    sqrt_floor((dx * dx + dz * dz) as nat)
}

/// The quotient of `a` by `b`, rounded up.
pub open spec fn ceil_div(a: nat, b: nat) -> nat
    recommends
        b > 0,
{
    ((a + b - 1) / b as int) as nat
}

/// Length that a piece travels in a tick at the given speed.
pub open spec fn travel(speed: nat, millis: nat) -> nat {
    ceil_div(speed * millis, 1000)
}

/// The position `p` brought back within the limit.
pub open spec fn bounded(p: int) -> int {
    if p > POSITION_LIMIT {
        POSITION_LIMIT as int
    } else if p < -POSITION_LIMIT {
        -POSITION_LIMIT
    } else {
        p
    }
}

/// The coordinate `p` after a step of length `step` along a way of length
/// `way` on which this coordinate differs from the target by `d`: the step
/// is shared out in the proportion of `d` to `way`.
pub open spec fn shifted(p: int, d: int, step: nat, way: nat) -> int {
    let share: int = if way == 0 {
        0
    } else {
        ceil_div(magnitude(d) * step, way) as int
    };
    bounded(if d >= 0 {
        p + share
    } else {
        p - share
    })
}

/// Length within which a piece at the given speed can stop.
pub open spec fn stopping_distance(speed: nat) -> nat {
    speed * speed / (2 * ACCELERATION) as nat
}

/// Speed after a tick: within the stopping distance, the speed from which
/// the piece stops exactly on its cell; farther away, the old speed and what
/// the acceleration adds in the tick; never above the highest speed.
pub open spec fn next_speed(speed: nat, way: nat, millis: nat) -> nat {
    let raw = if way <= stopping_distance(speed) {
        sqrt_floor(way * 2 * ACCELERATION as nat)
    } else {
        speed + millis * ACCELERATION as nat / 1000
    };
    if raw > MAX_SPEED {
        MAX_SPEED as nat
    } else {
        raw
    }
}

/// Height of the hop at the given speed.
pub open spec fn lift_at(speed: nat) -> nat {
    sqrt_floor(speed * UNIT as nat)
}

/// Length of the way from the rendered position of the record to its cell.
pub open spec fn way_left(v: PieceVisual) -> nat {
    distance(target_x(v.cell) - v.x, target_z(v.cell) - v.z)
}

/// A piece is at rest when it is within the rest distance of its cell and
/// no faster than the rest speed.
pub open spec fn is_at_rest(v: PieceVisual) -> bool {
    way_left(v) <= REST_EPSILON && v.speed <= REST_EPSILON
}

/// The record after a tick of `millis` milliseconds. A piece at rest snaps
/// to its cell and lies flat. Any other piece travels towards its cell by
/// its speed times the tick, gets its new speed and is lifted by the hop.
pub open spec fn advanced(v: PieceVisual, millis: nat) -> PieceVisual {
    let dx = target_x(v.cell) - v.x;
    let dz = target_z(v.cell) - v.z;
    let way = distance(dx, dz);
    if is_at_rest(v) {
        PieceVisual { x: target_x(v.cell) as i64, z: target_z(v.cell) as i64, lift: 0, ..v }
    } else {
        let step = travel(v.speed as nat, millis);
        let speed = next_speed(v.speed as nat, way, millis);
        PieceVisual {
            x: shifted(v.x as int, dx, step, way) as i64,
            z: shifted(v.z as int, dz, step, way) as i64,
            lift: lift_at(speed) as u32,
            speed: speed as u32,
            ..v
        }
    }
}

proof fn lemma_square_of_magnitude(d: int)
    ensures
        magnitude(d) * magnitude(d) == d * d,
{
    assert((-d) * (-d) == d * d) by (nonlinear_arith);
}

proof fn lemma_product_bound(a: nat, b: nat, a_max: nat, b_max: nat)
    requires
        a <= a_max,
        b <= b_max,
    ensures
        a * b <= a_max * b_max,
{
    assert(a * b <= a_max * b_max) by (nonlinear_arith)
        requires
            a <= a_max,
            b <= b_max,
    ;
}

proof fn lemma_sizes_fit(size: nat, other: nat, step: nat)
    requires
        size <= POSITION_LIMIT + 7 * UNIT,
        other <= POSITION_LIMIT + 7 * UNIT,
        step <= MAX_STEP,
    ensures
        size * size + other * other <= 20_002_800_098_000_000,
        size * step <= 1_288_580_382_813_195_000,
{
    lemma_product_bound(size, size, 100_007_000, 100_007_000);
    lemma_product_bound(other, other, 100_007_000, 100_007_000);
    lemma_product_bound(size, step, 100_007_000, 12_884_901_885);
    assert(100_007_000 * 100_007_000 == 10_001_400_049_000_000) by (nonlinear_arith);
    assert(100_007_000 * 12_884_901_885 == 1_288_580_382_813_195_000) by (nonlinear_arith);
}

proof fn lemma_speeds_fit(speed: nat, millis: nat)
    requires
        speed <= MAX_SPEED,
        millis <= u32::MAX,
    ensures
        speed * millis <= 12_884_901_885_000,
        speed * speed <= 9_000_000,
{
    lemma_product_bound(speed, millis, 3000, 4_294_967_295);
    lemma_product_bound(speed, speed, 3000, 3000);
    assert(3000 * 4_294_967_295 == 12_884_901_885_000) by (nonlinear_arith);
    assert(3000 * 3000 == 9_000_000) by (nonlinear_arith);
}

fn span(target: i64, position: i64) -> (size: u64)
    requires
        0 <= target <= 7 * UNIT,
        -POSITION_LIMIT <= position <= POSITION_LIMIT,
    ensures
        size == magnitude(target - position),
        size <= POSITION_LIMIT + 7 * UNIT,
{
    if target >= position {
        (target - position) as u64
    } else {
        (position - target) as u64
    }
}

fn shift(position: i64, target: i64, step: u64, way: u64) -> (moved: i64)
    requires
        0 <= target <= 7 * UNIT,
        -POSITION_LIMIT <= position <= POSITION_LIMIT,
        step <= MAX_STEP,
        way < 0x1_0000_0000,
    ensures
        moved == shifted(position as int, target - position, step as nat, way as nat),
        -POSITION_LIMIT <= moved <= POSITION_LIMIT,
{
    let size: u64 = span(target, position);
    proof {
        lemma_sizes_fit(size as nat, 0, step as nat);
    }
    let share: u64 = if way == 0 {
        0
    } else {
        (size * step + (way - 1)) / way
    };
    assert(share <= size * step) by {
        if way != 0 {
            assert((size * step + way - 1) / (way as int) <= size * step) by (nonlinear_arith)
                requires
                    way >= 1,
                    size * step >= 0,
            ;
        }
    }
    let raw: i64 = if target >= position {
        position + share as i64
    } else {
        position - share as i64
    };
    if raw > POSITION_LIMIT {
        POSITION_LIMIT
    } else if raw < -POSITION_LIMIT {
        -POSITION_LIMIT
    } else {
        raw
    }
}

/// Advances the record by one tick of `millis` milliseconds.
pub fn advance(v: PieceVisual, millis: u32) -> (next: PieceVisual)
    requires
        v.wf(),
    ensures
        next == advanced(v, millis as nat),
        next.wf(),
        next.id == v.id,
        next.cell == v.cell,
{
    let target_x: i64 = UNIT * (7 - v.cell / 8) as i64;
    let target_z: i64 = UNIT * (v.cell % 8) as i64;
    let size_x: u64 = span(target_x, v.x);
    let size_z: u64 = span(target_z, v.z);
    proof {
        lemma_square_of_magnitude(target_x - v.x);
        lemma_square_of_magnitude(target_z - v.z);
        lemma_sizes_fit(size_x as nat, size_z as nat, 0);
    }
    let way: u64 = isqrt(size_x * size_x + size_z * size_z);
    if way <= REST_EPSILON as u64 && v.speed <= REST_EPSILON {
        PieceVisual { x: target_x, z: target_z, lift: 0, ..v }
    } else {
        proof {
            lemma_speeds_fit(v.speed as nat, millis as nat);
        }
        let step: u64 = (v.speed as u64 * millis as u64 + 999) / 1000;
        let stop: u64 = v.speed as u64 * v.speed as u64 / (2 * ACCELERATION as u64);
        let raw: u64 = if way <= stop {
            proof {
                lemma_product_bound(way as nat, 2, stop as nat, 2);
            }
            isqrt(way * 2 * ACCELERATION as u64)
        } else {
            v.speed as u64 + millis as u64 * ACCELERATION as u64 / 1000
        };
        let speed: u32 = if raw > MAX_SPEED as u64 {
            MAX_SPEED
        } else {
            raw as u32
        };
        let lift: u64 = isqrt(speed as u64 * UNIT as u64);
        PieceVisual {
            x: shift(v.x, target_x, step, way),
            z: shift(v.z, target_z, step, way),
            lift: lift as u32,
            speed,
            ..v
        }
    }
}

/// A tick keeps a well-formed record well formed, and changes neither its
/// name nor its cell.
pub proof fn lemma_advanced_wf(v: PieceVisual, millis: nat)
    requires
        v.wf(),
    ensures
        advanced(v, millis).wf(),
        advanced(v, millis).id == v.id,
        advanced(v, millis).cell == v.cell,
{
}

/// No tick makes a piece faster than the highest speed, whatever the
/// record and however long the tick.
pub proof fn lemma_speed_capped(v: PieceVisual, millis: nat)
    ensures
        advanced(v, millis).speed <= MAX_SPEED,
{
}

proof fn lemma_share_bounds(size: nat, step: nat, way: nat)
    requires
        1 <= step <= way,
    ensures
        ceil_div(size * step, way) <= size,
        size >= 1 ==> ceil_div(size * step, way) >= 1,
{
    assert((size * step + way - 1) / (way as int) <= size) by (nonlinear_arith)
        requires
            1 <= step <= way,
            size >= 0,
    ;
    if size >= 1 {
        assert((size * step + way - 1) / (way as int) >= 1) by (nonlinear_arith)
            requires
                1 <= step <= way,
                size >= 1,
        ;
    }
}

/// Headway: a travelling piece whose step is at least one and no longer
/// than the way left comes closer to its cell on every axis on which it is
/// off the cell, and stays on the cell's line on an axis on which it is
/// there already.
pub proof fn lemma_headway(v: PieceVisual, millis: nat)
    requires
        v.wf(),
        !is_at_rest(v),
        1 <= travel(v.speed as nat, millis) <= way_left(v),
    ensures
        magnitude(target_x(v.cell) - advanced(v, millis).x) <= magnitude(target_x(v.cell) - v.x),
        magnitude(target_z(v.cell) - advanced(v, millis).z) <= magnitude(target_z(v.cell) - v.z),
        v.x != target_x(v.cell) ==> magnitude(target_x(v.cell) - advanced(v, millis).x)
            < magnitude(target_x(v.cell) - v.x),
        v.z != target_z(v.cell) ==> magnitude(target_z(v.cell) - advanced(v, millis).z)
            < magnitude(target_z(v.cell) - v.z),
{
    let step = travel(v.speed as nat, millis);
    let way = way_left(v);
    lemma_share_bounds(magnitude(target_x(v.cell) - v.x), step, way);
    lemma_share_bounds(magnitude(target_z(v.cell) - v.z), step, way);
}

/// How far the piece is off its cell: the sum of what is left on the two
/// axes.
pub open spec fn off_cell(v: PieceVisual) -> nat {
    magnitude(target_x(v.cell) - v.x) + magnitude(target_z(v.cell) - v.z)
}

/// A tick in which the piece travels and does not pass its cell: it is not
/// at rest, and its step is at least one and no longer than the way left.
pub open spec fn travels(v: PieceVisual, millis: nat) -> bool {
    !is_at_rest(v) && 1 <= travel(v.speed as nat, millis) <= way_left(v)
}

/// The record after one tick for each length in `ticks`, in order.
pub open spec fn advanced_through(v: PieceVisual, ticks: Seq<nat>) -> PieceVisual
    decreases ticks.len(),
{
    if ticks.len() == 0 {
        v
    } else {
        advanced(advanced_through(v, ticks.drop_last()), ticks.last())
    }
}

/// Whether the piece travels, without passing its cell, in every tick of
/// the sequence.
pub open spec fn travels_through(v: PieceVisual, ticks: Seq<nat>) -> bool {
    forall|k: int|
        0 <= k < ticks.len() ==> travels(advanced_through(v, ticks.take(k)), #[trigger] ticks[k])
}

/// A tick in which a piece travels without passing its cell brings it
/// closer to the cell by at least one thousandth.
pub proof fn lemma_tick_closer(v: PieceVisual, millis: nat)
    requires
        v.wf(),
        travels(v, millis),
    ensures
        advanced(v, millis).wf(),
        advanced(v, millis).cell == v.cell,
        off_cell(advanced(v, millis)) + 1 <= off_cell(v),
{
    lemma_advanced_wf(v, millis);
    lemma_headway(v, millis);
    let dx = target_x(v.cell) - v.x;
    let dz = target_z(v.cell) - v.z;
    let w = way_left(v);
    lemma_sqrt_floor((dx * dx + dz * dz) as nat);
    if dx == 0 && dz == 0 {
        assert(dx * dx + dz * dz == 0) by (nonlinear_arith)
            requires
                dx == 0,
                dz == 0,
        ;
        assert(w * w >= 1) by (nonlinear_arith)
            requires
                w >= 1,
        ;
        assert(false);
    }
}

/// Travel ends: every tick in which a piece travels without passing its
/// cell brings it closer by at least one thousandth, so it cannot do so for
/// more ticks than it is thousandths off its cell.
pub proof fn lemma_travel_ends(v: PieceVisual, ticks: Seq<nat>)
    requires
        v.wf(),
        travels_through(v, ticks),
    ensures
        advanced_through(v, ticks).wf(),
        advanced_through(v, ticks).cell == v.cell,
        off_cell(advanced_through(v, ticks)) + ticks.len() <= off_cell(v),
    decreases ticks.len(),
{
    if ticks.len() > 0 {
        let before = ticks.drop_last();
        assert forall|k: int| 0 <= k < before.len() implies travels(
            advanced_through(v, before.take(k)),
            #[trigger] before[k],
        ) by {
            assert(before.take(k) =~= ticks.take(k));
            assert(before[k] == ticks[k]);
        }
        lemma_travel_ends(v, before);
        let u = advanced_through(v, before);
        assert(ticks.take(ticks.len() - 1) =~= before);
        assert(travels(u, ticks[ticks.len() - 1]));
        lemma_tick_closer(u, ticks.last());
    }
}

/// The record after `count` ticks of `millis` milliseconds each.
pub open spec fn advanced_times(v: PieceVisual, millis: nat, count: nat) -> PieceVisual
    decreases count,
{
    if count == 0 {
        v
    } else {
        advanced_times(advanced(v, millis), millis, (count - 1) as nat)
    }
}

/// Whether, in each of the first `count` ticks, the piece does not pass
/// its cell: it is at rest, or on its cell already, or takes a step no
/// longer than the way left.
pub open spec fn never_passes(v: PieceVisual, millis: nat, count: nat) -> bool {
    forall|k: nat|
        k < count ==> {
            let u = #[trigger] advanced_times(v, millis, k);
            is_at_rest(u) || way_left(u) == 0 || travel(u.speed as nat, millis) <= way_left(u)
        }
}

/// What is left to do before a piece rests: nothing when it is at rest;
/// else two for each thousandth that it is off its cell, and one more, or
/// two while it stands still.
pub open spec fn to_do(v: PieceVisual) -> nat {
    if is_at_rest(v) {
        0
    } else {
        2 * off_cell(v) + if v.speed == 0 {
            2nat
        } else {
            1nat
        }
    }
}

proof fn lemma_less_to_do(v: PieceVisual, millis: nat)
    requires
        v.wf(),
        millis >= 1,
        !is_at_rest(v),
        way_left(v) == 0 || travel(v.speed as nat, millis) <= way_left(v),
    ensures
        advanced(v, millis).wf(),
        to_do(advanced(v, millis)) < to_do(v),
{
    let next = advanced(v, millis);
    let way = way_left(v);
    lemma_advanced_wf(v, millis);
    lemma_sqrt_floor_monotone(0, 0);
    if way == 0 {
        assert(0 * 2 * ACCELERATION as nat == 0);
        assert(next.speed == 0);
        assert(next.x == v.x && next.z == v.z);
        assert(way_left(next) == way);
        assert(is_at_rest(next));
    } else if v.speed == 0 {
        assert(0 * millis == 0) by (nonlinear_arith);
        assert(travel(0, millis) == 0);
        assert(0 * 0 / 2000 == 0) by (nonlinear_arith);
        assert(stopping_distance(0) == 0);
        assert(millis * ACCELERATION as nat / 1000 == millis) by (nonlinear_arith);
        assert(next.speed >= 1);
        assert(ceil_div(magnitude(target_x(v.cell) - v.x) * 0, way) == 0) by (nonlinear_arith)
            requires
                way > 0,
        ;
        assert(ceil_div(magnitude(target_z(v.cell) - v.z) * 0, way) == 0) by (nonlinear_arith)
            requires
                way > 0,
        ;
        assert(next.x == v.x && next.z == v.z);
        assert(off_cell(next) == off_cell(v));
    } else {
        assert(travel(v.speed as nat, millis) >= 1) by (nonlinear_arith)
            requires
                v.speed >= 1,
                millis >= 1,
        ;
        lemma_tick_closer(v, millis);
    }
}

/// A piece that never passes its cell comes to rest: with ticks of at least
/// a millisecond, it is at rest after no more ticks than there was to do
/// at the start.
pub proof fn lemma_comes_to_rest(v: PieceVisual, millis: nat) -> (ticks: nat)
    requires
        v.wf(),
        millis >= 1,
        never_passes(v, millis, to_do(v)),
    ensures
        ticks <= to_do(v),
        is_at_rest(advanced_times(v, millis, ticks)),
    decreases to_do(v),
{
    assert(advanced_times(v, millis, 0) == v);
    if is_at_rest(v) {
        0
    } else {
        let next = advanced(v, millis);
        lemma_less_to_do(v, millis);
        assert forall|k: nat| k < to_do(next) implies {
            let u = #[trigger] advanced_times(next, millis, k);
            is_at_rest(u) || way_left(u) == 0 || travel(u.speed as nat, millis) <= way_left(u)
        } by {
            assert(advanced_times(v, millis, k + 1) == advanced_times(next, millis, k));
        }
        let rest = lemma_comes_to_rest(next, millis);
        assert(advanced_times(v, millis, rest + 1) == advanced_times(next, millis, rest));
        rest + 1
    }
}

/// Whether the piece is within `reach` of its cell and no faster than
/// `fast`.
pub open spec fn is_within(v: PieceVisual, reach: nat, fast: nat) -> bool {
    way_left(v) <= reach && v.speed <= fast
}

proof fn lemma_offsets_within_way(v: PieceVisual)
    ensures
        magnitude(target_x(v.cell) - v.x) <= way_left(v),
        magnitude(target_z(v.cell) - v.z) <= way_left(v),
{
    let dx = target_x(v.cell) - v.x;
    let dz = target_z(v.cell) - v.z;
    let a = magnitude(dx);
    let b = magnitude(dz);
    let w = way_left(v);
    lemma_square_of_magnitude(dx);
    lemma_square_of_magnitude(dz);
    lemma_sqrt_floor((dx * dx + dz * dz) as nat);
    assert(a <= w && b <= w) by (nonlinear_arith)
        requires
            a * a + b * b < (w + 1) * (w + 1),
    ;
}

proof fn lemma_way_within(ox: int, oz: int, a: nat, b: nat, bound: nat)
    requires
        magnitude(ox) <= a,
        magnitude(oz) <= b,
        a * a + b * b < (bound + 1) * (bound + 1),
    ensures
        distance(ox, oz) <= bound,
{
    let n = (ox * ox + oz * oz) as nat;
    let r = sqrt_floor(n);
    lemma_square_of_magnitude(ox);
    lemma_square_of_magnitude(oz);
    lemma_product_bound(magnitude(ox), magnitude(ox), a, a);
    lemma_product_bound(magnitude(oz), magnitude(oz), b, b);
    lemma_sqrt_floor(n);
    if r > bound {
        assert((bound + 1) * (bound + 1) <= r * r) by (nonlinear_arith)
            requires
                bound + 1 <= r,
        ;
    }
}

proof fn lemma_share_when_passing(size: nat, step: nat, way: nat)
    requires
        1 <= way < step,
        size <= way,
    ensures
        size <= ceil_div(size * step, way) <= step,
{
    assert((size * step + way - 1) / (way as int) <= step) by (nonlinear_arith)
        requires
            1 <= way < step,
            size <= way,
    ;
    assert((size * step + way - 1) / (way as int) >= size) by (nonlinear_arith)
        requires
            1 <= way < step,
            0 <= size,
    ;
}

proof fn lemma_travel_bound(speed: nat, millis: nat, fast: nat, step: nat)
    requires
        speed <= fast,
        fast * millis <= 1000 * step,
    ensures
        travel(speed, millis) <= step,
{
    lemma_product_bound(speed, millis, fast, millis);
}

// A tick that a piece begins within `reach` of its cell, with a step of at
// most `step`, ends within `reach`, at a speed of at most `fast`: a step
// that passes the cell lands within `step` of it on both axes, a slowing
// piece gets the speed that fits the way left, and a piece that speeds up
// was no faster than `slow`.
proof fn lemma_region_step(
    v: PieceVisual,
    millis: nat,
    reach: nat,
    step: nat,
    slow: nat,
    fast: nat,
)
    requires
        v.wf(),
        way_left(v) <= reach,
        travel(v.speed as nat, millis) <= step,
        REST_EPSILON <= fast,
        step <= 1000,
        2 * step * step < (reach + 1) * (reach + 1),
        2000 * reach < (slow + 1) * (slow + 1),
        slow + millis <= fast,
    ensures
        advanced(v, millis).wf(),
        is_within(advanced(v, millis), reach, fast),
        way_left(v) == 0 || travel(v.speed as nat, millis) <= way_left(v) ==> way_left(
            advanced(v, millis),
        ) <= way_left(v),
{
    let next = advanced(v, millis);
    let dx = target_x(v.cell) - v.x;
    let dz = target_z(v.cell) - v.z;
    let a = magnitude(dx);
    let b = magnitude(dz);
    let w = way_left(v);
    let s = v.speed as nat;
    let t = travel(s, millis);
    lemma_advanced_wf(v, millis);
    lemma_sqrt_floor_monotone(0, 0);
    lemma_offsets_within_way(v);
    lemma_square_of_magnitude(dx);
    lemma_square_of_magnitude(dz);
    lemma_sqrt_floor((dx * dx + dz * dz) as nat);
    if is_at_rest(v) {
        assert(way_left(next) == 0);
    } else {
        // The speed after the tick.
        if w <= stopping_distance(s) {
            let n = w * 2 * ACCELERATION as nat;
            let r = sqrt_floor(n);
            lemma_sqrt_floor(n);
            if r > slow {
                assert(r * r >= (slow + 1) * (slow + 1)) by (nonlinear_arith)
                    requires
                        r >= slow + 1,
                ;
            }
            assert(r <= slow);
        } else {
            assert(s * s < 2000 * w) by (nonlinear_arith)
                requires
                    s * s / 2000 < w,
            ;
            if s > slow {
                assert(s * s >= (slow + 1) * (slow + 1)) by (nonlinear_arith)
                    requires
                        s >= slow + 1,
                ;
            }
            assert(s <= slow);
            assert(millis * ACCELERATION as nat / 1000 == millis) by (nonlinear_arith);
        }
        assert(next.speed <= fast);
        // The way left after the tick.
        let ox = target_x(v.cell) - next.x;
        let oz = target_z(v.cell) - next.z;
        if w == 0 {
            assert(next.x == v.x && next.z == v.z);
            assert(way_left(next) == w);
        } else if t == 0 {
            assert(ceil_div(a * 0, w) == 0) by (nonlinear_arith)
                requires
                    w > 0,
            ;
            assert(ceil_div(b * 0, w) == 0) by (nonlinear_arith)
                requires
                    w > 0,
            ;
            assert(next.x == v.x && next.z == v.z);
            assert(way_left(next) == w);
        } else if t <= w {
            lemma_share_bounds(a, t, w);
            lemma_share_bounds(b, t, w);
            assert(magnitude(ox) <= a);
            assert(magnitude(oz) <= b);
            lemma_way_within(ox, oz, a, b, w);
        } else {
            lemma_share_when_passing(a, t, w);
            lemma_share_when_passing(b, t, w);
            assert(magnitude(ox) <= step);
            assert(magnitude(oz) <= step);
            assert(step * step + step * step == 2 * step * step) by (nonlinear_arith);
            lemma_way_within(ox, oz, step, step, reach);
        }
    }
}

// From anywhere, a piece whose steps are no longer than `reach` comes
// within `reach` of its cell.
proof fn lemma_approaches(v: PieceVisual, millis: nat, reach: nat) -> (ticks: nat)
    requires
        v.wf(),
        1 <= millis,
        MAX_SPEED * millis <= 1000 * reach,
        REST_EPSILON <= reach,
    ensures
        ticks <= to_do(v),
        advanced_times(v, millis, ticks).wf(),
        way_left(advanced_times(v, millis, ticks)) <= reach,
    decreases to_do(v),
{
    assert(advanced_times(v, millis, 0) == v);
    if way_left(v) <= reach {
        0
    } else {
        let next = advanced(v, millis);
        lemma_travel_bound(v.speed as nat, millis, MAX_SPEED as nat, reach);
        lemma_less_to_do(v, millis);
        let rest = lemma_approaches(next, millis, reach);
        assert(advanced_times(v, millis, rest + 1) == advanced_times(next, millis, rest));
        rest + 1
    }
}

// A piece within `reach` of its cell and no faster than `fast`, whose steps
// are then no longer than `step`, stays so and comes to rest or within
// `goal` of its cell, as long as no such step is longer than `goal`.
proof fn lemma_comes_within(
    v: PieceVisual,
    millis: nat,
    reach: nat,
    step: nat,
    slow: nat,
    fast: nat,
    goal: nat,
) -> (ticks: nat)
    requires
        v.wf(),
        is_within(v, reach, fast),
        1 <= millis,
        fast * millis <= 1000 * step,
        step <= goal,
        REST_EPSILON <= fast,
        step <= 1000,
        2 * step * step < (reach + 1) * (reach + 1),
        2000 * reach < (slow + 1) * (slow + 1),
        slow + millis <= fast,
    ensures
        ticks <= to_do(v),
        advanced_times(v, millis, ticks).wf(),
        is_within(advanced_times(v, millis, ticks), reach, fast),
        is_at_rest(advanced_times(v, millis, ticks)) || way_left(
            advanced_times(v, millis, ticks),
        ) <= goal,
    decreases to_do(v),
{
    assert(advanced_times(v, millis, 0) == v);
    if is_at_rest(v) || way_left(v) <= goal {
        0
    } else {
        let next = advanced(v, millis);
        lemma_travel_bound(v.speed as nat, millis, fast, step);
        lemma_less_to_do(v, millis);
        lemma_region_step(v, millis, reach, step, slow, fast);
        let rest = lemma_comes_within(next, millis, reach, step, slow, fast, goal);
        assert(advanced_times(v, millis, rest + 1) == advanced_times(next, millis, rest));
        rest + 1
    }
}

// One tick into the narrower region, then on to rest or to the goal.
proof fn lemma_narrows(
    v: PieceVisual,
    millis: nat,
    reach: nat,
    first_step: nat,
    step: nat,
    slow: nat,
    fast: nat,
    goal: nat,
) -> (ticks: nat)
    requires
        v.wf(),
        way_left(v) <= reach,
        travel(v.speed as nat, millis) <= first_step,
        1 <= millis,
        fast * millis <= 1000 * step,
        step <= goal,
        step <= first_step <= 1000,
        REST_EPSILON <= fast,
        2 * first_step * first_step < (reach + 1) * (reach + 1),
        2000 * reach < (slow + 1) * (slow + 1),
        slow + millis <= fast,
    ensures
        advanced_times(v, millis, ticks).wf(),
        is_within(advanced_times(v, millis, ticks), reach, fast),
        is_at_rest(advanced_times(v, millis, ticks)) || way_left(
            advanced_times(v, millis, ticks),
        ) <= goal,
{
    let next = advanced(v, millis);
    lemma_region_step(v, millis, reach, first_step, slow, fast);
    assert(2 * step * step <= 2 * first_step * first_step) by (nonlinear_arith)
        requires
            step <= first_step,
    ;
    let more = lemma_comes_within(next, millis, reach, step, slow, fast, goal);
    assert(advanced_times(v, millis, 1 + more) == advanced_times(next, millis, more));
    1 + more
}

// The last steps: a piece within two thousandths of its cell and no faster
// than 81 is at rest after two ticks at most.
proof fn lemma_last_steps(v: PieceVisual, millis: nat) -> (ticks: nat)
    requires
        v.wf(),
        is_within(v, 2, 81),
        1 <= millis <= BRIEF_TICK,
    ensures
        is_at_rest(advanced_times(v, millis, ticks)),
    decreases way_left(v),
{
    assert(advanced_times(v, millis, 0) == v);
    if is_at_rest(v) {
        0
    } else {
        let next = advanced(v, millis);
        let w = way_left(v);
        let s = v.speed as nat;
        assert(2 * 2 * 2 < (2 + 1) * (2 + 1)) by (nonlinear_arith);
        assert(2000 * 2 < (63 + 1) * (63 + 1)) by (nonlinear_arith);
        assert(81 * millis <= 1000 * 2) by (nonlinear_arith)
            requires
                millis <= 18,
        ;
        lemma_travel_bound(s, millis, 81, 2);
        lemma_region_step(v, millis, 2, 2, 63, 81);
        assert(advanced_times(v, millis, 1) == advanced_times(next, millis, 0));
        if w <= 1 {
            assert(s * s / 2000 >= 1) by (nonlinear_arith)
                requires
                    s >= 51,
            ;
            let n = w * 2 * ACCELERATION as nat;
            let r = sqrt_floor(n);
            lemma_sqrt_floor(n);
            if r > 44 {
                assert(r * r >= 45 * 45) by (nonlinear_arith)
                    requires
                        r >= 45,
                ;
            }
            assert(next.speed <= 44);
            assert(is_at_rest(next));
            1
        } else {
            assert(travel(s, millis) >= 1) by (nonlinear_arith)
                requires
                    s >= 1,
                    millis >= 1,
            ;
            lemma_offsets_within_way(v);
            lemma_headway(v, millis);
            let ox = target_x(v.cell) - next.x;
            let oz = target_z(v.cell) - next.z;
            assert(magnitude(ox) <= 1);
            assert(magnitude(oz) <= 1);
            assert(1 * 1 + 1 * 1 < (1 + 1) * (1 + 1)) by (nonlinear_arith);
            lemma_way_within(ox, oz, 1, 1, 1);
            assert(way_left(next) <= 1);
            let more = lemma_last_steps(next, millis);
            assert(advanced_times(v, millis, 1 + more) == advanced_times(next, millis, more));
            1 + more
        }
    }
}

proof fn lemma_times_add(v: PieceVisual, millis: nat, first: nat, then: nat)
    ensures
        advanced_times(v, millis, first + then) == advanced_times(
            advanced_times(v, millis, first),
            millis,
            then,
        ),
    decreases first,
{
    if first > 0 {
        lemma_times_add(advanced(v, millis), millis, (first - 1) as nat, then);
        assert(advanced_times(v, millis, first + then) == advanced_times(
            advanced(v, millis),
            millis,
            (first + then - 1) as nat,
        ));
    }
}

/// Every piece comes to rest: with ticks of at least one and at most
/// `BRIEF_TICK` milliseconds, whatever its position and its speed, the
/// piece is at rest after finitely many ticks, within the rest distance of
/// its cell and no faster than the rest speed. The next tick lands it on
/// the cell, where it stays.
///
/// The piece first comes within 76 thousandths of its cell, which no step
/// is long enough to leave again. From there on it is slower, so its steps
/// are shorter and the region that it cannot leave is narrower: 11
/// thousandths, then 4, then 2. Within 2 thousandths it rests after two
/// ticks.
pub proof fn lemma_settles(v: PieceVisual, millis: nat) -> (ticks: nat)
    requires
        v.wf(),
        1 <= millis <= BRIEF_TICK,
    ensures
        is_at_rest(advanced_times(v, millis, ticks)),
        way_left(advanced_times(v, millis, ticks)) <= REST_EPSILON,
        advanced_times(v, millis, ticks).speed <= REST_EPSILON,
{
    assert(2 * 54 * 54 < (76 + 1) * (76 + 1)) by (nonlinear_arith);
    assert(2000 * 76 < (389 + 1) * (389 + 1)) by (nonlinear_arith);
    assert(2 * 8 * 8 < (11 + 1) * (11 + 1)) by (nonlinear_arith);
    assert(2000 * 11 < (148 + 1) * (148 + 1)) by (nonlinear_arith);
    assert(2 * 3 * 3 < (4 + 1) * (4 + 1)) by (nonlinear_arith);
    assert(2000 * 4 < (89 + 1) * (89 + 1)) by (nonlinear_arith);
    assert(2 * 2 * 2 < (2 + 1) * (2 + 1)) by (nonlinear_arith);
    assert(2000 * 2 < (63 + 1) * (63 + 1)) by (nonlinear_arith);
    let approach = lemma_approaches(v, millis, 76);
    let near = advanced_times(v, millis, approach);
    lemma_travel_bound(near.speed as nat, millis, 3000, 54);
    let first = lemma_narrows(near, millis, 76, 54, 8, 389, 407, 11);
    let close = advanced_times(near, millis, first);
    lemma_times_add(v, millis, approach, first);
    if is_at_rest(close) {
        approach + first
    } else {
        lemma_travel_bound(close.speed as nat, millis, 407, 8);
        let second = lemma_narrows(close, millis, 11, 8, 3, 148, 166, 4);
        let closer = advanced_times(close, millis, second);
        lemma_times_add(v, millis, approach + first, second);
        if is_at_rest(closer) {
            approach + first + second
        } else {
            lemma_travel_bound(closer.speed as nat, millis, 166, 3);
            let third = lemma_narrows(closer, millis, 4, 3, 2, 89, 107, 2);
            let closest = advanced_times(closer, millis, third);
            lemma_times_add(v, millis, approach + first + second, third);
            if is_at_rest(closest) {
                approach + first + second + third
            } else {
                lemma_travel_bound(closest.speed as nat, millis, 107, 2);
                lemma_region_step(closest, millis, 2, 2, 63, 81);
                let last = advanced(closest, millis);
                let more = lemma_last_steps(last, millis);
                lemma_times_add(v, millis, approach + first + second + third, 1 + more);
                assert(advanced_times(closest, millis, 1 + more) == advanced_times(
                    last,
                    millis,
                    more,
                ));
                approach + first + second + third + 1 + more
            }
        }
    }
}

/// A piece at rest lands on its cell, flat, with its speed unchanged, and
/// further ticks leave it there.
pub proof fn lemma_rest_is_stable(v: PieceVisual, millis: nat, later: nat)
    requires
        v.wf(),
        is_at_rest(v),
    ensures
        advanced(v, millis).x == target_x(v.cell),
        advanced(v, millis).z == target_z(v.cell),
        advanced(v, millis).lift == 0,
        advanced(v, millis).speed == v.speed,
        is_at_rest(advanced(v, millis)),
        advanced(advanced(v, millis), later) == advanced(v, millis),
{
    let landed = advanced(v, millis);
    lemma_sqrt_floor_monotone(0, 0);
    assert(way_left(landed) == 0);
}

} // verus!
