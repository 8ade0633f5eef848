//! The pseudo-random generator that drives the flames.

use std::time::{SystemTime, UNIX_EPOCH};
use vstd::prelude::*;

verus! {

/// A reading of the system clock, opaque here.
#[verifier::external_type_specification]
#[verifier::external_body]
pub struct ExSystemTime(SystemTime);

/// `SystemTime::now` reads the system clock. What the clock says is left open.
pub assume_specification[ SystemTime::now ]() -> SystemTime
;

/// `SystemTime::duration_since` with `UNIX_EPOCH`, as whole seconds and the nanoseconds
/// below one second. `Ok` is the time since the epoch; `Err` is how far the reading lies
/// before it. The one claim is that the nanoseconds make up less than a second. How the
/// two numbers follow from the reading is not said, since a reading is opaque.
#[verifier::external_body]
fn epoch_distance(now: SystemTime) -> (distance: Result<(u64, u32), (u64, u32)>)
    ensures
        distance matches Ok(since) ==> since.1 < 1_000_000_000,
        distance matches Err(until) ==> until.1 < 1_000_000_000,
{
    match now.duration_since(UNIX_EPOCH) {
        Ok(since) => Ok((since.as_secs(), since.subsec_nanos())),
        Err(error) => Err((error.duration().as_secs(), error.duration().subsec_nanos())),
    }
}

/// One step of the xorshift recurrence.
pub open spec fn xorshift(x: u64) -> u64 {
    let a = x ^ (x << 13u64);
    let b = a ^ (a >> 7u64);
    b ^ (b << 17u64)
}

/// The seed that a clock reading gives; the lowest bit is always set.
pub open spec fn clock_seed(secs: u64, nanos: u32) -> u64 {
    (secs.wrapping_mul(6364136223846793005) ^ (nanos as u64)) | 1
}

/// Whether `state` is a seed that some clock reading gives.
pub open spec fn is_clock_seed(state: u64) -> bool {
    exists|secs: u64, nanos: u32|
        nanos < 1_000_000_000 && state == #[trigger] clock_seed(secs, nanos)
}

/// The number of values between `lo` and `hi`, both included, as the generator
/// counts it: a negative `hi - lo + 1` wraps around to a huge span.
pub open spec fn span(lo: i32, hi: i32) -> u64 {
    ((hi - lo + 1) as i32) as u64
}

/// What is added to `lo` when the generator has just produced `value`: the
/// remainder by the span, cut down to 32 bits.
pub open spec fn offset(value: u64, lo: i32, hi: i32) -> i32 {
    (value % span(lo, hi)) as i32
}

/// The number that a draw between `lo` and `hi` gives from the state `state`.
pub open spec fn drawn(state: u64, lo: i32, hi: i32) -> int {
    lo + offset(xorshift(state), lo, hi)
}

/// Xorshift generator. Its view is the current state.
pub struct Rng(u64);

impl View for Rng {
    type V = u64;

    closed spec fn view(&self) -> u64 {
        self.0
    }
}

impl Default for Rng {
    fn default() -> (rng: Self)
        ensures
            is_clock_seed(rng@),
    {
        Self::new()
    }
}

impl Rng {
    /// A generator seeded from a clock reading of `secs` seconds and `nanos`
    /// nanoseconds.
    pub fn from_clock(secs: u64, nanos: u32) -> (rng: Self)
        ensures
            rng@ == clock_seed(secs, nanos),
    {
        Rng((secs.wrapping_mul(6364136223846793005) ^ nanos as u64) | 1)
    }

    /// A generator seeded from the system clock. The distance to the epoch seeds
    /// it, on whichever side of the epoch the clock stands.
    pub fn new() -> (rng: Self)
        ensures
            is_clock_seed(rng@),
    {
        let (secs, nanos) = match epoch_distance(SystemTime::now()) {
            Ok(since) => since,
            Err(until) => until,
        };
        Self::from_clock(secs, nanos)
    }

    /// Advances the generator; the new state is the value returned.
    pub fn next_u64(&mut self) -> (value: u64)
        ensures
            value == xorshift(old(self)@),
            final(self)@ == value,
    {
        let mut x: u64 = self.0;
        x ^= x << 13;
        x ^= x >> 7;
        x ^= x << 17;
        self.0 = x;
        x
    }

    /// A draw between `lo` and `hi`, both included. Where `hi` lies below `lo - 1`
    /// the span wraps around, and only a draw that still fits may be asked for.
    pub fn range(&mut self, lo: i32, hi: i32) -> (value: i32)
        requires
            i32::MIN <= hi - lo < i32::MAX,
            hi - lo != -1,
            hi < lo ==> i32::MIN <= drawn(old(self)@, lo, hi) <= i32::MAX,
        ensures
            final(self)@ == xorshift(old(self)@),
            value == drawn(old(self)@, lo, hi),
            lo <= hi ==> lo <= value <= hi,
            lo <= hi ==> value == lo + xorshift(old(self)@) % ((hi - lo + 1) as u64),
    {
        let span: u64 = (hi - lo + 1) as u64;
        proof {
            lemma_span_nonzero(lo, hi);
        }
        let value = self.next_u64();
        proof {
            if lo <= hi {
                lemma_drawn_between(old(self)@, lo, hi);
            }
        }
        lo + (value % span) as i32
    }
}

/// A span that is not zero as a 32-bit number stays so when it is widened.
proof fn lemma_span_nonzero(lo: i32, hi: i32)
    requires
        i32::MIN <= hi - lo < i32::MAX,
        hi - lo != -1,
    ensures
        span(lo, hi) != 0,
        lo <= hi ==> span(lo, hi) == hi - lo + 1,
{
    let d = (hi - lo + 1) as i32;
    assert(d != 0 ==> (d as u64) != 0) by (bit_vector);
}

/// A draw between ordered bounds stays between them, whatever the state.
pub proof fn lemma_drawn_between(state: u64, lo: i32, hi: i32)
    requires
        lo <= hi,
        hi - lo < i32::MAX,
    ensures
        lo <= drawn(state, lo, hi) <= hi,
        drawn(state, lo, hi) == lo + xorshift(state) % ((hi - lo + 1) as u64),
{
    lemma_span_nonzero(lo, hi);
    let value = xorshift(state);
    assert(0 <= value % span(lo, hi) < span(lo, hi));
}

/// Every value between ordered bounds is drawn from some state that a generator can be
/// in: the bounds are tight.
pub proof fn lemma_every_value_is_drawn(lo: i32, hi: i32, value: int)
    requires
        lo <= value <= hi,
        hi - lo < i32::MAX,
    ensures
        exists|state: u64| state != 0 && drawn(state, lo, hi) == value,
{
    let count = (hi - lo + 1) as u64;
    let target = if value == lo {
        count
    } else {
        (value - lo) as u64
    };
    assert(target % count == value - lo) by {
        if value == lo {
            vstd::arithmetic::div_mod::lemma_mod_self_0(count as int);
        } else {
            vstd::arithmetic::div_mod::lemma_small_mod(target as nat, count as nat);
        }
    }
    lemma_xorshift_onto(target);
    let state = choose|state: u64| xorshift(state) == target;
    assert(xorshift(0) == 0) by (bit_vector);
    lemma_drawn_between(state, lo, hi);
    assert(state != 0 && drawn(state, lo, hi) == value);
}

/// The state that the recurrence takes to `y`.
pub open spec fn unxorshift(y: u64) -> u64 {
    let b = y ^ (y << 17u64) ^ (y << 34u64) ^ (y << 51u64);
    let a = b ^ (b >> 7u64) ^ (b >> 14u64) ^ (b >> 21u64) ^ (b >> 28u64) ^ (b >> 35u64) ^ (b
        >> 42u64) ^ (b >> 49u64) ^ (b >> 56u64) ^ (b >> 63u64);
    a ^ (a << 13u64) ^ (a << 26u64) ^ (a << 39u64) ^ (a << 52u64)
}

/// The recurrence can be run backwards, so it reaches every state.
pub proof fn lemma_xorshift_onto(y: u64)
    ensures
        xorshift(unxorshift(y)) == y,
        exists|x: u64| xorshift(x) == y,
{
    let b = y ^ (y << 17u64) ^ (y << 34u64) ^ (y << 51u64);
    let a = b ^ (b >> 7u64) ^ (b >> 14u64) ^ (b >> 21u64) ^ (b >> 28u64) ^ (b >> 35u64) ^ (b
        >> 42u64) ^ (b >> 49u64) ^ (b >> 56u64) ^ (b >> 63u64);
    let x = unxorshift(y);
    assert(x ^ (x << 13u64) == a) by {
        lemma_unshift_left_13(a);
    }
    assert(a ^ (a >> 7u64) == b) by {
        lemma_unshift_right_7(b);
    }
    assert(b ^ (b << 17u64) == y) by {
        lemma_unshift_left_17(y);
    }
    assert(xorshift(x) == y);
}

proof fn lemma_unshift_left_13(a: u64)
    ensures
        ({
            let x = a ^ (a << 13u64) ^ (a << 26u64) ^ (a << 39u64) ^ (a << 52u64);
            x ^ (x << 13u64) == a
        }),
{
    assert({
        let x = a ^ (a << 13u64) ^ (a << 26u64) ^ (a << 39u64) ^ (a << 52u64);
        x ^ (x << 13u64) == a
    }) by (bit_vector);
}

proof fn lemma_unshift_right_7(b: u64)
    ensures
        ({
            let a = b ^ (b >> 7u64) ^ (b >> 14u64) ^ (b >> 21u64) ^ (b >> 28u64) ^ (b >> 35u64)
                ^ (b >> 42u64) ^ (b >> 49u64) ^ (b >> 56u64) ^ (b >> 63u64);
            a ^ (a >> 7u64) == b
        }),
{
    assert({
        let a = b ^ (b >> 7u64) ^ (b >> 14u64) ^ (b >> 21u64) ^ (b >> 28u64) ^ (b >> 35u64) ^ (b
            >> 42u64) ^ (b >> 49u64) ^ (b >> 56u64) ^ (b >> 63u64);
        a ^ (a >> 7u64) == b
    }) by (bit_vector);
}

proof fn lemma_unshift_left_17(y: u64)
    ensures
        ({
            let b = y ^ (y << 17u64) ^ (y << 34u64) ^ (y << 51u64);
            b ^ (b << 17u64) == y
        }),
{
    assert({
        let b = y ^ (y << 17u64) ^ (y << 34u64) ^ (y << 51u64);
        b ^ (b << 17u64) == y
    }) by (bit_vector);
}

/// The recurrence never merges two states, so a generator never loses entropy.
pub proof fn lemma_xorshift_one_to_one(x: u64, y: u64)
    requires
        xorshift(x) == xorshift(y),
    ensures
        x == y,
{
    let a = x ^ (x << 13u64);
    let c = y ^ (y << 13u64);
    let b = a ^ (a >> 7u64);
    let d = c ^ (c >> 7u64);
    assert(b ^ (b << 17u64) == d ^ (d << 17u64) ==> b == d) by (bit_vector);
    assert(a ^ (a >> 7u64) == c ^ (c >> 7u64) ==> a == c) by (bit_vector);
    assert(x ^ (x << 13u64) == y ^ (y << 13u64) ==> x == y) by (bit_vector);
}

/// A generator never gets stuck: a seed is odd, and a state that is not zero is
/// never followed by zero.
pub proof fn lemma_never_zero(state: u64)
    ensures
        is_clock_seed(state) ==> state % 2 == 1,
        state != 0 ==> xorshift(state) != 0,
{
    if is_clock_seed(state) {
        let (secs, nanos) = choose|secs: u64, nanos: u32|
            nanos < 1_000_000_000 && state == #[trigger] clock_seed(secs, nanos);
        let mixed = secs.wrapping_mul(6364136223846793005) ^ (nanos as u64);
        assert((mixed | 1) % 2 == 1) by (bit_vector);
    }
    if xorshift(state) == 0 {
        assert(xorshift(0) == 0) by (bit_vector);
        lemma_xorshift_one_to_one(state, 0);
    }
}

/// The recurrence is linear: states that are combined bit by bit lead to values that are
/// combined in the same way.
pub proof fn lemma_xorshift_is_linear(x: u64, y: u64)
    ensures
        xorshift(x ^ y) == xorshift(x) ^ xorshift(y),
{
    let z = x ^ y;
    let a = x ^ (x << 13u64);
    let c = y ^ (y << 13u64);
    let e = z ^ (z << 13u64);
    assert(z == x ^ y ==> z ^ (z << 13u64) == (x ^ (x << 13u64)) ^ (y ^ (y << 13u64)))
        by (bit_vector);
    let b = a ^ (a >> 7u64);
    let d = c ^ (c >> 7u64);
    let f = e ^ (e >> 7u64);
    assert(e == a ^ c ==> e ^ (e >> 7u64) == (a ^ (a >> 7u64)) ^ (c ^ (c >> 7u64)))
        by (bit_vector);
    assert(f == b ^ d ==> f ^ (f << 17u64) == (b ^ (b << 17u64)) ^ (d ^ (d << 17u64)))
        by (bit_vector);
}

/// The lowest thirteen bits of a value: each is that of the state, combined with the one
/// seven places above it and, from the seventh on, with the one six places below it.
pub proof fn lemma_xorshift_keeps_low_bits(x: u64)
    ensures
        xorshift(x) % 0x2000 == (x ^ (x >> 7u64) ^ ((x << 6u64) & 0x1fc0)) % 0x2000,
{
    let a = x ^ (x << 13u64);
    let b = a ^ (a >> 7u64);
    let y = b ^ (b << 17u64);
    assert(a == x ^ (x << 13u64) && b == a ^ (a >> 7u64) && y == b ^ (b << 17u64) ==> y % 0x2000
        == (x ^ (x >> 7u64) ^ ((x << 6u64) & 0x1fc0)) % 0x2000) by (bit_vector);
}

/// The nanoseconds of a reading go into its seed bit for bit, but for the lowest one.
pub proof fn lemma_seed_holds_nanoseconds(secs: u64, nanos: u32, other: u32)
    ensures
        clock_seed(secs, nanos) ^ clock_seed(secs, other) == ((nanos ^ other) as u64)
            & 0xffff_fffe,
{
    let p = secs.wrapping_mul(6364136223846793005);
    assert(((p ^ (nanos as u64)) | 1) ^ ((p ^ (other as u64)) | 1) == ((nanos ^ other) as u64)
        & 0xffff_fffe) by (bit_vector);
}

/// At the full second the seed is the multiple that the seconds give, made odd.
pub proof fn lemma_seed_holds_seconds(secs: u64)
    ensures
        clock_seed(secs, 0) as int / 2 == (secs * 6364136223846793005int) % 0x1_0000_0000_0000_0000
            / 2,
        clock_seed(secs, 0) % 2 == 1,
{
    let p = secs.wrapping_mul(6364136223846793005);
    assert(((p ^ (0u32 as u64)) | 1) / 2 == p / 2 && ((p ^ (0u32 as u64)) | 1) % 2 == 1)
        by (bit_vector);
}

/// Between bounds in the wrong order the number of values wraps around at 64 bits, and what
/// a draw adds to the lower bound is cut down to 32 bits.
pub proof fn lemma_reversed_bounds(state: u64, lo: i32, hi: i32)
    requires
        i32::MIN <= hi - lo < -1,
    ensures
        span(lo, hi) == 0x1_0000_0000_0000_0000 + hi - lo + 1,
        i32::MIN <= drawn(state, lo, hi) - lo <= i32::MAX,
        (xorshift(state) as int % (0x1_0000_0000_0000_0000 + hi - lo + 1) - (drawn(state, lo, hi)
            - lo)) % 0x1_0000_0000 == 0,
{
    let d = (hi - lo + 1) as i32;
    assert(d < 0 ==> d as u64 == 0x1_0000_0000_0000_0000 + d) by (bit_vector);
    let v = xorshift(state) % span(lo, hi);
    let cut = v as i32;
    let k = if cut < 0 {
        v / 0x1_0000_0000 + 1
    } else {
        v as int / 0x1_0000_0000
    };
    assert(cut >= 0 ==> v == cut + 0x1_0000_0000 * (v / 0x1_0000_0000)) by (bit_vector)
        requires
            cut == v as i32,
    ;
    assert(cut < 0 ==> v == cut + 0x1_0000_0000 * (v / 0x1_0000_0000 + 1)) by (bit_vector)
        requires
            cut == v as i32,
    ;
    assert(v as int == cut + 0x1_0000_0000 * k);
}

} // verus!
