//! Anchoring: quantizing a size to the nearest power of two, so that cache
//! keys generalize over nearby shapes.

use vstd::prelude::*;

verus! {

/// The largest power of two at or below `x`; zero for zero.
pub open spec fn floor_pow2(x: nat) -> nat
    decreases x,
{
    if x <= 1 {
        x
    } else {
        2 * floor_pow2(x / 2)
    }
}

/// The power of two nearest to `x`, the larger one where two are equally
/// near; zero for zero. The bucket `b` therefore collects the sizes `x` with
/// `3 * b <= 4 * x` and `2 * x < 3 * b`.
pub open spec fn bucket(x: nat) -> nat {
    let p = floor_pow2(x);
    if 2 * x < 3 * p {
        p
    } else {
        2 * p
    }
}

/// The bound that applies when the caller gives none.
pub open spec fn upper_bound(max: Option<usize>) -> nat {
    match max {
        Some(m) => m as nat,
        None => usize::MAX as nat,
    }
}

/// The floor that applies when the caller gives none.
pub open spec fn lower_bound(min: Option<usize>) -> nat {
    match min {
        Some(m) => m as nat,
        None => 0,
    }
}

/// The anchored value of `x`: its bucket, capped at `max` (at `usize::MAX`
/// without one) and then raised to `min`.
pub open spec fn anchored(x: nat, max: Option<usize>, min: Option<usize>) -> nat {
    let capped = if bucket(x) <= upper_bound(max) {
        bucket(x)
    } else {
        upper_bound(max)
    };
    if capped >= lower_bound(min) {
        capped
    } else {
        lower_bound(min)
    }
}

/// `floor_pow2(x)` is at most `x` and more than half of it.
pub proof fn lemma_floor_pow2_bounds(x: nat)
    ensures
        floor_pow2(x) <= x,
        x < 2 * floor_pow2(x) || x == 0,
    decreases x,
{
    if x > 1 {
        lemma_floor_pow2_bounds(x / 2);
    }
}

/// A value that `floor_pow2` leaves alone stays so when doubled.
pub proof fn lemma_floor_pow2_double(p: nat)
    requires
        floor_pow2(p) == p,
        p >= 1,
    ensures
        floor_pow2(2 * p) == 2 * p,
{
    assert((2 * p) / 2 == p);
}

/// If `p` is a power of two with `p <= x < 2 * p`, then `p` is `floor_pow2(x)`.
pub proof fn lemma_floor_pow2_unique(p: nat, x: nat)
    requires
        floor_pow2(p) == p,
        p <= x < 2 * p,
    ensures
        floor_pow2(x) == p,
    decreases x,
{
    if x > 1 {
        assert(p >= 2);
        assert(floor_pow2(p) == 2 * floor_pow2(p / 2));
        assert(p % 2 == 0);
        lemma_floor_pow2_unique(p / 2, x / 2);
    }
}

/// `floor_pow2` never decreases, and where it grows it at least doubles.
pub proof fn lemma_floor_pow2_monotonic(x: nat, y: nat)
    requires
        x <= y,
    ensures
        floor_pow2(x) <= floor_pow2(y),
        floor_pow2(x) < floor_pow2(y) ==> 2 * floor_pow2(x) <= floor_pow2(y),
    decreases y,
{
    if y > 1 {
        lemma_floor_pow2_bounds(y / 2);
        if x > 1 {
            lemma_floor_pow2_monotonic(x / 2, y / 2);
        }
    }
}

/// Anchoring is monotonic: a larger size never falls into a smaller bucket.
pub proof fn lemma_bucket_monotonic(x: nat, y: nat)
    requires
        x <= y,
    ensures
        bucket(x) <= bucket(y),
{
    lemma_floor_pow2_monotonic(x, y);
    lemma_floor_pow2_bounds(x);
    lemma_floor_pow2_bounds(y);
}

/// A bucket holds exactly the sizes from three quarters of it up to, but not
/// including, one and a half times it: all of them anchor to that bucket.
pub proof fn lemma_bucket_range(b: nat, x: nat)
    requires
        floor_pow2(b) == b,
        b >= 2,
        3 * b <= 4 * x,
        2 * x < 3 * b,
    ensures
        bucket(x) == b,
{
    assert(floor_pow2(b) == 2 * floor_pow2(b / 2));
    assert(b % 2 == 0);
    if x < b {
        lemma_floor_pow2_bounds(b / 2);
        lemma_floor_pow2_unique(b / 2, x);
    } else {
        lemma_floor_pow2_unique(b, x);
    }
}

/// Two sizes in the range of one bucket anchor to the same value, whatever
/// the bounds.
pub proof fn lemma_same_bucket_same_anchor(
    b: nat,
    x: nat,
    y: nat,
    max: Option<usize>,
    min: Option<usize>,
)
    requires
        floor_pow2(b) == b,
        b >= 2,
        3 * b <= 4 * x,
        2 * x < 3 * b,
        3 * b <= 4 * y,
        2 * y < 3 * b,
    ensures
        anchored(x, max, min) == anchored(y, max, min),
{
    lemma_bucket_range(b, x);
    lemma_bucket_range(b, y);
}

/// The anchored value never decreases as the size grows.
pub proof fn lemma_anchored_monotonic(x: nat, y: nat, max: Option<usize>, min: Option<usize>)
    requires
        x <= y,
    ensures
        anchored(x, max, min) <= anchored(y, max, min),
{
    lemma_bucket_monotonic(x, y);
}

/// A bucket is a power of two, and anchoring it again changes nothing.
pub proof fn lemma_bucket_idempotent(x: nat)
    ensures
        bucket(bucket(x)) == bucket(x),
        floor_pow2(bucket(x)) == bucket(x),
{
    lemma_floor_pow2_fixed(x);
    let p = floor_pow2(x);
    if p >= 1 {
        lemma_floor_pow2_double(p);
    }
}

/// `floor_pow2` leaves its own results alone.
pub proof fn lemma_floor_pow2_fixed(x: nat)
    ensures
        floor_pow2(floor_pow2(x)) == floor_pow2(x),
    decreases x,
{
    if x > 1 {
        lemma_floor_pow2_fixed(x / 2);
        lemma_floor_pow2_bounds(x / 2);
        let h = floor_pow2(x / 2);
        lemma_floor_pow2_double(h);
    }
}

/// What every size beyond the machine word anchors to: the cap, raised to
/// the floor.
pub open spec fn saturated(max: Option<usize>, min: Option<usize>) -> nat {
    if upper_bound(max) >= lower_bound(min) {
        upper_bound(max)
    } else {
        lower_bound(min)
    }
}

/// The first number beyond the machine word is a power of two.
pub proof fn lemma_floor_pow2_word()
    ensures
        floor_pow2((usize::MAX + 1) as nat) == usize::MAX + 1,
{
    if usize::MAX == 0xffff_ffff {
        assert(floor_pow2(0x1_0000_0000) == 0x1_0000_0000) by {
            reveal_with_fuel(floor_pow2, 34);
        }
    } else {
        assert(usize::MAX == 0xffff_ffff_ffff_ffff);
        assert(floor_pow2(0x1_0000_0000_0000_0000) == 0x1_0000_0000_0000_0000) by {
            reveal_with_fuel(floor_pow2, 66);
        }
    }
}

/// A size beyond the machine word anchors to the cap: its bucket does not
/// fit the word either.
pub proof fn lemma_anchored_beyond_word(x: nat, max: Option<usize>, min: Option<usize>)
    requires
        x > usize::MAX,
    ensures
        bucket(x) > usize::MAX,
        anchored(x, max, min) == saturated(max, min),
{
    lemma_floor_pow2_word();
    lemma_floor_pow2_monotonic((usize::MAX + 1) as nat, x);
}

/// Anchors `x` to the nearest power of two, capped at `max` and raised to
/// `min` where they are given.
pub fn anchor(x: usize, max: Option<usize>, min: Option<usize>) -> (r: usize)
    ensures
        r == anchored(x as nat, max, min),
{
    let cap: usize = match max {
        Some(m) => m,
        None => usize::MAX,
    };
    let floor: usize = match min {
        Some(m) => m,
        None => 0,
    };
    let mut p: usize = if x == 0 { 0 } else { 1 };
    while p != 0 && p <= x / 2
        invariant
            p <= x,
            floor_pow2(p as nat) == p,
            x == 0 <==> p == 0,
        decreases x - p,
    {
        proof {
            lemma_floor_pow2_double(p as nat);
        }
        p = 2 * p;
    }
    proof {
        if x != 0 {
            lemma_floor_pow2_unique(p as nat, x as nat);
        }
    }
    let below: usize = x - p;
    let nearest: usize = if below < p - below {
        p
    } else if p <= usize::MAX / 2 {
        2 * p
    } else {
        usize::MAX
    };
    let capped: usize = if nearest <= cap { nearest } else { cap };
    if capped >= floor {
        capped
    } else {
        floor
    }
}

} // verus!
