//! Search for the least and greatest finite `f64` values that a bound accepts.
//!
//! Finite `f64` values are walked through a total order of `u64` keys: the
//! key of a non-negative value is its bit pattern with the sign bit set, the
//! key of a negative value is its complemented bit pattern. Key order follows
//! the order of the values, and the keys of the finite values form one
//! interval. Membership in a bound is monotone on each side of an accepted
//! seed, so two binary searches over keys find the extreme accepted values.
//! Whether a probed value is accepted is a floating-point question; the
//! searches here take its answer as a `bool`.
use vstd::prelude::*;

verus! {

/// The sign bit of an `f64` bit pattern.
pub const SIGN_MASK: u64 = 0x8000_0000_0000_0000u64;

/// The exponent field of an `f64` bit pattern, shifted down.
pub open spec fn exponent_field(bits: u64) -> u64 {
    (bits >> 52u64) & 0x7ffu64
}

/// Whether an `f64` bit pattern encodes a finite value: its exponent field
/// is not all ones.
pub open spec fn is_finite_bits(bits: u64) -> bool {
    exponent_field(bits) != 0x7ffu64
}

/// The ordered key of an `f64` bit pattern.
pub open spec fn ordered_key_spec(bits: u64) -> u64 {
    if bits & SIGN_MASK == 0 {
        bits | SIGN_MASK
    } else {
        !bits
    }
}

/// The `f64` bit pattern that an ordered key stands for.
pub open spec fn bits_of_key_spec(key: u64) -> u64 {
    if key & SIGN_MASK == 0 {
        !key
    } else {
        key & !SIGN_MASK
    }
}

/// The key of `-f64::MAX`, the least finite value.
pub const LEAST_FINITE_KEY: u64 = 0x0010_0000_0000_0000u64;

/// The key of `f64::MAX`, the greatest finite value.
pub const GREATEST_FINITE_KEY: u64 = 0xffef_ffff_ffff_ffffu64;

/// The ordered key of the `f64` whose bit pattern is `bits`.
pub fn ordered_key(bits: u64) -> (key: u64)
    ensures
        key == ordered_key_spec(bits),
{
    if bits & SIGN_MASK == 0 {
        bits | SIGN_MASK
    } else {
        !bits
    }
}

/// The bit pattern of the `f64` that `key` orders.
pub fn bits_of_ordered_key(key: u64) -> (bits: u64)
    ensures
        bits == bits_of_key_spec(key),
{
    if key & SIGN_MASK == 0 {
        !key
    } else {
        key & !SIGN_MASK
    }
}

/// Taking the key of a bit pattern and reading the pattern back gives the
/// pattern; taking the pattern of a key and its key back gives the key.
pub proof fn lemma_ordered_key_round_trip(bits: u64, key: u64)
    ensures
        bits_of_key_spec(ordered_key_spec(bits)) == bits,
        ordered_key_spec(bits_of_key_spec(key)) == key,
{
    assert(bits_of_key_spec(ordered_key_spec(bits)) == bits) by (bit_vector);
    assert(ordered_key_spec(bits_of_key_spec(key)) == key) by (bit_vector);
}

/// Key order follows value order: among non-negative patterns a greater
/// pattern is a greater value and gets a greater key; among negative patterns
/// a greater pattern is a more negative value and gets a smaller key; every
/// negative pattern's key lies below every non-negative pattern's key.
pub proof fn lemma_ordered_key_order(a: u64, b: u64)
    ensures
        a & SIGN_MASK == 0 && b & SIGN_MASK == 0 ==> (a < b <==> ordered_key_spec(a)
            < ordered_key_spec(b)),
        a & SIGN_MASK != 0 && b & SIGN_MASK != 0 ==> (a < b <==> ordered_key_spec(b)
            < ordered_key_spec(a)),
        a & SIGN_MASK != 0 && b & SIGN_MASK == 0 ==> ordered_key_spec(a) < ordered_key_spec(b),
{
    assert(a & SIGN_MASK == 0 && b & SIGN_MASK == 0 ==> (a < b <==> ordered_key_spec(a)
        < ordered_key_spec(b))) by (bit_vector);
    assert(a & SIGN_MASK != 0 && b & SIGN_MASK != 0 ==> (a < b <==> ordered_key_spec(b)
        < ordered_key_spec(a))) by (bit_vector);
    assert(a & SIGN_MASK != 0 && b & SIGN_MASK == 0 ==> ordered_key_spec(a) < ordered_key_spec(
        b)) by (bit_vector);
}

/// The keys of the finite values are exactly the keys from the key of
/// `-f64::MAX` to the key of `f64::MAX`.
pub proof fn lemma_finite_keys_form_interval(key: u64)
    ensures
        is_finite_bits(bits_of_key_spec(key)) <==> LEAST_FINITE_KEY <= key <= GREATEST_FINITE_KEY,
{
    assert(is_finite_bits(bits_of_key_spec(key)) <==> LEAST_FINITE_KEY <= key
        <= GREATEST_FINITE_KEY) by (bit_vector);
}

/// The key probed while the least accepted key is searched between `first`
/// and `accepted`: the lower middle.
pub open spec fn lower_probe(first: u64, accepted: u64) -> u64 {
    (first + (accepted - first) / 2) as u64
}

/// The interval left after probing its lower middle: up to the probe where
/// the probe is accepted, above it where it is refused.
pub open spec fn lower_next(first: u64, accepted: u64, probe_accepted: bool) -> (u64, u64) {
    let middle = lower_probe(first, accepted);
    if probe_accepted {
        (first, middle)
    } else {
        ((middle + 1) as u64, accepted)
    }
}

/// The key at which the search for the least accepted key ends, each probe
/// answered by `accepts`.
pub open spec fn lower_search(accepts: spec_fn(u64) -> bool, first: u64, accepted: u64) -> u64
    decreases accepted - first,
{
    if first >= accepted {
        accepted
    } else {
        let next = lower_next(first, accepted, accepts(lower_probe(first, accepted)));
        lower_search(accepts, next.0, next.1)
    }
}

/// The key probed while the greatest accepted key is searched between
/// `accepted` and `last`: the upper middle.
pub open spec fn upper_probe(accepted: u64, last: u64) -> u64 {
    let distance = last - accepted;
    (accepted + distance / 2 + distance % 2) as u64
}

/// The interval left after probing its upper middle: from the probe where the
/// probe is accepted, below it where it is refused.
pub open spec fn upper_next(accepted: u64, last: u64, probe_accepted: bool) -> (u64, u64) {
    let middle = upper_probe(accepted, last);
    if probe_accepted {
        (middle, last)
    } else {
        (accepted, (middle - 1) as u64)
    }
}

/// The key at which the search for the greatest accepted key ends, each
/// probe answered by `accepts`.
pub open spec fn upper_search(accepts: spec_fn(u64) -> bool, accepted: u64, last: u64) -> u64
    decreases last - accepted,
{
    if accepted >= last {
        accepted
    } else {
        let next = upper_next(accepted, last, accepts(upper_probe(accepted, last)));
        upper_search(accepts, next.0, next.1)
    }
}

/// The key to probe next in the search for the least accepted key.
pub fn lower_probe_key(first: u64, accepted: u64) -> (middle: u64)
    requires
        first < accepted,
    ensures
        middle == lower_probe(first, accepted),
        first <= middle < accepted,
{
    first + (accepted - first) / 2
}

/// The interval of the search for the least accepted key after its probe
/// was answered.
pub fn lower_narrow(first: u64, accepted: u64, probe_accepted: bool) -> (next: (u64, u64))
    requires
        first < accepted,
    ensures
        next == lower_next(first, accepted, probe_accepted),
        first <= next.0 <= next.1 <= accepted,
        next.1 - next.0 < accepted - first,
{
    let middle = lower_probe_key(first, accepted);
    if probe_accepted {
        (first, middle)
    } else {
        (middle + 1, accepted)
    }
}

/// The key to probe next in the search for the greatest accepted key.
pub fn upper_probe_key(accepted: u64, last: u64) -> (middle: u64)
    requires
        accepted < last,
    ensures
        middle == upper_probe(accepted, last),
        accepted < middle <= last,
{
    let distance = last - accepted;
    accepted + distance / 2 + distance % 2
}

/// The interval of the search for the greatest accepted key after its probe
/// was answered.
pub fn upper_narrow(accepted: u64, last: u64, probe_accepted: bool) -> (next: (u64, u64))
    requires
        accepted < last,
    ensures
        next == upper_next(accepted, last, probe_accepted),
        accepted <= next.0 <= next.1 <= last,
        next.1 - next.0 < last - accepted,
{
    let middle = upper_probe_key(accepted, last);
    if probe_accepted {
        (middle, last)
    } else {
        (accepted, middle - 1)
    }
}

/// The search for the least accepted key finds it: where every key below
/// `first` (down to `floor`) is refused, `accepted` is accepted and acceptance
/// is upward closed up to `accepted`, the search ends at an accepted key
/// between `first` and `accepted` below which, down to `floor`, every key is
/// refused.
pub proof fn lemma_lower_search_finds_least(
    accepts: spec_fn(u64) -> bool,
    floor: u64,
    first: u64,
    accepted: u64,
)
    requires
        floor <= first <= accepted,
        accepts(accepted),
        forall|k: u64| floor <= k < first ==> !#[trigger] accepts(k),
        forall|i: u64, j: u64|
            #![trigger accepts(i), accepts(j)]
            floor <= i <= j <= accepted && accepts(i) ==> accepts(j),
    ensures
        first <= lower_search(accepts, first, accepted) <= accepted,
        accepts(lower_search(accepts, first, accepted)),
        forall|k: u64| floor <= k < lower_search(accepts, first, accepted) ==> !#[trigger] accepts(k),
    decreases accepted - first,
{
    if first < accepted {
        let middle = lower_probe(first, accepted);
        let next = lower_next(first, accepted, accepts(middle));
        if !accepts(middle) {
            assert forall|k: u64| floor <= k < next.0 implies !#[trigger] accepts(k) by {
                if k >= first && accepts(k) {
                    assert(accepts(middle));
                }
            }
        }
        lemma_lower_search_finds_least(accepts, floor, next.0, next.1);
    }
}

/// The search for the greatest accepted key finds it: where every key above
/// `last` (up to `ceiling`) is refused, `accepted` is accepted and acceptance
/// is downward closed from `accepted`, the search ends at an accepted key
/// between `accepted` and `last` above which, up to `ceiling`, every key is
/// refused.
pub proof fn lemma_upper_search_finds_greatest(
    accepts: spec_fn(u64) -> bool,
    accepted: u64,
    last: u64,
    ceiling: u64,
)
    requires
        accepted <= last <= ceiling,
        accepts(accepted),
        forall|k: u64| last < k <= ceiling ==> !#[trigger] accepts(k),
        forall|i: u64, j: u64|
            #![trigger accepts(i), accepts(j)]
            accepted <= i <= j <= ceiling && accepts(j) ==> accepts(i),
    ensures
        accepted <= upper_search(accepts, accepted, last) <= last,
        accepts(upper_search(accepts, accepted, last)),
        forall|k: u64| upper_search(accepts, accepted, last) < k <= ceiling ==> !#[trigger] accepts(k),
    decreases last - accepted,
{
    if accepted < last {
        let middle = upper_probe(accepted, last);
        let next = upper_next(accepted, last, accepts(middle));
        if !accepts(middle) {
            assert forall|k: u64| next.1 < k <= ceiling implies !#[trigger] accepts(k) by {
                if k <= last && accepts(k) {
                    assert(accepts(middle));
                }
            }
        }
        lemma_upper_search_finds_greatest(accepts, next.0, next.1, ceiling);
    }
}

} // verus!
