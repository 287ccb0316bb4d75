//! Laws of the allocation policy and of the derived conversions, proved
//! over the same spec functions that the executable functions' contracts
//! use.

use vstd::prelude::*;

use crate::convert::has_catch_all;
use crate::convert::is_first_catch_all;
use crate::convert::is_first_match;
use crate::convert::is_first_plain_match;
use crate::convert::listed;
use crate::convert::plain_listed;
use crate::model::EnumDescriptor;
use crate::model::RawVariant;
use crate::model::VariantDescriptor;
use crate::model::explicit_val;
use crate::model::num_catch_all;
use crate::model::sat_inc;
use crate::model::variant_id;

verus! {

/// Auto-increment: when no variant up to `k` carries an explicit
/// discriminant, variant `k` resolves to id `k` (for `k` within the range
/// of the configured integer type).
pub proof fn lemma_auto_increment(raws: Seq<RawVariant>, k: int)
    requires
        0 <= k < raws.len(),
        k <= 255,
        forall|j: int| 0 <= j <= k ==> explicit_val(#[trigger] raws[j]) is None,
    ensures
        variant_id(raws, k) == k,
    decreases k,
{
    if k > 0 {
        lemma_auto_increment(raws, k - 1);
    }
}

/// Explicit reset: an explicit discriminant on variant `k` sets its id to
/// that literal, and the next variant, if implicit, resolves to the
/// literal plus one.
pub proof fn lemma_explicit_reset(raws: Seq<RawVariant>, k: int, v: nat)
    requires
        0 <= k < raws.len(),
        explicit_val(raws[k]) == Some(v),
        v <= 255,
    ensures
        variant_id(raws, k) == v,
        k + 1 < raws.len() && explicit_val(raws[k + 1]) is None && v < 255 ==> variant_id(
            raws,
            k + 1,
        ) == v + 1,
{
    if k + 1 < raws.len() && explicit_val(raws[k + 1]) is None && v < 255 {
        assert(variant_id(raws, k + 1) == sat_inc(variant_id(raws, k)));
    }
}

/// Saturation: once a variant resolves to the maximum value of the
/// configured integer type, every later implicit variant resolves to that
/// maximum as well.
pub proof fn lemma_saturation(raws: Seq<RawVariant>, k: int, m: int)
    requires
        0 <= k <= m < raws.len(),
        variant_id(raws, k) == 255,
        forall|j: int| k < j <= m ==> explicit_val(#[trigger] raws[j]) is None,
    ensures
        variant_id(raws, m) == 255,
    decreases m - k,
{
    if k < m {
        lemma_saturation(raws, k, m - 1);
    }
}

/// One catch-all marker makes the count at least one.
proof fn lemma_one_catch_all(raws: Seq<RawVariant>, k: int)
    requires
        0 <= k < raws.len(),
        raws[k].catch_all,
    ensures
        num_catch_all(raws) >= 1,
    decreases raws.len(),
{
    if k < raws.len() - 1 {
        lemma_one_catch_all(raws.drop_last(), k);
    }
}

/// Two distinct catch-all markers make the count at least two.
proof fn lemma_two_catch_all(raws: Seq<RawVariant>, k1: int, k2: int)
    requires
        0 <= k1 < k2 < raws.len(),
        raws[k1].catch_all,
        raws[k2].catch_all,
    ensures
        num_catch_all(raws) >= 2,
    decreases raws.len(),
{
    if k2 == raws.len() - 1 {
        lemma_one_catch_all(raws.drop_last(), k1);
    } else {
        lemma_two_catch_all(raws.drop_last(), k1, k2);
    }
}

/// The model invariant: a descriptor built from a declaration with at
/// most one catch-all marker has at most one catch-all variant.
pub proof fn lemma_at_most_one_catch_all(
    d: EnumDescriptor,
    name: Seq<char>,
    raws: Seq<RawVariant>,
    k1: int,
    k2: int,
)
    requires
        d.models(name, raws),
        num_catch_all(raws) <= 1,
        0 <= k1 < d.variants@.len(),
        0 <= k2 < d.variants@.len(),
        d.variants@[k1].catch_all,
        d.variants@[k2].catch_all,
    ensures
        k1 == k2,
{
    if k1 < k2 {
        lemma_two_catch_all(raws, k1, k2);
    } else if k2 < k1 {
        lemma_two_catch_all(raws, k2, k1);
    }
}

/// The first variant with a given id is unique: two indices that both
/// satisfy `is_first_match` for the same value are equal.
pub proof fn lemma_first_match_unique(vs: Seq<VariantDescriptor>, v: u8, k1: int, k2: int)
    requires
        is_first_match(vs, v, k1),
        is_first_match(vs, v, k2),
    ensures
        k1 == k2,
{
}

/// Round trip in fallible mode: a variant whose id no earlier variant
/// shares is exactly what the reverse conversion yields for its own
/// forward image, so `reverse(forward(k))` reconstructs variant `k`.
pub proof fn lemma_round_trip_fallible(vs: Seq<VariantDescriptor>, k: int)
    requires
        0 <= k < vs.len(),
        forall|j: int| 0 <= j < k ==> vs[j].id != vs[k].id,
    ensures
        is_first_match(vs, vs[k].id, k),
        forall|k2: int| is_first_match(vs, #[trigger] vs[k].id, k2) ==> k2 == k,
        listed(vs, vs[k].id),
{
}

/// Round trip in catch-all mode, non-catch-all variant: a non-catch-all
/// variant whose id no earlier non-catch-all variant shares is exactly
/// what the total reverse conversion yields for its own forward image.
pub proof fn lemma_round_trip_total(vs: Seq<VariantDescriptor>, k: int)
    requires
        0 <= k < vs.len(),
        !vs[k].catch_all,
        forall|j: int| 0 <= j < k ==> !(!vs[j].catch_all && vs[j].id == vs[k].id),
    ensures
        is_first_plain_match(vs, vs[k].id, k),
        forall|k2: int| is_first_plain_match(vs, #[trigger] vs[k].id, k2) ==> k2 == k,
        plain_listed(vs, vs[k].id),
{
}

/// Round trip in catch-all mode, catch-all variant: when no non-catch-all
/// variant shares the first catch-all variant's id, the total reverse
/// conversion yields that variant for its own forward image.
pub proof fn lemma_round_trip_catch_all(vs: Seq<VariantDescriptor>, k: int)
    requires
        is_first_catch_all(vs, k),
        !plain_listed(vs, vs[k].id),
    ensures
        forall|k2: int| is_first_catch_all(vs, k2) ==> k2 == k,
{
}

/// The two modes partition the integer range: in fallible mode an id is
/// reconstructed exactly when some variant lists it, and the failure
/// outcomes are exactly the unlisted values.
pub proof fn lemma_fallible_completeness(vs: Seq<VariantDescriptor>, v: u8)
    ensures
        listed(vs, v) <==> exists|k: int| is_first_match(vs, v, k),
{
    if listed(vs, v) {
        let k0 = choose|k0: int| 0 <= k0 < vs.len() && vs[k0].id == v;
        lemma_some_first_match(vs, v, k0);
    }
}

/// Catch-all totality: with a catch-all variant present, every integer
/// value is reconstructed as some variant, the first matching
/// non-catch-all variant where one exists and the first catch-all
/// variant everywhere else.
pub proof fn lemma_catch_all_totality(vs: Seq<VariantDescriptor>, v: u8)
    requires
        has_catch_all(vs),
    ensures
        plain_listed(vs, v) ==> exists|k: int| is_first_plain_match(vs, v, k),
        !plain_listed(vs, v) ==> exists|k: int| is_first_catch_all(vs, k),
{
    if plain_listed(vs, v) {
        let k0 = choose|k0: int| 0 <= k0 < vs.len() && !vs[k0].catch_all && vs[k0].id == v;
        lemma_some_first_plain_match(vs, v, k0);
    } else {
        let k0 = choose|k0: int| 0 <= k0 < vs.len() && vs[k0].catch_all;
        lemma_some_first_catch_all(vs, k0);
    }
}

/// Below any variant with id `v` stands a first one.
proof fn lemma_some_first_match(vs: Seq<VariantDescriptor>, v: u8, k0: int)
    requires
        0 <= k0 < vs.len(),
        vs[k0].id == v,
    ensures
        exists|k: int| is_first_match(vs, v, k),
    decreases k0,
{
    if forall|j: int| 0 <= j < k0 ==> vs[j].id != v {
        assert(is_first_match(vs, v, k0));
    } else {
        let j0 = choose|j0: int| 0 <= j0 < k0 && vs[j0].id == v;
        lemma_some_first_match(vs, v, j0);
    }
}

/// Below any non-catch-all variant with id `v` stands a first one.
proof fn lemma_some_first_plain_match(vs: Seq<VariantDescriptor>, v: u8, k0: int)
    requires
        0 <= k0 < vs.len(),
        !vs[k0].catch_all,
        vs[k0].id == v,
    ensures
        exists|k: int| is_first_plain_match(vs, v, k),
    decreases k0,
{
    if forall|j: int| 0 <= j < k0 ==> !(!vs[j].catch_all && vs[j].id == v) {
        assert(is_first_plain_match(vs, v, k0));
    } else {
        let j0 = choose|j0: int| 0 <= j0 < k0 && !vs[j0].catch_all && vs[j0].id == v;
        lemma_some_first_plain_match(vs, v, j0);
    }
}

/// Below any catch-all variant stands a first one.
proof fn lemma_some_first_catch_all(vs: Seq<VariantDescriptor>, k0: int)
    requires
        0 <= k0 < vs.len(),
        vs[k0].catch_all,
    ensures
        exists|k: int| is_first_catch_all(vs, k),
    decreases k0,
{
    if forall|j: int| 0 <= j < k0 ==> !vs[j].catch_all {
        assert(is_first_catch_all(vs, k0));
    } else {
        let j0 = choose|j0: int| 0 <= j0 < k0 && vs[j0].catch_all;
        lemma_some_first_catch_all(vs, j0);
    }
}

} // verus!
