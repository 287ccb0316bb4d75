//! The two conversions derived from a descriptor list: enum to integer
//! (total, payload ignored) and integer to enum (total when a catch-all
//! variant is present, fallible otherwise), with first-match-wins order
//! over the variants as declared.

use vstd::prelude::*;

use crate::model::EnumDescriptor;
use crate::model::VariantDescriptor;

verus! {

/// Whether some variant of `vs` carries the id `v`.
pub open spec fn listed(vs: Seq<VariantDescriptor>, v: u8) -> bool {
    exists|k: int| 0 <= k < vs.len() && vs[k].id == v
}

/// Whether `k` is the first variant of `vs`, in declaration order, whose
/// id is `v`.
pub open spec fn is_first_match(vs: Seq<VariantDescriptor>, v: u8, k: int) -> bool {
    &&& 0 <= k < vs.len()
    &&& vs[k].id == v
    &&& forall|j: int| 0 <= j < k ==> vs[j].id != v
}

/// Whether some non-catch-all variant of `vs` carries the id `v`.
pub open spec fn plain_listed(vs: Seq<VariantDescriptor>, v: u8) -> bool {
    exists|k: int| 0 <= k < vs.len() && !vs[k].catch_all && vs[k].id == v
}

/// Whether `k` is the first non-catch-all variant of `vs`, in declaration
/// order, whose id is `v`.
pub open spec fn is_first_plain_match(vs: Seq<VariantDescriptor>, v: u8, k: int) -> bool {
    &&& 0 <= k < vs.len()
    &&& !vs[k].catch_all
    &&& vs[k].id == v
    &&& forall|j: int| 0 <= j < k ==> !(!vs[j].catch_all && vs[j].id == v)
}

/// Whether some variant of `vs` is marked as the catch-all variant.
pub open spec fn has_catch_all(vs: Seq<VariantDescriptor>) -> bool {
    exists|k: int| 0 <= k < vs.len() && vs[k].catch_all
}

/// Whether `k` is the first catch-all variant of `vs` in declaration
/// order.
pub open spec fn is_first_catch_all(vs: Seq<VariantDescriptor>, k: int) -> bool {
    &&& 0 <= k < vs.len()
    &&& vs[k].catch_all
    &&& forall|j: int| 0 <= j < k ==> !vs[j].catch_all
}

impl EnumDescriptor {
    /// Whether a catch-all variant is present, which selects the mode of
    /// the reverse conversion: total when present, fallible otherwise.
    pub fn catch_all_present(&self) -> (r: bool)
        ensures
            r == has_catch_all(self.variants@),
    {
        let n = self.variants.len();
        let mut i: usize = 0;
        while i < n
            invariant
                i <= n,
                n == self.variants@.len(),
                forall|j: int| 0 <= j < i ==> !self.variants@[j].catch_all,
            decreases n - i,
        {
            if self.variants[i].catch_all {
                return true;
            }
            i = i + 1;
        }
        false
    }

    /// The forward conversion: the instance whose tag is variant
    /// `variant` maps to that variant's resolved id, whatever its payload
    /// holds. Total over the variants.
    pub fn forward(&self, variant: usize) -> (r: u8)
        requires
            variant < self.variants@.len(),
        ensures
            r == self.variants@[variant as int].id,
    {
        self.variants[variant].id
    }

    /// The reverse conversion in fallible mode: `value` maps to the first
    /// variant, in declaration order, whose id is `value`; any other
    /// integer value yields a failure with no payload.
    pub fn reverse_fallible(&self, value: u8) -> (r: Option<usize>)
        ensures
            r matches Some(k) ==> is_first_match(self.variants@, value, k as int),
            r is None <==> !listed(self.variants@, value),
    {
        let n = self.variants.len();
        let mut i: usize = 0;
        while i < n
            invariant
                i <= n,
                n == self.variants@.len(),
                forall|j: int| 0 <= j < i ==> self.variants@[j].id != value,
            decreases n - i,
        {
            if self.variants[i].id == value {
                return Some(i);
            }
            i = i + 1;
        }
        None
    }

    /// The reverse conversion in catch-all mode: `value` maps to the
    /// first non-catch-all variant, in declaration order, whose id is
    /// `value`; any other integer value, the catch-all variant's own id
    /// included, maps to the first catch-all variant.
    #[verifier::loop_isolation(false)]
    pub fn reverse_total(&self, value: u8) -> (r: usize)
        requires
            has_catch_all(self.variants@),
        ensures
            plain_listed(self.variants@, value) ==> is_first_plain_match(
                self.variants@,
                value,
                r as int,
            ),
            !plain_listed(self.variants@, value) ==> is_first_catch_all(self.variants@, r as int),
    {
        let n = self.variants.len();
        let mut i: usize = 0;
        while i < n
            invariant
                i <= n,
                n == self.variants@.len(),
                forall|j: int| 0 <= j < i ==> !(!self.variants@[j].catch_all
                    && self.variants@[j].id == value),
            decreases n - i,
        {
            if !self.variants[i].catch_all && self.variants[i].id == value {
                return i;
            }
            i = i + 1;
        }
        let mut i: usize = 0;
        while i < n
            invariant
                i <= n,
                n == self.variants@.len(),
                has_catch_all(self.variants@),
                forall|j: int| 0 <= j < i ==> !self.variants@[j].catch_all,
            decreases n - i,
        {
            if self.variants[i].catch_all {
                return i;
            }
            i = i + 1;
        }
        proof {
            assert(false);
        }
        0
    }
}

} // verus!
