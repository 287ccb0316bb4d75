//! The normalized model of one enum declaration: raw variant declarations
//! as the builder receives them, resolved variant descriptors as the
//! emitters consume them, and the id allocation policy that connects them.

use vstd::prelude::*;

verus! {

/// The payload shape of one variant: no fields, a number of positional
/// fields, or an ordered list of named fields.
#[derive(Debug, Clone)]
pub enum PayloadShape {
    Unit,
    Unnamed(usize),
    Named(Vec<String>),
}

/// One variant as declared in the source: its identifier, the base-10
/// digits of its explicit discriminant literal if it carries one, its
/// payload shape, and whether it is marked as the catch-all variant.
#[derive(Debug, Clone)]
pub struct RawVariant {
    pub name: String,
    pub discriminant: Option<String>,
    pub shape: PayloadShape,
    pub catch_all: bool,
}

/// A fatal error of the build: generation stops and nothing is emitted.
#[derive(Debug, Clone, Copy, PartialEq, Eq, Structural)]
pub enum BuildError {
    /// An explicit discriminant literal does not fit the configured
    /// integer type.
    OutOfRange,
    /// More than one variant is marked as the catch-all variant.
    MultipleCatchAll,
}

/// The numeric value of a decimal digit.
pub open spec fn digit_val(c: char) -> nat {
    (c as int - '0' as int) as nat
}

/// Whether `c` is a decimal digit.
pub open spec fn is_digit(c: char) -> bool {
    '0' <= c && c <= '9'
}

/// Whether `s` consists of decimal digits only.
pub open spec fn is_digit_seq(s: Seq<char>) -> bool {
    forall|i: int| 0 <= i < s.len() ==> is_digit(s[i])
}

/// The value of a sequence of decimal digits, most significant first.
pub open spec fn dec_val(s: Seq<char>) -> nat
    decreases s.len(),
{
    if s.len() == 0 {
        0
    } else {
        10 * dec_val(s.drop_last()) + digit_val(s.last())
    }
}

/// The saturating advance of the allocation counter: it stops at the
/// maximum value of the configured integer type.
pub open spec fn sat_inc(c: u8) -> u8 {
    if c < 255 {
        (c + 1) as u8
    } else {
        c
    }
}

/// The value of the explicit discriminant of `r`, if it carries one.
pub open spec fn explicit_val(r: RawVariant) -> Option<nat> {
    match r.discriminant {
        Some(s) => Some(dec_val(s@)),
        None => None,
    }
}

/// A raw variant is well formed when its explicit discriminant, if
/// present, is a nonempty string of decimal digits.
pub open spec fn wf_raw(r: RawVariant) -> bool {
    match r.discriminant {
        Some(s) => s@.len() > 0 && is_digit_seq(s@),
        None => true,
    }
}

/// All raw variants of a declaration are well formed.
pub open spec fn wf_raws(raws: Seq<RawVariant>) -> bool {
    forall|i: int| 0 <= i < raws.len() ==> wf_raw(#[trigger] raws[i])
}

/// The id that the allocation policy resolves for variant `k`: the value
/// of its explicit discriminant if it carries one, else the counter, which
/// starts at zero and advances saturatingly past each resolved id.
pub open spec fn variant_id(raws: Seq<RawVariant>, k: int) -> u8
    decreases k,
{
    match explicit_val(raws[k]) {
        Some(v) => v as u8,
        None => if k <= 0 {
            0
        } else {
            sat_inc(variant_id(raws, k - 1))
        },
    }
}

/// Every explicit discriminant of `raws` fits the configured integer type.
pub open spec fn all_in_range(raws: Seq<RawVariant>) -> bool {
    forall|i: int| 0 <= i < raws.len() ==> match explicit_val(#[trigger] raws[i]) {
        Some(v) => v <= 255,
        None => true,
    }
}

/// How many variants of `raws` are marked as the catch-all variant.
pub open spec fn num_catch_all(raws: Seq<RawVariant>) -> nat
    decreases raws.len(),
{
    if raws.len() == 0 {
        0
    } else {
        num_catch_all(raws.drop_last()) + if raws.last().catch_all {
            1nat
        } else {
            0nat
        }
    }
}

/// The value of a digit string grows (weakly) with its length.
proof fn lemma_dec_val_prefix_mono(s: Seq<char>, i: int, j: int)
    requires
        0 <= i <= j <= s.len(),
    ensures
        dec_val(s.take(j)) >= dec_val(s.take(i)),
    decreases j - i,
{
    if i < j {
        lemma_dec_val_prefix_mono(s, i, j - 1);
        assert(s.take(j).drop_last() =~= s.take(j - 1));
    }
}

/// Parses a nonempty string of decimal digits as the configured integer
/// type; `None` exactly when the value is out of range.
pub fn parse_u8(s: &str) -> (r: Option<u8>)
    requires
        s@.len() > 0,
        is_digit_seq(s@),
    ensures
        r is Some <==> dec_val(s@) <= 255,
        r is Some ==> r->0 == dec_val(s@),
{
    let n = s.unicode_len();
    let mut acc: u32 = 0;
    let mut i: usize = 0;
    while i < n
        invariant
            i <= n,
            n == s@.len(),
            s@.len() > 0,
            is_digit_seq(s@),
            acc == dec_val(s@.take(i as int)),
            acc <= 255,
        decreases n - i,
    {
        let c = s.get_char(i);
        proof {
            assert(is_digit(s@[i as int]));
            assert(s@.take(i + 1).drop_last() =~= s@.take(i as int));
            assert(s@.take(i + 1).last() == s@[i as int]);
        }
        let d: u32 = (c as u32) - ('0' as u32);
        acc = acc * 10 + d;
        if acc > 255 {
            proof {
                lemma_dec_val_prefix_mono(s@, i + 1, s@.len() as int);
                assert(s@.take(s@.len() as int) =~= s@);
            }
            return None;
        }
        i = i + 1;
    }
    proof {
        assert(s@.take(n as int) =~= s@);
    }
    Some(acc as u8)
}

/// One resolved variant: its id, its identifier, its payload shape, and
/// whether it absorbs all otherwise unmapped integer values.
#[derive(Debug, Clone)]
pub struct VariantDescriptor {
    pub id: u8,
    pub name: String,
    pub shape: PayloadShape,
    pub catch_all: bool,
}

/// The root record for one processed enum: its name and its variants in
/// declaration order.
#[derive(Debug, Clone)]
pub struct EnumDescriptor {
    pub name: String,
    pub variants: Vec<VariantDescriptor>,
}

/// Whether descriptor `v` resolves raw variant `raws[k]`: same identifier,
/// shape and catch-all marker, and the id the allocation policy assigns.
pub open spec fn resolves(v: VariantDescriptor, raws: Seq<RawVariant>, k: int) -> bool {
    &&& v.id == variant_id(raws, k)
    &&& v.name == raws[k].name
    &&& v.shape == raws[k].shape
    &&& v.catch_all == raws[k].catch_all
}

impl EnumDescriptor {
    /// Whether this descriptor is the normalized model of the declaration
    /// `raws` under the name `name`.
    pub open spec fn models(self, name: Seq<char>, raws: Seq<RawVariant>) -> bool {
        &&& self.name@ == name
        &&& self.variants@.len() == raws.len()
        &&& forall|k: int| 0 <= k < raws.len() ==> resolves(#[trigger] self.variants@[k], raws, k)
    }

    /// Builds the normalized model of one enum declaration: resolves each
    /// variant's id per the allocation policy, and rejects a declaration
    /// with an out-of-range explicit discriminant or with more than one
    /// catch-all variant.
    #[verifier::loop_isolation(false)]
    pub fn build(name: String, raws: Vec<RawVariant>) -> (r: Result<EnumDescriptor, BuildError>)
        requires
            wf_raws(raws@),
        ensures
            r matches Err(e) && e == BuildError::OutOfRange <==> !all_in_range(raws@),
            r matches Err(e) && e == BuildError::MultipleCatchAll <==> all_in_range(raws@)
                && num_catch_all(raws@) >= 2,
            r matches Ok(d) <==> all_in_range(raws@) && num_catch_all(raws@) <= 1,
            r matches Ok(d) ==> d.models(name@, raws@),
    {
        let ghost raws0 = raws@;
        let mut rest = raws;
        let total: usize = rest.len();
        proof {
            assert(raws0.len() == total);
        }
        let mut variants: Vec<VariantDescriptor> = Vec::new();
        let mut counter: u8 = 0;
        let mut n_catch: usize = 0;
        let mut k: usize = 0;
        while rest.len() > 0
            invariant
                wf_raws(raws0),
                k + rest@.len() == raws0.len(),
                rest@ =~= raws0.skip(k as int),
                variants@.len() == k,
                forall|j: int| 0 <= j < k ==> resolves(#[trigger] variants@[j], raws0, j),
                forall|j: int| 0 <= j < k ==> match explicit_val(#[trigger] raws0[j]) {
                    Some(v) => v <= 255,
                    None => true,
                },
                k == 0 ==> counter == 0,
                k > 0 ==> counter == sat_inc(variant_id(raws0, k as int - 1)),
                n_catch == num_catch_all(raws0.take(k as int)),
                n_catch <= k,
            decreases rest@.len(),
        {
            let rv = rest.remove(0);
            proof {
                assert(rv == raws0[k as int]);
                assert(rest@ =~= raws0.skip(k as int + 1));
            }
            let id: u8 = match &rv.discriminant {
                Some(s) => {
                    match parse_u8(s.as_str()) {
                        Some(v) => v,
                        None => {
                            proof {
                                assert(explicit_val(raws0[k as int]) matches Some(v) && v > 255);
                            }
                            return Err(BuildError::OutOfRange);
                        },
                    }
                },
                None => counter,
            };
            counter = if id < 255 {
                id + 1
            } else {
                id
            };
            if rv.catch_all {
                n_catch = n_catch + 1;
            }
            proof {
                assert(raws0.take(k + 1).drop_last() =~= raws0.take(k as int));
                assert(raws0.take(k + 1).last() == raws0[k as int]);
            }
            let vd = VariantDescriptor {
                id,
                name: rv.name,
                shape: rv.shape,
                catch_all: rv.catch_all,
            };
            variants.push(vd);
            k = k + 1;
        }
        proof {
            assert(raws0.take(k as int) =~= raws0);
        }
        if n_catch >= 2 {
            return Err(BuildError::MultipleCatchAll);
        }
        Ok(EnumDescriptor { name, variants })
    }
}

} // verus!
