//! Rendering of the derived conversions as source text: the payload
//! placeholder synthesizer (ignore patterns for the forward direction,
//! default-initialized constructions for the reverse direction), the
//! match arms, and the two conversion impls.

use vstd::prelude::*;

use crate::model::EnumDescriptor;
use crate::model::PayloadShape;
use crate::model::VariantDescriptor;

verus! {

/// The one-character string for the decimal digit `d`.
pub open spec fn digit_str(d: nat) -> Seq<char> {
    if d == 0 {
        "0"@
    } else if d == 1 {
        "1"@
    } else if d == 2 {
        "2"@
    } else if d == 3 {
        "3"@
    } else if d == 4 {
        "4"@
    } else if d == 5 {
        "5"@
    } else if d == 6 {
        "6"@
    } else if d == 7 {
        "7"@
    } else if d == 8 {
        "8"@
    } else {
        "9"@
    }
}

/// The decimal rendering of `n`, most significant digit first.
pub open spec fn dec_str(n: nat) -> Seq<char>
    decreases n,
{
    if n < 10 {
        digit_str(n)
    } else {
        dec_str(n / 10) + digit_str(n % 10)
    }
}

/// The ignore pattern of a payload shape, as the forward conversion
/// matches it: nothing for a unit variant, wildcards for fields.
pub open spec fn ignore_str(shape: PayloadShape) -> Seq<char> {
    match shape {
        PayloadShape::Unit => Seq::<char>::empty(),
        PayloadShape::Unnamed(n) => if n == 0 {
            Seq::<char>::empty()
        } else {
            "(..)"@
        },
        PayloadShape::Named(f) => if f@.len() == 0 {
            Seq::<char>::empty()
        } else {
            " { .. }"@
        },
    }
}

/// A list of `n` default-initialized positional fields.
pub open spec fn defaults_list(n: nat) -> Seq<char>
    decreases n,
{
    if n == 0 {
        Seq::<char>::empty()
    } else if n == 1 {
        "Default::default()"@
    } else {
        defaults_list((n - 1) as nat) + ", "@ + "Default::default()"@
    }
}

/// A list of named fields, each default-initialized.
pub open spec fn named_inits(fields: Seq<Seq<char>>) -> Seq<char>
    decreases fields.len(),
{
    if fields.len() == 0 {
        Seq::<char>::empty()
    } else if fields.len() == 1 {
        fields[0] + ": Default::default()"@
    } else {
        named_inits(fields.drop_last()) + ", "@ + fields.last() + ": Default::default()"@
    }
}

/// The construction expression of one variant with every payload field
/// default-initialized, as the reverse conversion builds it.
pub open spec fn value_str(v: VariantDescriptor) -> Seq<char> {
    "Self::"@ + v.name@ + match v.shape {
        PayloadShape::Unit => Seq::<char>::empty(),
        PayloadShape::Unnamed(n) => if n == 0 {
            Seq::<char>::empty()
        } else {
            "("@ + defaults_list(n as nat) + ")"@
        },
        PayloadShape::Named(f) => if f@.len() == 0 {
            Seq::<char>::empty()
        } else {
            " { "@ + named_inits(f.deep_view()) + " }"@
        },
    }
}

/// One arm of the forward conversion: the variant's ignore pattern,
/// qualified by the enum's name, mapped to its id.
pub open spec fn arm_condition_str(v: VariantDescriptor, enum_name: Seq<char>) -> Seq<char> {
    enum_name + "::"@ + v.name@ + ignore_str(v.shape) + " => "@ + dec_str(v.id as nat)
}

/// One arm of the reverse conversion: the variant's id mapped to its
/// default-initialized construction, wrapped in success in fallible mode.
pub open spec fn arm_str(v: VariantDescriptor, wrap_ok: bool) -> Seq<char> {
    dec_str(v.id as nat) + " => "@ + if wrap_ok {
        "Ok("@ + value_str(v) + ")"@
    } else {
        value_str(v)
    }
}

/// The one-character string for the decimal digit `d`.
fn digit_string(d: u8) -> (r: &'static str)
    requires
        d < 10,
    ensures
        r@ == digit_str(d as nat),
{
    match d {
        0 => "0",
        1 => "1",
        2 => "2",
        3 => "3",
        4 => "4",
        5 => "5",
        6 => "6",
        7 => "7",
        8 => "8",
        _ => "9",
    }
}

/// Renders `n` in decimal.
pub fn u8_dec_string(n: u8) -> (r: String)
    ensures
        r@ == dec_str(n as nat),
    decreases n,
{
    let ds = digit_string(n % 10);
    if n < 10 {
        let mut s = String::new();
        s.append(ds);
        s
    } else {
        let mut s = u8_dec_string(n / 10);
        s.append(ds);
        s
    }
}

/// Appends `n` default-initialized positional fields.
#[verifier::loop_isolation(false)]
fn append_defaults(out: &mut String, n: usize)
    ensures
        final(out)@ == old(out)@ + defaults_list(n as nat),
{
    let mut j: usize = 0;
    while j < n
        invariant
            j <= n,
            out@ == old(out)@ + defaults_list(j as nat),
        decreases n - j,
    {
        if j > 0 {
            out.append(", ");
        }
        out.append("Default::default()");
        j = j + 1;
    }
}

/// Appends the named fields, each default-initialized.
#[verifier::loop_isolation(false)]
fn append_named_inits(out: &mut String, fields: &Vec<String>)
    ensures
        final(out)@ == old(out)@ + named_inits(fields.deep_view()),
{
    let n = fields.len();
    let mut j: usize = 0;
    while j < n
        invariant
            j <= n,
            n == fields@.len(),
            out@ == old(out)@ + named_inits(fields.deep_view().take(j as int)),
        decreases n - j,
    {
        proof {
            assert(fields.deep_view().take(j + 1).drop_last() =~= fields.deep_view().take(
                j as int,
            ));
            assert(fields.deep_view().take(j + 1).last() == fields@[j as int]@);
            assert(fields.deep_view().take(j + 1)[0] == fields@[0]@);
        }
        if j > 0 {
            out.append(", ");
        }
        out.append(fields[j].as_str());
        out.append(": Default::default()");
        j = j + 1;
    }
    proof {
        assert(fields.deep_view().take(n as int) =~= fields.deep_view());
    }
}

/// The payload placeholder synthesizer, construction side: one variant
/// with every payload field default-initialized.
pub fn make_value(v: &VariantDescriptor) -> (r: String)
    ensures
        r@ == value_str(*v),
{
    let mut out = String::new();
    out.append("Self::");
    out.append(v.name.as_str());
    match &v.shape {
        PayloadShape::Unit => {},
        PayloadShape::Unnamed(n) => {
            if *n > 0 {
                out.append("(");
                append_defaults(&mut out, *n);
                out.append(")");
            }
        },
        PayloadShape::Named(fields) => {
            if fields.len() > 0 {
                out.append(" { ");
                append_named_inits(&mut out, fields);
                out.append(" }");
            }
        },
    }
    out
}

/// The payload placeholder synthesizer, pattern side: the ignore pattern
/// of one payload shape.
pub fn make_ignore_pattern(shape: &PayloadShape) -> (r: &'static str)
    ensures
        r@ == ignore_str(*shape),
{
    proof {
        reveal_strlit("");
        assert(""@ =~= Seq::<char>::empty());
    }
    match shape {
        PayloadShape::Unit => "",
        PayloadShape::Unnamed(n) => if *n == 0 {
            ""
        } else {
            "(..)"
        },
        PayloadShape::Named(fields) => if fields.len() == 0 {
            ""
        } else {
            " { .. }"
        },
    }
}

/// One arm of the forward conversion's match.
pub fn make_match_arm_condition(v: &VariantDescriptor, enum_name: &str) -> (r: String)
    ensures
        r@ == arm_condition_str(*v, enum_name@),
{
    let mut out = String::new();
    out.append(enum_name);
    out.append("::");
    out.append(v.name.as_str());
    out.append(make_ignore_pattern(&v.shape));
    out.append(" => ");
    let id = u8_dec_string(v.id);
    out.append(id.as_str());
    out
}

/// One arm of the reverse conversion's match.
pub fn make_match_arm(v: &VariantDescriptor, wrap_ok: bool) -> (r: String)
    ensures
        r@ == arm_str(*v, wrap_ok),
{
    let mut out = String::new();
    let id = u8_dec_string(v.id);
    out.append(id.as_str());
    out.append(" => ");
    if wrap_ok {
        out.append("Ok(");
    }
    let value = make_value(v);
    out.append(value.as_str());
    if wrap_ok {
        out.append(")");
    }
    out
}

/// The forward conversion's match arms, one per variant in declaration
/// order.
pub open spec fn forward_arms(vs: Seq<VariantDescriptor>, enum_name: Seq<char>) -> Seq<char>
    decreases vs.len(),
{
    if vs.len() == 0 {
        Seq::<char>::empty()
    } else {
        forward_arms(vs.drop_last(), enum_name) + "            "@ + arm_condition_str(
            vs.last(),
            enum_name,
        ) + ",\n"@
    }
}

/// The reverse conversion's match arms in declaration order; in
/// catch-all mode the catch-all variants are left to the default arm.
pub open spec fn reverse_arms(vs: Seq<VariantDescriptor>, wrap_ok: bool, skip_catch_all: bool) -> Seq<
    char,
>
    decreases vs.len(),
{
    if vs.len() == 0 {
        Seq::<char>::empty()
    } else {
        reverse_arms(vs.drop_last(), wrap_ok, skip_catch_all) + if skip_catch_all
            && vs.last().catch_all {
            Seq::<char>::empty()
        } else {
            "            "@ + arm_str(vs.last(), wrap_ok) + ",\n"@
        }
    }
}

/// The index of the first catch-all variant at or after `k`.
pub open spec fn catch_all_index_from(vs: Seq<VariantDescriptor>, k: int) -> int
    decreases vs.len() - k,
{
    if k < 0 || k >= vs.len() {
        0
    } else if vs[k].catch_all {
        k
    } else {
        catch_all_index_from(vs, k + 1)
    }
}

/// The index of the first catch-all variant.
pub open spec fn catch_all_index(vs: Seq<VariantDescriptor>) -> int {
    catch_all_index_from(vs, 0)
}

/// With no catch-all variant before `i`, the search for the first one
/// may as well start at `i`.
proof fn lemma_catch_all_index_prefix(vs: Seq<VariantDescriptor>, i: int)
    requires
        0 <= i <= vs.len(),
        forall|j: int| 0 <= j < i ==> !vs[j].catch_all,
    ensures
        catch_all_index_from(vs, 0) == catch_all_index_from(vs, i),
    decreases i,
{
    if i > 0 {
        lemma_catch_all_index_prefix(vs, i - 1);
    }
}

/// The forward conversion impl: enum to integer, every variant mapped to
/// its id, payload matched but never read.
pub open spec fn from_enum_str(d: EnumDescriptor) -> Seq<char> {
    "impl From<"@ + d.name@ + "> for u8 {\n    fn from(value: "@ + d.name@
        + ") -> Self {\n        match value {\n"@ + forward_arms(d.variants@, d.name@)
        + "        }\n    }\n}\n"@
}

/// The reverse conversion impl: total with a default arm for the first
/// catch-all variant when one is present, fallible otherwise.
pub open spec fn from_number_str(d: EnumDescriptor) -> Seq<char> {
    if crate::convert::has_catch_all(d.variants@) {
        "impl From<u8> for "@ + d.name@ + " {\n    fn from(value: u8) -> Self {\n        match value {\n"@
            + reverse_arms(d.variants@, false, true) + "            _ => "@ + value_str(
            d.variants@[catch_all_index(d.variants@)],
        ) + ",\n        }\n    }\n}\n"@
    } else {
        "impl TryFrom<u8> for "@ + d.name@
            + " {\n    type Error = ();\n    fn try_from(value: u8) -> Result<Self, Self::Error> {\n        match value {\n"@
            + reverse_arms(d.variants@, true, false)
            + "            _ => Err(()),\n        }\n    }\n}\n"@
    }
}

impl EnumDescriptor {
    /// The index of the first catch-all variant.
    fn first_catch_all(&self) -> (r: usize)
        requires
            crate::convert::has_catch_all(self.variants@),
        ensures
            r == catch_all_index(self.variants@),
            r < self.variants@.len(),
            self.variants@[r as int].catch_all,
    {
        let n = self.variants.len();
        let mut i: usize = 0;
        while i < n
            invariant
                i <= n,
                n == self.variants@.len(),
                crate::convert::has_catch_all(self.variants@),
                forall|j: int| 0 <= j < i ==> !self.variants@[j].catch_all,
            decreases n - i,
        {
            if self.variants[i].catch_all {
                proof {
                    lemma_catch_all_index_prefix(self.variants@, i as int);
                }
                return i;
            }
            i = i + 1;
        }
        proof {
            assert(false);
        }
        0
    }

    /// Emits the forward conversion impl for this descriptor.
    #[verifier::loop_isolation(false)]
    pub fn emit_from_enum(&self) -> (r: String)
        ensures
            r@ == from_enum_str(*self),
    {
        let mut out = String::new();
        out.append("impl From<");
        out.append(self.name.as_str());
        out.append("> for u8 {\n    fn from(value: ");
        out.append(self.name.as_str());
        out.append(") -> Self {\n        match value {\n");
        let ghost head = out@;
        let n = self.variants.len();
        let mut i: usize = 0;
        proof {
            assert(out@ =~= head + forward_arms(self.variants@.take(0), self.name@));
        }
        while i < n
            invariant
                i <= n,
                out@ == head + forward_arms(self.variants@.take(i as int), self.name@),
            decreases n - i,
        {
            proof {
                assert(self.variants@.take(i + 1).drop_last() =~= self.variants@.take(i as int));
                assert(self.variants@.take(i + 1).last() == self.variants@[i as int]);
            }
            out.append("            ");
            let arm = make_match_arm_condition(&self.variants[i], self.name.as_str());
            out.append(arm.as_str());
            out.append(",\n");
            proof {
                assert(out@ =~= head + forward_arms(self.variants@.take(i + 1), self.name@));
            }
            i = i + 1;
        }
        proof {
            assert(self.variants@.take(n as int) =~= self.variants@);
        }
        out.append("        }\n    }\n}\n");
        proof {
            assert(out@ =~= from_enum_str(*self));
        }
        out
    }

    /// Emits the reverse conversion impl for this descriptor, in the mode
    /// that the presence of a catch-all variant selects.
    #[verifier::loop_isolation(false)]
    pub fn emit_from_number(&self) -> (r: String)
        ensures
            r@ == from_number_str(*self),
    {
        let total = self.catch_all_present();
        let mut out = String::new();
        if total {
            out.append("impl From<u8> for ");
            out.append(self.name.as_str());
            out.append(" {\n    fn from(value: u8) -> Self {\n        match value {\n");
        } else {
            out.append("impl TryFrom<u8> for ");
            out.append(self.name.as_str());
            out.append(
                " {\n    type Error = ();\n    fn try_from(value: u8) -> Result<Self, Self::Error> {\n        match value {\n",
            );
        }
        let ghost head = out@;
        let n = self.variants.len();
        let mut i: usize = 0;
        proof {
            assert(out@ =~= head + reverse_arms(self.variants@.take(0), !total, total));
        }
        while i < n
            invariant
                i <= n,
                out@ == head + reverse_arms(self.variants@.take(i as int), !total, total),
            decreases n - i,
        {
            proof {
                assert(self.variants@.take(i + 1).drop_last() =~= self.variants@.take(i as int));
                assert(self.variants@.take(i + 1).last() == self.variants@[i as int]);
            }
            if !(total && self.variants[i].catch_all) {
                out.append("            ");
                let arm = make_match_arm(&self.variants[i], !total);
                out.append(arm.as_str());
                out.append(",\n");
            }
            proof {
                assert(out@ =~= head + reverse_arms(self.variants@.take(i + 1), !total, total));
            }
            i = i + 1;
        }
        proof {
            assert(self.variants@.take(n as int) =~= self.variants@);
        }
        if total {
            let c = self.first_catch_all();
            out.append("            _ => ");
            let value = make_value(&self.variants[c]);
            out.append(value.as_str());
            out.append(",\n        }\n    }\n}\n");
        } else {
            out.append("            _ => Err(()),\n        }\n    }\n}\n");
        }
        proof {
            assert(out@ =~= from_number_str(*self));
        }
        out
    }

    /// Emits both conversion impls, the forward one first.
    pub fn emit(&self) -> (r: String)
        ensures
            r@ == from_enum_str(*self) + from_number_str(*self),
    {
        let mut out = self.emit_from_enum();
        let rev = self.emit_from_number();
        out.append(rev.as_str());
        out
    }
}

} // verus!
