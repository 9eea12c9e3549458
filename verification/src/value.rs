//! The dynamic value and its coercions.

use vstd::prelude::*;

verus! {

use core::cmp::Ordering;
use crate::index::Index;
use crate::num::cmp_num_bits;
use crate::num::is_nan_bits;
use crate::num::is_zero_bits;
use crate::num::nan_bits;
use crate::num::num_cmp;
use crate::num::trunc_sat_usize;
use crate::num::trunc_sat_usize_bits;
use crate::num::zero_bits;
use crate::num::NEG_INF_BITS;
use crate::num::ONE_BITS;
use crate::num::POS_INF_BITS;
use crate::num::ZERO_BITS;
use crate::text::eq_false_nocase;
use crate::text::is_false_nocase;
use crate::text::lemma_lex_cmp_refl;
use crate::text::lex_cmp_spec;
use crate::text::lex_cmp_str;
use crate::text::str_eq;
use crate::text::trim_spec;
use crate::text::trim_str;
use vstd::string::StringExecFns;

/// A dynamic value of the source runtime: a double (carried as its IEEE 754
/// bit pattern), a text, or a boolean.  It is immutable once constructed;
/// equality and order come from [`Value::compare`], not from the variants.
#[derive(Clone, Debug)]
pub enum Value {
    Num(u64),
    String(String),
    Bool(bool),
}

/// The mathematical shape of a [`Value`]: the bit pattern of the double, the
/// character sequence of the text, or the boolean.
pub enum ValueView {
    Num(u64),
    Str(Seq<char>),
    Bool(bool),
}

impl View for Value {
    type V = ValueView;

    open spec fn view(&self) -> ValueView {
        match self {
            Value::Num(b) => ValueView::Num(*b),
            Value::String(s) => ValueView::Str(s@),
            Value::Bool(b) => ValueView::Bool(*b),
        }
    }
}

/// The double, as a bit pattern, that a standard decimal floating-point
/// parse of the text yields, or `None` where the text is not a valid
/// decimal literal.
pub uninterp spec fn parsed_num_of(s: Seq<char>) -> Option<u64>;

/// Relies on `str::parse` into a double: whether the text is a valid
/// decimal floating-point literal, and which double it denotes, depend on
/// its characters alone.  The call to `libm::fabs` only pins the parse to
/// double precision; its result is dropped.
#[verifier::external_body]
fn parse_num(s: &str) -> (r: Option<u64>)
    ensures
        r == parsed_num_of(s@),
{
    match s.parse() {
        Ok(n) => {
            let _ = libm::fabs(n);
            Some(n.to_bits())
        },
        Err(_) => None,
    }
}

/// The decimal rendering of the double with the given bit pattern, in the
/// notation of the source runtime (shortest round-tripping form, `Infinity`
/// for the infinite values).
pub uninterp spec fn formatted_num_of(bits: u64) -> Seq<char>;

/// Relies on `ryu_js::Buffer::format`: the rendering of a double depends on
/// its bits alone, and the call is total (the infinities and NaN patterns
/// get their literal names).  `bytemuck::cast` turns the bit pattern into
/// the double it encodes; the call to `libm::fabs` only pins that cast to
/// double precision, and its result is dropped.
#[verifier::external_body]
fn format_num(bits: u64) -> (r: String)
    ensures
        r@ == formatted_num_of(bits),
{
    let n = bytemuck::cast(bits);
    let _ = libm::fabs(n);
    ryu_js::Buffer::new().format(n).to_owned()
}

/// The Unicode lowercase folding of the text.
pub uninterp spec fn lower_of(s: Seq<char>) -> Seq<char>;

/// Relies on `str::to_lowercase`: the lowercase form of a text depends on
/// its characters alone.
#[verifier::external_body]
fn lowercase_str(s: &str) -> (r: String)
    ensures
        r@ == lower_of(s@),
{
    s.to_lowercase()
}

/// Truthiness: a double is truthy unless zero or NaN; a text is truthy
/// unless empty, `"0"`, or `"false"` up to ASCII case; a boolean is itself.
pub open spec fn spec_to_bool(v: ValueView) -> bool {
    match v {
        ValueView::Num(b) => !is_zero_bits(b) && !is_nan_bits(b),
        ValueView::Str(s) => s.len() > 0 && s != "0"@ && !eq_false_nocase(s),
        ValueView::Bool(b) => b,
    }
}

/// The string-to-number rule: trim, recognize the spelled-out `Infinity`
/// literals, reject the bare `inf` forms, and otherwise take a standard
/// decimal parse that did not yield NaN.
pub open spec fn spec_str_to_num(s: Seq<char>) -> Option<u64> {
    let t = trim_spec(s);
    if t == "Infinity"@ || t == "+Infinity"@ {
        Some(POS_INF_BITS)
    } else if t == "-Infinity"@ {
        Some(NEG_INF_BITS)
    } else if t == "inf"@ || t == "+inf"@ || t == "-inf"@ {
        None
    } else {
        match parsed_num_of(t) {
            Some(b) => if is_nan_bits(b) {
                None
            } else {
                Some(b)
            },
            None => None,
        }
    }
}

/// Numeric coercion: a double unless NaN, the string-to-number rule for a
/// text, 1 or 0 for a boolean.
pub open spec fn spec_try_to_num(v: ValueView) -> Option<u64> {
    match v {
        ValueView::Num(b) => if is_nan_bits(b) {
            None
        } else {
            Some(b)
        },
        ValueView::Str(s) => spec_str_to_num(s),
        ValueView::Bool(b) => Some(
            if b {
                ONE_BITS
            } else {
                ZERO_BITS
            },
        ),
    }
}

/// Total numeric coercion: zero where the fail-capable rule gives nothing.
pub open spec fn spec_to_num(v: ValueView) -> u64 {
    match spec_try_to_num(v) {
        Some(b) => b,
        None => ZERO_BITS,
    }
}

/// Textual coercion: the runtime's rendering of a double, the text itself,
/// or the name of the boolean.
pub open spec fn spec_to_str(v: ValueView) -> Seq<char> {
    match v {
        ValueView::Num(b) => formatted_num_of(b),
        ValueView::Str(s) => s,
        ValueView::Bool(b) => if b {
            "true"@
        } else {
            "false"@
        },
    }
}

/// 1-based to 0-based translation of a numeric coercion result: truncate
/// toward zero, then succeed only for a pre-subtraction value of 1 or more.
pub open spec fn spec_num_to_index(r: Option<u64>) -> Option<Index> {
    match r {
        Some(b) => {
            let t = trunc_sat_usize_bits(b);
            if t >= 1 {
                Some(Index::Nth((t - 1) as usize))
            } else {
                None
            }
        },
        None => None,
    }
}

/// The value read as a list-addressing token: the exact text `"last"`, or a
/// 1-based numeric position.
pub open spec fn spec_to_index(v: ValueView) -> Option<Index> {
    match v {
        ValueView::Str(s) => if s == "last"@ {
            Some(Index::Last)
        } else {
            spec_num_to_index(spec_try_to_num(v))
        },
        _ => spec_num_to_index(spec_try_to_num(v)),
    }
}

/// The total order on values: numeric wherever both sides coerce to
/// numbers, else case-insensitive lexicographic on the textual coercions.
pub open spec fn spec_compare(a: ValueView, b: ValueView) -> Ordering {
    match (spec_try_to_num(a), spec_try_to_num(b)) {
        (Some(x), Some(y)) => num_cmp(x, y),
        _ => lex_cmp_spec(lower_of(spec_to_str(a)), lower_of(spec_to_str(b))),
    }
}

/// Whether the value is a double with a NaN pattern — the one state every
/// numeric coercion treats as "no numeric value".
pub open spec fn spec_is_nan_value(v: ValueView) -> bool {
    match v {
        ValueView::Num(b) => is_nan_bits(b),
        _ => false,
    }
}

/// A successful numeric coercion never hands out a NaN pattern.
pub proof fn lemma_try_to_num_not_nan(v: ValueView)
    ensures
        spec_try_to_num(v) matches Some(b) ==> !is_nan_bits(b),
{
    assert(!is_nan_bits(ONE_BITS)) by (bit_vector);
    assert(!is_nan_bits(ZERO_BITS)) by (bit_vector);
    assert(!is_nan_bits(POS_INF_BITS)) by (bit_vector);
    assert(!is_nan_bits(NEG_INF_BITS)) by (bit_vector);
}

/// The string-to-number rule, executable.
fn str_to_num(s: &str) -> (r: Option<u64>)
    ensures
        r == spec_str_to_num(s@),
{
    let t = trim_str(s);
    if str_eq(t, "Infinity") || str_eq(t, "+Infinity") {
        Some(POS_INF_BITS)
    } else if str_eq(t, "-Infinity") {
        Some(NEG_INF_BITS)
    } else if str_eq(t, "inf") || str_eq(t, "+inf") || str_eq(t, "-inf") {
        None
    } else {
        match parse_num(t) {
            Some(b) => if nan_bits(b) {
                None
            } else {
                Some(b)
            },
            None => None,
        }
    }
}

impl Value {
    /// Truthiness coercion.
    pub fn to_bool(&self) -> (r: bool)
        ensures
            r == spec_to_bool(self@),
    {
        match self {
            Value::Num(b) => !zero_bits(*b) && !nan_bits(*b),
            Value::String(s) => !s.as_str().is_empty() && !str_eq(s.as_str(), "0")
                && !is_false_nocase(s.as_str()),
            Value::Bool(b) => *b,
        }
    }

    /// Numeric coercion that fails rather than produce NaN; the result is
    /// the bit pattern of the double.
    pub fn try_to_num(&self) -> (r: Option<u64>)
        ensures
            r == spec_try_to_num(self@),
    {
        match self {
            Value::Num(b) => if nan_bits(*b) {
                None
            } else {
                Some(*b)
            },
            Value::String(s) => str_to_num(s.as_str()),
            Value::Bool(b) => if *b {
                Some(ONE_BITS)
            } else {
                Some(ZERO_BITS)
            },
        }
    }

    /// Total numeric coercion: the bits of zero where no number can be had.
    pub fn to_num(&self) -> (r: u64)
        ensures
            r == spec_to_num(self@),
    {
        match self.try_to_num() {
            Some(b) => b,
            None => ZERO_BITS,
        }
    }

    /// Textual coercion.  The text is freshly owned; a caller may only
    /// assume it is textually correct.
    pub fn to_cow_str(&self) -> (r: String)
        ensures
            r@ == spec_to_str(self@),
    {
        match self {
            Value::Num(b) => format_num(*b),
            Value::String(s) => s.clone(),
            Value::Bool(b) => if *b {
                String::from_str("true")
            } else {
                String::from_str("false")
            },
        }
    }

    /// The numeric half of the index rule.
    fn index_from_num(&self) -> (r: Option<Index>)
        ensures
            r == spec_num_to_index(spec_try_to_num(self@)),
    {
        match self.try_to_num() {
            Some(b) => {
                let t = trunc_sat_usize(b);
                if t >= 1 {
                    Some(Index::Nth(t - 1))
                } else {
                    None
                }
            },
            None => None,
        }
    }

    /// The value read as a list-addressing token.  The special tokens
    /// `"all"`, `"random"` and `"any"` of the source runtime are not
    /// recognized here; callers must not rely on them.
    pub fn to_index(&self) -> (r: Option<Index>)
        ensures
            r == spec_to_index(self@),
    {
        match self {
            Value::String(s) => if str_eq(s.as_str(), "last") {
                Some(Index::Last)
            } else {
                self.index_from_num()
            },
            _ => self.index_from_num(),
        }
    }

    /// The total order used for sorting and the relational operators.
    pub fn compare(&self, other: &Value) -> (r: Ordering)
        ensures
            r == spec_compare(self@, other@),
    {
        let ln = self.try_to_num();
        let rn = other.try_to_num();
        match (ln, rn) {
            (Some(x), Some(y)) => {
                proof {
                    lemma_try_to_num_not_nan(self@);
                    lemma_try_to_num_not_nan(other@);
                }
                cmp_num_bits(x, y)
            },
            _ => {
                let a = self.to_cow_str();
                let b = other.to_cow_str();
                let la = lowercase_str(a.as_str());
                let lb = lowercase_str(b.as_str());
                lex_cmp_str(la.as_str(), lb.as_str())
            },
        }
    }
}

/// Law: comparing a NaN-free value with itself yields `Equal`.
pub proof fn lemma_compare_self_equal(v: ValueView)
    requires
        !spec_is_nan_value(v),
    ensures
        spec_compare(v, v) == Ordering::Equal,
{
    match spec_try_to_num(v) {
        Some(x) => {
            assert(num_cmp(x, x) == Ordering::Equal);
        },
        None => {
            lemma_lex_cmp_refl(lower_of(spec_to_str(v)));
        },
    }
}

impl Default for Value {
    /// The default block-input value of the source runtime: an empty text.
    fn default() -> (r: Self)
        ensures
            r@ == ValueView::Str(Seq::<char>::empty()),
    {
        Value::String(String::new())
    }
}

} // verus!
