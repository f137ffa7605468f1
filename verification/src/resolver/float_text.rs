//! Texts that write a floating-point number.

use crate::text::{
    all_digits, chars_of, find_char, first_of, is_digit, lower_all, same_ignoring_case,
};
use vstd::prelude::*;
use vstd::slice::slice_subrange;

verus! {

/// Position of the first `e` or `E`, the length of the text where there is none.
pub open spec fn exponent_at(s: Seq<char>) -> nat
    decreases s.len(),
{
    if s.len() == 0 || s[0] == 'e' || s[0] == 'E' {
        0
    } else {
        1 + exponent_at(s.skip(1))
    }
}

/// The text without a sign at its start.
pub open spec fn unsigned_part(s: Seq<char>) -> Seq<char> {
    if s.len() > 0 && (s[0] == '+' || s[0] == '-') {
        s.skip(1)
    } else {
        s
    }
}

/// Digits with at most one point among them, at least one digit.
pub open spec fn mantissa_text(s: Seq<char>) -> bool {
    let dot = first_of(s, '.') as int;
    if dot < s.len() {
        all_digits(s.take(dot)) && all_digits(s.skip(dot + 1)) && s.len() > 1
    } else {
        s.len() > 0 && all_digits(s)
    }
}

/// An optional sign and at least one digit.
pub open spec fn exponent_text(s: Seq<char>) -> bool {
    unsigned_part(s).len() > 0 && all_digits(unsigned_part(s))
}

/// The text writes a floating-point number: an optional sign, then `inf`,
/// `infinity` or `nan` in any case, or a decimal number with an optional exponent.
pub open spec fn float_text(s: Seq<char>) -> bool {
    let t = unsigned_part(s);
    let e = exponent_at(t) as int;
    ||| lower_all(t) == lower_all("inf"@)
    ||| lower_all(t) == lower_all("infinity"@)
    ||| lower_all(t) == lower_all("nan"@)
    ||| mantissa_text(t.take(e)) && (e < t.len() ==> exponent_text(t.skip(e + 1)))
}

proof fn lemma_exponent_at(s: Seq<char>, i: int)
    requires
        0 <= i <= s.len(),
        forall|k: int| 0 <= k < i ==> #[trigger] s[k] != 'e' && s[k] != 'E',
        i < s.len() ==> s[i] == 'e' || s[i] == 'E',
    ensures
        exponent_at(s) == i,
    decreases s.len(),
{
    if s.len() > 0 && i > 0 {
        assert(s[0] != 'e' && s[0] != 'E');
        let rest = s.skip(1);
        assert forall|k: int| 0 <= k < i - 1 implies #[trigger] rest[k] != 'e' && rest[k]
            != 'E' by {
            assert(rest[k] == s[k + 1]);
        }
        lemma_exponent_at(rest, i - 1);
    }
}

/// Whether every character is a digit.
fn digits_only(s: &[char]) -> (r: bool)
    ensures
        r == all_digits(s@),
{
    let mut i: usize = 0;
    while i < s.len()
        invariant
            i <= s.len(),
            forall|k: int| 0 <= k < i ==> crate::text::digit(#[trigger] s@[k]),
        decreases s.len() - i,
    {
        if !is_digit(s[i]) {
            return false;
        }
        i += 1;
    }
    true
}

/// Drop a sign at the start.
fn drop_sign(s: &[char]) -> (r: &[char])
    ensures
        r@ == unsigned_part(s@),
{
    if s.len() > 0 && (s[0] == '+' || s[0] == '-') {
        assert(s@.skip(1) =~= s@.subrange(1, s@.len() as int));
        slice_subrange(s, 1, s.len())
    } else {
        s
    }
}

fn is_mantissa(s: &[char]) -> (r: bool)
    ensures
        r == mantissa_text(s@),
{
    let dot: usize = find_char(s, '.');
    if dot < s.len() {
        let before = slice_subrange(s, 0, dot);
        let after = slice_subrange(s, dot + 1, s.len());
        assert(before@ =~= s@.take(dot as int));
        assert(after@ =~= s@.skip(dot + 1));
        digits_only(before) && digits_only(after) && s.len() > 1
    } else {
        s.len() > 0 && digits_only(s)
    }
}

fn is_named(s: &[char], name: &str) -> (r: bool)
    ensures
        r == (lower_all(s@) == lower_all(name@)),
{
    let t = chars_of(name);
    same_ignoring_case(s, t.as_slice())
}

/// Whether the text writes a floating-point number.
pub fn is_float_text(s: &[char]) -> (r: bool)
    ensures
        r == float_text(s@),
{
    let t = drop_sign(s);
    if is_named(t, "inf") || is_named(t, "infinity") || is_named(t, "nan") {
        return true;
    }
    let mut e: usize = 0;
    while e < t.len() && t[e] != 'e' && t[e] != 'E'
        invariant
            e <= t.len(),
            forall|k: int| 0 <= k < e ==> #[trigger] t@[k] != 'e' && t@[k] != 'E',
        decreases t.len() - e,
    {
        e += 1;
    }
    proof {
        lemma_exponent_at(t@, e as int);
    }
    let mantissa = slice_subrange(t, 0, e);
    assert(mantissa@ =~= t@.take(e as int));
    if !is_mantissa(mantissa) {
        return false;
    }
    if e < t.len() {
        let after = slice_subrange(t, e + 1, t.len());
        assert(after@ =~= t@.skip(e + 1));
        let digits = drop_sign(after);
        digits.len() > 0 && digits_only(digits)
    } else {
        true
    }
}

} // verus!
