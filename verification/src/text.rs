//! Text primitives: character classes, searching, trimming, splitting and
//! number parsing, each stated over the sequence of characters of a text.

use vstd::prelude::*;
use vstd::slice::slice_subrange;
use vstd::string::*;
use vstd::utf8::*;

verus! {

// ---------------------------------------------------------------------------
// Character classes
// ---------------------------------------------------------------------------

/// `c` is one of the ASCII digits.
pub open spec fn digit(c: char) -> bool {
    '0' <= c <= '9'
}

/// `c` is an ASCII letter or digit.
pub open spec fn alnum(c: char) -> bool {
    digit(c) || 'A' <= c <= 'Z' || 'a' <= c <= 'z'
}

/// `c` has the Unicode property White_Space.
pub open spec fn space(c: char) -> bool {
    '\u{9}' <= c <= '\u{d}' || c == '\u{20}' || c == '\u{85}' || c == '\u{a0}' || c == '\u{1680}'
        || '\u{2000}' <= c <= '\u{200a}' || c == '\u{2028}' || c == '\u{2029}' || c == '\u{202f}'
        || c == '\u{205f}' || c == '\u{3000}'
}

/// `c` with an ASCII lower-case letter replaced by its upper-case form.
pub open spec fn upper(c: char) -> char {
    if 'a' <= c <= 'z' {
        ((c as u32 - 32) as u32) as char
    } else {
        c
    }
}

/// `c` with an ASCII upper-case letter replaced by its lower-case form.
pub open spec fn lower(c: char) -> char {
    if 'A' <= c <= 'Z' {
        ((c as u32 + 32) as u32) as char
    } else {
        c
    }
}

/// The text with every ASCII letter in upper case.
pub open spec fn upper_all(s: Seq<char>) -> Seq<char> {
    Seq::new(s.len(), |i: int| upper(s[i]))
}

/// The text with every ASCII letter in lower case.
pub open spec fn lower_all(s: Seq<char>) -> Seq<char> {
    Seq::new(s.len(), |i: int| lower(s[i]))
}

/// Every character is an ASCII digit.
pub open spec fn all_digits(s: Seq<char>) -> bool {
    forall|i: int| 0 <= i < s.len() ==> digit(#[trigger] s[i])
}

/// Some character is an ASCII digit.
pub open spec fn has_digit(s: Seq<char>) -> bool {
    exists|i: int| 0 <= i < s.len() && digit(#[trigger] s[i])
}

/// Whether `c` is an ASCII digit.
pub fn is_digit(c: char) -> (r: bool)
    ensures
        r == digit(c),
{
    '0' <= c && c <= '9'
}

/// Whether `c` is an ASCII letter or digit.
pub fn is_alnum(c: char) -> (r: bool)
    ensures
        r == alnum(c),
{
    is_digit(c) || ('A' <= c && c <= 'Z') || ('a' <= c && c <= 'z')
}

/// Whether `c` is white space.
pub fn is_space(c: char) -> (r: bool)
    ensures
        r == space(c),
{
    ('\u{9}' <= c && c <= '\u{d}') || c == '\u{20}' || c == '\u{85}' || c == '\u{a0}' || c
        == '\u{1680}' || ('\u{2000}' <= c && c <= '\u{200a}') || c == '\u{2028}' || c == '\u{2029}'
        || c == '\u{202f}' || c == '\u{205f}' || c == '\u{3000}'
}

/// ASCII upper case of one character.
pub fn to_upper(c: char) -> (r: char)
    ensures
        r == upper(c),
{
    if 'a' <= c && c <= 'z' {
        let code: u8 = c as u8;
        (code - 32) as char
    } else {
        c
    }
}

/// ASCII lower case of one character.
pub fn to_lower(c: char) -> (r: char)
    ensures
        r == lower(c),
{
    if 'A' <= c && c <= 'Z' {
        let code: u8 = c as u8;
        (code + 32) as char
    } else {
        c
    }
}

// ---------------------------------------------------------------------------
// Searching
// ---------------------------------------------------------------------------

/// Position of the first `c`, the length of the text where there is none.
pub open spec fn first_of(s: Seq<char>, c: char) -> nat
    decreases s.len(),
{
    if s.len() == 0 || s[0] == c {
        0
    } else {
        1 + first_of(s.skip(1), c)
    }
}

/// Position of the last `c`, `-1` where there is none.
pub open spec fn last_of(s: Seq<char>, c: char) -> int
    decreases s.len(),
{
    if s.len() == 0 {
        -1
    } else if s.last() == c {
        s.len() - 1
    } else {
        last_of(s.drop_last(), c)
    }
}

/// `needle` stands in `hay` at position `at`.
pub open spec fn occurs_at(hay: Seq<char>, needle: Seq<char>, at: int) -> bool {
    0 <= at <= hay.len() - needle.len() && hay.subrange(at, at + needle.len()) == needle
}

/// `needle` stands somewhere in `hay`.
pub open spec fn occurs(hay: Seq<char>, needle: Seq<char>) -> bool {
    exists|at: int| occurs_at(hay, needle, at)
}

/// `hay` begins with `needle`.
pub open spec fn begins(hay: Seq<char>, needle: Seq<char>) -> bool {
    occurs_at(hay, needle, 0)
}

/// Position of the first occurrence of `needle` at or after `from`, if there is one.
pub open spec fn occurrence_from(hay: Seq<char>, needle: Seq<char>, from: int) -> Option<int>
    decreases hay.len() - needle.len() + 1 - from,
{
    if from > hay.len() - needle.len() {
        None
    } else if occurs_at(hay, needle, from) {
        Some(from)
    } else {
        occurrence_from(hay, needle, from + 1)
    }
}

/// Position of the first occurrence of `needle`, if there is one.
pub open spec fn first_occurrence(hay: Seq<char>, needle: Seq<char>) -> Option<int> {
    occurrence_from(hay, needle, 0)
}

/// What characterises the position of the first `c`.
pub proof fn lemma_first_of(s: Seq<char>, c: char, i: int)
    requires
        0 <= i <= s.len(),
        forall|k: int| 0 <= k < i ==> s[k] != c,
        i < s.len() ==> s[i] == c,
    ensures
        first_of(s, c) == i,
    decreases s.len(),
{
    if s.len() > 0 && i > 0 {
        assert(s[0] != c);
        assert(s.skip(1).len() == s.len() - 1);
        assert forall|k: int| 0 <= k < i - 1 implies s.skip(1)[k] != c by {
            assert(s.skip(1)[k] == s[k + 1]);
        }
        lemma_first_of(s.skip(1), c, i - 1);
    }
}

/// The position of the first `c` lies in the text or right behind it; no `c`
/// stands before it.
pub proof fn lemma_first_of_props(s: Seq<char>, c: char)
    ensures
        first_of(s, c) <= s.len(),
        first_of(s, c) < s.len() ==> s[first_of(s, c) as int] == c,
        forall|k: int| 0 <= k < first_of(s, c) ==> s[k] != c,
    decreases s.len(),
{
    if s.len() > 0 && s[0] != c {
        lemma_first_of_props(s.skip(1), c);
        assert forall|k: int| 0 <= k < first_of(s, c) implies s[k] != c by {
            if k > 0 {
                assert(s.skip(1)[k - 1] == s[k]);
            }
        }
    }
}

/// What characterises the position of the last `c`.
pub proof fn lemma_last_of(s: Seq<char>, c: char, i: int)
    requires
        -1 <= i < s.len(),
        forall|k: int| i < k < s.len() ==> s[k] != c,
        i >= 0 ==> s[i] == c,
    ensures
        last_of(s, c) == i,
    decreases s.len(),
{
    if s.len() > 0 && i < s.len() - 1 {
        assert(s[s.len() - 1] != c);
        lemma_last_of(s.drop_last(), c, i);
    }
}

/// The position of the last `c` is `-1` or lies in the text.
pub proof fn lemma_last_of_bound(s: Seq<char>, c: char)
    ensures
        -1 <= last_of(s, c) < s.len(),
    decreases s.len(),
{
    if s.len() > 0 && s.last() != c {
        lemma_last_of_bound(s.drop_last(), c);
    }
}

/// The first `c` in `s`, or the length of `s`.
pub fn find_char(s: &[char], c: char) -> (r: usize)
    ensures
        r == first_of(s@, c),
        r <= s@.len(),
        r < s@.len() ==> s@[r as int] == c,
{
    let mut i: usize = 0;
    while i < s.len() && s[i] != c
        invariant
            i <= s.len(),
            forall|k: int| 0 <= k < i ==> s@[k] != c,
        decreases s.len() - i,
    {
        i += 1;
    }
    proof {
        lemma_first_of(s@, c, i as int);
    }
    i
}

/// The last `c` in `s`, if there is one.
pub fn rfind_char(s: &[char], c: char) -> (r: Option<usize>)
    ensures
        match r {
            Some(i) => last_of(s@, c) == i && i < s@.len() && s@[i as int] == c,
            None => last_of(s@, c) == -1,
        },
{
    let mut i: usize = s.len();
    while i > 0
        invariant
            i <= s.len(),
            forall|k: int| i <= k < s.len() ==> s@[k] != c,
        decreases i,
    {
        i -= 1;
        if s[i] == c {
            proof {
                lemma_last_of(s@, c, i as int);
            }
            return Some(i);
        }
    }
    proof {
        lemma_last_of(s@, c, -1);
    }
    None
}

/// Whether two texts hold the same characters.
pub fn same_chars(a: &[char], b: &[char]) -> (r: bool)
    ensures
        r == (a@ == b@),
{
    if a.len() != b.len() {
        return false;
    }
    let mut i: usize = 0;
    while i < a.len()
        invariant
            a.len() == b.len(),
            i <= a.len(),
            forall|k: int| 0 <= k < i ==> a@[k] == b@[k],
        decreases a.len() - i,
    {
        if a[i] != b[i] {
            return false;
        }
        i += 1;
    }
    assert(a@ =~= b@);
    true
}

/// Whether two texts differ at most in the case of ASCII letters.
pub fn same_ignoring_case(a: &[char], b: &[char]) -> (r: bool)
    ensures
        r == (lower_all(a@) == lower_all(b@)),
{
    if a.len() != b.len() {
        assert(lower_all(a@).len() != lower_all(b@).len());
        return false;
    }
    let mut i: usize = 0;
    while i < a.len()
        invariant
            a.len() == b.len(),
            i <= a.len(),
            forall|k: int| 0 <= k < i ==> lower(a@[k]) == lower(b@[k]),
        decreases a.len() - i,
    {
        if to_lower(a[i]) != to_lower(b[i]) {
            assert(lower_all(a@)[i as int] != lower_all(b@)[i as int]);
            return false;
        }
        i += 1;
    }
    assert(lower_all(a@) =~= lower_all(b@));
    true
}

/// Whether `needle` stands in `hay` at position `at`.
pub fn stands_at(hay: &[char], needle: &[char], at: usize) -> (r: bool)
    ensures
        r == occurs_at(hay@, needle@, at as int),
{
    if needle.len() > hay.len() || at > hay.len() - needle.len() {
        return false;
    }
    same_chars(slice_subrange(hay, at, at + needle.len()), needle)
}

/// The first occurrence of `needle` in `hay`, if there is one.
pub fn find_text(hay: &[char], needle: &[char]) -> (r: Option<usize>)
    ensures
        match r {
            Some(at) => first_occurrence(hay@, needle@) == Some(at as int) && occurs_at(
                hay@,
                needle@,
                at as int,
            ),
            None => first_occurrence(hay@, needle@) is None && !occurs(hay@, needle@),
        },
{
    if needle.len() > hay.len() {
        return None;
    }
    let last: usize = hay.len() - needle.len();
    let mut at: usize = 0;
    loop
        invariant
            last == hay.len() - needle.len(),
            at <= last,
            first_occurrence(hay@, needle@) == occurrence_from(hay@, needle@, at as int),
            forall|k: int| 0 <= k < at ==> !occurs_at(hay@, needle@, k),
        decreases last - at,
    {
        if stands_at(hay, needle, at) {
            return Some(at);
        }
        if at == last {
            assert(occurrence_from(hay@, needle@, at + 1) is None);
            return None;
        }
        at += 1;
    }
}

/// Whether `needle` stands somewhere in `hay`.
pub fn contains_text(hay: &[char], needle: &[char]) -> (r: bool)
    ensures
        r == occurs(hay@, needle@),
{
    match find_text(hay, needle) {
        Some(_) => true,
        None => false,
    }
}

// ---------------------------------------------------------------------------
// Trimming and splitting
// ---------------------------------------------------------------------------

/// The text without its leading white space.
pub open spec fn trimmed_start(s: Seq<char>) -> Seq<char>
    decreases s.len(),
{
    if s.len() > 0 && space(s[0]) {
        trimmed_start(s.skip(1))
    } else {
        s
    }
}

/// The text without its trailing white space.
pub open spec fn trimmed_end(s: Seq<char>) -> Seq<char>
    decreases s.len(),
{
    if s.len() > 0 && space(s.last()) {
        trimmed_end(s.drop_last())
    } else {
        s
    }
}

/// The text without white space at either end.
pub open spec fn trimmed(s: Seq<char>) -> Seq<char> {
    trimmed_end(trimmed_start(s))
}

/// Number of characters before the first white space.
pub open spec fn word_len(s: Seq<char>) -> nat
    decreases s.len(),
{
    if s.len() == 0 || space(s[0]) {
        0
    } else {
        1 + word_len(s.skip(1))
    }
}

/// The maximal runs of characters that are not white space, in order.
pub open spec fn words_of(s: Seq<char>) -> Seq<Seq<char>>
    decreases s.len(),
{
    if s.len() == 0 {
        seq![]
    } else if space(s[0]) {
        words_of(s.skip(1))
    } else if word_len(s) <= s.len() {
        seq![s.take(word_len(s) as int)] + words_of(s.skip(word_len(s) as int))
    } else {
        seq![]
    }
}

/// The pieces between the separators, in order; one more than there are separators.
pub open spec fn split_at_char(s: Seq<char>, sep: char) -> Seq<Seq<char>>
    decreases s.len(),
{
    let i = first_of(s, sep) as int;
    if i >= s.len() {
        seq![s]
    } else {
        seq![s.take(i)] + split_at_char(s.skip(i + 1), sep)
    }
}

/// What is left after dropping the leading white space.
pub fn trim_start(s: &[char]) -> (r: &[char])
    ensures
        r@ == trimmed_start(s@),
{
    let mut i: usize = 0;
    assert(s@.skip(0) =~= s@);
    while i < s.len() && is_space(s[i])
        invariant
            i <= s.len(),
            trimmed_start(s@) == trimmed_start(s@.skip(i as int)),
        decreases s.len() - i,
    {
        assert(s@.skip(i as int).skip(1) =~= s@.skip(i + 1));
        i += 1;
    }
    assert(s@.subrange(i as int, s@.len() as int) =~= s@.skip(i as int));
    slice_subrange(s, i, s.len())
}

/// What is left after dropping the trailing white space.
pub fn trim_end(s: &[char]) -> (r: &[char])
    ensures
        r@ == trimmed_end(s@),
{
    let mut n: usize = s.len();
    assert(s@.take(n as int) =~= s@);
    while n > 0 && is_space(s[n - 1])
        invariant
            n <= s.len(),
            trimmed_end(s@) == trimmed_end(s@.take(n as int)),
        decreases n,
    {
        assert(s@.take(n as int).drop_last() =~= s@.take(n - 1));
        n -= 1;
    }
    assert(s@.subrange(0, n as int) =~= s@.take(n as int));
    slice_subrange(s, 0, n)
}

/// What is left after dropping white space at both ends.
pub fn trim(s: &[char]) -> (r: &[char])
    ensures
        r@ == trimmed(s@),
{
    trim_end(trim_start(s))
}

/// A word is no longer than the text it begins.
pub proof fn lemma_word_len(s: Seq<char>)
    ensures
        word_len(s) <= s.len(),
    decreases s.len(),
{
    if s.len() > 0 && !space(s[0]) {
        lemma_word_len(s.skip(1));
    }
}

/// The first word of a text is no longer than the text.
pub proof fn lemma_first_word_fits(s: Seq<char>)
    requires
        words_of(s).len() > 0,
    ensures
        words_of(s)[0].len() <= s.len(),
    decreases s.len(),
{
    if space(s[0]) {
        lemma_first_word_fits(s.skip(1));
    } else {
        lemma_word_len(s);
    }
}

/// The words of a text, in order.
pub fn split_words(s: &[char]) -> (r: Vec<&[char]>)
    ensures
        r@.len() == words_of(s@).len(),
        forall|i: int| 0 <= i < r@.len() ==> (#[trigger] r@[i])@ == words_of(s@)[i],
{
    let mut out: Vec<&[char]> = Vec::new();
    let mut i: usize = 0;
    assert(s@.skip(0) =~= s@);
    while i < s.len()
        invariant
            i <= s.len(),
            out@.len() + words_of(s@.skip(i as int)).len() == words_of(s@).len(),
            forall|k: int| 0 <= k < out@.len() ==> (#[trigger] out@[k])@ == words_of(s@)[k],
            forall|k: int|
                0 <= k < words_of(s@.skip(i as int)).len() ==> #[trigger] words_of(
                    s@.skip(i as int),
                )[k] == words_of(s@)[out@.len() + k],
        decreases s.len() - i,
    {
        let ghost rest = s@.skip(i as int);
        if is_space(s[i]) {
            assert(rest.skip(1) =~= s@.skip(i + 1));
            i += 1;
        } else {
            let start: usize = i;
            while i < s.len() && !is_space(s[i])
                invariant
                    start <= i <= s.len(),
                    rest == s@.skip(start as int),
                    word_len(rest) == (i - start) + word_len(s@.skip(i as int)),
                decreases s.len() - i,
            {
                assert(s@.skip(i as int).skip(1) =~= s@.skip(i + 1));
                i += 1;
            }
            assert(word_len(rest) == i - start);
            proof {
                lemma_word_len(rest);
                assert(rest.skip(i - start) =~= s@.skip(i as int));
                assert(rest.take(i - start) =~= s@.subrange(start as int, i as int));
                assert(words_of(rest) == seq![rest.take(i - start)] + words_of(s@.skip(i as int)));
                assert(words_of(rest)[0] == rest.take(i - start));
                assert forall|k: int| 0 <= k < words_of(s@.skip(i as int)).len() implies
                    #[trigger] words_of(s@.skip(i as int))[k] == words_of(s@)[out@.len() + 1 + k] by {
                    assert(words_of(rest)[k + 1] == words_of(s@.skip(i as int))[k]);
                }
            }
            out.push(slice_subrange(s, start, i));
        }
    }
    out
}

/// The pieces of a text between separators, in order.
pub fn split_char(s: &[char], sep: char) -> (r: Vec<&[char]>)
    ensures
        r@.len() == split_at_char(s@, sep).len(),
        r@.len() > 0,
        forall|i: int| 0 <= i < r@.len() ==> (#[trigger] r@[i])@ == split_at_char(s@, sep)[i],
{
    let mut out: Vec<&[char]> = Vec::new();
    let mut rest: &[char] = s;
    let mut done: bool = false;
    while !done
        invariant
            done ==> out@.len() == split_at_char(s@, sep).len() && out@.len() > 0,
            !done ==> out@.len() + split_at_char(rest@, sep).len() == split_at_char(s@, sep).len(),
            forall|k: int| 0 <= k < out@.len() ==> (#[trigger] out@[k])@ == split_at_char(s@, sep)[k],
            !done ==> forall|k: int|
                0 <= k < split_at_char(rest@, sep).len() ==> #[trigger] split_at_char(rest@, sep)[k]
                    == split_at_char(s@, sep)[out@.len() + k],
        decreases rest.len(), if done { 0int } else { 1int },
    {
        let i: usize = find_char(rest, sep);
        if i >= rest.len() {
            assert(split_at_char(rest@, sep)[0] == rest@);
            out.push(rest);
            done = true;
        } else {
            let ghost all = split_at_char(rest@, sep);
            let tail = slice_subrange(rest, i + 1, rest.len());
            proof {
                assert(rest@.skip(i + 1) =~= tail@);
                assert(rest@.take(i as int) =~= rest@.subrange(0, i as int));
                assert(all == seq![rest@.take(i as int)] + split_at_char(tail@, sep));
                assert(all[0] == rest@.take(i as int));
                assert forall|k: int| 0 <= k < split_at_char(tail@, sep).len() implies
                    #[trigger] split_at_char(tail@, sep)[k] == split_at_char(s@, sep)[out@.len() + 1
                    + k] by {
                    assert(all[k + 1] == split_at_char(tail@, sep)[k]);
                }
            }
            out.push(slice_subrange(rest, 0, i));
            rest = tail;
        }
    }
    out
}

// ---------------------------------------------------------------------------
// Numbers
// ---------------------------------------------------------------------------

/// The number written by a run of decimal digits.
pub open spec fn digits_value(s: Seq<char>) -> nat
    decreases s.len(),
{
    if s.len() == 0 {
        0
    } else {
        digits_value(s.drop_last()) * 10 + (s.last() as u32 - '0' as u32) as nat
    }
}

/// The unsigned number written by `s`: decimal digits, at least one, behind an
/// optional `+`. `None` where `s` is not of that form or writes more than `max`.
pub open spec fn unsigned_value(s: Seq<char>, max: nat) -> Option<nat> {
    let digits = if s.len() > 0 && s[0] == '+' { s.skip(1) } else { s };
    if digits.len() > 0 && all_digits(digits) && digits_value(digits) <= max {
        Some(digits_value(digits))
    } else {
        None
    }
}

/// The signed number written by `s`: decimal digits, at least one, behind an
/// optional sign. `None` where `s` is not of that form or outside `min..=max`.
pub open spec fn signed_value(s: Seq<char>, min: int, max: int) -> Option<int> {
    let negative = s.len() > 0 && s[0] == '-';
    let digits = if s.len() > 0 && (s[0] == '+' || s[0] == '-') { s.skip(1) } else { s };
    let v = if negative { -(digits_value(digits) as int) } else { digits_value(digits) as int };
    if digits.len() > 0 && all_digits(digits) && min <= v <= max {
        Some(v)
    } else {
        None
    }
}

/// A prefix of a run of digits writes no larger number.
pub proof fn lemma_digits_value_prefix(s: Seq<char>, n: int)
    requires
        0 <= n <= s.len(),
        all_digits(s),
    ensures
        digits_value(s.take(n)) <= digits_value(s),
    decreases s.len(),
{
    if n == s.len() {
        assert(s.take(n) =~= s);
    } else {
        let t = s.drop_last();
        assert(all_digits(t)) by {
            assert forall|i: int| 0 <= i < t.len() implies digit(#[trigger] t[i]) by {
                assert(t[i] == s[i]);
            }
        }
        lemma_digits_value_prefix(t, n);
        assert(t.take(n) =~= s.take(n));
        assert(digit(s[s.len() - 1]));
    }
}

/// The value of a run of digits, `None` where it is empty, holds another
/// character or writes more than `max`.
fn parse_digits(s: &[char], max: u64) -> (r: Option<u64>)
    ensures
        r == (if s@.len() > 0 && all_digits(s@) && digits_value(s@) <= max {
            Some(digits_value(s@) as u64)
        } else {
            None
        }),
{
    if s.len() == 0 {
        return None;
    }
    let mut i: usize = 0;
    while i < s.len()
        invariant
            i <= s.len(),
            forall|k: int| 0 <= k < i ==> digit(#[trigger] s@[k]),
        decreases s.len() - i,
    {
        if !is_digit(s[i]) {
            return None;
        }
        i += 1;
    }
    let mut v: u64 = 0;
    i = 0;
    while i < s.len()
        invariant
            i <= s.len(),
            all_digits(s@),
            v == digits_value(s@.take(i as int)),
            v <= max,
        decreases s.len() - i,
    {
        let c: char = s[i];
        let d: u64 = (c as u32 - '0' as u32) as u64;
        proof {
            assert(s@.take(i + 1).drop_last() =~= s@.take(i as int));
            lemma_digits_value_prefix(s@, i + 1);
        }
        let next: Option<u64> = match v.checked_mul(10) {
            Some(x) => x.checked_add(d),
            None => None,
        };
        match next {
            Some(x) => {
                if x > max {
                    return None;
                }
                v = x;
            },
            None => {
                return None;
            },
        }
        i += 1;
    }
    assert(s@.take(s@.len() as int) =~= s@);
    Some(v)
}

/// Parse an unsigned decimal number not above `max`.
pub fn parse_unsigned(s: &[char], max: u64) -> (r: Option<u64>)
    ensures
        match r {
            Some(v) => unsigned_value(s@, max as nat) == Some(v as nat) && v <= max,
            None => unsigned_value(s@, max as nat) is None,
        },
{
    if s.len() > 0 && s[0] == '+' {
        assert(s@.skip(1) =~= s@.subrange(1, s@.len() as int));
        parse_digits(slice_subrange(s, 1, s.len()), max)
    } else {
        parse_digits(s, max)
    }
}

/// Parse a signed decimal number in the range of `i8`.
pub fn parse_i8(s: &[char]) -> (r: Option<i8>)
    ensures
        match r {
            Some(v) => signed_value(s@, -128, 127) == Some(v as int),
            None => signed_value(s@, -128, 127) is None,
        },
{
    if s.len() > 0 && (s[0] == '+' || s[0] == '-') {
        assert(s@.skip(1) =~= s@.subrange(1, s@.len() as int));
        let negative: bool = s[0] == '-';
        match parse_digits(slice_subrange(s, 1, s.len()), 128) {
            Some(v) => {
                if negative {
                    Some((0 - v as i16) as i8)
                } else if v <= 127 {
                    Some(v as i8)
                } else {
                    None
                }
            },
            None => None,
        }
    } else {
        match parse_digits(s, 127) {
            Some(v) => Some(v as i8),
            None => None,
        }
    }
}

/// The character of a decimal digit.
pub open spec fn digit_char(d: nat) -> char {
    (('0' as u32 + d) as u32) as char
}

/// The decimal digits of a number, without leading zeros.
pub open spec fn decimal_of(n: nat) -> Seq<char>
    decreases n,
{
    if n < 10 {
        seq![digit_char(n)]
    } else {
        decimal_of(n / 10).push(digit_char(n % 10))
    }
}

/// Reading the decimal digits of a number gives the number back.
pub proof fn lemma_decimal_round_trip(n: nat)
    ensures
        decimal_of(n).len() > 0,
        all_digits(decimal_of(n)),
        digits_value(decimal_of(n)) == n,
    decreases n,
{
    if n < 10 {
        let s = decimal_of(n);
        assert(s.drop_last() =~= Seq::<char>::empty());
        assert(digits_value(s.drop_last()) == 0);
    } else {
        lemma_decimal_round_trip(n / 10);
        let s = decimal_of(n);
        let t = decimal_of(n / 10);
        assert(s.drop_last() =~= t);
        assert forall|i: int| 0 <= i < s.len() implies digit(#[trigger] s[i]) by {
            if i < t.len() {
                assert(s[i] == t[i]);
                assert(digit(t[i]));
            }
        }
    }
}

/// Append the decimal digits of `n`.
pub fn push_decimal(out: &mut String, n: u64)
    ensures
        final(out)@ == old(out)@ + decimal_of(n as nat),
    decreases n,
{
    let ghost before = out@;
    if n >= 10 {
        push_decimal(out, n / 10);
    }
    let d: u8 = (n % 10) as u8;
    out.push((48u8 + d) as char);
    assert(out@ =~= before + decimal_of(n as nat));
}

// ---------------------------------------------------------------------------
// Strings
// ---------------------------------------------------------------------------

/// `String::push` appends the character at the end of the string.
pub assume_specification[ String::push ](s: &mut String, c: char)
    ensures
        final(s)@ == old(s)@.push(c),
;

/// The characters of a string slice.
pub fn chars_of(s: &str) -> (r: Vec<char>)
    ensures
        r@ == s@,
{
    let mut out: Vec<char> = Vec::new();
    for c in it: s.chars()
        invariant
            out@ == it.seq().take(it.index() as int),
            it.seq() == s@,
    {
        out.push(c);
    }
    assert(s@.take(s@.len() as int) == s@);
    out
}

/// The string made of the given characters.
pub fn string_of(v: &[char]) -> (r: String)
    ensures
        r@ == v@,
{
    let mut out = String::new();
    let mut i: usize = 0;
    while i < v.len()
        invariant
            i <= v.len(),
            out@ == v@.take(i as int),
        decreases v.len() - i,
    {
        out.push(v[i]);
        i += 1;
    }
    assert(v@.take(v@.len() as int) == v@);
    out
}

/// Whether two string slices hold the same characters.
pub fn str_eq(a: &str, b: &str) -> (r: bool)
    ensures
        r == (a@ == b@),
{
    let x = a.as_bytes();
    let y = b.as_bytes();
    proof {
        encode_utf8_decode_utf8(a@);
        encode_utf8_decode_utf8(b@);
    }
    if x.len() != y.len() {
        return false;
    }
    let mut i: usize = 0;
    while i < x.len()
        invariant
            x.len() == y.len(),
            i <= x.len(),
            forall|j: int| 0 <= j < i ==> x@[j] == y@[j],
            x@ == encode_utf8(a@),
            y@ == encode_utf8(b@),
        decreases x.len() - i,
    {
        if x[i] != y[i] {
            return false;
        }
        i += 1;
    }
    assert(x@ =~= y@);
    true
}

/// Whether the characters are those of the string slice.
pub fn chars_are(s: &[char], text: &str) -> (r: bool)
    ensures
        r == (s@ == text@),
{
    let t = chars_of(text);
    same_chars(s, t.as_slice())
}

// ---------------------------------------------------------------------------
// Laws
// ---------------------------------------------------------------------------

/// Upper and lower case of a character: ASCII letters go to their counterparts,
/// everything else stays.
pub proof fn lemma_letter_case(c: char)
    ensures
        'a' <= c <= 'z' ==> 'A' <= upper(c) <= 'Z' && upper(c) as u32 + 32 == c as u32,
        'A' <= c <= 'Z' ==> 'a' <= lower(c) <= 'z' && lower(c) as u32 == c as u32 + 32,
        !('a' <= c <= 'z') ==> upper(c) == c,
        !('A' <= c <= 'Z') ==> lower(c) == c,
        'a' <= c <= 'z' ==> lower(upper(c)) == c,
        'A' <= c <= 'Z' ==> upper(lower(c)) == c,
{
}

/// Case is changed character by character.
pub proof fn lemma_text_case(s: Seq<char>)
    ensures
        upper_all(s).len() == s.len(),
        lower_all(s).len() == s.len(),
        forall|i: int| 0 <= i < s.len() ==> #[trigger] upper_all(s)[i] == upper(s[i]),
        forall|i: int| 0 <= i < s.len() ==> #[trigger] lower_all(s)[i] == lower(s[i]),
        lower_all(upper_all(s)) == lower_all(s),
{
    assert(lower_all(upper_all(s)) =~= lower_all(s));
}

/// The characters that count as white space.
pub proof fn lemma_white_space(c: char)
    ensures
        space(c) <==> {
            let code = c as u32;
            ||| 0x09 <= code <= 0x0d
            ||| code == 0x20
            ||| code == 0x85
            ||| code == 0xa0
            ||| code == 0x1680
            ||| 0x2000 <= code <= 0x200a
            ||| code == 0x2028
            ||| code == 0x2029
            ||| code == 0x202f
            ||| code == 0x205f
            ||| code == 0x3000
        },
{
}

/// Trimming takes off white space at the start, all of it and nothing else.
pub proof fn lemma_trimmed_start_parts(s: Seq<char>)
    ensures
        ({
            let n = s.len() - trimmed_start(s).len();
            &&& 0 <= n <= s.len()
            &&& trimmed_start(s) == s.skip(n)
            &&& forall|i: int| 0 <= i < n ==> space(#[trigger] s[i])
            &&& n < s.len() ==> !space(s[n])
        }),
    decreases s.len(),
{
    if s.len() > 0 && space(s[0]) {
        let rest = s.skip(1);
        lemma_trimmed_start_parts(rest);
        let n = s.len() - trimmed_start(s).len();
        assert(rest.skip(n - 1) =~= s.skip(n));
        assert forall|i: int| 0 <= i < n implies space(#[trigger] s[i]) by {
            if i > 0 {
                assert(rest[i - 1] == s[i]);
            }
        }
        if n < s.len() {
            assert(rest[n - 1] == s[n]);
        }
    } else {
        assert(s.skip(0) =~= s);
    }
}

/// Trimming takes off white space at the end, all of it and nothing else.
pub proof fn lemma_trimmed_end_parts(s: Seq<char>)
    ensures
        ({
            let n = trimmed_end(s).len() as int;
            &&& 0 <= n <= s.len()
            &&& trimmed_end(s) == s.take(n)
            &&& forall|i: int| n <= i < s.len() ==> space(#[trigger] s[i])
            &&& n > 0 ==> !space(s[n - 1])
        }),
    decreases s.len(),
{
    if s.len() > 0 && space(s.last()) {
        let rest = s.drop_last();
        lemma_trimmed_end_parts(rest);
        let n = trimmed_end(s).len() as int;
        assert(rest.take(n) =~= s.take(n));
        assert forall|i: int| n <= i < s.len() implies space(#[trigger] s[i]) by {
            if i < rest.len() {
                assert(rest[i] == s[i]);
            }
        }
        if n > 0 {
            assert(rest[n - 1] == s[n - 1]);
        }
    } else {
        assert(s.take(s.len() as int) =~= s);
    }
}

/// The pieces of a list joined by a separator.
pub open spec fn joined(pieces: Seq<Seq<char>>, sep: char) -> Seq<char>
    decreases pieces.len(),
{
    if pieces.len() == 0 {
        seq![]
    } else if pieces.len() == 1 {
        pieces[0]
    } else {
        pieces[0] + seq![sep] + joined(pieces.skip(1), sep)
    }
}

/// Splitting at a separator gives at least one piece, none with a separator in
/// it, and the pieces joined by it are the text.
pub proof fn lemma_split_joined(s: Seq<char>, sep: char)
    ensures
        split_at_char(s, sep).len() > 0,
        joined(split_at_char(s, sep), sep) == s,
        forall|i: int, k: int|
            0 <= i < split_at_char(s, sep).len() && 0 <= k < split_at_char(s, sep)[i].len()
                ==> #[trigger] split_at_char(s, sep)[i][k] != sep,
    decreases s.len(),
{
    let n = first_of(s, sep) as int;
    lemma_first_of_props(s, sep);
    let all = split_at_char(s, sep);
    if n < s.len() {
        let rest = s.skip(n + 1);
        lemma_split_joined(rest, sep);
        assert(all.skip(1) =~= split_at_char(rest, sep));
        assert(s =~= s.take(n) + seq![sep] + rest);
        assert forall|i: int, k: int| 0 <= i < all.len() && 0 <= k < all[i].len() implies
            #[trigger] all[i][k] != sep by {
            if i > 0 {
                assert(all[i] == split_at_char(rest, sep)[i - 1]);
            }
        }
    }
}

/// The value of digits, digit by digit.
pub proof fn lemma_digit_by_digit(s: Seq<char>, d: nat)
    requires
        d < 10,
    ensures
        digits_value(Seq::empty()) == 0,
        digits_value(s.push(digit_char(d))) == 10 * digits_value(s) + d,
        digit_char(0) == '0',
        digit_char(1) == '1',
        digit_char(2) == '2',
        digit_char(3) == '3',
        digit_char(4) == '4',
        digit_char(5) == '5',
        digit_char(6) == '6',
        digit_char(7) == '7',
        digit_char(8) == '8',
        digit_char(9) == '9',
{
    assert(s.push(digit_char(d)).drop_last() =~= s);
}

/// A number is read with its sign: digits alone or behind a plus write their
/// value, behind a minus the negative of it, and more than the limits allow is
/// not read.
pub proof fn lemma_signs(digits: Seq<char>, min: int, max: int)
    requires
        digits.len() > 0,
        all_digits(digits),
    ensures
        ({
            let v = digits_value(digits) as int;
            let fits = |n: int| if min <= n && n <= max { Some(n) } else { None };
            &&& signed_value(digits, min, max) == fits(v)
            &&& signed_value(seq!['+'] + digits, min, max) == fits(v)
            &&& signed_value(seq!['-'] + digits, min, max) == fits(-v)
            &&& max >= 0 && v <= max ==> unsigned_value(digits, max as nat) == Some(v as nat)
                && unsigned_value(seq!['+'] + digits, max as nat) == Some(v as nat)
            &&& max >= 0 && v > max ==> unsigned_value(digits, max as nat) is None
            &&& max >= 0 ==> unsigned_value(seq!['-'] + digits, max as nat) is None
        }),
{
    assert(digit(digits[0]));
    let plus = seq!['+'] + digits;
    let minus = seq!['-'] + digits;
    assert(plus.skip(1) =~= digits);
    assert(minus.skip(1) =~= digits);
    assert(minus[0] == '-' && !digit(minus[0]));
}

} // verus!
