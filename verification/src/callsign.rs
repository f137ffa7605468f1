//! Callsign normalization, portable suffix handling, and skimmer detection.

use crate::domain::PortablePolicy;
use crate::filter::config::CallsignNormalizationSerde;
use crate::text::{
    all_digits, alnum, chars_are, chars_of, digit, find_char, has_digit, is_alnum, is_digit,
    last_of, lemma_first_of, lemma_last_of, lemma_last_of_bound, rfind_char, split_at_char,
    string_of, to_upper, upper, upper_all,
};
use vstd::prelude::*;
use vstd::slice::slice_subrange;
use vstd::string::*;
use vstd::utf8::encode_utf8;

verus! {

/// The portable suffixes that `StripCommonSuffixes` removes, in upper case.
pub open spec fn common_suffix(s: Seq<char>) -> bool {
    s == "P"@ || s == "M"@ || s == "QRP"@ || s == "MM"@ || s == "AM"@
}

/// What a portable policy leaves of a callsign.
pub open spec fn stripped(call: Seq<char>, policy: PortablePolicy) -> Seq<char> {
    let slash = last_of(call, '/');
    match policy {
        PortablePolicy::KeepAsIs => call,
        PortablePolicy::StripCommonSuffixes => if slash >= 0 && common_suffix(
            upper_all(call.skip(slash + 1)),
        ) {
            call.take(slash)
        } else {
            call
        },
        PortablePolicy::StripAllAfterSlash => if slash >= 0 {
            call.take(slash)
        } else {
            call
        },
    }
}

/// Letters, digits and slashes of a callsign, in order.
pub open spec fn alnum_or_slash(call: Seq<char>) -> Seq<char> {
    call.filter(|c: char| alnum(c) || c == '/')
}

/// A callsign normalized under `policy`.
pub open spec fn normalized(call: Seq<char>, policy: CallsignNormalizationSerde) -> Seq<char> {
    let cased = if policy.uppercase {
        upper_all(call)
    } else {
        call
    };
    let kept = if policy.strip_non_alnum {
        alnum_or_slash(cased)
    } else {
        cased
    };
    stripped(kept, policy.portable_policy)
}

/// Of two candidates for the base callsign: `seg`, if it holds a digit and is
/// at least as long (in bytes) as the best one before it.
pub open spec fn better_segment(best: Option<Seq<char>>, seg: Seq<char>) -> Option<Seq<char>> {
    if has_digit(seg) && (best matches Some(b) ==> encode_utf8(seg).len() >= encode_utf8(
        b,
    ).len()) {
        Some(seg)
    } else {
        best
    }
}

/// The best of `best` and the segments, the last one among the longest.
pub open spec fn best_segment(best: Option<Seq<char>>, segs: Seq<Seq<char>>) -> Option<Seq<char>>
    decreases segs.len(),
{
    if segs.len() == 0 {
        best
    } else {
        best_segment(better_segment(best, segs[0]), segs.skip(1))
    }
}

/// The base callsign: the longest segment between slashes that holds a digit,
/// the whole callsign where there is no slash or no such segment.
pub open spec fn base_of(call: Seq<char>) -> Seq<char> {
    if last_of(call, '/') < 0 {
        call
    } else {
        match best_segment(None, split_at_char(call, '/')) {
            Some(seg) => seg,
            None => call,
        }
    }
}

/// A callsign that ends in a dash and one or two digits.
pub open spec fn likely_skimmer(call: Seq<char>) -> bool {
    let dash = last_of(call, '-');
    let after = call.skip(dash + 1);
    dash >= 0 && 1 <= after.len() <= 2 && all_digits(after)
}

// ---------------------------------------------------------------------------
// Laws
// ---------------------------------------------------------------------------

/// The segment chosen holds a digit, and no segment with a digit is longer.
pub proof fn lemma_best_segment_is_longest(best: Option<Seq<char>>, segs: Seq<Seq<char>>)
    requires
        best matches Some(b) ==> has_digit(b),
    ensures
        match best_segment(best, segs) {
            Some(s) => {
                &&& has_digit(s)
                &&& best == Some(s) || segs.contains(s)
                &&& best matches Some(b) ==> encode_utf8(b).len() <= encode_utf8(s).len()
                &&& forall|i: int|
                    0 <= i < segs.len() && has_digit(#[trigger] segs[i]) ==> encode_utf8(
                        segs[i],
                    ).len() <= encode_utf8(s).len()
            },
            None => best is None && forall|i: int|
                0 <= i < segs.len() ==> !has_digit(#[trigger] segs[i]),
        },
    decreases segs.len(),
{
    if segs.len() > 0 {
        let next = better_segment(best, segs[0]);
        lemma_best_segment_is_longest(next, segs.skip(1));
        assert forall|i: int| 0 <= i < segs.len() && has_digit(#[trigger] segs[i]) implies (
        best_segment(best, segs) matches Some(s) && encode_utf8(segs[i]).len() <= encode_utf8(
            s,
        ).len()) by {
            if i > 0 {
                assert(segs.skip(1)[i - 1] == segs[i]);
            }
        }
        match best_segment(best, segs) {
            Some(s) => {
                if segs.skip(1).contains(s) {
                    let k = choose|k: int| 0 <= k < segs.skip(1).len() && segs.skip(1)[k] == s;
                    assert(segs[k + 1] == s);
                }
                if next == Some(s) && best != Some(s) {
                    assert(segs[0] == s);
                }
            },
            None => {},
        }
    }
}

/// A callsign without a slash is left alone by every portable policy, and is
/// its own base callsign.
pub proof fn lemma_no_slash_unchanged(call: Seq<char>, policy: PortablePolicy)
    requires
        !call.contains('/'),
    ensures
        stripped(call, policy) == call,
        base_of(call) == call,
{
    assert forall|k: int| 0 <= k < call.len() implies call[k] != '/' by {
        assert(call.contains(call[k]));
    }
    lemma_last_of(call, '/', -1);
}

/// Normalizing in upper case leaves no ASCII lower-case letter.
pub proof fn lemma_normalized_is_upper(call: Seq<char>, policy: CallsignNormalizationSerde)
    requires
        policy.uppercase,
    ensures
        upper_all(normalized(call, policy)) == normalized(call, policy),
{
    let cased = upper_all(call);
    let kept = if policy.strip_non_alnum {
        alnum_or_slash(cased)
    } else {
        cased
    };
    lemma_last_of_bound(kept, '/');
    lemma_filter_from(cased, |c: char| alnum(c) || c == '/');
    assert forall|i: int| 0 <= i < kept.len() implies upper(#[trigger] kept[i]) == kept[i] by {
        if policy.strip_non_alnum {
            assert(cased.contains(kept[i]));
            let k = choose|k: int| 0 <= k < cased.len() && cased[k] == kept[i];
            assert(cased[k] == upper(call[k]));
        }
    }
    let out = stripped(kept, policy.portable_policy);
    assert forall|i: int| 0 <= i < out.len() implies upper(#[trigger] out[i]) == out[i] by {
        assert(out[i] == kept[i]);
    }
    assert(upper_all(out) =~= out);
}

/// Normalizing under the policy that keeps portable designators is idempotent.
pub proof fn lemma_normalized_idempotent(call: Seq<char>, policy: CallsignNormalizationSerde)
    requires
        policy.portable_policy == PortablePolicy::KeepAsIs,
    ensures
        normalized(normalized(call, policy), policy) == normalized(call, policy),
{
    let once = normalized(call, policy);
    let p = |c: char| alnum(c) || c == '/';
    if policy.uppercase {
        lemma_normalized_is_upper(call, policy);
    }
    if policy.strip_non_alnum {
        assert forall|i: int| 0 <= i < once.len() implies p(#[trigger] once[i]) by {}
        lemma_filter_all(once, p);
    }
}

/// A suffix behind the last slash is dropped where the policy says so: any
/// suffix by `StripAllAfterSlash`; `P`, `M`, `QRP`, `MM` and `AM`, in upper or
/// lower case, and no other by `StripCommonSuffixes`; none by `KeepAsIs`.
pub proof fn lemma_suffix_stripped(call: Seq<char>, suffix: Seq<char>)
    requires
        !suffix.contains('/'),
    ensures
        ({
            let whole = call + seq!['/'] + suffix;
            let common = {
                ||| upper_all(suffix) == seq!['P']
                ||| upper_all(suffix) == seq!['M']
                ||| upper_all(suffix) == seq!['Q', 'R', 'P']
                ||| upper_all(suffix) == seq!['M', 'M']
                ||| upper_all(suffix) == seq!['A', 'M']
            };
            &&& stripped(whole, PortablePolicy::KeepAsIs) == whole
            &&& stripped(whole, PortablePolicy::StripAllAfterSlash) == call
            &&& stripped(whole, PortablePolicy::StripCommonSuffixes) == if common {
                call
            } else {
                whole
            }
        }),
{
    reveal_strlit("P");
    reveal_strlit("M");
    reveal_strlit("QRP");
    reveal_strlit("MM");
    reveal_strlit("AM");
    assert("P"@ =~= seq!['P']);
    assert("M"@ =~= seq!['M']);
    assert("QRP"@ =~= seq!['Q', 'R', 'P']);
    assert("MM"@ =~= seq!['M', 'M']);
    assert("AM"@ =~= seq!['A', 'M']);
    let whole = call + seq!['/'] + suffix;
    let n = call.len() as int;
    assert forall|k: int| n < k < whole.len() implies whole[k] != '/' by {
        assert(whole[k] == suffix[k - n - 1]);
        assert(suffix.contains(suffix[k - n - 1]));
    }
    lemma_last_of(whole, '/', n);
    assert(whole.skip(n + 1) =~= suffix);
    assert(whole.take(n) =~= call);
}

/// A call looks like a skimmer's exactly when it ends in a dash and one or two
/// digits.
pub proof fn lemma_skimmer_calls(call: Seq<char>, suffix: Seq<char>)
    requires
        !suffix.contains('-'),
    ensures
        likely_skimmer(call + seq!['-'] + suffix) <==> {
            ||| suffix.len() == 1 && '0' <= suffix[0] <= '9'
            ||| suffix.len() == 2 && '0' <= suffix[0] <= '9' && '0' <= suffix[1] <= '9'
        },
        !call.contains('-') ==> !likely_skimmer(call),
{
    let whole = call + seq!['-'] + suffix;
    let n = call.len() as int;
    assert forall|k: int| n < k < whole.len() implies whole[k] != '-' by {
        assert(whole[k] == suffix[k - n - 1]);
        assert(suffix.contains(suffix[k - n - 1]));
    }
    lemma_last_of(whole, '-', n);
    assert(whole.skip(n + 1) =~= suffix);
    if likely_skimmer(whole) {
        assert(digit(suffix[0]));
        if suffix.len() == 2 {
            assert(digit(suffix[1]));
        }
    }
    if !call.contains('-') {
        assert forall|k: int| -1 < k < call.len() implies call[k] != '-' by {
            assert(call.contains(call[k]));
        }
        lemma_last_of(call, '-', -1);
    }
}

/// Normalizing by characters: in upper case every ASCII letter is written so,
/// and stripping leaves letters, digits and slashes, all of them and in order.
pub proof fn lemma_normalized_characters(call: Seq<char>, policy: CallsignNormalizationSerde)
    requires
        policy.portable_policy == PortablePolicy::KeepAsIs,
    ensures
        !policy.uppercase && !policy.strip_non_alnum ==> normalized(call, policy) == call,
        policy.uppercase && !policy.strip_non_alnum ==> normalized(call, policy).len()
            == call.len() && forall|i: int|
            0 <= i < call.len() ==> #[trigger] normalized(call, policy)[i] == if 'a' <= call[i]
                <= 'z' {
                (call[i] as u32 - 32) as u32 as char
            } else {
                call[i]
            },
        !policy.uppercase && policy.strip_non_alnum ==> normalized(call, policy) == call.filter(
            |c: char| '0' <= c <= '9' || 'A' <= c <= 'Z' || 'a' <= c <= 'z' || c == '/',
        ),
        policy.uppercase && policy.strip_non_alnum ==> normalized(call, policy) == upper_all(
            call,
        ).filter(|c: char| '0' <= c <= '9' || 'A' <= c <= 'Z' || 'a' <= c <= 'z' || c == '/'),
{
    let p = |c: char| '0' <= c <= '9' || 'A' <= c <= 'Z' || 'a' <= c <= 'z' || c == '/';
    let q = |c: char| alnum(c) || c == '/';
    assert(p =~= q);
}

/// Of the segments between slashes the base callsign is the longest, in bytes,
/// with a digit: for two segments, the one that has a digit, and of two that
/// have the longer one, or the latter of equals.
pub proof fn lemma_base_of_two(a: Seq<char>, b: Seq<char>)
    requires
        !a.contains('/'),
        !b.contains('/'),
    ensures
        ({
            let whole = a + seq!['/'] + b;
            let longer = encode_utf8(b).len() >= encode_utf8(a).len();
            &&& has_digit(b) && (!has_digit(a) || longer) ==> base_of(whole) == b
            &&& has_digit(a) && (!has_digit(b) || !longer) ==> base_of(whole) == a
            &&& !has_digit(a) && !has_digit(b) ==> base_of(whole) == whole
        }),
{
    let whole = a + seq!['/'] + b;
    let n = a.len() as int;
    assert forall|k: int| 0 <= k < n implies whole[k] != '/' by {
        assert(whole[k] == a[k]);
        assert(a.contains(a[k]));
    }
    lemma_first_of(whole, '/', n);
    assert(whole.take(n) =~= a);
    assert(whole.skip(n + 1) =~= b);
    assert forall|k: int| 0 <= k < b.len() implies b[k] != '/' by {
        assert(b.contains(b[k]));
    }
    lemma_first_of(b, '/', b.len() as int);
    assert(split_at_char(b, '/') == seq![b]);
    let segs = split_at_char(whole, '/');
    assert(segs =~= seq![a, b]);
    assert(segs.skip(1) =~= seq![b]);
    assert(seq![b].skip(1) =~= Seq::<Seq<char>>::empty());
    assert forall|k: int| n < k < whole.len() implies whole[k] != '/' by {
        assert(whole[k] == b[k - n - 1]);
    }
    lemma_last_of(whole, '/', n);
    let first = better_segment(None, a);
    let second = better_segment(first, b);
    assert(best_segment(None, segs) == best_segment(first, segs.skip(1)));
    assert(best_segment(first, seq![b]) == best_segment(second, seq![b].skip(1)));
}

/// Whatever passes a filter was in the sequence.
proof fn lemma_filter_from(s: Seq<char>, p: spec_fn(char) -> bool)
    ensures
        forall|i: int| 0 <= i < s.filter(p).len() ==> s.contains(#[trigger] s.filter(p)[i]),
    decreases s.len(),
{
    reveal(Seq::filter);
    if s.len() > 0 {
        let t = s.drop_last();
        lemma_filter_from(t, p);
        assert forall|i: int| 0 <= i < s.filter(p).len() implies s.contains(
            #[trigger] s.filter(p)[i],
        ) by {
            if i < t.filter(p).len() {
                assert(s.filter(p)[i] == t.filter(p)[i]);
                let k = choose|k: int| 0 <= k < t.len() && t[k] == t.filter(p)[i];
                assert(s[k] == s.filter(p)[i]);
            } else {
                assert(s[s.len() - 1] == s.filter(p)[i]);
            }
        }
    }
}

/// Filtering keeps a sequence whose every element passes.
proof fn lemma_filter_all(s: Seq<char>, p: spec_fn(char) -> bool)
    requires
        forall|i: int| 0 <= i < s.len() ==> p(#[trigger] s[i]),
    ensures
        s.filter(p) == s,
    decreases s.len(),
{
    reveal(Seq::filter);
    if s.len() > 0 {
        lemma_filter_all(s.drop_last(), p);
        assert(p(s[s.len() - 1]));
        assert(s.drop_last().push(s.last()) =~= s);
    }
}

// ---------------------------------------------------------------------------
// Operations
// ---------------------------------------------------------------------------

/// Upper-case form of a text.
fn upper_chars(s: &[char]) -> (r: Vec<char>)
    ensures
        r@ == upper_all(s@),
{
    let mut out: Vec<char> = Vec::new();
    let mut i: usize = 0;
    while i < s.len()
        invariant
            i <= s.len(),
            out@ == upper_all(s@).take(i as int),
        decreases s.len() - i,
    {
        out.push(to_upper(s[i]));
        assert(out@ =~= upper_all(s@).take(i + 1));
        i += 1;
    }
    assert(upper_all(s@).take(s@.len() as int) =~= upper_all(s@));
    out
}

/// Number of leading characters that a portable policy leaves.
fn kept_len(call: &[char], policy: PortablePolicy) -> (r: usize)
    ensures
        r <= call@.len(),
        call@.take(r as int) == stripped(call@, policy),
{
    let n: usize = call.len();
    assert(call@.take(n as int) =~= call@);
    match policy {
        PortablePolicy::KeepAsIs => n,
        PortablePolicy::StripCommonSuffixes => match rfind_char(call, '/') {
            Some(pos) => {
                let suffix = slice_subrange(call, pos + 1, n);
                assert(suffix@ =~= call@.skip(pos + 1));
                let suffix_upper = upper_chars(suffix);
                let s = suffix_upper.as_slice();
                if chars_are(s, "P") || chars_are(s, "M") || chars_are(s, "QRP") || chars_are(
                    s,
                    "MM",
                ) || chars_are(s, "AM") {
                    pos
                } else {
                    n
                }
            },
            None => n,
        },
        PortablePolicy::StripAllAfterSlash => match rfind_char(call, '/') {
            Some(pos) => pos,
            None => n,
        },
    }
}

/// Normalize a callsign according to the given policy.
///
/// Steps applied in order:
/// 1. Uppercase (if `policy.uppercase`)
/// 2. Strip non-alphanumeric characters except `/` (if `policy.strip_non_alnum`)
/// 3. Apply portable policy
pub fn normalize_callsign(call: &str, policy: &CallsignNormalizationSerde) -> (r: String)
    ensures
        r@ == normalized(call@, *policy),
{
    let mut chars = chars_of(call);
    if policy.uppercase {
        chars = upper_chars(chars.as_slice());
    }
    if policy.strip_non_alnum {
        let ghost p = |c: char| alnum(c) || c == '/';
        let ghost cased = chars@;
        let mut kept: Vec<char> = Vec::new();
        let mut i: usize = 0;
        proof {
            reveal(Seq::filter);
            assert(cased.take(0).filter(p) =~= Seq::<char>::empty());
        }
        while i < chars.len()
            invariant
                i <= chars.len(),
                chars@ == cased,
                p == (|c: char| alnum(c) || c == '/'),
                kept@ == cased.take(i as int).filter(p),
            decreases chars.len() - i,
        {
            let c: char = chars[i];
            proof {
                reveal(Seq::filter);
                assert(cased.take(i + 1).drop_last() =~= cased.take(i as int));
                assert(cased.take(i + 1).last() == c);
            }
            if is_alnum(c) || c == '/' {
                kept.push(c);
            }
            i += 1;
        }
        assert(cased.take(cased.len() as int) =~= cased);
        chars = kept;
    }
    let n: usize = kept_len(chars.as_slice(), policy.portable_policy);
    assert(chars@.subrange(0, n as int) =~= chars@.take(n as int));
    string_of(slice_subrange(chars.as_slice(), 0, n))
}

/// Strip portable suffixes from a callsign according to the given policy.
///
/// - `KeepAsIs`: no change
/// - `StripCommonSuffixes`: removes trailing `/P`, `/M`, `/QRP`, `/MM`, `/AM`
/// - `StripAllAfterSlash`: removes everything after (and including) the last `/`
///
/// Note: `StripAllAfterSlash` on `"DL/W1AW"` returns `"DL"` (the portable
/// prefix, not the base callsign). Use [`base_callsign`] to extract the actual
/// callsign from compound calls with portable prefixes.
pub fn strip_portable_suffix(call: &str, policy: PortablePolicy) -> (r: &str)
    ensures
        r@ == stripped(call@, policy),
{
    let chars = chars_of(call);
    let n: usize = kept_len(chars.as_slice(), policy);
    assert(call@.subrange(0, n as int) =~= call@.take(n as int));
    call.substring_char(0, n)
}

/// Extract the base callsign, stripping portable prefixes and suffixes.
///
/// For compound callsigns with `/`, picks the segment most likely to be the
/// real callsign: the longest segment containing a digit.
///
/// - `"DL/W1AW/P"` → `"W1AW"`
/// - `"VE3NEA/P"` → `"VE3NEA"`
/// - `"W1AW/7"` → `"W1AW"`
/// - `"4X/W1AW"` → `"W1AW"`
pub fn base_callsign(call: &str) -> (r: &str)
    ensures
        r@ == base_of(call@),
{
    let chars = chars_of(call);
    let all = chars.as_slice();
    match rfind_char(all, '/') {
        None => call,
        Some(_) => {
            let mut best: Option<(usize, usize)> = None;
            let mut best_len: usize = 0;
            let mut start: usize = 0;
            let ghost mut chosen: Option<Seq<char>> = None;
            assert(call@.skip(0) =~= call@);
            loop
                invariant
                    all@ == call@,
                    start <= all@.len(),
                    last_of(call@, '/') >= 0,
                    best_segment(None, split_at_char(call@, '/')) == best_segment(
                        chosen,
                        split_at_char(call@.skip(start as int), '/'),
                    ),
                    match best {
                        Some((a, b)) => a <= b <= all@.len() && chosen == Some(
                            call@.subrange(a as int, b as int),
                        ) && best_len == encode_utf8(call@.subrange(a as int, b as int)).len(),
                        None => chosen is None,
                    },
                decreases all@.len() - start,
            {
                let rest = slice_subrange(all, start, all.len());
                assert(rest@ =~= call@.skip(start as int));
                let n: usize = find_char(rest, '/');
                let seg = slice_subrange(rest, 0, n);
                let ghost segs = split_at_char(rest@, '/');
                let seg_len: usize = string_of(seg).as_str().as_bytes().len();
                let digits: bool = any_digit(seg);
                proof {
                    assert(rest@.take(n as int) =~= seg@);
                    if n == rest@.len() {
                        assert(rest@.take(n as int) =~= rest@);
                        assert(segs =~= seq![seg@]);
                        assert(segs.skip(1) =~= Seq::<Seq<char>>::empty());
                    } else {
                        assert(segs.skip(1) =~= split_at_char(rest@.skip(n + 1), '/'));
                        assert(rest@.skip(n + 1) =~= call@.skip(start + n + 1));
                    }
                    assert(segs[0] == seg@);
                    assert(seg@ =~= call@.subrange(start as int, start + n));
                    assert(best_segment(chosen, segs) == best_segment(
                        better_segment(chosen, seg@),
                        segs.skip(1),
                    ));
                    chosen = better_segment(chosen, seg@);
                }
                if digits && (best.is_none() || seg_len >= best_len) {
                    best = Some((start, start + n));
                    best_len = seg_len;
                }
                if n == rest.len() {
                    assert(best_segment(chosen, segs.skip(1)) == chosen);
                    return match best {
                        Some((a, b)) => call.substring_char(a, b),
                        None => call,
                    };
                }
                start = start + n + 1;
            }
        },
    }
}

/// Whether a text holds an ASCII digit.
fn any_digit(s: &[char]) -> (r: bool)
    ensures
        r == has_digit(s@),
{
    let mut i: usize = 0;
    while i < s.len()
        invariant
            i <= s.len(),
            forall|k: int| 0 <= k < i ==> !digit(#[trigger] s@[k]),
        decreases s.len() - i,
    {
        if is_digit(s[i]) {
            return true;
        }
        i += 1;
    }
    false
}

/// Heuristic check for whether a callsign looks like an automated skimmer.
///
/// RBN skimmers typically have a `-N` suffix (e.g., `W3LPL-2`, `DK8JP-1`).
/// This is best-effort; the definitive originator kind is set by the source
/// connector based on whether the spot came from RBN.
pub fn is_likely_skimmer(call: &str) -> (r: bool)
    ensures
        r == likely_skimmer(call@),
{
    let chars = chars_of(call);
    match rfind_char(chars.as_slice(), '-') {
        Some(pos) => {
            let n: usize = chars.len() - (pos + 1);
            let ghost after = call@.skip(pos + 1);
            if n == 1 {
                assert(after[0] == call@[pos + 1]);
                is_digit(chars[pos + 1])
            } else if n == 2 {
                assert(after[0] == call@[pos + 1] && after[1] == call@[pos + 2]);
                is_digit(chars[pos + 1]) && is_digit(chars[pos + 2])
            } else {
                false
            }
        },
        None => false,
    }
}

} // verus!
