//! DX spot line parser for telnet cluster protocols.
//!
//! Handles DXSpider, AR-Cluster v6, CC Cluster, VE7CC, and RBN line formats.
//! The parser never panics on any input.
//!
//! # DX Spot Format
//!
//! The standard format is:
//! ```text
//! DX de SP-CALL:    FREQ.F  DX-CALL  comment            HHMMz
//! ```
//!
//! Column positions vary between cluster implementations. The parser
//! locates the colon after the spotter call and works outward from there.

use crate::model::opt_text;
use crate::text::{
    all_digits, begins, chars_of, contains_text, digit, digits_value, find_char, find_text,
    first_occurrence, first_of, is_digit, lemma_first_word_fits, lower_all, occurs, parse_i8,
    parse_unsigned, same_ignoring_case, signed_value, split_words, stands_at, string_of, to_lower,
    trim, trim_end, trim_start, trimmed, trimmed_end, trimmed_start, unsigned_value, words_of,
};
use crate::time::UtcTime;
use vstd::prelude::*;
use vstd::slice::slice_subrange;
use vstd::string::*;
use vstd::utf8::encode_utf8;

verus! {

// ---------------------------------------------------------------------------
// Types
// ---------------------------------------------------------------------------

/// A parsed DX spot with all fields extracted from a single line.
#[derive(Debug, Clone, PartialEq)]
pub struct ParsedSpot {
    /// The spotter (originator) callsign.
    pub spotter_call: String,
    /// The DX station callsign.
    pub dx_call: String,
    /// Frequency in Hz, parsed directly from the digits.
    pub freq_hz: u64,
    /// Comment/info field (may contain SNR/WPM for RBN spots).
    pub comment: Option<String>,
    /// UTC time parsed from the line (HHMMz), if present.
    pub utc_time: Option<UtcTime>,
}

/// The result of parsing a single line from a cluster connection.
#[derive(Debug, Clone, PartialEq)]
pub enum ParsedLine {
    /// A DX spot line.
    Spot(ParsedSpot),
    /// An announcement (To ALL de ..., To LOCAL de ...).
    Announce(String),
    /// A WWV or WCY propagation data line.
    Propagation(String),
    /// A login prompt or challenge.
    Prompt(String),
    /// A line that could not be classified.
    Unknown(String),
}

/// RBN-specific parsed fields from a spot comment.
#[derive(Debug, Clone, Copy, PartialEq, Eq, Structural)]
pub struct RbnFields {
    pub snr_db: Option<i8>,
    pub wpm: Option<u16>,
    pub is_cq: bool,
}

/// Fields that skimmers report in the comment of a spot.
pub type SkimmerFields = RbnFields;

impl Default for RbnFields {
    fn default() -> (r: Self)
        ensures
            r == (RbnFields { snr_db: None, wpm: None, is_cq: false }),
    {
        RbnFields { snr_db: None, wpm: None, is_cq: false }
    }
}

/// What a [`ParsedSpot`] stands for.
pub struct ParsedSpotModel {
    pub spotter_call: Seq<char>,
    pub dx_call: Seq<char>,
    pub freq_hz: u64,
    pub comment: Option<Seq<char>>,
    pub utc_time: Option<UtcTime>,
}

/// What a [`ParsedLine`] stands for.
pub enum LineModel {
    Spot(ParsedSpotModel),
    Announce(Seq<char>),
    Propagation(Seq<char>),
    Prompt(Seq<char>),
    Unknown(Seq<char>),
}

impl View for ParsedSpot {
    type V = ParsedSpotModel;

    open spec fn view(&self) -> ParsedSpotModel {
        ParsedSpotModel {
            spotter_call: self.spotter_call@,
            dx_call: self.dx_call@,
            freq_hz: self.freq_hz,
            comment: opt_text(self.comment),
            utc_time: self.utc_time,
        }
    }
}

impl View for ParsedLine {
    type V = LineModel;

    open spec fn view(&self) -> LineModel {
        match *self {
            ParsedLine::Spot(s) => LineModel::Spot(s@),
            ParsedLine::Announce(t) => LineModel::Announce(t@),
            ParsedLine::Propagation(t) => LineModel::Propagation(t@),
            ParsedLine::Prompt(t) => LineModel::Prompt(t@),
            ParsedLine::Unknown(t) => LineModel::Unknown(t@),
        }
    }
}

// ---------------------------------------------------------------------------
// Frequencies
// ---------------------------------------------------------------------------

/// `c` can stand in a frequency.
pub open spec fn numeric(c: char) -> bool {
    digit(c) || c == '.'
}

/// The text without what is not numeric at its start.
pub open spec fn numeric_start(s: Seq<char>) -> Seq<char>
    decreases s.len(),
{
    if s.len() > 0 && !numeric(s[0]) {
        numeric_start(s.skip(1))
    } else {
        s
    }
}

/// The text without what is not numeric at its end.
pub open spec fn numeric_end(s: Seq<char>) -> Seq<char>
    decreases s.len(),
{
    if s.len() > 0 && !numeric(s.last()) {
        numeric_end(s.drop_last())
    } else {
        s
    }
}

/// A number of Hz that fits the type.
pub open spec fn as_hz(hz: nat) -> Option<u64> {
    if hz <= u64::MAX {
        Some(hz as u64)
    } else {
        None
    }
}

/// The Hz that up to three decimals of a kHz stand for.
pub open spec fn decimals_hz(decimals: Seq<char>) -> Option<nat> {
    let three = if decimals.len() > 3 { decimals.take(3) } else { decimals };
    if three.len() == 0 {
        Some(0)
    } else {
        match unsigned_value(three, u64::MAX as nat) {
            Some(v) => Some(
                v * if three.len() == 1 {
                    100nat
                } else if three.len() == 2 {
                    10nat
                } else {
                    1nat
                },
            ),
            None => None,
        }
    }
}

/// The frequency in Hz that a text in kHz writes, to the Hz; digits beyond the
/// third decimal are cut off. `None` where it writes none, or none that fits.
pub open spec fn written_hz(text: Seq<char>) -> Option<u64> {
    let s = numeric_end(numeric_start(trimmed(text)));
    let dot = first_of(s, '.') as int;
    if trimmed(text).len() == 0 {
        None
    } else if dot < s.len() {
        let whole = if dot == 0 {
            Some(0nat)
        } else {
            unsigned_value(s.take(dot), u64::MAX as nat)
        };
        match (whole, decimals_hz(s.skip(dot + 1))) {
            (Some(khz), Some(hz)) => as_hz(khz * 1000 + hz),
            _ => None,
        }
    } else {
        match unsigned_value(s, u64::MAX as nat) {
            Some(khz) => as_hz(khz * 1000),
            None => None,
        }
    }
}

// ---------------------------------------------------------------------------
// Comments and times
// ---------------------------------------------------------------------------

/// The time of day that four digits write.
pub open spec fn written_time(s: Seq<char>) -> Option<UtcTime> {
    if s.len() == 4 && all_digits(s) && digits_value(s.take(2)) < 24 && digits_value(s.skip(2))
        < 60 {
        Some(
            UtcTime {
                hour: digits_value(s.take(2)) as u8,
                minute: digits_value(s.skip(2)) as u8,
            },
        )
    } else {
        None
    }
}

/// How many characters at the end of `s` write a time: four digits, with or
/// without a `Z`; zero where they do not.
pub open spec fn time_len(s: Seq<char>) -> int {
    let n = s.len() as int;
    if n > 0 && (s.last() == 'Z' || s.last() == 'z') {
        if n >= 5 && written_time(s.subrange(n - 5, n - 1)) is Some {
            5
        } else {
            0
        }
    } else if n >= 4 && written_time(s.skip(n - 4)) is Some {
        4
    } else {
        0
    }
}

/// The time at the end of `s`, if there is one.
pub open spec fn time_of(s: Seq<char>) -> Option<UtcTime> {
    let at = s.len() - time_len(s);
    if time_len(s) == 0 {
        None
    } else {
        written_time(s.subrange(at, at + 4))
    }
}

/// The comment before the time, if there is one.
pub open spec fn comment_before_time(s: Seq<char>) -> Option<Seq<char>> {
    let text = trimmed(s.take(s.len() - time_len(s)));
    if text.len() == 0 {
        None
    } else {
        Some(text)
    }
}

// ---------------------------------------------------------------------------
// Lines
// ---------------------------------------------------------------------------

/// What a DX spot line says, `None` where the line is none.
pub open spec fn spot_of(line: Seq<char>) -> Option<ParsedSpotModel> {
    if line.len() < 6 || lower_all(line.take(6)) != lower_all("DX de "@) {
        None
    } else {
        let after = line.skip(6);
        let colon = first_of(after, ':') as int;
        let spotter = trimmed(after.take(colon));
        let rest = trimmed_start(after.skip(colon + 1));
        let words = words_of(rest);
        let behind_freq = rest.skip(words[0].len() as int);
        if colon >= after.len() || spotter.len() == 0 || words.len() < 2 {
            None
        } else {
            match (written_hz(words[0]), first_occurrence(behind_freq, words[1])) {
                (Some(hz), Some(at)) => {
                    let remainder = trimmed(behind_freq.skip(at + words[1].len()));
                    Some(
                        ParsedSpotModel {
                            spotter_call: spotter,
                            dx_call: words[1],
                            freq_hz: hz,
                            comment: comment_before_time(remainder),
                            utc_time: time_of(remainder),
                        },
                    )
                },
                _ => None,
            }
        }
    }
}

/// The line is a login prompt or challenge.
pub open spec fn is_prompt(line: Seq<char>) -> bool {
    let low = lower_all(line);
    ||| occurs(low, "login:"@)
    ||| occurs(low, "call:"@)
    ||| occurs(low, "callsign:"@)
    ||| occurs(low, "please enter your call"@)
    ||| occurs(low, "password:"@)
    ||| line.len() > 0 && line.last() == '>' && encode_utf8(line).len() < 30
}

/// What a line is.
pub open spec fn line_of(line: Seq<char>) -> LineModel {
    let t = trimmed_end(line);
    if t.len() == 0 {
        LineModel::Unknown(t)
    } else if spot_of(t) is Some {
        LineModel::Spot(spot_of(t)->0)
    } else if begins(t, "To "@) && occurs(t.skip("To "@.len() as int), " de "@) {
        LineModel::Announce(t)
    } else if begins(t, "WWV de "@) || begins(t, "WCY de "@) {
        LineModel::Propagation(t)
    } else if is_prompt(t) {
        LineModel::Prompt(t)
    } else {
        LineModel::Unknown(t)
    }
}

// ---------------------------------------------------------------------------
// Skimmer comments
// ---------------------------------------------------------------------------

/// The SNR among the first `n` words: the last number before the word `dB`.
pub open spec fn snr_of(words: Seq<Seq<char>>, n: int) -> Option<i8>
    decreases n,
{
    if n <= 1 {
        None
    } else if lower_all(words[n - 1]) == lower_all("dB"@) && signed_value(
        words[n - 2],
        -128,
        127,
    ) is Some {
        Some((signed_value(words[n - 2], -128, 127)->0) as i8)
    } else {
        snr_of(words, n - 1)
    }
}

/// The speed among the first `n` words: the last number before the word `WPM`.
pub open spec fn wpm_of(words: Seq<Seq<char>>, n: int) -> Option<u16>
    decreases n,
{
    if n <= 1 {
        None
    } else if lower_all(words[n - 1]) == lower_all("WPM"@) && unsigned_value(
        words[n - 2],
        u16::MAX as nat,
    ) is Some {
        Some((unsigned_value(words[n - 2], u16::MAX as nat)->0) as u16)
    } else {
        wpm_of(words, n - 1)
    }
}

/// Some word is CQ.
pub open spec fn has_cq(words: Seq<Seq<char>>) -> bool {
    exists|i: int| 0 <= i < words.len() && lower_all(#[trigger] words[i]) == lower_all("CQ"@)
}

/// The skimmer fields of a comment.
pub open spec fn fields_of(comment: Seq<char>) -> RbnFields {
    let words = words_of(comment);
    RbnFields {
        snr_db: snr_of(words, words.len() as int),
        wpm: wpm_of(words, words.len() as int),
        is_cq: has_cq(words),
    }
}

// ---------------------------------------------------------------------------
// Parsing
// ---------------------------------------------------------------------------

/// Whether `s` differs from the text at most in the case of ASCII letters.
fn is_word(s: &[char], text: &str) -> (r: bool)
    ensures
        r == (lower_all(s@) == lower_all(text@)),
{
    let t = chars_of(text);
    same_ignoring_case(s, t.as_slice())
}

/// Whether the text stands in `s`.
fn holds(s: &[char], text: &str) -> (r: bool)
    ensures
        r == occurs(s@, text@),
{
    let t = chars_of(text);
    contains_text(s, t.as_slice())
}

/// Whether `s` begins with the text.
fn starts(s: &[char], text: &str) -> (r: bool)
    ensures
        r == begins(s@, text@),
{
    let t = chars_of(text);
    stands_at(s, t.as_slice(), 0)
}

/// Whether `c` can stand in a frequency.
fn is_numeric(c: char) -> (r: bool)
    ensures
        r == numeric(c),
{
    is_digit(c) || c == '.'
}

/// Drop what is not numeric at both ends.
fn trim_numeric(s: &[char]) -> (r: &[char])
    ensures
        r@ == numeric_end(numeric_start(s@)),
{
    let mut i: usize = 0;
    assert(s@.skip(0) =~= s@);
    while i < s.len() && !is_numeric(s[i])
        invariant
            i <= s.len(),
            numeric_start(s@) == numeric_start(s@.skip(i as int)),
        decreases s.len() - i,
    {
        assert(s@.skip(i as int).skip(1) =~= s@.skip(i + 1));
        i += 1;
    }
    let t = slice_subrange(s, i, s.len());
    assert(t@ =~= s@.skip(i as int));
    let mut n: usize = t.len();
    assert(t@.take(n as int) =~= t@);
    while n > 0 && !is_numeric(t[n - 1])
        invariant
            n <= t.len(),
            numeric_end(t@) == numeric_end(t@.take(n as int)),
        decreases n,
    {
        assert(t@.take(n as int).drop_last() =~= t@.take(n - 1));
        n -= 1;
    }
    assert(t@.subrange(0, n as int) =~= t@.take(n as int));
    slice_subrange(t, 0, n)
}

/// The Hz that decimals of a kHz stand for.
fn parse_decimals(decimals: &[char]) -> (r: Option<u64>)
    ensures
        match r {
            Some(hz) => decimals_hz(decimals@) == Some(hz as nat) && hz < 100_000,
            None => decimals_hz(decimals@) is None,
        },
{
    let n: usize = if decimals.len() > 3 {
        3
    } else {
        decimals.len()
    };
    if n == 0 {
        return Some(0);
    }
    let three = slice_subrange(decimals, 0, n);
    assert(three@ =~= if decimals@.len() > 3 {
        decimals@.take(3)
    } else {
        decimals@
    });
    let scale: u64 = if n == 1 {
        100
    } else if n == 2 {
        10
    } else {
        1
    };
    match parse_unsigned(three, u64::MAX) {
        Some(v) => {
            proof {
                lemma_small_value(three@, u64::MAX as nat);
                assert(v * scale <= 999 * 100) by (nonlinear_arith)
                    requires
                        v <= 999,
                        scale <= 100,
                ;
            }
            Some(v * scale)
        },
        None => None,
    }
}

/// A number of at most three characters is below a thousand.
proof fn lemma_small_value(s: Seq<char>, max: nat)
    requires
        s.len() <= 3,
    ensures
        unsigned_value(s, max) matches Some(v) ==> v <= 999,
{
    let t = if s.len() > 0 && s[0] == '+' {
        s.skip(1)
    } else {
        s
    };
    if all_digits(t) {
        lemma_digits_bound(t);
    }
}

/// Three digits write a number below a thousand, two one below a hundred.
proof fn lemma_digits_bound(s: Seq<char>)
    requires
        s.len() <= 3,
        all_digits(s),
    ensures
        digits_value(s) <= 999,
        s.len() <= 2 ==> digits_value(s) <= 99,
        s.len() <= 1 ==> digits_value(s) <= 9,
        s.len() == 0 ==> digits_value(s) == 0,
    decreases s.len(),
{
    if s.len() > 0 {
        let t = s.drop_last();
        assert forall|i: int| 0 <= i < t.len() implies digit(#[trigger] t[i]) by {
            assert(t[i] == s[i]);
        }
        lemma_digits_bound(t);
        assert(digit(s[s.len() - 1]));
    }
}

/// Kilohertz and a remainder in Hz, `None` where the sum does not fit.
fn khz_and_hz(khz: u64, hz: u64) -> (r: Option<u64>)
    ensures
        r == as_hz((khz * 1000 + hz) as nat),
{
    match khz.checked_mul(1000) {
        Some(base) => base.checked_add(hz),
        None => None,
    }
}

/// Parse a frequency string (in kHz) directly to Hz as u64.
///
/// Handles formats like "14025.0", "14025.1", "14025", "7001.5".
/// A frequency too large for the type is refused.
pub fn parse_freq_to_hz(s: &str) -> (r: Option<u64>)
    ensures
        r == written_hz(s@),
{
    let chars = chars_of(s);
    parse_freq_chars(chars.as_slice())
}

/// Parse a frequency in kHz to Hz.
fn parse_freq_chars(s: &[char]) -> (r: Option<u64>)
    ensures
        r == written_hz(s@),
{
    let t = trim(s);
    if t.len() == 0 {
        return None;
    }
    let t = trim_numeric(t);
    let dot: usize = find_char(t, '.');
    if dot < t.len() {
        let whole = slice_subrange(t, 0, dot);
        let decimals = slice_subrange(t, dot + 1, t.len());
        assert(whole@ =~= t@.take(dot as int));
        assert(decimals@ =~= t@.skip(dot + 1));
        let khz: u64 = if dot == 0 {
            0
        } else {
            match parse_unsigned(whole, u64::MAX) {
                Some(v) => v,
                None => {
                    return None;
                },
            }
        };
        match parse_decimals(decimals) {
            Some(hz) => khz_and_hz(khz, hz),
            None => None,
        }
    } else {
        match parse_unsigned(t, u64::MAX) {
            Some(khz) => khz_and_hz(khz, 0),
            None => None,
        }
    }
}

/// Parse a 4-character HHMM string into a time of day.
pub fn parse_hhmm(s: &str) -> (r: Option<UtcTime>)
    ensures
        r == written_time(s@),
{
    let chars = chars_of(s);
    parse_hhmm_chars(chars.as_slice())
}

/// Parse four digits into a time of day.
fn parse_hhmm_chars(s: &[char]) -> (r: Option<UtcTime>)
    ensures
        r == written_time(s@),
{
    if s.len() != 4 || !is_digit(s[0]) || !is_digit(s[1]) || !is_digit(s[2]) || !is_digit(s[3]) {
        return None;
    }
    let hh = slice_subrange(s, 0, 2);
    let mm = slice_subrange(s, 2, 4);
    proof {
        assert(hh@ =~= s@.take(2));
        assert(mm@ =~= s@.skip(2));
        assert(all_digits(s@));
        lemma_digits_bound(hh@);
        lemma_digits_bound(mm@);
        assert(digit(s@[0]) && digit(s@[2]));
    }
    match (parse_unsigned(hh, 99), parse_unsigned(mm, 99)) {
        (Some(h), Some(m)) => UtcTime::from_hm(h as u32, m as u32),
        _ => None,
    }
}

/// Extract comment text and UTC time from the remainder of a spot line.
///
/// The time is typically at the end of the line in the format `HHMMz` or `HHMM`.
pub fn extract_comment_and_time(remainder: &str) -> (r: (Option<String>, Option<UtcTime>))
    ensures
        opt_text(r.0) == comment_before_time(remainder@),
        r.1 == time_of(remainder@),
{
    let chars = chars_of(remainder);
    comment_and_time(chars.as_slice())
}

/// Split the remainder of a spot line into comment and time.
fn comment_and_time(s: &[char]) -> (r: (Option<String>, Option<UtcTime>))
    ensures
        opt_text(r.0) == comment_before_time(s@),
        r.1 == time_of(s@),
{
    let n: usize = s.len();
    let mut end: usize = n;
    let mut time: Option<UtcTime> = None;
    if n > 0 && (s[n - 1] == 'Z' || s[n - 1] == 'z') {
        if n >= 5 {
            let t = parse_hhmm_chars(slice_subrange(s, n - 5, n - 1));
            if t.is_some() {
                end = n - 5;
                time = t;
            }
        }
    } else if n >= 4 {
        let digits = slice_subrange(s, n - 4, n);
        assert(digits@ =~= s@.skip(n - 4));
        assert(s@.skip(n - 4) =~= s@.subrange(n - 4, n as int));
        let t = parse_hhmm_chars(digits);
        if t.is_some() {
            end = n - 4;
            time = t;
        }
    }
    assert(end == n - time_len(s@));
    let text = trim(slice_subrange(s, 0, end));
    assert(s@.subrange(0, end as int) =~= s@.take(end as int));
    let comment = if text.len() == 0 {
        None
    } else {
        Some(string_of(text))
    };
    (comment, time)
}

/// Try to parse a DX spot line. Returns None if it doesn't match.
pub fn try_parse_dx_spot(line: &str) -> (r: Option<ParsedSpot>)
    ensures
        match r {
            Some(spot) => spot_of(line@) == Some(spot@),
            None => spot_of(line@) is None,
        },
{
    let chars = chars_of(line);
    parse_spot_chars(chars.as_slice())
}

/// Parse a DX spot line.
fn parse_spot_chars(line: &[char]) -> (r: Option<ParsedSpot>)
    ensures
        match r {
            Some(spot) => spot_of(line@) == Some(spot@),
            None => spot_of(line@) is None,
        },
{
    if line.len() < 6 {
        return None;
    }
    let prefix = slice_subrange(line, 0, 6);
    assert(prefix@ =~= line@.take(6));
    if !is_word(prefix, "DX de ") {
        return None;
    }
    let after = slice_subrange(line, 6, line.len());
    assert(after@ =~= line@.skip(6));
    // The colon after the spotter call
    let colon: usize = find_char(after, ':');
    if colon >= after.len() {
        return None;
    }
    let before_colon = slice_subrange(after, 0, colon);
    assert(before_colon@ =~= after@.take(colon as int));
    let spotter = trim(before_colon);
    if spotter.len() == 0 {
        return None;
    }
    let after_colon = slice_subrange(after, colon + 1, after.len());
    assert(after_colon@ =~= after@.skip(colon + 1));
    let rest = trim_start(after_colon);
    // The first word is the frequency, the second the DX callsign
    let words = split_words(rest);
    if words.len() < 2 {
        return None;
    }
    let freq_hz: u64 = match parse_freq_chars(words[0]) {
        Some(hz) => hz,
        None => {
            return None;
        },
    };
    let dx = words[1];
    // What follows is the comment and an optional time
    let end: usize = rest.len();
    proof {
        lemma_first_word_fits(rest@);
    }
    let behind_freq = slice_subrange(rest, words[0].len(), end);
    assert(behind_freq@ =~= rest@.skip(words[0]@.len() as int));
    let at: usize = match find_text(behind_freq, dx) {
        Some(at) => at,
        None => {
            return None;
        },
    };
    let tail = slice_subrange(behind_freq, at + dx.len(), behind_freq.len());
    assert(tail@ =~= behind_freq@.skip(at + dx@.len()));
    let (comment, utc_time) = comment_and_time(trim(tail));
    Some(
        ParsedSpot {
            spotter_call: string_of(spotter),
            dx_call: string_of(dx),
            freq_hz,
            comment,
            utc_time,
        },
    )
}

/// The text in ASCII lower case.
fn lower_chars(s: &[char]) -> (r: Vec<char>)
    ensures
        r@ == lower_all(s@),
{
    let mut out: Vec<char> = Vec::new();
    let mut i: usize = 0;
    while i < s.len()
        invariant
            i <= s.len(),
            out@ == lower_all(s@).take(i as int),
        decreases s.len() - i,
    {
        out.push(to_lower(s[i]));
        assert(out@ =~= lower_all(s@).take(i + 1));
        i += 1;
    }
    assert(lower_all(s@).take(s@.len() as int) =~= lower_all(s@));
    out
}

/// Whether a line is a login prompt or challenge.
fn looks_like_prompt(line: &[char]) -> (r: bool)
    ensures
        r == is_prompt(line@),
{
    let lower = lower_chars(line);
    let low = lower.as_slice();
    holds(low, "login:") || holds(low, "call:") || holds(low, "callsign:") || holds(
        low,
        "please enter your call",
    ) || holds(low, "password:") || (line.len() > 0 && line[line.len() - 1] == '>' && string_of(
        line,
    ).as_str().as_bytes().len() < 30)
}

/// Parse a single line from a DX cluster or RBN telnet connection.
///
/// Never panics, regardless of input. Unrecognized lines return
/// `ParsedLine::Unknown`.
pub fn parse_line(line: &str) -> (r: ParsedLine)
    ensures
        r@ == line_of(line@),
{
    let chars = chars_of(line);
    let t = trim_end(chars.as_slice());
    if t.len() == 0 {
        assert(t@ =~= Seq::<char>::empty());
        return ParsedLine::Unknown(String::new());
    }
    // DX spot lines
    if let Some(spot) = parse_spot_chars(t) {
        return ParsedLine::Spot(spot);
    }
    // Announce lines: "To ALL de ...", "To LOCAL de ..."
    if starts(t, "To ") {
        let n: usize = chars_of("To ").len();
        let rest = slice_subrange(t, n, t.len());
        assert(rest@ =~= t@.skip("To "@.len() as int));
        if holds(rest, " de ") {
            return ParsedLine::Announce(string_of(t));
        }
    }
    // WWV/WCY propagation data
    if starts(t, "WWV de ") || starts(t, "WCY de ") {
        return ParsedLine::Propagation(string_of(t));
    }
    // Login prompts / challenges
    if looks_like_prompt(t) {
        return ParsedLine::Prompt(string_of(t));
    }
    ParsedLine::Unknown(string_of(t))
}

/// Parse RBN-specific fields from a spot comment.
///
/// RBN comments typically look like: "15 dB  22 WPM  CQ"
pub fn parse_rbn_comment(comment: &str) -> (r: RbnFields)
    ensures
        r == fields_of(comment@),
{
    let chars = chars_of(comment);
    let words = split_words(chars.as_slice());
    let ghost all = words_of(comment@);
    let mut snr_db: Option<i8> = None;
    let mut wpm: Option<u16> = None;
    let mut is_cq: bool = false;
    let mut n: usize = 0;
    while n < words.len()
        invariant
            n <= words@.len(),
            words@.len() == all.len(),
            forall|i: int| 0 <= i < words@.len() ==> (#[trigger] words@[i])@ == all[i],
            snr_db == snr_of(all, n as int),
            wpm == wpm_of(all, n as int),
            is_cq == exists|i: int|
                0 <= i < n && lower_all(#[trigger] all[i]) == lower_all("CQ"@),
        decreases words@.len() - n,
    {
        let word = words[n];
        assert(word@ == all[n as int]);
        if n > 0 {
            let value = words[n - 1];
            assert(value@ == all[n - 1]);
            if is_word(word, "dB") {
                if let Some(v) = parse_i8(value) {
                    snr_db = Some(v);
                }
            }
            if is_word(word, "WPM") {
                if let Some(v) = parse_unsigned(value, u16::MAX as u64) {
                    wpm = Some(v as u16);
                }
            }
        }
        if is_word(word, "CQ") {
            is_cq = true;
        }
        n += 1;
    }
    RbnFields { snr_db, wpm, is_cq }
}

/// Parse the fields that skimmers report in a spot comment.
pub fn parse_skimmer_comment(comment: &str) -> (r: SkimmerFields)
    ensures
        r == fields_of(comment@),
{
    parse_rbn_comment(comment)
}

} // verus!
