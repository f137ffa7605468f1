//! What holds of the line parser.

use crate::text::{
    all_digits, begins, decimal_of, digit, digit_char, digits_value, first_occurrence,
    lemma_decimal_round_trip, lemma_first_of, lower_all, occurrence_from, occurs_at, signed_value,
    space, trimmed, trimmed_end, trimmed_start, unsigned_value, word_len, words_of,
};
use crate::time::UtcTime;
use vstd::prelude::*;
use vstd::string::*;
use vstd::utf8::encode_utf8;

use super::spot::{
    as_hz, comment_before_time, fields_of, line_of, numeric, numeric_end, numeric_start, snr_of,
    spot_of, time_of, wpm_of, written_hz, written_time, LineModel, ParsedSpotModel,
};

verus! {

/// No white space in the text.
pub open spec fn no_space(s: Seq<char>) -> bool {
    forall|i: int| 0 <= i < s.len() ==> !space(#[trigger] s[i])
}

/// Nothing but white space in the text.
pub open spec fn all_space(s: Seq<char>) -> bool {
    forall|i: int| 0 <= i < s.len() ==> space(#[trigger] s[i])
}

/// A text that neither begins nor ends with white space is left by trimming.
pub proof fn lemma_trimmed_unchanged(s: Seq<char>)
    requires
        s.len() == 0 || (!space(s[0]) && !space(s.last())),
    ensures
        trimmed(s) == s,
{
}

/// Digits write their value, where it fits.
pub proof fn lemma_digits_read(s: Seq<char>, max: nat)
    requires
        s.len() > 0,
        all_digits(s),
        digits_value(s) <= max,
    ensures
        unsigned_value(s, max) == Some(digits_value(s)),
{
    assert(digit(s[0]));
}

/// A frequency in whole kHz is read as written.
pub proof fn lemma_whole_khz_read(khz: nat)
    requires
        khz * 1000 <= u64::MAX,
    ensures
        written_hz(decimal_of(khz)) == Some((khz * 1000) as u64),
{
    let s = decimal_of(khz);
    lemma_decimal_round_trip(khz);
    assert(digit(s[0]) && digit(s[s.len() - 1]));
    assert(!space(s[0]) && !space(s.last()));
    lemma_trimmed_unchanged(s);
    assert forall|k: int| 0 <= k < s.len() implies s[k] != '.' by {
        assert(digit(s[k]));
    }
    lemma_first_of(s, '.', s.len() as int);
    lemma_digits_read(s, u64::MAX as nat);
}

/// A frequency in kHz with up to three decimals is read as written, to the Hz.
pub proof fn lemma_decimal_khz_read(whole: Seq<char>, decimals: Seq<char>)
    requires
        whole.len() > 0,
        all_digits(whole),
        all_digits(decimals),
        1 <= decimals.len() <= 3,
        digits_value(whole) <= u64::MAX,
        digits_value(decimals) <= u64::MAX,
    ensures
        written_hz(whole + seq!['.'] + decimals) == as_hz(
            digits_value(whole) * 1000 + digits_value(decimals) * if decimals.len() == 1 {
                100nat
            } else if decimals.len() == 2 {
                10nat
            } else {
                1nat
            },
        ),
{
    let s = whole + seq!['.'] + decimals;
    let n = whole.len() as int;
    assert(s[0] == whole[0] && digit(whole[0]));
    assert(s.last() == decimals[decimals.len() - 1] && digit(decimals[decimals.len() - 1]));
    assert(!space(s[0]) && !space(s.last()));
    lemma_trimmed_unchanged(s);
    assert forall|k: int| 0 <= k < n implies s[k] != '.' by {
        assert(s[k] == whole[k] && digit(whole[k]));
    }
    lemma_first_of(s, '.', n);
    assert(s.take(n) =~= whole);
    assert(s.skip(n + 1) =~= decimals);
    lemma_digits_read(whole, u64::MAX as nat);
    lemma_digits_read(decimals, u64::MAX as nat);
}

/// The first word of a text that begins with a word and goes on with white
/// space, if at all.
proof fn lemma_first_word(word: Seq<char>, rest: Seq<char>)
    requires
        no_space(word),
        rest.len() == 0 || space(rest[0]),
    ensures
        word_len(word + rest) == word.len(),
    decreases word.len(),
{
    let s = word + rest;
    if word.len() > 0 {
        let tail = word.skip(1);
        assert(s[0] == word[0]);
        assert(s.skip(1) =~= tail + rest);
        assert forall|i: int| 0 <= i < tail.len() implies !space(#[trigger] tail[i]) by {
            assert(tail[i] == word[i + 1]);
        }
        lemma_first_word(tail, rest);
    } else {
        assert(s =~= rest);
    }
}

/// The words of a text that begins with a word.
pub proof fn lemma_words_from(word: Seq<char>, rest: Seq<char>)
    requires
        word.len() > 0,
        no_space(word),
        rest.len() == 0 || space(rest[0]),
    ensures
        words_of(word + rest) == seq![word] + words_of(rest),
{
    let s = word + rest;
    lemma_first_word(word, rest);
    assert(s[0] == word[0]);
    assert(s.take(word.len() as int) =~= word);
    assert(s.skip(word.len() as int) =~= rest);
}

/// White space at the start counts neither for trimming nor for the words.
proof fn lemma_leading_space(blanks: Seq<char>, rest: Seq<char>)
    requires
        all_space(blanks),
        rest.len() > 0,
        !space(rest[0]),
    ensures
        trimmed_start(blanks + rest) == rest,
        words_of(blanks + rest) == words_of(rest),
    decreases blanks.len(),
{
    let s = blanks + rest;
    if blanks.len() > 0 {
        let fewer = blanks.skip(1);
        assert(space(blanks[0]));
        assert(s[0] == blanks[0]);
        assert(s.skip(1) =~= fewer + rest);
        assert forall|i: int| 0 <= i < fewer.len() implies space(#[trigger] fewer[i]) by {
            assert(fewer[i] == blanks[i + 1]);
        }
        lemma_leading_space(fewer, rest);
    } else {
        assert(s =~= rest);
    }
}

/// A word behind white space is first found where it stands.
proof fn lemma_found_behind(blanks: Seq<char>, word: Seq<char>, tail: Seq<char>, from: int)
    requires
        all_space(blanks),
        word.len() > 0,
        no_space(word),
        0 <= from <= blanks.len(),
    ensures
        occurrence_from(blanks + word + tail, word, from) == Some(blanks.len() as int),
    decreases blanks.len() - from,
{
    let s = blanks + word + tail;
    let n = blanks.len() as int;
    if from < n {
        lemma_found_behind(blanks, word, tail, from + 1);
        assert(!occurs_at(s, word, from)) by {
            assert(!space(word[0]));
            assert(space(blanks[from]));
            assert(s.subrange(from, from + word.len() as int)[0] == blanks[from]);
        }
    } else {
        assert(s.subrange(n, n + word.len() as int) =~= word);
    }
}

/// What stands behind the colon of a spot line: words, and where the callsign is found.
proof fn lemma_behind_colon(
    lead: Seq<char>,
    freq: Seq<char>,
    gap: Seq<char>,
    dx_call: Seq<char>,
    tail: Seq<char>,
)
    requires
        all_space(lead),
        freq.len() > 0,
        no_space(freq),
        gap.len() > 0,
        all_space(gap),
        dx_call.len() > 0,
        no_space(dx_call),
        tail.len() == 0 || space(tail[0]),
    ensures
        ({
            let rest = freq + gap + dx_call + tail;
            let behind_freq = rest.skip(freq.len() as int);
            &&& trimmed_start(lead + rest) == rest
            &&& words_of(rest).len() >= 2
            &&& words_of(rest)[0] == freq
            &&& words_of(rest)[1] == dx_call
            &&& first_occurrence(behind_freq, dx_call) == Some(gap.len() as int)
            &&& behind_freq.skip(gap.len() + dx_call.len() as int) == tail
        }),
{
    let rest = freq + gap + dx_call + tail;
    assert(!space(freq[0]));
    assert(rest[0] == freq[0]);
    lemma_leading_space(lead, rest);
    let second = gap + dx_call + tail;
    let third = dx_call + tail;
    assert(rest =~= freq + second);
    assert(second =~= gap + third);
    assert(space(gap[0]));
    assert(second[0] == gap[0]);
    lemma_words_from(freq, second);
    assert(!space(dx_call[0]));
    assert(third[0] == dx_call[0]);
    lemma_leading_space(gap, third);
    lemma_words_from(dx_call, tail);
    let words = words_of(rest);
    assert(words == seq![freq] + (seq![dx_call] + words_of(tail)));
    assert(words[0] == freq);
    assert(words[1] == dx_call);
    assert(rest.skip(freq.len() as int) =~= second);
    lemma_found_behind(gap, dx_call, tail, 0);
    assert(second.skip(gap.len() + dx_call.len() as int) =~= tail);
}

/// A spot line says what was put into it: spotter, frequency, DX callsign, and
/// behind them comment and time. The spotter holds no colon, frequency and
/// callsign no white space. White space may stand behind the colon, and stands
/// between frequency and callsign, as much of it as there may be.
pub proof fn lemma_spot_line_read(
    spotter: Seq<char>,
    lead: Seq<char>,
    freq: Seq<char>,
    gap: Seq<char>,
    dx_call: Seq<char>,
    tail: Seq<char>,
)
    requires
        spotter.len() > 0,
        trimmed(spotter) == spotter,
        !spotter.contains(':'),
        all_space(lead),
        freq.len() > 0,
        no_space(freq),
        written_hz(freq) is Some,
        gap.len() > 0,
        all_space(gap),
        dx_call.len() > 0,
        no_space(dx_call),
        tail.len() == 0 || space(tail[0]),
    ensures
        spot_of("DX de "@ + spotter + seq![':'] + lead + freq + gap + dx_call + tail) == Some(
            ParsedSpotModel {
                spotter_call: spotter,
                dx_call,
                freq_hz: written_hz(freq)->0,
                comment: comment_before_time(trimmed(tail)),
                utc_time: time_of(trimmed(tail)),
            },
        ),
{
    reveal_strlit("DX de ");
    let prefix = "DX de "@;
    let rest = freq + gap + dx_call + tail;
    let line = prefix + spotter + seq![':'] + lead + freq + gap + dx_call + tail;
    let after = spotter + seq![':'] + (lead + rest);
    assert(prefix.len() == 6);
    assert(line.take(6) =~= prefix);
    assert(line.skip(6) =~= after);
    // The colon
    let n = spotter.len() as int;
    assert forall|k: int| 0 <= k < n implies after[k] != ':' by {
        assert(after[k] == spotter[k]);
        assert(spotter.contains(spotter[k]));
    }
    assert(after[n] == ':');
    lemma_first_of(after, ':', n);
    assert(after.take(n) =~= spotter);
    assert(after.skip(n + 1) =~= lead + rest);
    lemma_behind_colon(lead, freq, gap, dx_call, tail);
}

/// What is a spot line to the spot parser is one to the line parser, white
/// space at the end aside.
pub proof fn lemma_spot_lines_are_spots(line: Seq<char>)
    requires
        trimmed_end(line).len() > 0,
        spot_of(trimmed_end(line)) is Some,
    ensures
        line_of(line) == LineModel::Spot(spot_of(trimmed_end(line))->0),
{
}

// ---------------------------------------------------------------------------
// Words
// ---------------------------------------------------------------------------

/// White space alone holds no words.
pub proof fn lemma_no_words(blanks: Seq<char>)
    requires
        all_space(blanks),
    ensures
        words_of(blanks) == Seq::<Seq<char>>::empty(),
    decreases blanks.len(),
{
    if blanks.len() > 0 {
        let fewer = blanks.skip(1);
        assert(space(blanks[0]));
        assert forall|i: int| 0 <= i < fewer.len() implies space(#[trigger] fewer[i]) by {
            assert(fewer[i] == blanks[i + 1]);
        }
        lemma_no_words(fewer);
    }
}

/// The words of a text are its runs between white space: one more for a word
/// that stands in front, whatever white space is before it.
pub proof fn lemma_words(blanks: Seq<char>, word: Seq<char>, rest: Seq<char>)
    requires
        all_space(blanks),
        word.len() > 0,
        no_space(word),
        rest.len() == 0 || space(rest[0]),
    ensures
        words_of(blanks + (word + rest)) == seq![word] + words_of(rest),
{
    assert(!space(word[0]));
    assert((word + rest)[0] == word[0]);
    lemma_leading_space(blanks, word + rest);
    lemma_words_from(word, rest);
}

// ---------------------------------------------------------------------------
// Times and comments
// ---------------------------------------------------------------------------

/// Two digits.
pub open spec fn two_digits(n: nat) -> Seq<char> {
    seq![digit_char(n / 10), digit_char(n % 10)]
}

proof fn lemma_two_digits(n: nat)
    requires
        n < 100,
    ensures
        all_digits(two_digits(n)),
        digits_value(two_digits(n)) == n,
{
    let s = two_digits(n);
    assert(s.drop_last() =~= seq![digit_char(n / 10)]);
    assert(seq![digit_char(n / 10)].drop_last() =~= Seq::<char>::empty());
    assert(digits_value(Seq::<char>::empty()) == 0);
    assert(digits_value(s.drop_last()) == n / 10);
}

/// Four digits write a time of day: two for the hour, below 24, and two for the
/// minute, below 60. Nothing else does.
pub proof fn lemma_time_read(hour: nat, minute: nat)
    requires
        hour < 100,
        minute < 100,
    ensures
        written_time(two_digits(hour) + two_digits(minute)) == if hour < 24 && minute < 60 {
            Some(UtcTime { hour: hour as u8, minute: minute as u8 })
        } else {
            None
        },
{
    let h = two_digits(hour);
    let m = two_digits(minute);
    let s = h + m;
    lemma_two_digits(hour);
    lemma_two_digits(minute);
    assert(s.take(2) =~= h);
    assert(s.skip(2) =~= m);
    assert forall|i: int| 0 <= i < s.len() implies digit(#[trigger] s[i]) by {
        if i < 2 {
            assert(s[i] == h[i]);
        } else {
            assert(s[i] == m[i - 2]);
        }
    }
}

/// A time at the end of a comment is read and taken off, with a `Z` of either
/// case behind it or without; what is before it is the comment.
pub proof fn lemma_comment_and_time(comment: Seq<char>, hour: nat, minute: nat)
    requires
        comment.len() > 0,
        !space(comment[0]),
        !space(comment.last()),
        hour < 24,
        minute < 60,
    ensures
        ({
            let time = two_digits(hour) + two_digits(minute);
            let bare = comment + seq![' '] + time;
            let read = Some(UtcTime { hour: hour as u8, minute: minute as u8 });
            &&& time_of(bare) == read
            &&& comment_before_time(bare) == Some(comment)
            &&& time_of(bare.push('Z')) == read
            &&& comment_before_time(bare.push('Z')) == Some(comment)
            &&& time_of(bare.push('z')) == read
            &&& comment_before_time(bare.push('z')) == Some(comment)
        }),
{
    let time = two_digits(hour) + two_digits(minute);
    let bare = comment + seq![' '] + time;
    let n = comment.len() as int + 1;
    lemma_time_read(hour, minute);
    lemma_two_digits(minute);
    assert(bare.skip(n) =~= time);
    assert(bare.subrange(n, n + 4) =~= time);
    assert(bare.last() == two_digits(minute)[1]);
    assert(digit(two_digits(minute)[1]));
    assert(bare.take(n) =~= comment.push(' '));
    lemma_blank_behind(comment);
    let upper = bare.push('Z');
    let lower = bare.push('z');
    assert(upper.subrange(n, n + 4) =~= time);
    assert(lower.subrange(n, n + 4) =~= time);
    assert(upper.take(n) =~= comment.push(' '));
    assert(lower.take(n) =~= comment.push(' '));
}

/// A blank behind a text is trimmed away.
proof fn lemma_blank_behind(comment: Seq<char>)
    requires
        comment.len() > 0,
        !space(comment[0]),
        !space(comment.last()),
    ensures
        trimmed(comment.push(' ')) == comment,
{
    let s = comment.push(' ');
    assert(s[0] == comment[0]);
    assert(trimmed_start(s) == s);
    assert(s.drop_last() =~= comment);
    assert(trimmed_end(s) == trimmed_end(comment));
}

/// A remainder that ends neither in a digit nor in a `Z` has no time, and is the
/// comment as a whole.
pub proof fn lemma_comment_without_time(comment: Seq<char>)
    requires
        comment.len() > 0,
        !space(comment[0]),
        !space(comment.last()),
        !('0' <= comment.last() <= '9'),
        comment.last() != 'Z',
        comment.last() != 'z',
    ensures
        time_of(comment) is None,
        comment_before_time(comment) == Some(comment),
        time_of(Seq::empty()) is None,
        comment_before_time(Seq::empty()) is None,
{
    let n = comment.len() as int;
    if n >= 4 {
        assert(comment.skip(n - 4)[3] == comment.last());
        assert(!digit(comment.skip(n - 4)[3]));
    }
    assert(comment.take(n) =~= comment);
    assert(trimmed(comment) == comment);
    let none = Seq::<char>::empty();
    assert(none.take(0) =~= none);
}

// ---------------------------------------------------------------------------
// Skimmer comments
// ---------------------------------------------------------------------------

/// The word at `k` is the unit, and the one before it writes a signed number of
/// eight bits.
pub open spec fn snr_at(words: Seq<Seq<char>>, k: int) -> bool {
    &&& 1 <= k < words.len()
    &&& lower_all(words[k]) == seq!['d', 'b']
    &&& signed_value(words[k - 1], -128, 127) is Some
}

/// The word at `k` is the unit, and the one before it writes an unsigned number
/// of sixteen bits.
pub open spec fn wpm_at(words: Seq<Seq<char>>, k: int) -> bool {
    &&& 1 <= k < words.len()
    &&& lower_all(words[k]) == seq!['w', 'p', 'm']
    &&& unsigned_value(words[k - 1], 65535) is Some
}

proof fn lemma_units()
    ensures
        lower_all("dB"@) == seq!['d', 'b'],
        lower_all("WPM"@) == seq!['w', 'p', 'm'],
        lower_all("CQ"@) == seq!['c', 'q'],
{
    reveal_strlit("dB");
    reveal_strlit("WPM");
    reveal_strlit("CQ");
    assert(lower_all("dB"@) =~= seq!['d', 'b']);
    assert(lower_all("WPM"@) =~= seq!['w', 'p', 'm']);
    assert(lower_all("CQ"@) =~= seq!['c', 'q']);
}

proof fn lemma_snr_before(words: Seq<Seq<char>>, k: int, n: int)
    requires
        snr_at(words, k),
        k < n <= words.len(),
        forall|q: int| k < q < n ==> !snr_at(words, q),
    ensures
        snr_of(words, n) == Some((signed_value(words[k - 1], -128, 127)->0) as i8),
    decreases n,
{
    lemma_units();
    if n - 1 > k {
        assert(!snr_at(words, n - 1));
        lemma_snr_before(words, k, n - 1);
    }
}

proof fn lemma_snr_nowhere(words: Seq<Seq<char>>, n: int)
    requires
        n <= words.len(),
        forall|q: int| !snr_at(words, q),
    ensures
        snr_of(words, n) is None,
    decreases n,
{
    lemma_units();
    if n > 1 {
        assert(!snr_at(words, n - 1));
        lemma_snr_nowhere(words, n - 1);
    }
}

proof fn lemma_wpm_before(words: Seq<Seq<char>>, k: int, n: int)
    requires
        wpm_at(words, k),
        k < n <= words.len(),
        forall|q: int| k < q < n ==> !wpm_at(words, q),
    ensures
        wpm_of(words, n) == Some((unsigned_value(words[k - 1], 65535)->0) as u16),
    decreases n,
{
    lemma_units();
    if n - 1 > k {
        assert(!wpm_at(words, n - 1));
        lemma_wpm_before(words, k, n - 1);
    }
}

proof fn lemma_wpm_nowhere(words: Seq<Seq<char>>, n: int)
    requires
        n <= words.len(),
        forall|q: int| !wpm_at(words, q),
    ensures
        wpm_of(words, n) is None,
    decreases n,
{
    lemma_units();
    if n > 1 {
        assert(!wpm_at(words, n - 1));
        lemma_wpm_nowhere(words, n - 1);
    }
}

/// The SNR of a comment is the number before the last `dB` that has one, in any
/// case of the letters; there is none where no `dB` has one.
pub proof fn lemma_snr_read(comment: Seq<char>, k: int)
    ensures
        ({
            let words = words_of(comment);
            &&& snr_at(words, k) && (forall|q: int| k < q ==> !snr_at(words, q)) ==> fields_of(
                comment,
            ).snr_db == Some((signed_value(words[k - 1], -128, 127)->0) as i8)
            &&& (forall|q: int| !snr_at(words, q)) ==> fields_of(comment).snr_db is None
        }),
{
    let words = words_of(comment);
    if snr_at(words, k) && (forall|q: int| k < q ==> !snr_at(words, q)) {
        lemma_snr_before(words, k, words.len() as int);
    }
    if forall|q: int| !snr_at(words, q) {
        lemma_snr_nowhere(words, words.len() as int);
    }
}

/// The speed of a comment is the number before the last `WPM` that has one, in
/// any case of the letters; there is none where no `WPM` has one.
pub proof fn lemma_wpm_read(comment: Seq<char>, k: int)
    ensures
        ({
            let words = words_of(comment);
            &&& wpm_at(words, k) && (forall|q: int| k < q ==> !wpm_at(words, q)) ==> fields_of(
                comment,
            ).wpm == Some((unsigned_value(words[k - 1], 65535)->0) as u16)
            &&& (forall|q: int| !wpm_at(words, q)) ==> fields_of(comment).wpm is None
        }),
{
    let words = words_of(comment);
    if wpm_at(words, k) && (forall|q: int| k < q ==> !wpm_at(words, q)) {
        lemma_wpm_before(words, k, words.len() as int);
    }
    if forall|q: int| !wpm_at(words, q) {
        lemma_wpm_nowhere(words, words.len() as int);
    }
}

/// A comment calls CQ exactly when one of its words is `CQ`, in any case of the
/// letters.
pub proof fn lemma_cq_read(comment: Seq<char>)
    ensures
        fields_of(comment).is_cq <==> exists|i: int|
            0 <= i < words_of(comment).len() && lower_all(#[trigger] words_of(comment)[i]) == seq![
                'c',
                'q',
            ],
{
    lemma_units();
}

// ---------------------------------------------------------------------------
// Other lines
// ---------------------------------------------------------------------------

/// A line to all or to the local node is an announcement, one that starts with
/// WWV or WCY is propagation data, and both keep their text.
pub proof fn lemma_announcements(to: Seq<char>, text: Seq<char>)
    requires
        text.len() > 0,
        !space(text.last()),
    ensures
        ({
            let announce = seq!['T', 'o', ' '] + to + seq![' ', 'd', 'e', ' '] + text;
            let wwv = seq!['W', 'W', 'V', ' ', 'd', 'e', ' '] + text;
            let wcy = seq!['W', 'C', 'Y', ' ', 'd', 'e', ' '] + text;
            &&& line_of(announce) == LineModel::Announce(announce)
            &&& line_of(wwv) == LineModel::Propagation(wwv)
            &&& line_of(wcy) == LineModel::Propagation(wcy)
        }),
{
    reveal_strlit("DX de ");
    reveal_strlit("To ");
    reveal_strlit(" de ");
    reveal_strlit("WWV de ");
    reveal_strlit("WCY de ");
    let announce = seq!['T', 'o', ' '] + to + seq![' ', 'd', 'e', ' '] + text;
    let wwv = seq!['W', 'W', 'V', ' ', 'd', 'e', ' '] + text;
    let wcy = seq!['W', 'C', 'Y', ' ', 'd', 'e', ' '] + text;
    let prefix = lower_all("DX de "@);
    assert(prefix[0] == 'd');
    assert(announce.last() == text.last());
    assert(wwv.last() == text.last());
    assert(wcy.last() == text.last());
    assert(trimmed_end(announce) == announce);
    assert(trimmed_end(wwv) == wwv);
    assert(trimmed_end(wcy) == wcy);
    if announce.len() >= 6 {
        assert(lower_all(announce.take(6))[0] == 't');
    }
    assert(lower_all(wwv.take(6))[0] == 'w');
    assert(lower_all(wcy.take(6))[0] == 'w');
    assert(spot_of(announce) is None);
    assert(spot_of(wwv) is None);
    assert(spot_of(wcy) is None);
    assert(announce.subrange(0, 3) =~= "To "@);
    let rest = announce.skip(3);
    let n = to.len() as int;
    assert(rest.subrange(n, n + 4) =~= " de "@);
    assert(occurs_at(rest, " de "@, n));
    assert(begins(announce, "To "@));
    assert(wwv[0] == 'W' && wcy[0] == 'W');
    assert(!begins(wwv, "To "@)) by {
        assert(wwv.subrange(0, 3)[0] == 'W');
    }
    assert(!begins(wcy, "To "@)) by {
        assert(wcy.subrange(0, 3)[0] == 'W');
    }
    assert(wwv.subrange(0, 7) =~= "WWV de "@);
    assert(wcy.subrange(0, 7) =~= "WCY de "@);
}

/// A line that is neither a spot, an announcement nor propagation data is a
/// prompt where it asks, in any case of the letters, for a login, a call or a
/// password.
pub proof fn lemma_prompts(line: Seq<char>, at: int)
    requires
        line.len() > 0,
        !space(line.last()),
        line_of(line) is Prompt || line_of(line) is Unknown,
    ensures
        occurs_at(lower_all(line), seq!['l', 'o', 'g', 'i', 'n', ':'], at) ==> line_of(line)
            == LineModel::Prompt(line),
        occurs_at(lower_all(line), seq!['c', 'a', 'l', 'l', ':'], at) ==> line_of(line)
            == LineModel::Prompt(line),
        occurs_at(
            lower_all(line),
            seq!['c', 'a', 'l', 'l', 's', 'i', 'g', 'n', ':'],
            at,
        ) ==> line_of(line) == LineModel::Prompt(line),
        occurs_at(
            lower_all(line),
            seq!['p', 'a', 's', 's', 'w', 'o', 'r', 'd', ':'],
            at,
        ) ==> line_of(line) == LineModel::Prompt(line),
        line.last() == '>' && encode_utf8(line).len() < 30 ==> line_of(line) == LineModel::Prompt(
            line,
        ),
{
    reveal_strlit("login:");
    reveal_strlit("call:");
    reveal_strlit("callsign:");
    reveal_strlit("password:");
    assert("login:"@ =~= seq!['l', 'o', 'g', 'i', 'n', ':']);
    assert("call:"@ =~= seq!['c', 'a', 'l', 'l', ':']);
    assert("callsign:"@ =~= seq!['c', 'a', 'l', 'l', 's', 'i', 'g', 'n', ':']);
    assert("password:"@ =~= seq!['p', 'a', 's', 's', 'w', 'o', 'r', 'd', ':']);
    assert(trimmed_end(line) == line);
}

// ---------------------------------------------------------------------------
// Frequencies
// ---------------------------------------------------------------------------

/// No character of the text can stand in a frequency.
pub open spec fn no_numeric(s: Seq<char>) -> bool {
    forall|i: int|
        0 <= i < s.len() ==> {
            let c = #[trigger] s[i];
            c != '.' && !('0' <= c <= '9')
        }
}

proof fn lemma_numeric_start(junk: Seq<char>, rest: Seq<char>)
    requires
        no_numeric(junk),
    ensures
        numeric_start(junk + rest) == numeric_start(rest),
    decreases junk.len(),
{
    let s = junk + rest;
    if junk.len() > 0 {
        let tail = junk.skip(1);
        assert(s[0] == junk[0]);
        assert(!numeric(junk[0]));
        assert(s.skip(1) =~= tail + rest);
        assert forall|i: int| 0 <= i < tail.len() implies {
            let c = #[trigger] tail[i];
            c != '.' && !('0' <= c <= '9')
        } by {
            assert(tail[i] == junk[i + 1]);
        }
        lemma_numeric_start(tail, rest);
    } else {
        assert(s =~= rest);
    }
}

proof fn lemma_numeric_end(rest: Seq<char>, junk: Seq<char>)
    requires
        no_numeric(junk),
    ensures
        numeric_end(rest + junk) == numeric_end(rest),
    decreases junk.len(),
{
    let s = rest + junk;
    if junk.len() > 0 {
        let init = junk.drop_last();
        assert(s.last() == junk.last());
        assert(junk[junk.len() - 1] == junk.last());
        assert(!numeric(junk.last()));
        assert(s.drop_last() =~= rest + init);
        assert forall|i: int| 0 <= i < init.len() implies {
            let c = #[trigger] init[i];
            c != '.' && !('0' <= c <= '9')
        } by {
            assert(init[i] == junk[i]);
        }
        lemma_numeric_end(rest, init);
    } else {
        assert(s =~= rest);
    }
}

/// What is neither a digit nor a point is passed over on both sides of a
/// frequency.
pub proof fn lemma_freq_amid_junk(before: Seq<char>, freq: Seq<char>, after: Seq<char>)
    requires
        no_numeric(before),
        no_space(before),
        no_numeric(after),
        no_space(after),
        freq.len() > 0,
        no_space(freq),
        numeric(freq[0]),
        numeric(freq.last()),
    ensures
        written_hz(before + freq + after) == written_hz(freq),
{
    let all = before + freq + after;
    lemma_numeric_start(before, freq + after);
    assert(all =~= before + (freq + after));
    assert((freq + after)[0] == freq[0]);
    assert(numeric_start(freq + after) == freq + after);
    lemma_numeric_end(freq, after);
    assert(numeric_end(freq) == freq);
    assert(numeric_start(freq) == freq);
    assert forall|i: int| 0 <= i < all.len() implies !space(#[trigger] all[i]) by {
        if i < before.len() {
            assert(all[i] == before[i]);
        } else if i < before.len() + freq.len() {
            assert(all[i] == freq[i - before.len()]);
        } else {
            assert(all[i] == after[i - before.len() - freq.len()]);
        }
    }
    assert(!space(all[0]) && !space(all[all.len() - 1]));
    assert(!space(freq[0]) && !space(freq[freq.len() - 1]));
    lemma_trimmed_unchanged(all);
    lemma_trimmed_unchanged(freq);
}

/// Digits beyond the third decimal of a kHz do not count.
pub proof fn lemma_fourth_decimal_dropped(
    whole: Seq<char>,
    decimals: Seq<char>,
    more: Seq<char>,
)
    requires
        whole.len() > 0,
        all_digits(whole),
        decimals.len() == 3,
        all_digits(decimals),
        all_digits(more),
    ensures
        written_hz(whole + seq!['.'] + decimals + more) == written_hz(
            whole + seq!['.'] + decimals,
        ),
{
    let short = whole + seq!['.'] + decimals;
    let long = short + more;
    let n = whole.len() as int;
    assert(digit(whole[0]) && digit(decimals[2]));
    assert(short[0] == whole[0] && long[0] == whole[0]);
    assert(short.last() == decimals[2]);
    if more.len() > 0 {
        assert(digit(more[more.len() - 1]));
        assert(long.last() == more[more.len() - 1]);
    } else {
        assert(long =~= short);
    }
    lemma_trimmed_unchanged(short);
    lemma_trimmed_unchanged(long);
    assert forall|k: int| 0 <= k < n implies short[k] != '.' && long[k] != '.' by {
        assert(digit(whole[k]));
        assert(short[k] == whole[k] && long[k] == whole[k]);
    }
    lemma_first_of(short, '.', n);
    lemma_first_of(long, '.', n);
    assert(short.take(n) =~= long.take(n));
    assert(short.skip(n + 1) =~= decimals);
    assert(long.skip(n + 1) =~= decimals + more);
    if more.len() > 0 {
        assert((decimals + more).take(3) =~= decimals);
    }
}

/// The start of a spot line may be written in any case of the letters.
pub proof fn lemma_spot_prefix_case(prefix: Seq<char>, rest: Seq<char>)
    requires
        lower_all(prefix) == lower_all("DX de "@),
    ensures
        spot_of(prefix + rest) == spot_of("DX de "@ + rest),
{
    reveal_strlit("DX de ");
    let plain = "DX de "@;
    assert(lower_all(prefix).len() == prefix.len());
    assert(lower_all(plain).len() == 6);
    let a = prefix + rest;
    let b = plain + rest;
    assert(a.take(6) =~= prefix);
    assert(b.take(6) =~= plain);
    assert(a.skip(6) =~= rest);
    assert(b.skip(6) =~= rest);
}

/// A line that does not start as a spot line does is none, nor is one without a
/// colon behind its start.
pub proof fn lemma_no_spot(line: Seq<char>, rest: Seq<char>)
    requires
        !rest.contains(':'),
    ensures
        line.len() < 6 ==> spot_of(line) is None,
        line.len() >= 6 && lower_all(line.take(6)) != lower_all("DX de "@) ==> spot_of(line) is None,
        spot_of("DX de "@ + rest) is None,
{
    reveal_strlit("DX de ");
    let all = "DX de "@ + rest;
    assert(all.skip(6) =~= rest);
    assert forall|k: int| 0 <= k < rest.len() implies rest[k] != ':' by {
        assert(rest.contains(rest[k]));
    }
    lemma_first_of(rest, ':', rest.len() as int);
}

} // verus!
