//! State and text of the terminal client.
//!
//! Everything the terminal client decides or shows is computed here; drawing
//! itself is left to the application.

use crate::domain::{Band, DxMode};
use crate::model::{
    DxEvent, DxSpot, DxSpotEvent, EventModel, KeyModel, SourceConnectionState, SpotEventKind,
    SpotEventModel, SpotKey, SpotModel, StateModel,
};
use crate::parser::laws::lemma_decimal_khz_read;
use crate::parser::spot::written_hz;
use crate::source::cluster::OriginatorPolicy;
use crate::text::{
    decimal_of, digit_char, digits_value, lemma_decimal_round_trip, push_decimal, str_eq,
};
use crate::time::{whole_secs, Timestamp};
use std::collections::VecDeque;
use vstd::arithmetic::div_mod::lemma_fundamental_div_mod_converse;
use vstd::prelude::*;
use vstd::string::*;
use vstd::utf8::*;

verus! {

// ---------------------------------------------------------------------------
// Formatting
// ---------------------------------------------------------------------------

/// Two decimal digits of a number below a hundred.
pub open spec fn two_digits(n: nat) -> Seq<char> {
    seq![digit_char(n / 10), digit_char(n % 10)]
}

/// A frequency in kHz with one decimal.
pub open spec fn freq_text(hz: nat) -> Seq<char> {
    decimal_of(hz / 1000) + "."@ + decimal_of((hz % 1000) / 100)
}

/// An age: seconds, then minutes and seconds, then hours and minutes.
pub open spec fn age_text(secs: nat) -> Seq<char> {
    if secs < 60 {
        decimal_of(secs) + "s"@
    } else if secs < 3600 {
        decimal_of(secs / 60) + "m"@ + two_digits(secs % 60) + "s"@
    } else {
        decimal_of(secs / 3600) + "h"@ + two_digits((secs % 3600) / 60) + "m"@
    }
}

/// The name of a mode.
pub open spec fn mode_text(mode: DxMode) -> Seq<char> {
    match mode {
        DxMode::CW => "CW"@,
        DxMode::SSB => "SSB"@,
        DxMode::DIG => "DIG"@,
        DxMode::AM => "AM"@,
        DxMode::FM => "FM"@,
        DxMode::Unknown => "?"@,
    }
}

/// The name of a band.
pub open spec fn band_text(band: Band) -> Seq<char> {
    match band {
        Band::B160 => "160m"@,
        Band::B80 => "80m"@,
        Band::B60 => "60m"@,
        Band::B40 => "40m"@,
        Band::B30 => "30m"@,
        Band::B20 => "20m"@,
        Band::B17 => "17m"@,
        Band::B15 => "15m"@,
        Band::B12 => "12m"@,
        Band::B10 => "10m"@,
        Band::B6 => "6m"@,
        Band::B2 => "2m"@,
        Band::Unknown => "?"@,
    }
}

/// The last character boundary at or before `i`.
pub open spec fn boundary_below(bytes: Seq<u8>, i: int) -> int
    decreases i,
{
    if i <= 0 || is_char_boundary(bytes, i) {
        i
    } else {
        boundary_below(bytes, i - 1)
    }
}

/// At most the first `max` bytes of a text, cut before a character that they
/// do not hold whole.
pub open spec fn truncated(s: Seq<char>, max: int) -> Seq<char> {
    let bytes = encode_utf8(s);
    if bytes.len() <= max {
        s
    } else {
        decode_utf8(bytes.take(boundary_below(bytes, max)))
    }
}

/// `n` blanks.
pub open spec fn blanks(n: nat) -> Seq<char> {
    Seq::new(n, |i: int| ' ')
}

/// The text, filled up with blanks in front to `width` characters.
pub open spec fn right_aligned(s: Seq<char>, width: nat) -> Seq<char> {
    if s.len() < width {
        blanks((width - s.len()) as nat) + s
    } else {
        s
    }
}

/// The text, filled up with blanks behind to `width` characters.
pub open spec fn left_aligned(s: Seq<char>, width: nat) -> Seq<char> {
    if s.len() < width {
        s + blanks((width - s.len()) as nat)
    } else {
        s
    }
}

/// A frequency that is shown reads as the frequency it was, to 100 Hz.
pub proof fn lemma_shown_freq_reads_back(hz: u64)
    ensures
        written_hz(freq_text(hz as nat)) == Some((hz - hz % 100) as u64),
{
    let khz = (hz / 1000) as nat;
    let tenth = ((hz % 1000) / 100) as nat;
    lemma_decimal_round_trip(khz);
    lemma_decimal_round_trip(tenth);
    reveal_strlit(".");
    assert("."@ =~= seq!['.']);
    assert(decimal_of(tenth).len() == 1);
    lemma_decimal_khz_read(decimal_of(khz), decimal_of(tenth));
    assert(khz * 1000 + tenth * 100 == hz - hz % 100);
}

/// A frequency in kHz with one decimal.
pub fn format_freq(hz: u64) -> (r: String)
    ensures
        r@ == freq_text(hz as nat),
{
    let mut out = String::new();
    push_decimal(&mut out, hz / 1000);
    out.append(".");
    push_decimal(&mut out, (hz % 1000) / 100);
    assert(out@ =~= freq_text(hz as nat));
    out
}

/// The name of a mode.
pub fn format_mode(mode: DxMode) -> (r: &'static str)
    ensures
        r@ == mode_text(mode),
{
    match mode {
        DxMode::CW => "CW",
        DxMode::SSB => "SSB",
        DxMode::DIG => "DIG",
        DxMode::AM => "AM",
        DxMode::FM => "FM",
        DxMode::Unknown => "?",
    }
}

/// The name of a band.
pub fn format_band(band: Band) -> (r: &'static str)
    ensures
        r@ == band_text(band),
{
    match band {
        Band::B160 => "160m",
        Band::B80 => "80m",
        Band::B60 => "60m",
        Band::B40 => "40m",
        Band::B30 => "30m",
        Band::B20 => "20m",
        Band::B17 => "17m",
        Band::B15 => "15m",
        Band::B12 => "12m",
        Band::B10 => "10m",
        Band::B6 => "6m",
        Band::B2 => "2m",
        Band::Unknown => "?",
    }
}

/// Append two decimal digits.
fn push_two_digits(out: &mut String, n: u64)
    requires
        n < 100,
    ensures
        final(out)@ == old(out)@ + two_digits(n as nat),
{
    let ghost before = out@;
    out.push((48u8 + (n / 10) as u8) as char);
    out.push((48u8 + (n % 10) as u8) as char);
    assert(out@ =~= before + two_digits(n as nat));
}

/// An age in words: `45s`, `2m05s`, `1h07m`.
pub fn format_age(secs: u64) -> (r: String)
    ensures
        r@ == age_text(secs as nat),
{
    let mut out = String::new();
    if secs < 60 {
        push_decimal(&mut out, secs);
        out.append("s");
    } else if secs < 3600 {
        push_decimal(&mut out, secs / 60);
        out.append("m");
        push_two_digits(&mut out, secs % 60);
        out.append("s");
    } else {
        push_decimal(&mut out, secs / 3600);
        out.append("h");
        push_two_digits(&mut out, (secs % 3600) / 60);
        out.append("m");
    }
    assert(out@ =~= age_text(secs as nat));
    out
}

/// At most the first `max` bytes of a text, cut before a character that they
/// do not hold whole.
pub fn truncate(s: &str, max: usize) -> (r: &str)
    ensures
        r@ == truncated(s@, max as int),
{
    let len: usize = s.as_bytes().len();
    if len <= max {
        return s;
    }
    proof {
        encode_utf8_valid_utf8(s@);
        is_char_boundary_start_end_of_seq(s.spec_bytes());
    }
    let mut i: usize = max;
    while i > 0 && !s.is_char_boundary(i)
        invariant
            i <= max,
            max < s.spec_bytes().len(),
            boundary_below(s.spec_bytes(), max as int) == boundary_below(
                s.spec_bytes(),
                i as int,
            ),
        decreases i,
    {
        i -= 1;
    }
    let (head, _) = s.split_at(i);
    proof {
        assert(s.spec_bytes().subrange(0, i as int) =~= s.spec_bytes().take(i as int));
        encode_utf8_decode_utf8(head@);
    }
    head
}

/// Append blanks.
fn push_blanks(out: &mut String, n: usize)
    ensures
        final(out)@ == old(out)@ + blanks(n as nat),
{
    let ghost before = out@;
    let mut i: usize = 0;
    assert(out@ =~= before + blanks(0));
    while i < n
        invariant
            i <= n,
            out@ == before + blanks(i as nat),
        decreases n - i,
    {
        out.push(' ');
        assert(out@ =~= before + blanks((i + 1) as nat));
        i += 1;
    }
}

/// Append a text, right-aligned.
fn push_right(out: &mut String, s: &str, width: usize)
    ensures
        final(out)@ == old(out)@ + right_aligned(s@, width as nat),
{
    let ghost before = out@;
    let n: usize = s.unicode_len();
    if n < width {
        push_blanks(out, width - n);
    }
    out.append(s);
    assert(out@ =~= before + right_aligned(s@, width as nat));
}

/// Append a text, left-aligned.
fn push_left(out: &mut String, s: &str, width: usize)
    ensures
        final(out)@ == old(out)@ + left_aligned(s@, width as nat),
{
    let ghost before = out@;
    let n: usize = s.unicode_len();
    out.append(s);
    if n < width {
        push_blanks(out, width - n);
    }
    assert(out@ =~= before + left_aligned(s@, width as nat));
}

/// The time of day of a point in time: `HH:MM:SS`.
pub open spec fn clock_text(t: int) -> Seq<char> {
    let secs = (t / 1_000_000_000) % 86400;
    two_digits((secs / 3600) as nat) + ":"@ + two_digits(((secs % 3600) / 60) as nat) + ":"@
        + two_digits((secs % 60) as nat)
}

/// The time of day of a point in time: `HH:MM:SS`.
pub fn format_clock(t: Timestamp) -> (r: String)
    ensures
        r@ == clock_text(t@),
{
    let day: i64 = 86400;
    let whole: i64 = t.secs();
    let rest: i64 = whole % day;
    let secs: u64 = if rest < 0 {
        (rest + day) as u64
    } else {
        rest as u64
    };
    assert(secs == (t@ / 1_000_000_000) % 86400) by {
        lemma_floor_mod(whole as int, rest as int);
    }
    let mut out = String::new();
    push_two_digits(&mut out, secs / 3600);
    out.append(":");
    push_two_digits(&mut out, (secs % 3600) / 60);
    out.append(":");
    push_two_digits(&mut out, secs % 60);
    assert(out@ =~= clock_text(t@));
    out
}

/// The remainder that rounds down, from the one that rounds toward zero.
proof fn lemma_floor_mod(whole: int, rest: int)
    requires
        whole >= 0 ==> rest == whole % 86400,
        whole < 0 ==> rest == -((-whole) % 86400),
    ensures
        whole % 86400 == (if rest < 0 {
            rest + 86400
        } else {
            rest
        }),
{
}

/// Read an originator policy as it is given on the command line.
pub fn parse_originator_policy(s: &str) -> (r: Option<OriginatorPolicy>)
    ensures
        r == (if s@ == "auto"@ {
            Some(OriginatorPolicy::Auto)
        } else if s@ == "all-skimmer"@ {
            Some(OriginatorPolicy::AllSkimmer)
        } else if s@ == "all-human"@ {
            Some(OriginatorPolicy::AllHuman)
        } else {
            None
        }),
{
    if str_eq(s, "auto") {
        Some(OriginatorPolicy::Auto)
    } else if str_eq(s, "all-skimmer") {
        Some(OriginatorPolicy::AllSkimmer)
    } else if str_eq(s, "all-human") {
        Some(OriginatorPolicy::AllHuman)
    } else {
        None
    }
}

// ---------------------------------------------------------------------------
// State
// ---------------------------------------------------------------------------

/// Which list is shown.
#[derive(Debug, Clone, Copy, PartialEq, Eq, Structural)]
pub enum Screen {
    Activity,
    Spots,
}

/// A key that was pressed.
#[derive(Debug, Clone, Copy, PartialEq, Eq, Structural)]
pub enum Key {
    Char { c: char, control: bool },
    Esc,
    Tab,
    Up,
    Down,
    PageUp,
    PageDown,
    Home,
    End,
    Other,
}

/// How many events of each kind were seen.
#[derive(Debug, Clone, Copy, PartialEq, Eq, Structural)]
pub struct Stats {
    pub new_count: u64,
    pub update_count: u64,
    pub withdraw_count: u64,
}

/// One line of the activity list.
#[derive(Debug)]
pub struct ActivityEntry {
    pub timestamp: Timestamp,
    pub kind: SpotEventKind,
    pub freq_hz: u64,
    pub mode: DxMode,
    pub band: Band,
    pub dx_call: String,
    pub last_spotter: String,
    pub obs_count: usize,
    pub unique_originators: u8,
}

/// What an [`ActivityEntry`] stands for.
pub struct ActivityModel {
    pub timestamp: int,
    pub kind: SpotEventKind,
    pub freq_hz: u64,
    pub mode: DxMode,
    pub band: Band,
    pub dx_call: Seq<char>,
    pub last_spotter: Seq<char>,
    pub obs_count: nat,
    pub unique_originators: u8,
}

impl View for ActivityEntry {
    type V = ActivityModel;

    open spec fn view(&self) -> ActivityModel {
        ActivityModel {
            timestamp: self.timestamp@,
            kind: self.kind,
            freq_hz: self.freq_hz,
            mode: self.mode,
            band: self.band,
            dx_call: self.dx_call@,
            last_spotter: self.last_spotter@,
            obs_count: self.obs_count as nat,
            unique_originators: self.unique_originators,
        }
    }
}

/// The most activity entries that are kept.
pub const MAX_ACTIVITY: usize = 500;

/// How long a spot is shown after it was last seen, in seconds.
pub const SPOT_MAX_AGE_SECS: u64 = 300;

/// State of a source, by its name.
pub struct SourceModel {
    pub name: Seq<char>,
    pub state: StateModel,
}

/// What an [`App`] stands for.
pub struct AppModel {
    /// The spots shown, one per key, in the order in which they came.
    pub spots: Seq<SpotModel>,
    /// The newest activity, oldest first.
    pub activity: Seq<ActivityModel>,
    pub stats: Stats,
    pub screen: Screen,
    pub scroll_offset: usize,
    /// The last state of each source, in the order in which they came.
    pub sources: Seq<SourceModel>,
    pub should_quit: bool,
}

/// Position of the spot of `key`, the number of spots where there is none.
pub open spec fn shown_at(spots: Seq<SpotModel>, key: KeyModel) -> nat
    decreases spots.len(),
{
    if spots.len() == 0 || spots[0].spot_key == key {
        0
    } else {
        1 + shown_at(spots.skip(1), key)
    }
}

/// Position of the source of a name, the number of sources where there is none.
pub open spec fn source_at(sources: Seq<SourceModel>, name: Seq<char>) -> nat
    decreases sources.len(),
{
    if sources.len() == 0 || sources[0].name == name {
        0
    } else {
        1 + source_at(sources.skip(1), name)
    }
}

/// The spots with `spot` in the place of what was shown for its key.
pub open spec fn with_spot(spots: Seq<SpotModel>, spot: SpotModel) -> Seq<SpotModel> {
    let k = shown_at(spots, spot.spot_key) as int;
    if k < spots.len() {
        spots.update(k, spot)
    } else {
        spots.push(spot)
    }
}

/// The spots without that of `key`.
pub open spec fn without_spot(spots: Seq<SpotModel>, key: KeyModel) -> Seq<SpotModel> {
    let k = shown_at(spots, key) as int;
    if k < spots.len() {
        spots.remove(k)
    } else {
        spots
    }
}

/// The sources with the state of one of them.
pub open spec fn with_source(
    sources: Seq<SourceModel>,
    name: Seq<char>,
    state: StateModel,
) -> Seq<SourceModel> {
    let k = source_at(sources, name) as int;
    let source = SourceModel { name, state };
    if k < sources.len() {
        sources.update(k, source)
    } else {
        sources.push(source)
    }
}

/// The activity entry of a spot event.
pub open spec fn entry_of(event: SpotEventModel, now: int) -> ActivityModel {
    let seen = event.spot.observations;
    ActivityModel {
        timestamp: now,
        kind: event.kind,
        freq_hz: event.spot.freq_hz,
        mode: event.spot.mode,
        band: event.spot.band,
        dx_call: event.spot.dx_call,
        last_spotter: if seen.len() > 0 { seen.last().originator } else { Seq::empty() },
        obs_count: seen.len(),
        unique_originators: event.spot.unique_originators,
    }
}

/// The activity with one more entry; beyond the cap the oldest leaves.
pub open spec fn with_entry(activity: Seq<ActivityModel>, entry: ActivityModel) -> Seq<
    ActivityModel,
> {
    let all = activity.push(entry);
    if all.len() > MAX_ACTIVITY {
        all.skip(1)
    } else {
        all
    }
}

/// A counter after one more event; the largest count is kept.
pub open spec fn counted(n: u64) -> u64 {
    if n < u64::MAX {
        (n + 1) as u64
    } else {
        n
    }
}

/// The spots seen within the last five minutes, in order.
pub open spec fn recent(spots: Seq<SpotModel>, now: int) -> Seq<SpotModel>
    decreases spots.len(),
{
    if spots.len() == 0 {
        spots
    } else if spots.last().last_seen > now - 300 * 1_000_000_000 {
        recent(spots.drop_last(), now).push(spots.last())
    } else {
        recent(spots.drop_last(), now)
    }
}

impl AppModel {
    /// After a spot event.
    pub open spec fn with_spot_event(&self, event: SpotEventModel, now: int) -> AppModel {
        AppModel {
            activity: with_entry(self.activity, entry_of(event, now)),
            spots: match event.kind {
                SpotEventKind::Withdraw => without_spot(self.spots, event.spot.spot_key),
                _ => with_spot(self.spots, event.spot),
            },
            stats: match event.kind {
                SpotEventKind::New => Stats {
                    new_count: counted(self.stats.new_count),
                    ..self.stats
                },
                SpotEventKind::Update => Stats {
                    update_count: counted(self.stats.update_count),
                    ..self.stats
                },
                SpotEventKind::Withdraw => Stats {
                    withdraw_count: counted(self.stats.withdraw_count),
                    ..self.stats
                },
            },
            ..*self
        }
    }

    /// After an event of the feed.
    pub open spec fn with_event(&self, event: EventModel, now: int) -> AppModel {
        match event {
            EventModel::Spot(e) => self.with_spot_event(e, now),
            EventModel::SourceStatus { source_id, state, timestamp } => AppModel {
                sources: with_source(self.sources, source_id, state),
                ..*self
            },
            _ => *self,
        }
    }

    /// After a key was pressed.
    pub open spec fn with_key(&self, key: Key) -> AppModel {
        match key {
            Key::Esc => AppModel { should_quit: true, ..*self },
            Key::Char { c, control } => if c == 'q' || (c == 'c' && control) {
                AppModel { should_quit: true, ..*self }
            } else {
                *self
            },
            Key::Tab => AppModel {
                screen: match self.screen {
                    Screen::Activity => Screen::Spots,
                    Screen::Spots => Screen::Activity,
                },
                scroll_offset: 0,
                ..*self
            },
            Key::Up => self.scrolled(1),
            Key::Down => self.scrolled(-1),
            Key::PageUp => self.scrolled(20),
            Key::PageDown => self.scrolled(-20),
            Key::Home => AppModel { scroll_offset: usize::MAX, ..*self },
            Key::End => AppModel { scroll_offset: 0, ..*self },
            Key::Other => *self,
        }
    }

    /// Scrolled by a number of lines, within the range of the offset.
    pub open spec fn scrolled(&self, by: int) -> AppModel {
        let to = self.scroll_offset + by;
        AppModel {
            scroll_offset: if to < 0 {
                0
            } else if to > usize::MAX {
                usize::MAX
            } else {
                to as usize
            },
            ..*self
        }
    }
}

/// The state of the terminal client.
pub struct App {
    active_spots: Vec<DxSpot>,
    activity: VecDeque<ActivityEntry>,
    stats: Stats,
    screen: Screen,
    scroll_offset: usize,
    source_states: Vec<(String, SourceConnectionState)>,
    should_quit: bool,
}

spec fn spot_models(list: Seq<DxSpot>) -> Seq<SpotModel> {
    Seq::new(list.len(), |i: int| list[i]@)
}

spec fn activity_models(list: Seq<ActivityEntry>) -> Seq<ActivityModel> {
    Seq::new(list.len(), |i: int| list[i]@)
}

spec fn source_models(list: Seq<(String, SourceConnectionState)>) -> Seq<SourceModel> {
    Seq::new(list.len(), |i: int| SourceModel { name: list[i].0@, state: list[i].1@ })
}

impl View for App {
    type V = AppModel;

    closed spec fn view(&self) -> AppModel {
        AppModel {
            spots: spot_models(self.active_spots@),
            activity: activity_models(self.activity@),
            stats: self.stats,
            screen: self.screen,
            scroll_offset: self.scroll_offset,
            sources: source_models(self.source_states@),
            should_quit: self.should_quit,
        }
    }
}

proof fn lemma_shown_at(spots: Seq<SpotModel>, key: KeyModel, i: int)
    requires
        0 <= i <= spots.len(),
        forall|k: int| 0 <= k < i ==> (#[trigger] spots[k]).spot_key != key,
        i < spots.len() ==> spots[i].spot_key == key,
    ensures
        shown_at(spots, key) == i,
    decreases spots.len(),
{
    if spots.len() > 0 && i > 0 {
        assert(spots[0].spot_key != key);
        let rest = spots.skip(1);
        assert forall|k: int| 0 <= k < i - 1 implies (#[trigger] rest[k]).spot_key != key by {
            assert(rest[k] == spots[k + 1]);
        }
        lemma_shown_at(rest, key, i - 1);
    }
}

proof fn lemma_shown_at_props(spots: Seq<SpotModel>, key: KeyModel)
    ensures
        shown_at(spots, key) <= spots.len(),
        shown_at(spots, key) < spots.len() ==> spots[shown_at(spots, key) as int].spot_key == key,
        forall|k: int| 0 <= k < shown_at(spots, key) ==> (#[trigger] spots[k]).spot_key != key,
    decreases spots.len(),
{
    if spots.len() > 0 && spots[0].spot_key != key {
        let rest = spots.skip(1);
        lemma_shown_at_props(rest, key);
        assert forall|k: int| 0 <= k < shown_at(spots, key) implies (
        #[trigger] spots[k]).spot_key != key by {
            if k > 0 {
                assert(rest[k - 1] == spots[k]);
            }
        }
    }
}

proof fn lemma_source_at(sources: Seq<SourceModel>, name: Seq<char>, i: int)
    requires
        0 <= i <= sources.len(),
        forall|k: int| 0 <= k < i ==> (#[trigger] sources[k]).name != name,
        i < sources.len() ==> sources[i].name == name,
    ensures
        source_at(sources, name) == i,
    decreases sources.len(),
{
    if sources.len() > 0 && i > 0 {
        assert(sources[0].name != name);
        let rest = sources.skip(1);
        assert forall|k: int| 0 <= k < i - 1 implies (#[trigger] rest[k]).name != name by {
            assert(rest[k] == sources[k + 1]);
        }
        lemma_source_at(rest, name, i - 1);
    }
}

/// No key is shown twice.
pub open spec fn keys_apart(spots: Seq<SpotModel>) -> bool {
    forall|i: int, j: int|
        #![trigger spots[i], spots[j]]
        0 <= i < j < spots.len() ==> spots[i].spot_key != spots[j].spot_key
}

/// Events keep one spot per key: after `New` and `Update` the spot of the
/// event is shown, after `Withdraw` none is.
pub proof fn lemma_one_spot_per_key(m: AppModel, event: SpotEventModel, now: int)
    requires
        keys_apart(m.spots),
    ensures
        keys_apart(m.with_spot_event(event, now).spots),
        event.kind == SpotEventKind::Withdraw ==> shown_at(
            m.with_spot_event(event, now).spots,
            event.spot.spot_key,
        ) == m.with_spot_event(event, now).spots.len(),
        event.kind != SpotEventKind::Withdraw ==> m.with_spot_event(event, now).spots.contains(
            event.spot,
        ),
{
    let key = event.spot.spot_key;
    let after = m.with_spot_event(event, now).spots;
    lemma_shown_at_props(m.spots, key);
    let k = shown_at(m.spots, key) as int;
    if event.kind == SpotEventKind::Withdraw {
        if k < m.spots.len() {
            assert forall|i: int, j: int|
                #![trigger after[i], after[j]]
                0 <= i < j < after.len() implies after[i].spot_key != after[j].spot_key by {
                let i2 = if i < k { i } else { i + 1 };
                let j2 = if j < k { j } else { j + 1 };
                assert(m.spots[i2].spot_key != m.spots[j2].spot_key);
            }
            assert forall|i: int| 0 <= i < after.len() implies (#[trigger] after[i]).spot_key
                != key by {
                let i2 = if i < k { i } else { i + 1 };
                assert(m.spots[i2].spot_key != m.spots[k].spot_key);
            }
        }
        lemma_shown_at(after, key, after.len() as int);
    } else {
        assert forall|i: int, j: int|
            #![trigger after[i], after[j]]
            0 <= i < j < after.len() implies after[i].spot_key != after[j].spot_key by {
            if k < m.spots.len() {
                assert(m.spots[i].spot_key != m.spots[j].spot_key);
            } else if j < m.spots.len() {
                assert(m.spots[i].spot_key != m.spots[j].spot_key);
            }
        }
        assert(after[k] == event.spot);
    }
}

/// The activity list never grows beyond its cap, and ends in the newest entry.
pub proof fn lemma_activity_bounded(activity: Seq<ActivityModel>, entry: ActivityModel)
    requires
        activity.len() <= MAX_ACTIVITY,
    ensures
        with_entry(activity, entry).len() <= MAX_ACTIVITY,
        with_entry(activity, entry).last() == entry,
{
}

impl App {
    /// A client that has seen nothing and shows the activity.
    pub fn new() -> (r: Self)
        ensures
            r@.spots.len() == 0,
            r@.activity.len() == 0,
            r@.stats == (Stats { new_count: 0, update_count: 0, withdraw_count: 0 }),
            r@.screen == Screen::Activity,
            r@.scroll_offset == 0,
            r@.sources.len() == 0,
            !r@.should_quit,
    {
        App {
            active_spots: Vec::new(),
            activity: VecDeque::new(),
            stats: Stats { new_count: 0, update_count: 0, withdraw_count: 0 },
            screen: Screen::Activity,
            scroll_offset: 0,
            source_states: Vec::new(),
            should_quit: false,
        }
    }

    /// Position of the spot of a key, or the number of spots.
    fn find_spot(&self, key: &SpotKey) -> (r: usize)
        ensures
            r == shown_at(self@.spots, key@),
            r <= self.active_spots@.len(),
    {
        let mut i: usize = 0;
        while i < self.active_spots.len()
            invariant
                i <= self.active_spots@.len(),
                forall|k: int| 0 <= k < i ==> (#[trigger] self@.spots[k]).spot_key != key@,
            decreases self.active_spots@.len() - i,
        {
            if self.active_spots[i].spot_key.same(key) {
                proof {
                    lemma_shown_at(self@.spots, key@, i as int);
                }
                return i;
            }
            i += 1;
        }
        proof {
            lemma_shown_at(self@.spots, key@, i as int);
        }
        i
    }

    /// Show a spot in the place of what was shown for its key.
    fn show_spot(&mut self, spot: DxSpot)
        ensures
            final(self)@ == (AppModel { spots: with_spot(old(self)@.spots, spot@), ..old(self)@ }),
    {
        let ghost before = self@;
        let ghost model = spot@;
        let k: usize = self.find_spot(&spot.spot_key);
        if k < self.active_spots.len() {
            self.active_spots[k] = spot;
        } else {
            self.active_spots.push(spot);
        }
        assert(self@.spots =~= with_spot(before.spots, model));
    }

    /// Remove the spot of a key.
    fn hide_spot(&mut self, key: &SpotKey)
        ensures
            final(self)@ == (AppModel { spots: without_spot(old(self)@.spots, key@), ..old(self)@ }),
    {
        let ghost before = self@;
        let k: usize = self.find_spot(key);
        if k < self.active_spots.len() {
            self.active_spots.remove(k);
        }
        assert(self@.spots =~= without_spot(before.spots, key@));
    }

    /// Take note of an event of the feed.
    pub fn handle_event(&mut self, event: &DxEvent, now: Timestamp)
        ensures
            final(self)@ == old(self)@.with_event(event@, now@),
    {
        match event {
            DxEvent::Spot(e) => self.handle_spot(e, now),
            DxEvent::SourceStatus(status) => self.set_source(
                status.source_id.0.as_str(),
                status.state.clone(),
            ),
            DxEvent::Announce(_) => {},
            DxEvent::Error(_) => {},
        }
    }

    /// Take note of the state of a source.
    fn set_source(&mut self, name: &str, state: SourceConnectionState)
        ensures
            final(self)@ == (AppModel {
                sources: with_source(old(self)@.sources, name@, state@),
                ..old(self)@
            }),
    {
        let ghost before = self@;
        let ghost model = state@;
        let mut k: usize = 0;
        while k < self.source_states.len() && !str_eq(self.source_states[k].0.as_str(), name)
            invariant
                self@ == before,
                k <= self.source_states@.len(),
                forall|i: int| 0 <= i < k ==> (#[trigger] self@.sources[i]).name != name@,
            decreases self.source_states@.len() - k,
        {
            k += 1;
        }
        proof {
            lemma_source_at(self@.sources, name@, k as int);
        }
        if k < self.source_states.len() {
            self.source_states[k] = (name.to_owned(), state);
        } else {
            self.source_states.push((name.to_owned(), state));
        }
        assert(self@.sources =~= with_source(before.sources, name@, model));
    }

    /// Take note of a spot event.
    pub fn handle_spot(&mut self, event: &DxSpotEvent, now: Timestamp)
        ensures
            final(self)@ == old(self)@.with_spot_event(event@, now@),
    {
        let ghost before = self@;
        let spot = &event.spot;
        let n: usize = spot.observations.len();
        let last_spotter = if n > 0 {
            spot.observations[n - 1].originator.0.clone()
        } else {
            String::new()
        };
        let entry = ActivityEntry {
            timestamp: now,
            kind: event.kind,
            freq_hz: spot.freq_hz,
            mode: spot.mode,
            band: spot.band,
            dx_call: spot.dx_call.clone(),
            last_spotter,
            obs_count: n,
            unique_originators: spot.unique_originators,
        };
        let ghost model = entry@;
        assert(model == entry_of(event@, now@));
        self.activity.push_back(entry);
        assert(activity_models(self.activity@) =~= before.activity.push(model));
        if self.activity.len() > MAX_ACTIVITY {
            let _ = self.activity.pop_front();
            assert(activity_models(self.activity@) =~= before.activity.push(model).skip(1));
        }
        assert(self@.activity == with_entry(before.activity, model));
        match event.kind {
            SpotEventKind::New => {
                self.stats.new_count = self.stats.new_count.saturating_add(1);
                self.show_spot(spot.clone());
            },
            SpotEventKind::Update => {
                self.stats.update_count = self.stats.update_count.saturating_add(1);
                self.show_spot(spot.clone());
            },
            SpotEventKind::Withdraw => {
                self.stats.withdraw_count = self.stats.withdraw_count.saturating_add(1);
                self.hide_spot(&spot.spot_key);
            },
        }
    }

    /// React to a key.
    pub fn handle_key(&mut self, key: Key)
        ensures
            final(self)@ == old(self)@.with_key(key),
    {
        match key {
            Key::Esc => {
                self.should_quit = true;
            },
            Key::Char { c, control } => {
                if c == 'q' || (c == 'c' && control) {
                    self.should_quit = true;
                }
            },
            Key::Tab => {
                self.screen = match self.screen {
                    Screen::Activity => Screen::Spots,
                    Screen::Spots => Screen::Activity,
                };
                self.scroll_offset = 0;
            },
            Key::Up => {
                self.scroll_offset = self.scroll_offset.saturating_add(1);
            },
            Key::Down => {
                self.scroll_offset = self.scroll_offset.saturating_sub(1);
            },
            Key::PageUp => {
                self.scroll_offset = self.scroll_offset.saturating_add(20);
            },
            Key::PageDown => {
                self.scroll_offset = self.scroll_offset.saturating_sub(20);
            },
            Key::Home => {
                self.scroll_offset = usize::MAX;
            },
            Key::End => {
                self.scroll_offset = 0;
            },
            Key::Other => {},
        }
    }

    /// Quit.
    pub fn quit(&mut self)
        ensures
            final(self)@ == (AppModel { should_quit: true, ..old(self)@ }),
    {
        self.should_quit = true;
    }

    /// Stop showing spots that were not seen within the last five minutes.
    pub fn evict_stale_spots(&mut self, now: Timestamp)
        ensures
            final(self)@ == (AppModel { spots: recent(old(self)@.spots, now@), ..old(self)@ }),
    {
        let ghost before = self@;
        let ghost all = before.spots;
        let mut old_spots: Vec<DxSpot> = Vec::new();
        core::mem::swap(&mut self.active_spots, &mut old_spots);
        let ghost spots = old_spots@;
        assert(all.take(0).len() == 0);
        assert(spot_models(self.active_spots@) =~= recent(all.take(0), now@));
        for spot in it: old_spots
            invariant
                it.seq() == spots,
                spot_models(spots) == all,
                self@ == (AppModel {
                    spots: recent(all.take(it.index() as int), now@),
                    ..before
                }),
        {
            let ghost n = it.index() as int;
            let ghost kept = spot_models(self.active_spots@);
            proof {
                assert(all.take(n + 1).drop_last() =~= all.take(n));
                assert(all.take(n + 1).last() == all[n]);
                assert(all[n] == spot@);
            }
            if now.nanos_since(&spot.last_seen) < SPOT_MAX_AGE_SECS as i128 * 1_000_000_000 {
                self.active_spots.push(spot);
                assert(spot_models(self.active_spots@) =~= kept.push(all[n]));
            }
        }
        assert(all.take(all.len() as int) =~= all);
    }

    /// Whether the client is to quit.
    pub fn should_quit(&self) -> (r: bool)
        ensures
            r == self@.should_quit,
    {
        self.should_quit
    }

    /// Which list is shown.
    pub fn screen(&self) -> (r: Screen)
        ensures
            r == self@.screen,
    {
        self.screen
    }

    /// How far the list is scrolled.
    pub fn scroll_offset(&self) -> (r: usize)
        ensures
            r == self@.scroll_offset,
    {
        self.scroll_offset
    }

    /// How many events of each kind were seen.
    pub fn stats(&self) -> (r: Stats)
        ensures
            r == self@.stats,
    {
        self.stats
    }

    /// Number of spots shown.
    pub fn spot_count(&self) -> (r: usize)
        ensures
            r == self@.spots.len(),
    {
        self.active_spots.len()
    }

    /// A spot that is shown.
    pub fn spot(&self, i: usize) -> (r: &DxSpot)
        requires
            i < self@.spots.len(),
        ensures
            r@ == self@.spots[i as int],
    {
        &self.active_spots[i]
    }

    /// Number of activity entries.
    pub fn activity_count(&self) -> (r: usize)
        ensures
            r == self@.activity.len(),
    {
        self.activity.len()
    }

    /// An activity entry, the oldest first.
    pub fn activity_entry(&self, i: usize) -> (r: &ActivityEntry)
        requires
            i < self@.activity.len(),
        ensures
            r@ == self@.activity[i as int],
    {
        &self.activity[i]
    }

    /// Number of sources seen.
    pub fn source_count(&self) -> (r: usize)
        ensures
            r == self@.sources.len(),
    {
        self.source_states.len()
    }

    /// A source and its state.
    pub fn source(&self, i: usize) -> (r: (&String, &SourceConnectionState))
        requires
            i < self@.sources.len(),
        ensures
            r.0@ == self@.sources[i as int].name,
            r.1@ == self@.sources[i as int].state,
    {
        (&self.source_states[i].0, &self.source_states[i].1)
    }
}

// ---------------------------------------------------------------------------
// What is shown
// ---------------------------------------------------------------------------

/// The offset, no further than the list goes beyond the window.
pub open spec fn clamped(scroll: usize, total: nat, height: nat) -> int {
    let most = if total > height { total - height } else { 0 };
    if scroll > most {
        most
    } else {
        scroll as int
    }
}

/// What is visible of a list that is read from its end: `scroll` entries are
/// below the window.
pub open spec fn window_from_end(scroll: int, total: nat, height: nat) -> (int, int) {
    let end = total - scroll;
    (if end > height { end - height } else { 0 }, end)
}

/// What is visible of a list that is read from its start: `scroll` entries are
/// above the window.
pub open spec fn window_from_start(scroll: int, total: nat, height: nat) -> (int, int) {
    (scroll, if scroll + height < total { scroll + height } else { total as int })
}

/// A window lies in its list, is no larger than its height, and is filled as
/// far as the list goes.
pub proof fn lemma_windows_fit(scroll: usize, total: nat, height: nat)
    ensures
        ({
            let at = clamped(scroll, total, height);
            let (a, b) = window_from_end(at, total, height);
            let (c, d) = window_from_start(at, total, height);
            let n = if total < height { total } else { height };
            &&& 0 <= a <= b <= total && b - a == n
            &&& 0 <= c <= d <= total && d - c == n
        }),
{
}

/// The spot at position `a` comes before the one at `b`: on a lower frequency,
/// or on the same one and shown longer.
pub open spec fn before_in_list(spots: Seq<SpotModel>, a: int, b: int) -> bool {
    spots[a].freq_hz < spots[b].freq_hz || (spots[a].freq_hz == spots[b].freq_hz && a < b)
}

/// The cells of a spot: frequency, mode, band, callsign, last spotter, time
/// since it was first and last seen, number of observations, comment.
pub open spec fn spot_cells(spot: SpotModel, now: int) -> Seq<Seq<char>> {
    seq![
        freq_text(spot.freq_hz as nat),
        mode_text(spot.mode),
        band_text(spot.band),
        spot.dx_call,
        truncated(
            if spot.observations.len() > 0 {
                spot.observations.last().originator
            } else {
                "-"@
            },
            12,
        ),
        age_text(age_of(spot.first_seen, now)),
        age_text(age_of(spot.last_seen, now)),
        decimal_of(spot.observations.len()),
        truncated(
            match spot.comment {
                Some(c) => c,
                None => ""@,
            },
            24,
        ),
    ]
}

/// Whole seconds since a point in time, zero where it lies in the future.
pub open spec fn age_of(t: int, now: int) -> nat {
    let secs = whole_secs(now - t);
    if secs < 0 {
        0
    } else if secs > u64::MAX {
        u64::MAX as nat
    } else {
        secs as nat
    }
}

/// The label of an event.
pub open spec fn kind_text(kind: SpotEventKind) -> Seq<char> {
    match kind {
        SpotEventKind::New => " NEW "@,
        SpotEventKind::Update => " UPD "@,
        SpotEventKind::Withdraw => " WDR "@,
    }
}

/// The text of an activity entry; a withdrawal names no spotter.
pub open spec fn detail_text(e: ActivityModel) -> Seq<char> {
    let head = " "@ + right_aligned(freq_text(e.freq_hz as nat), 9) + " "@ + left_aligned(
        mode_text(e.mode),
        3,
    ) + " "@ + left_aligned(band_text(e.band), 4) + " "@ + left_aligned(e.dx_call, 13);
    if e.kind == SpotEventKind::Withdraw {
        head
    } else {
        head + " "@ + left_aligned(truncated(e.last_spotter, 12), 12) + " "@ + decimal_of(
            e.obs_count,
        ) + "o "@ + decimal_of(e.unique_originators as nat) + "s"@
    }
}

/// The label of a source.
pub open spec fn source_text(name: Seq<char>, state: StateModel) -> Seq<char> {
    let head = "  "@ + name + ": "@;
    match state {
        StateModel::Connected => head + "Connected"@,
        StateModel::Connecting => head + "Connecting"@,
        StateModel::Reconnecting { attempt } => head + "Reconn #"@ + decimal_of(attempt as nat),
        StateModel::Failed { reason } => head + "Failed"@,
        StateModel::Shutdown => head + "Shutdown"@,
    }
}

/// How far a list is scrolled, in words: empty where it is not.
pub open spec fn scroll_text(scroll: usize) -> Seq<char> {
    if scroll > 0 {
        " [+"@ + decimal_of(scroll as nat) + "] "@
    } else {
        Seq::empty()
    }
}

/// Whole seconds since a point in time, zero where it lies in the future.
fn age_secs(t: Timestamp, now: Timestamp) -> (r: u64)
    ensures
        r == age_of(t@, now@),
{
    let secs: i128 = now.secs_since(&t);
    if secs < 0 {
        0
    } else if secs > u64::MAX as i128 {
        u64::MAX
    } else {
        secs as u64
    }
}

/// The decimal digits of a number.
fn decimal(n: u64) -> (r: String)
    ensures
        r@ == decimal_of(n as nat),
{
    let mut out = String::new();
    push_decimal(&mut out, n);
    assert(out@ =~= decimal_of(n as nat));
    out
}

/// The texts of a list of strings.
pub open spec fn cell_texts(list: Seq<String>) -> Seq<Seq<char>> {
    Seq::new(list.len(), |i: int| list[i]@)
}

/// The cells of a spot.
pub fn spot_row(spot: &DxSpot, now: Timestamp) -> (r: Vec<String>)
    ensures
        cell_texts(r@) == spot_cells(spot@, now@),
{
    let n: usize = spot.observations.len();
    let spotter: &str = if n > 0 {
        spot.observations[n - 1].originator.0.as_str()
    } else {
        "-"
    };
    let comment: &str = match &spot.comment {
        Some(c) => c.as_str(),
        None => "",
    };
    let mut cells: Vec<String> = Vec::new();
    cells.push(format_freq(spot.freq_hz));
    cells.push(format_mode(spot.mode).to_owned());
    cells.push(format_band(spot.band).to_owned());
    cells.push(spot.dx_call.clone());
    cells.push(truncate(spotter, 12).to_owned());
    cells.push(format_age(age_secs(spot.first_seen, now)));
    cells.push(format_age(age_secs(spot.last_seen, now)));
    cells.push(decimal(n as u64));
    cells.push(truncate(comment, 24).to_owned());
    assert(cell_texts(cells@) =~= spot_cells(spot@, now@));
    cells
}

/// The label of an event.
pub fn kind_label(kind: SpotEventKind) -> (r: &'static str)
    ensures
        r@ == kind_text(kind),
{
    match kind {
        SpotEventKind::New => " NEW ",
        SpotEventKind::Update => " UPD ",
        SpotEventKind::Withdraw => " WDR ",
    }
}

/// The text of an activity entry.
pub fn activity_detail(entry: &ActivityEntry) -> (r: String)
    ensures
        r@ == detail_text(entry@),
{
    let mut out = String::new();
    out.append(" ");
    push_right(&mut out, format_freq(entry.freq_hz).as_str(), 9);
    out.append(" ");
    push_left(&mut out, format_mode(entry.mode), 3);
    out.append(" ");
    push_left(&mut out, format_band(entry.band), 4);
    out.append(" ");
    push_left(&mut out, entry.dx_call.as_str(), 13);
    if entry.kind != SpotEventKind::Withdraw {
        out.append(" ");
        push_left(&mut out, truncate(entry.last_spotter.as_str(), 12), 12);
        out.append(" ");
        push_decimal(&mut out, entry.obs_count as u64);
        out.append("o ");
        push_decimal(&mut out, entry.unique_originators as u64);
        out.append("s");
    }
    assert(out@ =~= detail_text(entry@));
    out
}

/// The label of a source.
pub fn source_label(name: &str, state: &SourceConnectionState) -> (r: String)
    ensures
        r@ == source_text(name@, state@),
{
    let mut out = "  ".to_owned();
    out.append(name);
    out.append(": ");
    match state {
        SourceConnectionState::Connected => {
            out.append("Connected");
        },
        SourceConnectionState::Connecting => {
            out.append("Connecting");
        },
        SourceConnectionState::Reconnecting { attempt } => {
            out.append("Reconn #");
            push_decimal(&mut out, *attempt as u64);
        },
        SourceConnectionState::Failed { reason: _ } => {
            out.append("Failed");
        },
        SourceConnectionState::Shutdown => {
            out.append("Shutdown");
        },
    }
    out
}

impl App {
    /// How far the list is scrolled, in words.
    pub fn scroll_label(&self) -> (r: String)
        ensures
            r@ == scroll_text(self@.scroll_offset),
    {
        let mut out = String::new();
        if self.scroll_offset > 0 {
            out.append(" [+");
            push_decimal(&mut out, self.scroll_offset as u64);
            out.append("] ");
        }
        assert(out@ =~= scroll_text(self@.scroll_offset));
        out
    }

    /// Which activity entries are visible in a window of the given height;
    /// without scrolling, the newest. The offset is brought into range.
    pub fn activity_window(&mut self, height: usize) -> (r: (usize, usize))
        ensures
            final(self)@.scroll_offset == clamped(
                old(self)@.scroll_offset,
                old(self)@.activity.len(),
                height as nat,
            ),
            final(self)@ == (AppModel {
                scroll_offset: final(self)@.scroll_offset,
                ..old(self)@
            }),
            (r.0 as int, r.1 as int) == window_from_end(
                final(self)@.scroll_offset as int,
                old(self)@.activity.len(),
                height as nat,
            ),
    {
        let total: usize = self.activity.len();
        let most: usize = total.saturating_sub(height);
        if self.scroll_offset > most {
            self.scroll_offset = most;
        }
        let end: usize = total - self.scroll_offset;
        (end.saturating_sub(height), end)
    }

    /// Which spots are visible in a window of the given height; without
    /// scrolling, the first. The offset is brought into range.
    pub fn spots_window(&mut self, height: usize) -> (r: (usize, usize))
        ensures
            final(self)@.scroll_offset == clamped(
                old(self)@.scroll_offset,
                old(self)@.spots.len(),
                height as nat,
            ),
            final(self)@ == (AppModel {
                scroll_offset: final(self)@.scroll_offset,
                ..old(self)@
            }),
            (r.0 as int, r.1 as int) == window_from_start(
                final(self)@.scroll_offset as int,
                old(self)@.spots.len(),
                height as nat,
            ),
    {
        let total: usize = self.active_spots.len();
        let most: usize = total.saturating_sub(height);
        if self.scroll_offset > most {
            self.scroll_offset = most;
        }
        let start: usize = self.scroll_offset;
        let end: usize = if total - start > height {
            start + height
        } else {
            total
        };
        (start, end)
    }

    /// The positions of the spots, by frequency.
    pub fn spots_by_freq(&self) -> (r: Vec<usize>)
        ensures
            r@.len() == self@.spots.len(),
            forall|i: int| 0 <= i < r@.len() ==> (#[trigger] r@[i]) < self@.spots.len(),
            forall|i: int, j: int|
                0 <= i < j < r@.len() ==> before_in_list(
                    self@.spots,
                    #[trigger] r@[i] as int,
                    #[trigger] r@[j] as int,
                ),
    {
        let mut out: Vec<usize> = Vec::new();
        let mut k: usize = 0;
        while k < self.active_spots.len()
            invariant
                k <= self.active_spots@.len(),
                out@.len() == k,
                forall|i: int| 0 <= i < out@.len() ==> (#[trigger] out@[i]) < k,
                forall|i: int, j: int|
                    0 <= i < j < out@.len() ==> before_in_list(
                        self@.spots,
                        #[trigger] out@[i] as int,
                        #[trigger] out@[j] as int,
                    ),
            decreases self.active_spots@.len() - k,
        {
            let freq: u64 = self.active_spots[k].freq_hz;
            let mut p: usize = 0;
            while p < out.len() && self.active_spots[out[p]].freq_hz <= freq
                invariant
                    k < self.active_spots@.len(),
                    freq == self@.spots[k as int].freq_hz,
                    p <= out@.len(),
                    forall|i: int| 0 <= i < out@.len() ==> (#[trigger] out@[i]) < k,
                    forall|i: int|
                        0 <= i < p ==> self@.spots[#[trigger] out@[i] as int].freq_hz <= freq,
                decreases out@.len() - p,
            {
                p += 1;
            }
            let ghost before = out@;
            out.insert(p, k);
            proof {
                assert(out@ =~= before.insert(p as int, k));
                assert forall|i: int, j: int| 0 <= i < j < out@.len() implies before_in_list(
                    self@.spots,
                    #[trigger] out@[i] as int,
                    #[trigger] out@[j] as int,
                ) by {
                    let i2 = if i < p { i } else { i - 1 };
                    let j2 = if j < p { j } else { j - 1 };
                    if i == p {
                        assert(out@[j] == before[j2]);
                        if j2 > p {
                            assert(before_in_list(
                                self@.spots,
                                before[p as int] as int,
                                before[j2] as int,
                            ));
                        }
                    } else if j == p {
                        assert(out@[i] == before[i2]);
                    } else {
                        assert(out@[i] == before[i2] && out@[j] == before[j2]);
                        assert(before_in_list(self@.spots, before[i2] as int, before[j2] as int));
                    }
                }
            }
            k += 1;
        }
        out
    }
}

// ---------------------------------------------------------------------------
// Laws
// ---------------------------------------------------------------------------

/// An age is shown in seconds below a minute, in minutes and seconds below an
/// hour, and in hours and minutes from there on.
pub proof fn lemma_age_shown(hours: nat, minutes: nat, secs: nat)
    requires
        minutes < 60,
        secs < 60,
    ensures
        age_text(secs) == decimal_of(secs).push('s'),
        minutes > 0 ==> age_text(60 * minutes + secs) == decimal_of(minutes) + seq!['m']
            + two_digits(secs) + seq!['s'],
        hours > 0 ==> age_text(3600 * hours + 60 * minutes + secs) == decimal_of(hours) + seq!['h']
            + two_digits(minutes) + seq!['m'],
{
    reveal_strlit("s");
    reveal_strlit("m");
    reveal_strlit("h");
    assert("s"@ =~= seq!['s']);
    assert("m"@ =~= seq!['m']);
    assert("h"@ =~= seq!['h']);
    assert(decimal_of(secs) + seq!['s'] =~= decimal_of(secs).push('s'));
    assert((60 * minutes + secs) / 60 == minutes && (60 * minutes + secs) % 60 == secs);
    let all = 3600 * hours + 60 * minutes + secs;
    assert(all / 3600 == hours);
    assert(all % 3600 == 60 * minutes + secs);
}

/// The clock shows hours, minutes and seconds of the day, whatever the day.
pub proof fn lemma_clock_shown(day: int, hour: int, minute: int, sec: int, nanos: int)
    requires
        0 <= hour < 24,
        0 <= minute < 60,
        0 <= sec < 60,
        0 <= nanos < 1_000_000_000,
    ensures
        clock_text((86400 * day + 3600 * hour + 60 * minute + sec) * 1_000_000_000 + nanos)
            == two_digits(hour as nat) + seq![':'] + two_digits(minute as nat) + seq![':']
            + two_digits(sec as nat),
{
    reveal_strlit(":");
    assert(":"@ =~= seq![':']);
    lemma_clock_parts(day, hour, minute, sec, nanos);
}

/// Hours, minutes and seconds of a point in time.
proof fn lemma_clock_parts(day: int, hour: int, minute: int, sec: int, nanos: int)
    requires
        0 <= hour < 24,
        0 <= minute < 60,
        0 <= sec < 60,
        0 <= nanos < 1_000_000_000,
    ensures
        ({
            let t = (86400 * day + 3600 * hour + 60 * minute + sec) * 1_000_000_000 + nanos;
            let secs = (t / 1_000_000_000) % 86400;
            &&& secs / 3600 == hour
            &&& (secs % 3600) / 60 == minute
            &&& secs % 60 == sec
        }),
{
    let of_day = 3600 * hour + 60 * minute + sec;
    let whole = 86400 * day + of_day;
    let t = whole * 1_000_000_000 + nanos;
    lemma_fundamental_div_mod_converse(t, 1_000_000_000, whole, nanos);
    lemma_fundamental_div_mod_converse(whole, 86400, day, of_day);
    lemma_fundamental_div_mod_converse(of_day, 3600, hour, 60 * minute + sec);
    lemma_fundamental_div_mod_converse(60 * minute + sec, 60, minute, sec);
    lemma_fundamental_div_mod_converse(of_day, 60, 60 * hour + minute, sec);
}

/// Two digits of a number, tens before ones.
pub proof fn lemma_two_digits_shown(tens: nat, ones: nat)
    requires
        tens < 10,
        ones < 10,
    ensures
        two_digits(10 * tens + ones).len() == 2,
        two_digits(10 * tens + ones)[0] as u32 == 48 + tens,
        two_digits(10 * tens + ones)[1] as u32 == 48 + ones,
{
}

/// Different bands and different modes are shown differently.
pub proof fn lemma_labels_apart(a: Band, b: Band, x: DxMode, y: DxMode)
    ensures
        band_text(a) == band_text(b) ==> a == b,
        mode_text(x) == mode_text(y) ==> x == y,
{
    reveal_strlit("160m");
    reveal_strlit("80m");
    reveal_strlit("60m");
    reveal_strlit("40m");
    reveal_strlit("30m");
    reveal_strlit("20m");
    reveal_strlit("17m");
    reveal_strlit("15m");
    reveal_strlit("12m");
    reveal_strlit("10m");
    reveal_strlit("6m");
    reveal_strlit("2m");
    reveal_strlit("?");
    reveal_strlit("CW");
    reveal_strlit("SSB");
    reveal_strlit("DIG");
    reveal_strlit("AM");
    reveal_strlit("FM");
    let s = band_text(a);
    let t = band_text(b);
    if s == t {
        assert(s.len() == t.len());
        assert(s[0] == t[0]);
        if s.len() > 1 {
            assert(s[1] == t[1]);
        }
    }
    let p = mode_text(x);
    let q = mode_text(y);
    if p == q {
        assert(p.len() == q.len());
        assert(p[0] == q[0]);
    }
}

/// The band is shown by its wavelength: the metres in decimal and an `m`.
pub proof fn lemma_band_metres()
    ensures
        band_text(Band::B160) == decimal_of(160).push('m'),
        band_text(Band::B80) == decimal_of(80).push('m'),
        band_text(Band::B60) == decimal_of(60).push('m'),
        band_text(Band::B40) == decimal_of(40).push('m'),
        band_text(Band::B30) == decimal_of(30).push('m'),
        band_text(Band::B20) == decimal_of(20).push('m'),
        band_text(Band::B17) == decimal_of(17).push('m'),
        band_text(Band::B15) == decimal_of(15).push('m'),
        band_text(Band::B12) == decimal_of(12).push('m'),
        band_text(Band::B10) == decimal_of(10).push('m'),
        band_text(Band::B6) == decimal_of(6).push('m'),
        band_text(Band::B2) == decimal_of(2).push('m'),
{
    reveal_strlit("160m");
    reveal_strlit("80m");
    reveal_strlit("60m");
    reveal_strlit("40m");
    reveal_strlit("30m");
    reveal_strlit("20m");
    reveal_strlit("17m");
    reveal_strlit("15m");
    reveal_strlit("12m");
    reveal_strlit("10m");
    reveal_strlit("6m");
    reveal_strlit("2m");
    reveal_with_fuel(decimal_of, 4);
    assert(band_text(Band::B160) =~= decimal_of(160).push('m'));
    assert(band_text(Band::B80) =~= decimal_of(80).push('m'));
    assert(band_text(Band::B60) =~= decimal_of(60).push('m'));
    assert(band_text(Band::B40) =~= decimal_of(40).push('m'));
    assert(band_text(Band::B30) =~= decimal_of(30).push('m'));
    assert(band_text(Band::B20) =~= decimal_of(20).push('m'));
    assert(band_text(Band::B17) =~= decimal_of(17).push('m'));
    assert(band_text(Band::B15) =~= decimal_of(15).push('m'));
    assert(band_text(Band::B12) =~= decimal_of(12).push('m'));
    assert(band_text(Band::B10) =~= decimal_of(10).push('m'));
    assert(band_text(Band::B6) =~= decimal_of(6).push('m'));
    assert(band_text(Band::B2) =~= decimal_of(2).push('m'));
}

/// What is shown for a key among spots.
pub open spec fn shown(spots: Seq<SpotModel>, key: KeyModel) -> Option<SpotModel> {
    let k = shown_at(spots, key) as int;
    if k < spots.len() {
        Some(spots[k])
    } else {
        None
    }
}

/// After a spot event its spot is shown as the event has it, or no longer after
/// a withdrawal, and every other spot is shown as before.
pub proof fn lemma_spot_shown(m: AppModel, event: SpotEventModel, now: int, other: KeyModel)
    requires
        keys_apart(m.spots),
        other != event.spot.spot_key,
    ensures
        ({
            let after = m.with_spot_event(event, now);
            let key = event.spot.spot_key;
            &&& event.kind == SpotEventKind::Withdraw ==> shown(after.spots, key) is None
            &&& event.kind != SpotEventKind::Withdraw ==> shown(after.spots, key) == Some(
                event.spot,
            )
            &&& shown(after.spots, other) == shown(m.spots, other)
        }),
{
    let spots = m.spots;
    let key = event.spot.spot_key;
    let after = m.with_spot_event(event, now).spots;
    lemma_shown_at_props(spots, key);
    lemma_shown_at_props(spots, other);
    let k = shown_at(spots, key) as int;
    let q = shown_at(spots, other) as int;
    if event.kind == SpotEventKind::Withdraw {
        if k < spots.len() {
            assert forall|i: int| 0 <= i < after.len() implies (#[trigger] after[i]).spot_key
                != key by {
                let j = if i < k { i } else { i + 1 };
                assert(after[i] == spots[j]);
                if j < k {
                    assert(spots[j].spot_key != spots[k].spot_key);
                } else {
                    assert(spots[k].spot_key != spots[j].spot_key);
                }
            }
            lemma_shown_at(after, key, after.len() as int);
            let q2 = if q < k { q } else { q - 1 };
            assert forall|i: int| 0 <= i < q2 implies (#[trigger] after[i]).spot_key != other by {
                let j = if i < k { i } else { i + 1 };
                assert(after[i] == spots[j]);
            }
            if q < spots.len() {
                assert(after[q2] == spots[q]);
                lemma_shown_at(after, other, q2);
            } else {
                lemma_shown_at(after, other, after.len() as int);
            }
        }
    } else {
        assert forall|i: int| 0 <= i < k implies (#[trigger] after[i]).spot_key != key by {
            assert(after[i] == spots[i]);
        }
        lemma_shown_at(after, key, k);
        assert forall|i: int| 0 <= i < q implies (#[trigger] after[i]).spot_key != other by {
            assert(spots[i].spot_key != other);
        }
        if q < spots.len() {
            assert(after[q] == spots[q]);
            lemma_shown_at(after, other, q);
        } else {
            lemma_shown_at(after, other, after.len() as int);
        }
    }
}

/// Every spot event counts for its own kind, and is the newest activity.
pub proof fn lemma_event_counted(m: AppModel, event: SpotEventModel, now: int)
    requires
        m.stats.new_count < u64::MAX,
        m.stats.update_count < u64::MAX,
        m.stats.withdraw_count < u64::MAX,
        m.activity.len() <= MAX_ACTIVITY,
    ensures
        ({
            let after = m.with_spot_event(event, now);
            let one = |b: bool| if b { 1int } else { 0int };
            &&& after.stats.new_count == m.stats.new_count + one(event.kind == SpotEventKind::New)
            &&& after.stats.update_count == m.stats.update_count + one(
                event.kind == SpotEventKind::Update,
            )
            &&& after.stats.withdraw_count == m.stats.withdraw_count + one(
                event.kind == SpotEventKind::Withdraw,
            )
            &&& after.activity.last().kind == event.kind
            &&& after.activity.last().dx_call == event.spot.dx_call
            &&& after.activity.last().freq_hz == event.spot.freq_hz
            &&& after.activity.last().band == event.spot.band
            &&& after.activity.last().mode == event.spot.mode
            &&& after.activity.last().timestamp == now
            &&& after.activity.last().obs_count == event.spot.observations.len()
            &&& after.activity.last().unique_originators == event.spot.unique_originators
            &&& event.spot.observations.len() > 0 ==> after.activity.last().last_spotter
                == event.spot.observations.last().originator
            &&& after.screen == m.screen && after.scroll_offset == m.scroll_offset
            &&& after.sources == m.sources && after.should_quit == m.should_quit
        }),
{
}

/// The spots that stay shown are those seen within the last five minutes.
pub proof fn lemma_recent_shown(spots: Seq<SpotModel>, now: int, spot: SpotModel)
    ensures
        recent(spots, now).contains(spot) <==> spots.contains(spot) && now - spot.last_seen < 300
            * 1_000_000_000,
    decreases spots.len(),
{
    if spots.len() > 0 {
        let init = spots.drop_last();
        let rest = recent(init, now);
        let all = recent(spots, now);
        lemma_recent_shown(init, now, spot);
        assert(spots[spots.len() - 1] == spots.last());
        if spots.contains(spot) {
            let k = choose|k: int| 0 <= k < spots.len() && spots[k] == spot;
            if k < init.len() {
                assert(init[k] == spot);
            }
        }
        if init.contains(spot) {
            let k = choose|k: int| 0 <= k < init.len() && init[k] == spot;
            assert(spots[k] == spot);
        }
        if rest.contains(spot) {
            let k = choose|k: int| 0 <= k < rest.len() && rest[k] == spot;
            assert(all[k] == spot);
        }
        if all.contains(spot) {
            let k = choose|k: int| 0 <= k < all.len() && all[k] == spot;
            if k < rest.len() {
                assert(rest[k] == spot);
            }
        }
        if now - spots.last().last_seen < 300 * 1_000_000_000 {
            assert(all[all.len() - 1] == spots.last());
        }
    }
}

/// What keys do: `q`, Ctrl-C and Esc quit, Tab shows the other list from its
/// start and shows this one again when pressed twice, one line up and one down
/// undo each other, and so do pages.
pub proof fn lemma_keys(m: AppModel, c: char, control: bool)
    ensures
        m.with_key(Key::Esc).should_quit,
        m.with_key(Key::Char { c: 'q', control }).should_quit,
        m.with_key(Key::Char { c: 'c', control: true }).should_quit,
        c != 'q' && !(c == 'c' && control) ==> m.with_key(Key::Char { c, control }) == m,
        m.with_key(Key::Other) == m,
        m.with_key(Key::Tab).screen != m.screen,
        m.with_key(Key::Tab).scroll_offset == 0,
        m.with_key(Key::Tab).with_key(Key::Tab).screen == m.screen,
        m.scroll_offset < usize::MAX ==> m.with_key(Key::Up).scroll_offset == m.scroll_offset + 1
            && m.with_key(Key::Up).with_key(Key::Down) == m,
        m.scroll_offset <= usize::MAX - 20 ==> m.with_key(Key::PageUp).scroll_offset
            == m.scroll_offset + 20 && m.with_key(Key::PageUp).with_key(Key::PageDown) == m,
        m.scroll_offset == 0 ==> m.with_key(Key::Down) == m && m.with_key(Key::PageDown) == m,
        m.with_key(Key::End).scroll_offset == 0,
        m.with_key(Key::Home).scroll_offset == usize::MAX,
{
}

/// A text that fits is shown whole, and of one that does not no more bytes are
/// shown than fit.
pub proof fn lemma_truncated_fits(s: Seq<char>, max: int)
    requires
        max >= 0,
    ensures
        encode_utf8(s).len() <= max ==> truncated(s, max) == s,
        encode_utf8(s).len() > max ==> {
            let k = boundary_below(encode_utf8(s), max);
            &&& 0 <= k <= max
            &&& truncated(s, max) == decode_utf8(encode_utf8(s).take(k))
            &&& forall|i: int| k < i <= max ==> !#[trigger] is_char_boundary(encode_utf8(s), i)
        },
{
    lemma_boundary_below(encode_utf8(s), max);
}

proof fn lemma_boundary_below(bytes: Seq<u8>, i: int)
    requires
        i >= 0,
    ensures
        0 <= boundary_below(bytes, i) <= i,
        forall|k: int|
            boundary_below(bytes, i) < k <= i ==> !#[trigger] is_char_boundary(bytes, k),
    decreases i,
{
    if i > 0 && !is_char_boundary(bytes, i) {
        lemma_boundary_below(bytes, i - 1);
    }
}

/// The cells of a spot, from left to right: a frequency that reads back, mode,
/// band, callsign, the last spotter, the ages of the first and the last report,
/// the number of observations, and the comment.
pub proof fn lemma_cells(spot: SpotModel, now: int)
    requires
        spot.observations.len() > 0,
        0 <= now - spot.first_seen < 1_000_000_000_000_000_000,
        0 <= now - spot.last_seen < 1_000_000_000_000_000_000,
    ensures
        ({
            let cells = spot_cells(spot, now);
            &&& cells.len() == 9
            &&& written_hz(cells[0]) == Some((spot.freq_hz - spot.freq_hz % 100) as u64)
            &&& cells[1] == mode_text(spot.mode)
            &&& cells[2] == band_text(spot.band)
            &&& cells[3] == spot.dx_call
            &&& cells[4] == truncated(spot.observations.last().originator, 12)
            &&& cells[5] == age_text(((now - spot.first_seen) / 1_000_000_000) as nat)
            &&& cells[6] == age_text(((now - spot.last_seen) / 1_000_000_000) as nat)
            &&& digits_value(cells[7]) == spot.observations.len()
            &&& spot.comment matches Some(c) ==> cells[8] == truncated(c, 24)
        }),
{
    lemma_shown_freq_reads_back(spot.freq_hz);
    lemma_decimal_round_trip(spot.observations.len());
}

/// A source is shown with the last state that was reported of it, and every
/// other as before.
pub proof fn lemma_source_shown(
    sources: Seq<SourceModel>,
    name: Seq<char>,
    state: StateModel,
    other: Seq<char>,
)
    requires
        other != name,
    ensures
        ({
            let after = with_source(sources, name, state);
            let k = source_at(after, name) as int;
            let q = source_at(sources, other) as int;
            &&& k < after.len() && after[k].state == state
            &&& q < sources.len() ==> source_at(after, other) == q && after[q] == sources[q]
            &&& q >= sources.len() ==> source_at(after, other) >= after.len()
        }),
{
    let after = with_source(sources, name, state);
    lemma_source_at_props(sources, name);
    lemma_source_at_props(sources, other);
    let k = source_at(sources, name) as int;
    let q = source_at(sources, other) as int;
    assert forall|i: int| 0 <= i < k implies (#[trigger] after[i]).name != name by {
        assert(after[i] == sources[i]);
    }
    lemma_source_at(after, name, k);
    assert forall|i: int| 0 <= i < q implies (#[trigger] after[i]).name != other by {
        assert(sources[i].name != other);
    }
    if q < sources.len() {
        assert(after[q] == sources[q]);
        lemma_source_at(after, other, q);
    } else {
        lemma_source_at(after, other, after.len() as int);
    }
}

proof fn lemma_source_at_props(sources: Seq<SourceModel>, name: Seq<char>)
    ensures
        source_at(sources, name) <= sources.len(),
        source_at(sources, name) < sources.len() ==> sources[source_at(
            sources,
            name,
        ) as int].name == name,
        forall|k: int| 0 <= k < source_at(sources, name) ==> (#[trigger] sources[k]).name != name,
    decreases sources.len(),
{
    if sources.len() > 0 && sources[0].name != name {
        let rest = sources.skip(1);
        lemma_source_at_props(rest, name);
        assert forall|k: int| 0 <= k < source_at(sources, name) implies (
        #[trigger] sources[k]).name != name by {
            if k > 0 {
                assert(rest[k - 1] == sources[k]);
            }
        }
    }
}

} // verus!
