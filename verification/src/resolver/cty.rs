//! CTY.DAT parser and entity resolver.
//!
//! Parses the standard cty.dat file format (from country-files.com) and
//! provides callsign-to-entity resolution via longest prefix match.

use crate::domain::Continent;
use crate::text::{
    chars_are, chars_of, find_char, first_of, parse_unsigned, split_at_char, split_char,
    split_words, string_of, trim, trimmed, unsigned_value, upper_all, words_of,
};
use vstd::hash_map::StringHashMap;
use vstd::prelude::*;
use vstd::slice::slice_subrange;
use vstd::string::*;
use vstd::utf8::is_ascii_chars;

use super::entity::{opt_entity, EntityInfo, EntityModel, EntityResolver};
use super::float_text::{float_text, is_float_text};

verus! {

// ---------------------------------------------------------------------------
// Types
// ---------------------------------------------------------------------------

/// Why cty.dat content was refused.
#[derive(Debug, PartialEq, Eq)]
pub enum CtyParseError {
    InvalidHeader(String),
    UnknownContinent(String),
}

/// What a [`CtyParseError`] stands for.
pub enum CtyErrorModel {
    InvalidHeader(Seq<char>),
    UnknownContinent(Seq<char>),
}

impl View for CtyParseError {
    type V = CtyErrorModel;

    open spec fn view(&self) -> CtyErrorModel {
        match *self {
            CtyParseError::InvalidHeader(s) => CtyErrorModel::InvalidHeader(s@),
            CtyParseError::UnknownContinent(s) => CtyErrorModel::UnknownContinent(s@),
        }
    }
}

impl CtyParseError {
    /// The error in words.
    pub fn message(&self) -> (r: String)
        ensures
            r@ == match self@ {
                CtyErrorModel::InvalidHeader(s) => "invalid entity header: "@ + s,
                CtyErrorModel::UnknownContinent(s) => "unknown continent code: "@ + s,
            },
    {
        match self {
            CtyParseError::InvalidHeader(s) => {
                "invalid entity header: ".to_owned().concat(s.as_str())
            },
            CtyParseError::UnknownContinent(s) => {
                "unknown continent code: ".to_owned().concat(s.as_str())
            },
        }
    }
}

/// What a prefix or a full callsign leads to: an entity by its position, and
/// the zones that differ from those of the entity.
#[derive(Debug, Clone, Copy, PartialEq, Eq, Structural)]
pub struct PrefixEntry {
    pub entity_idx: usize,
    pub cq_zone_override: Option<u8>,
    pub itu_zone_override: Option<u8>,
}

/// A prefix with its modifiers taken apart.
#[derive(Debug)]
pub struct ParsedPrefix {
    pub prefix: String,
    pub cq_zone_override: Option<u8>,
    pub itu_zone_override: Option<u8>,
    /// The prefix is a full callsign.
    pub exact: bool,
}

/// What a [`ParsedPrefix`] stands for.
pub struct PrefixModel {
    pub prefix: Seq<char>,
    pub cq_zone_override: Option<u8>,
    pub itu_zone_override: Option<u8>,
    pub exact: bool,
}

impl View for ParsedPrefix {
    type V = PrefixModel;

    open spec fn view(&self) -> PrefixModel {
        PrefixModel {
            prefix: self.prefix@,
            cq_zone_override: self.cq_zone_override,
            itu_zone_override: self.itu_zone_override,
            exact: self.exact,
        }
    }
}

/// What a [`CtyResolver`] knows: the entities in the order of the file, and
/// what prefixes and full callsigns lead to.
#[verifier::ext_equal]
pub struct CtyModel {
    pub entities: Seq<EntityModel>,
    pub prefixes: Map<Seq<char>, PrefixEntry>,
    pub exacts: Map<Seq<char>, PrefixEntry>,
}

/// A record of the file: the header line and the text of its prefix lines.
pub struct RecordModel {
    pub header: Seq<char>,
    pub text: Seq<char>,
}

// ---------------------------------------------------------------------------
// Upper case
// ---------------------------------------------------------------------------

/// The text in upper case, by the Unicode rules.
pub uninterp spec fn unicode_upper(s: Seq<char>) -> Seq<char>;

/// `str::to_uppercase` gives the upper-case equivalent of the text; on ASCII
/// text that is the text with its lower-case letters replaced.
#[verifier::external_body]
fn to_uppercase(s: &str) -> (r: String)
    ensures
        r@ == unicode_upper(s@),
        is_ascii_chars(s@) ==> r@ == upper_all(s@),
{
    s.to_uppercase()
}

// ---------------------------------------------------------------------------
// Headers
// ---------------------------------------------------------------------------

/// The text without any `c` at its end.
pub open spec fn without_trailing(s: Seq<char>, c: char) -> Seq<char>
    decreases s.len(),
{
    if s.len() > 0 && s.last() == c {
        without_trailing(s.drop_last(), c)
    } else {
        s
    }
}

/// The text without any `c` at its start.
pub open spec fn without_leading(s: Seq<char>, c: char) -> Seq<char>
    decreases s.len(),
{
    if s.len() > 0 && s[0] == c {
        without_leading(s.skip(1), c)
    } else {
        s
    }
}

/// The continent of a two-letter code.
pub open spec fn continent_of(code: Seq<char>) -> Option<Continent> {
    if code == "AF"@ {
        Some(Continent::AF)
    } else if code == "AN"@ {
        Some(Continent::AN)
    } else if code == "AS"@ {
        Some(Continent::AS)
    } else if code == "EU"@ {
        Some(Continent::EU)
    } else if code == "NA"@ {
        Some(Continent::NA)
    } else if code == "OC"@ {
        Some(Continent::OC)
    } else if code == "SA"@ {
        Some(Continent::SA)
    } else {
        None
    }
}

/// The number of a zone.
pub open spec fn zone_of(s: Seq<char>) -> Option<u8> {
    match unsigned_value(s, 255) {
        Some(v) => Some(v as u8),
        None => None,
    }
}

/// The entity that a header line describes:
/// `Entity Name:  CQ ITU Cont Lat Lon UTC Prefix:`.
pub open spec fn header_of(line: Seq<char>) -> Result<EntityModel, CtyErrorModel> {
    let colon = first_of(line, ':') as int;
    let f = words_of(line.skip(colon + 1));
    if colon >= line.len() || f.len() < 7 || zone_of(f[0]) is None || zone_of(f[1]) is None {
        Err(CtyErrorModel::InvalidHeader(line))
    } else if continent_of(f[2]) is None {
        Err(CtyErrorModel::UnknownContinent(f[2]))
    } else if !float_text(f[3]) || !float_text(f[4]) {
        Err(CtyErrorModel::InvalidHeader(line))
    } else {
        Ok(
            EntityModel {
                entity_name: without_leading(trimmed(line.take(colon)), '*'),
                continent: continent_of(f[2])->0,
                cq_zone: zone_of(f[0])->0,
                itu_zone: zone_of(f[1])->0,
                lat: f[3],
                lon: f[4],
                primary_prefix: without_trailing(f.last(), ':'),
            },
        )
    }
}

// ---------------------------------------------------------------------------
// Prefix modifiers
// ---------------------------------------------------------------------------

/// Where the scan of a prefix stands.
pub struct ScanModel {
    pub prefix: Seq<char>,
    pub cq: Option<u8>,
    pub itu: Option<u8>,
    pub paren: Seq<char>,
    pub bracket: Seq<char>,
    pub in_paren: bool,
    pub in_bracket: bool,
    pub in_angle: bool,
    pub in_brace: bool,
}

/// The scan before the first character.
pub open spec fn scan_start() -> ScanModel {
    ScanModel {
        prefix: Seq::empty(),
        cq: None,
        itu: None,
        paren: Seq::empty(),
        bracket: Seq::empty(),
        in_paren: false,
        in_bracket: false,
        in_angle: false,
        in_brace: false,
    }
}

/// The scan after one more character: `(..)` holds a CQ zone, `[..]` an ITU
/// zone, what `<..>` and `{..}` hold is skipped, the rest is the prefix.
pub open spec fn scan_step(s: ScanModel, c: char) -> ScanModel {
    if c == '(' {
        ScanModel { in_paren: true, paren: Seq::empty(), ..s }
    } else if c == ')' {
        ScanModel { in_paren: false, cq: zone_of(s.paren), ..s }
    } else if c == '[' {
        ScanModel { in_bracket: true, bracket: Seq::empty(), ..s }
    } else if c == ']' {
        ScanModel { in_bracket: false, itu: zone_of(s.bracket), ..s }
    } else if c == '<' {
        ScanModel { in_angle: true, ..s }
    } else if c == '>' {
        ScanModel { in_angle: false, ..s }
    } else if c == '{' {
        ScanModel { in_brace: true, ..s }
    } else if c == '}' {
        ScanModel { in_brace: false, ..s }
    } else if s.in_paren {
        ScanModel { paren: s.paren.push(c), ..s }
    } else if s.in_bracket {
        ScanModel { bracket: s.bracket.push(c), ..s }
    } else if !s.in_angle && !s.in_brace {
        ScanModel { prefix: s.prefix.push(c), ..s }
    } else {
        s
    }
}

/// The scan of a whole text.
pub open spec fn scan_of(s: Seq<char>) -> ScanModel
    decreases s.len(),
{
    if s.len() == 0 {
        scan_start()
    } else {
        scan_step(scan_of(s.drop_last()), s.last())
    }
}

/// A prefix with its modifiers: a leading `=` marks a full callsign, and what
/// follows a `~` is ignored.
pub open spec fn prefix_of(raw: Seq<char>) -> PrefixModel {
    let exact = raw.len() > 0 && raw[0] == '=';
    let s = if exact { raw.skip(1) } else { raw };
    let scan = scan_of(s.take(first_of(s, '~') as int));
    PrefixModel {
        prefix: scan.prefix,
        cq_zone_override: scan.cq,
        itu_zone_override: scan.itu,
        exact,
    }
}

// ---------------------------------------------------------------------------
// Records
// ---------------------------------------------------------------------------

/// The map with `key` leading to `entry`, unless it leads somewhere already.
pub open spec fn with_new(
    map: Map<Seq<char>, PrefixEntry>,
    key: Seq<char>,
    entry: PrefixEntry,
) -> Map<Seq<char>, PrefixEntry> {
    if map.contains_key(key) {
        map
    } else {
        map.insert(key, entry)
    }
}

/// The database with one prefix more for the entity at `idx`.
pub open spec fn with_prefix(m: CtyModel, idx: usize, raw: Seq<char>) -> CtyModel {
    let text = without_trailing(trimmed(raw), ';');
    let p = prefix_of(text);
    let key = unicode_upper(p.prefix);
    let entry = PrefixEntry {
        entity_idx: idx,
        cq_zone_override: p.cq_zone_override,
        itu_zone_override: p.itu_zone_override,
    };
    if text.len() == 0 || key.len() == 0 {
        m
    } else if p.exact {
        CtyModel { exacts: with_new(m.exacts, key, entry), ..m }
    } else {
        CtyModel { prefixes: with_new(m.prefixes, key, entry), ..m }
    }
}

/// The database with the first `n` prefixes of a list more.
pub open spec fn with_prefixes(m: CtyModel, idx: usize, list: Seq<Seq<char>>) -> CtyModel
    decreases list.len(),
{
    if list.len() == 0 {
        m
    } else {
        with_prefix(with_prefixes(m, idx, list.drop_last()), idx, list.last())
    }
}

/// The database with one record more: its entity, the primary prefix, and the
/// listed prefixes. A prefix that is taken stays with its first owner.
pub open spec fn with_record(m: CtyModel, record: RecordModel) -> Result<CtyModel, CtyErrorModel> {
    match header_of(record.header) {
        Ok(entity) => {
            let idx = m.entities.len() as usize;
            let entry = PrefixEntry {
                entity_idx: idx,
                cq_zone_override: None,
                itu_zone_override: None,
            };
            let primary = CtyModel {
                prefixes: with_new(m.prefixes, unicode_upper(entity.primary_prefix), entry),
                ..m
            };
            let listed = with_prefixes(primary, idx, split_at_char(record.text, ','));
            Ok(CtyModel { entities: m.entities.push(entity), ..listed })
        },
        Err(e) => Err(e),
    }
}

/// The database made of the records, or the first error among them.
pub open spec fn database_of(records: Seq<RecordModel>) -> Result<CtyModel, CtyErrorModel>
    decreases records.len(),
{
    if records.len() == 0 {
        Ok(
            CtyModel {
                entities: Seq::empty(),
                prefixes: Map::empty(),
                exacts: Map::empty(),
            },
        )
    } else {
        match database_of(records.drop_last()) {
            Ok(m) => with_record(m, records.last()),
            Err(e) => Err(e),
        }
    }
}

/// The records gathered so far, and the one that is open.
pub struct GatherModel {
    pub done: Seq<RecordModel>,
    pub header: Option<Seq<char>>,
    pub text: Seq<char>,
}

/// Gathering after one more line: empty lines and comments are skipped, a line
/// that does not start with a blank opens a record, any other continues it.
pub open spec fn gather_step(g: GatherModel, line: Seq<char>) -> GatherModel {
    let t = trimmed(line);
    if t.len() == 0 || t[0] == '#' {
        g
    } else if line[0] != ' ' && line[0] != '\t' {
        match g.header {
            Some(h) => GatherModel {
                done: g.done.push(RecordModel { header: h, text: g.text }),
                header: Some(t),
                text: Seq::empty(),
            },
            None => GatherModel { header: Some(t), ..g },
        }
    } else {
        GatherModel {
            text: if g.text.len() > 0 { g.text.push(' ') + t } else { t },
            ..g
        }
    }
}

/// Gathering over a list of lines.
pub open spec fn gathered(lines: Seq<Seq<char>>) -> GatherModel
    decreases lines.len(),
{
    if lines.len() == 0 {
        GatherModel { done: Seq::empty(), header: None, text: Seq::empty() }
    } else {
        gather_step(gathered(lines.drop_last()), lines.last())
    }
}

/// The records of the file.
pub open spec fn records_of(data: Seq<char>) -> Seq<RecordModel> {
    let g = gathered(split_at_char(data, '\n'));
    match g.header {
        Some(h) => g.done.push(RecordModel { header: h, text: g.text }),
        None => g.done,
    }
}

// ---------------------------------------------------------------------------
// Resolution
// ---------------------------------------------------------------------------

impl CtyModel {
    /// Every prefix and every callsign leads to an entity.
    pub open spec fn wf(&self) -> bool {
        &&& forall|k: Seq<char>| #[trigger]
            self.prefixes.contains_key(k) ==> self.prefixes[k].entity_idx < self.entities.len()
        &&& forall|k: Seq<char>| #[trigger]
            self.exacts.contains_key(k) ==> self.exacts[k].entity_idx < self.entities.len()
    }

    /// The entity that an entry leads to, in the zones of the entry.
    pub open spec fn info(&self, entry: PrefixEntry) -> EntityModel {
        let entity = self.entities[entry.entity_idx as int];
        EntityModel {
            cq_zone: match entry.cq_zone_override {
                Some(z) => z,
                None => entity.cq_zone,
            },
            itu_zone: match entry.itu_zone_override {
                Some(z) => z,
                None => entity.itu_zone,
            },
            ..entity
        }
    }

    /// Length of the longest listed prefix of `call` among those of at most
    /// `n` characters, zero where there is none.
    pub open spec fn longest_prefix(&self, call: Seq<char>, n: int) -> int
        decreases n,
    {
        if n <= 0 {
            0
        } else if self.prefixes.contains_key(call.take(n)) {
            n
        } else {
            self.longest_prefix(call, n - 1)
        }
    }

    /// The entity of an upper-case callsign: by the full callsign, else by its
    /// longest listed prefix.
    pub open spec fn resolve(&self, call: Seq<char>) -> Option<EntityModel> {
        let n = self.longest_prefix(call, call.len() as int);
        if self.exacts.contains_key(call) {
            Some(self.info(self.exacts[call]))
        } else if n > 0 {
            Some(self.info(self.prefixes[call.take(n)]))
        } else {
            None
        }
    }
}

// ---------------------------------------------------------------------------
// Laws
// ---------------------------------------------------------------------------

/// A full callsign takes precedence over every prefix.
pub proof fn lemma_exact_first(m: CtyModel, call: Seq<char>)
    requires
        m.exacts.contains_key(call),
    ensures
        m.resolve(call) == Some(m.info(m.exacts[call])),
{
}

/// No listed prefix of a callsign is longer than the one it is resolved by,
/// and a callsign is resolved exactly when it is listed or has a listed prefix.
pub proof fn lemma_longest_prefix_wins(m: CtyModel, call: Seq<char>, n: int)
    requires
        0 <= n <= call.len(),
    ensures
        0 <= m.longest_prefix(call, n) <= n,
        m.longest_prefix(call, n) > 0 ==> m.prefixes.contains_key(
            call.take(m.longest_prefix(call, n)),
        ),
        forall|k: int|
            m.longest_prefix(call, n) < k <= n ==> !m.prefixes.contains_key(
                #[trigger] call.take(k),
            ),
    decreases n,
{
    if n > 0 && !m.prefixes.contains_key(call.take(n)) {
        lemma_longest_prefix_wins(m, call, n - 1);
    }
}

/// The first definition of a prefix or callsign wins: no later one changes
/// what it leads to.
pub proof fn lemma_first_definition_wins(m: CtyModel, idx: usize, list: Seq<Seq<char>>)
    ensures
        forall|k: Seq<char>|
            m.prefixes.contains_key(k) ==> (#[trigger] with_prefixes(
                m,
                idx,
                list,
            ).prefixes.contains_key(k)) && with_prefixes(m, idx, list).prefixes[k]
                == m.prefixes[k],
        forall|k: Seq<char>|
            m.exacts.contains_key(k) ==> (#[trigger] with_prefixes(
                m,
                idx,
                list,
            ).exacts.contains_key(k)) && with_prefixes(m, idx, list).exacts[k] == m.exacts[k],
    decreases list.len(),
{
    if list.len() > 0 {
        lemma_first_definition_wins(m, idx, list.drop_last());
        let before = with_prefixes(m, idx, list.drop_last());
        let after = with_prefixes(m, idx, list);
        assert forall|k: Seq<char>| m.prefixes.contains_key(k) implies (
        #[trigger] after.prefixes.contains_key(k)) && after.prefixes[k] == m.prefixes[k] by {
            assert(before.prefixes.contains_key(k));
        }
        assert forall|k: Seq<char>| m.exacts.contains_key(k) implies (
        #[trigger] after.exacts.contains_key(k)) && after.exacts[k] == m.exacts[k] by {
            assert(before.exacts.contains_key(k));
        }
    }
}

/// Every prefix that a list adds leads to the entity it is listed for.
proof fn lemma_prefixes_lead(m: CtyModel, idx: usize, list: Seq<Seq<char>>)
    ensures
        with_prefixes(m, idx, list).entities == m.entities,
        forall|k: Seq<char>| #[trigger]
            with_prefixes(m, idx, list).prefixes.contains_key(k) && !m.prefixes.contains_key(k)
                ==> with_prefixes(m, idx, list).prefixes[k].entity_idx == idx,
        forall|k: Seq<char>| #[trigger]
            with_prefixes(m, idx, list).exacts.contains_key(k) && !m.exacts.contains_key(k)
                ==> with_prefixes(m, idx, list).exacts[k].entity_idx == idx,
    decreases list.len(),
{
    if list.len() > 0 {
        lemma_prefixes_lead(m, idx, list.drop_last());
        lemma_first_definition_wins(m, idx, list.drop_last());
    }
}

/// A later record changes neither the entities before it nor what a prefix or
/// callsign that is taken leads to, and the database stays well-formed.
pub proof fn lemma_record_extends(m: CtyModel, record: RecordModel)
    requires
        m.wf(),
        m.entities.len() < usize::MAX,
        with_record(m, record) is Ok,
    ensures
        ({
            let after = with_record(m, record)->Ok_0;
            &&& after.wf()
            &&& after.entities.len() == m.entities.len() + 1
            &&& forall|i: int|
                0 <= i < m.entities.len() ==> #[trigger] after.entities[i] == m.entities[i]
            &&& forall|k: Seq<char>|
                m.prefixes.contains_key(k) ==> (#[trigger] after.prefixes.contains_key(k))
                    && after.prefixes[k] == m.prefixes[k]
            &&& forall|k: Seq<char>|
                m.exacts.contains_key(k) ==> (#[trigger] after.exacts.contains_key(k))
                    && after.exacts[k] == m.exacts[k]
        }),
{
    let after = with_record(m, record)->Ok_0;
    let entity = header_of(record.header)->Ok_0;
    let idx = m.entities.len() as usize;
    let entry = PrefixEntry { entity_idx: idx, cq_zone_override: None, itu_zone_override: None };
    let primary = CtyModel {
        prefixes: with_new(m.prefixes, unicode_upper(entity.primary_prefix), entry),
        ..m
    };
    let list = split_at_char(record.text, ',');
    lemma_first_definition_wins(primary, idx, list);
    lemma_prefixes_lead(primary, idx, list);
    assert forall|k: Seq<char>| m.prefixes.contains_key(k) implies (
    #[trigger] after.prefixes.contains_key(k)) && after.prefixes[k] == m.prefixes[k] by {
        assert(primary.prefixes.contains_key(k));
        assert(with_prefixes(primary, idx, list).prefixes.contains_key(k));
    }
    assert forall|k: Seq<char>| m.exacts.contains_key(k) implies (
    #[trigger] after.exacts.contains_key(k)) && after.exacts[k] == m.exacts[k] by {
        assert(primary.exacts.contains_key(k));
        assert(with_prefixes(primary, idx, list).exacts.contains_key(k));
    }
    assert forall|k: Seq<char>| #[trigger] after.prefixes.contains_key(k) implies
        after.prefixes[k].entity_idx < after.entities.len() by {
        if m.prefixes.contains_key(k) {
            assert(m.prefixes[k].entity_idx < m.entities.len());
        } else if primary.prefixes.contains_key(k) {
            assert(with_prefixes(primary, idx, list).prefixes.contains_key(k));
        } else {
            assert(with_prefixes(primary, idx, list).prefixes.contains_key(k));
        }
    }
    assert forall|k: Seq<char>| #[trigger] after.exacts.contains_key(k) implies
        after.exacts[k].entity_idx < after.entities.len() by {
        if m.exacts.contains_key(k) {
            assert(m.exacts[k].entity_idx < m.entities.len());
        } else {
            assert(with_prefixes(primary, idx, list).exacts.contains_key(k));
        }
    }
}

// ---------------------------------------------------------------------------
// Parsing
// ---------------------------------------------------------------------------

/// Drop every `c` at the end.
fn trim_trailing(s: &[char], c: char) -> (r: &[char])
    ensures
        r@ == without_trailing(s@, c),
{
    let mut n: usize = s.len();
    assert(s@.take(n as int) =~= s@);
    while n > 0 && s[n - 1] == c
        invariant
            n <= s.len(),
            without_trailing(s@, c) == without_trailing(s@.take(n as int), c),
        decreases n,
    {
        assert(s@.take(n as int).drop_last() =~= s@.take(n - 1));
        n -= 1;
    }
    assert(s@.subrange(0, n as int) =~= s@.take(n as int));
    slice_subrange(s, 0, n)
}

/// Drop every `c` at the start.
fn trim_leading(s: &[char], c: char) -> (r: &[char])
    ensures
        r@ == without_leading(s@, c),
{
    let mut i: usize = 0;
    assert(s@.skip(0) =~= s@);
    while i < s.len() && s[i] == c
        invariant
            i <= s.len(),
            without_leading(s@, c) == without_leading(s@.skip(i as int), c),
        decreases s.len() - i,
    {
        assert(s@.skip(i as int).skip(1) =~= s@.skip(i + 1));
        i += 1;
    }
    assert(s@.subrange(i as int, s@.len() as int) =~= s@.skip(i as int));
    slice_subrange(s, i, s.len())
}

/// Parse the number of a zone.
fn parse_zone(s: &[char]) -> (r: Option<u8>)
    ensures
        r == zone_of(s@),
{
    match parse_unsigned(s, 255) {
        Some(v) => Some(v as u8),
        None => None,
    }
}

/// Parse a two-letter continent code.
pub fn parse_continent(code: &str) -> (r: Result<Continent, CtyParseError>)
    ensures
        match r {
            Ok(c) => continent_of(code@) == Some(c),
            Err(e) => continent_of(code@) is None && e@ == CtyErrorModel::UnknownContinent(code@),
        },
{
    let chars = chars_of(code);
    let s = chars.as_slice();
    if chars_are(s, "AF") {
        Ok(Continent::AF)
    } else if chars_are(s, "AN") {
        Ok(Continent::AN)
    } else if chars_are(s, "AS") {
        Ok(Continent::AS)
    } else if chars_are(s, "EU") {
        Ok(Continent::EU)
    } else if chars_are(s, "NA") {
        Ok(Continent::NA)
    } else if chars_are(s, "OC") {
        Ok(Continent::OC)
    } else if chars_are(s, "SA") {
        Ok(Continent::SA)
    } else {
        Err(CtyParseError::UnknownContinent(code.to_owned()))
    }
}

/// Parse a header line.
pub fn parse_header(line: &str) -> (r: Result<EntityInfo, CtyParseError>)
    ensures
        match r {
            Ok(info) => header_of(line@) == Ok::<EntityModel, CtyErrorModel>(info@),
            Err(e) => header_of(line@) == Err::<EntityModel, CtyErrorModel>(e@),
        },
{
    let chars = chars_of(line);
    let all = chars.as_slice();
    let colon: usize = find_char(all, ':');
    if colon >= all.len() {
        return Err(CtyParseError::InvalidHeader(line.to_owned()));
    }
    let rest = slice_subrange(all, colon + 1, all.len());
    assert(rest@ =~= line@.skip(colon + 1));
    let fields = split_words(rest);
    let ghost f = words_of(rest@);
    if fields.len() < 7 {
        return Err(CtyParseError::InvalidHeader(line.to_owned()));
    }
    assert(fields@[0]@ == f[0] && fields@[1]@ == f[1] && fields@[2]@ == f[2] && fields@[3]@ == f[3]
        && fields@[4]@ == f[4]);
    let primary = trim_trailing(fields[fields.len() - 1], ':');
    assert(fields@[fields@.len() - 1]@ == f.last());
    let cq_zone: u8 = match parse_zone(fields[0]) {
        Some(z) => z,
        None => {
            return Err(CtyParseError::InvalidHeader(line.to_owned()));
        },
    };
    let itu_zone: u8 = match parse_zone(fields[1]) {
        Some(z) => z,
        None => {
            return Err(CtyParseError::InvalidHeader(line.to_owned()));
        },
    };
    let continent = match parse_continent(string_of(fields[2]).as_str()) {
        Ok(c) => c,
        Err(e) => {
            return Err(e);
        },
    };
    if !is_float_text(fields[3]) || !is_float_text(fields[4]) {
        return Err(CtyParseError::InvalidHeader(line.to_owned()));
    }
    let name_part = slice_subrange(all, 0, colon);
    assert(name_part@ =~= line@.take(colon as int));
    let name = trim_leading(trim(name_part), '*');
    Ok(
        EntityInfo {
            entity_name: string_of(name),
            continent,
            cq_zone,
            itu_zone,
            lat: string_of(fields[3]),
            lon: string_of(fields[4]),
            primary_prefix: string_of(primary),
        },
    )
}

/// Take a prefix and its modifiers apart.
pub fn parse_prefix_modifiers(raw: &str) -> (r: ParsedPrefix)
    ensures
        r@ == prefix_of(raw@),
{
    let chars = chars_of(raw);
    let all = chars.as_slice();
    let exact: bool = all.len() > 0 && all[0] == '=';
    let s = if exact {
        slice_subrange(all, 1, all.len())
    } else {
        all
    };
    proof {
        if exact {
            assert(s@ =~= raw@.skip(1));
        }
    }
    // What follows a tilde (UTC override) is ignored
    let end: usize = find_char(s, '~');
    let ghost body = s@.take(end as int);
    let mut prefix = String::new();
    let mut cq_zone_override: Option<u8> = None;
    let mut itu_zone_override: Option<u8> = None;
    let mut paren: Vec<char> = Vec::new();
    let mut bracket: Vec<char> = Vec::new();
    let mut in_paren: bool = false;
    let mut in_bracket: bool = false;
    let mut in_angle: bool = false;
    let mut in_brace: bool = false;
    let mut i: usize = 0;
    assert(body.take(0).len() == 0);
    while i < end
        invariant
            i <= end,
            end <= s@.len(),
            body == s@.take(end as int),
            scan_of(body.take(i as int)) == (ScanModel {
                prefix: prefix@,
                cq: cq_zone_override,
                itu: itu_zone_override,
                paren: paren@,
                bracket: bracket@,
                in_paren,
                in_bracket,
                in_angle,
                in_brace,
            }),
        decreases end - i,
    {
        let c: char = s[i];
        proof {
            assert(body.take(i + 1).drop_last() =~= body.take(i as int));
            assert(body.take(i + 1).last() == c);
        }
        if c == '(' {
            in_paren = true;
            paren = Vec::new();
        } else if c == ')' {
            in_paren = false;
            cq_zone_override = parse_zone(paren.as_slice());
        } else if c == '[' {
            in_bracket = true;
            bracket = Vec::new();
        } else if c == ']' {
            in_bracket = false;
            itu_zone_override = parse_zone(bracket.as_slice());
        } else if c == '<' {
            in_angle = true;
        } else if c == '>' {
            in_angle = false;
        } else if c == '{' {
            in_brace = true;
        } else if c == '}' {
            in_brace = false;
        } else if in_paren {
            paren.push(c);
        } else if in_bracket {
            bracket.push(c);
        } else if !in_angle && !in_brace {
            prefix.push(c);
        }
        i += 1;
    }
    assert(body.take(i as int) =~= body);
    ParsedPrefix { prefix, cq_zone_override, itu_zone_override, exact }
}

/// Let a key lead to an entry, unless it leads somewhere already.
fn insert_new(map: &mut StringHashMap<PrefixEntry>, key: String, entry: PrefixEntry)
    ensures
        final(map)@ == with_new(old(map)@, key@, entry),
{
    if !map.contains_key(key.as_str()) {
        map.insert(key, entry);
    }
}

/// A database under construction.
struct CtyBuilder {
    entities: Vec<EntityInfo>,
    prefix_map: StringHashMap<PrefixEntry>,
    exact_map: StringHashMap<PrefixEntry>,
}

/// The views of a list of entities.
spec fn entity_models(list: Seq<EntityInfo>) -> Seq<EntityModel> {
    Seq::new(list.len(), |i: int| list[i]@)
}

impl View for CtyBuilder {
    type V = CtyModel;

    closed spec fn view(&self) -> CtyModel {
        CtyModel {
            entities: entity_models(self.entities@),
            prefixes: self.prefix_map@,
            exacts: self.exact_map@,
        }
    }
}

impl CtyBuilder {
    /// Add one prefix for the entity at `idx`.
    fn add_prefix(&mut self, idx: usize, raw: &[char])
        ensures
            final(self)@ == with_prefix(old(self)@, idx, raw@),
    {
        let text = trim_trailing(trim(raw), ';');
        if text.len() == 0 {
            return;
        }
        let parsed = parse_prefix_modifiers(string_of(text).as_str());
        let entry = PrefixEntry {
            entity_idx: idx,
            cq_zone_override: parsed.cq_zone_override,
            itu_zone_override: parsed.itu_zone_override,
        };
        let key = to_uppercase(parsed.prefix.as_str());
        if key.as_str().is_empty() {
            return;
        }
        if parsed.exact {
            insert_new(&mut self.exact_map, key, entry);
        } else {
            insert_new(&mut self.prefix_map, key, entry);
        }
    }

    /// Add one record. After an error the database is of no use.
    fn process_record(&mut self, header: &str, prefix_text: &str) -> (r: Result<(), CtyParseError>)
        requires
            old(self)@.wf(),
        ensures
            match r {
                Ok(_) => with_record(
                    old(self)@,
                    RecordModel { header: header@, text: prefix_text@ },
                ) == Ok::<CtyModel, CtyErrorModel>(final(self)@) && final(self)@.wf(),
                Err(e) => with_record(
                    old(self)@,
                    RecordModel { header: header@, text: prefix_text@ },
                ) == Err::<CtyModel, CtyErrorModel>(e@),
            },
    {
        let ghost before = self@;
        let ghost record = RecordModel { header: header@, text: prefix_text@ };
        let entity_idx: usize = self.entities.len();
        let entity = match parse_header(header) {
            Ok(entity) => entity,
            Err(e) => {
                return Err(e);
            },
        };
        insert_new(
            &mut self.prefix_map,
            to_uppercase(entity.primary_prefix.as_str()),
            PrefixEntry { entity_idx, cq_zone_override: None, itu_zone_override: None },
        );
        let ghost primary = self@;
        let text = chars_of(prefix_text);
        let list = split_char(text.as_slice(), ',');
        let ghost pieces = split_at_char(prefix_text@, ',');
        let mut i: usize = 0;
        assert(pieces.take(0).len() == 0);
        while i < list.len()
            invariant
                i <= list@.len(),
                list@.len() == pieces.len(),
                forall|k: int| 0 <= k < list@.len() ==> (#[trigger] list@[k])@ == pieces[k],
                self@ == with_prefixes(primary, entity_idx, pieces.take(i as int)),
            decreases list@.len() - i,
        {
            proof {
                assert(pieces.take(i + 1).drop_last() =~= pieces.take(i as int));
                assert(pieces.take(i + 1).last() == pieces[i as int]);
            }
            assert(list@[i as int]@ == pieces[i as int]);
            self.add_prefix(entity_idx, list[i]);
            i += 1;
        }
        assert(pieces.take(i as int) =~= pieces);
        proof {
            lemma_prefixes_lead(primary, entity_idx, pieces);
        }
        let ghost info = entity@;
        let ghost listed = self@;
        self.entities.push(entity);
        proof {
            assert(self@.entities =~= before.entities.push(info));
            assert(with_record(before, record) == Ok::<CtyModel, CtyErrorModel>(self@));
            assert(before.entities.len() == entity_idx);
            if entity_idx < usize::MAX {
                lemma_record_extends(before, record);
            } else {
                assert(self.entities@.len() > usize::MAX);
            }
        }
        Ok(())
    }
}

/// A record of the file.
struct Record {
    header: String,
    text: String,
}

/// The views of a list of records.
spec fn record_models(list: Seq<Record>) -> Seq<RecordModel> {
    Seq::new(list.len(), |i: int| RecordModel { header: list[i].header@, text: list[i].text@ })
}

/// Append a record.
fn push_record(done: &mut Vec<Record>, header: String, text: String)
    ensures
        record_models(final(done)@) == record_models(old(done)@).push(
            RecordModel { header: header@, text: text@ },
        ),
{
    let ghost before = record_models(done@);
    done.push(Record { header, text });
    assert(record_models(done@) =~= before.push(RecordModel { header: header@, text: text@ }));
}

/// Gather the lines of the file into records.
fn gather(data: &str) -> (r: Vec<Record>)
    ensures
        record_models(r@) == records_of(data@),
{
    let chars = chars_of(data);
    let lines = split_char(chars.as_slice(), '\n');
    let ghost all = split_at_char(data@, '\n');
    let mut done: Vec<Record> = Vec::new();
    let mut header: Option<String> = None;
    let mut text = String::new();
    let mut i: usize = 0;
    assert(all.take(0).len() == 0);
    assert(record_models(done@) =~= Seq::<RecordModel>::empty());
    while i < lines.len()
        invariant
            i <= lines@.len(),
            lines@.len() == all.len(),
            forall|k: int| 0 <= k < lines@.len() ==> (#[trigger] lines@[k])@ == all[k],
            gathered(all.take(i as int)) == (GatherModel {
                done: record_models(done@),
                header: crate::model::opt_text(header),
                text: text@,
            }),
        decreases lines@.len() - i,
    {
        let line = lines[i];
        proof {
            assert(all.take(i + 1).drop_last() =~= all.take(i as int));
            assert(all.take(i + 1).last() == all[i as int]);
            assert(lines@[i as int]@ == all[i as int]);
        }
        let t = trim(line);
        // Empty lines and comments are skipped
        if t.len() > 0 && t[0] != '#' {
            proof {
                if line@.len() == 0 {
                    assert(trimmed(line@).len() == 0);
                }
            }
            if line[0] != ' ' && line[0] != '\t' {
                // A header opens a record and closes the one before it
                if let Some(h) = header {
                    push_record(&mut done, h, text);
                    text = String::new();
                }
                header = Some(string_of(t));
            } else {
                if !text.as_str().is_empty() {
                    text.push(' ');
                }
                text.append(string_of(t).as_str());
                assert(text@ =~= gather_step(gathered(all.take(i as int)), line@).text);
            }
        }
        i += 1;
    }
    assert(all.take(i as int) =~= all);
    if let Some(h) = header {
        push_record(&mut done, h, text);
    }
    done
}

// ---------------------------------------------------------------------------
// CtyResolver
// ---------------------------------------------------------------------------

/// Entity resolver backed by a parsed cty.dat file.
///
/// Uses hash maps for O(1) prefix lookup and iterates from longest to
/// shortest prefix for each callsign (O(L) where L = callsign length).
pub struct CtyResolver {
    db: CtyBuilder,
}

impl View for CtyResolver {
    type V = CtyModel;

    closed spec fn view(&self) -> CtyModel {
        self.db@
    }
}

impl CtyResolver {
    /// Every prefix and every callsign leads to an entity.
    #[verifier::type_invariant]
    spec fn inv(self) -> bool {
        self.db@.wf()
    }

    /// Parse cty.dat content from a string.
    pub fn from_cty_dat(data: &str) -> (r: Result<Self, CtyParseError>)
        ensures
            match r {
                Ok(resolver) => database_of(records_of(data@)) == Ok::<CtyModel, CtyErrorModel>(
                    resolver@,
                ),
                Err(e) => database_of(records_of(data@)) == Err::<CtyModel, CtyErrorModel>(e@),
            },
    {
        let records = gather(data);
        let ghost all = records_of(data@);
        let mut db = CtyBuilder {
            entities: Vec::new(),
            prefix_map: StringHashMap::new(),
            exact_map: StringHashMap::new(),
        };
        let mut i: usize = 0;
        proof {
            assert(all.take(0).len() == 0);
            assert(db@.entities =~= Seq::<EntityModel>::empty());
        }
        while i < records.len()
            invariant
                i <= records@.len(),
                all == records_of(data@),
                record_models(records@) == all,
                database_of(all.take(i as int)) == Ok::<CtyModel, CtyErrorModel>(db@),
                db@.wf(),
            decreases records@.len() - i,
        {
            proof {
                assert(all.take(i + 1).drop_last() =~= all.take(i as int));
                assert(all.take(i + 1).last() == all[i as int]);
            }
            match db.process_record(records[i].header.as_str(), records[i].text.as_str()) {
                Ok(_) => {},
                Err(e) => {
                    proof {
                        lemma_error_stays(all, i as int);
                    }
                    return Err(e);
                },
            }
            i += 1;
        }
        assert(all.take(i as int) =~= all);
        Ok(CtyResolver { db })
    }

    /// Number of DXCC entities loaded.
    pub fn entity_count(&self) -> (r: usize)
        ensures
            r == self@.entities.len(),
    {
        self.db.entities.len()
    }

    /// Number of prefixes (including exact matches) loaded.
    pub fn prefix_count(&self) -> (r: usize)
        ensures
            r == (if self@.prefixes.len() + self@.exacts.len() <= usize::MAX {
                (self@.prefixes.len() + self@.exacts.len()) as usize
            } else {
                usize::MAX
            }),
    {
        self.db.prefix_map.len().saturating_add(self.db.exact_map.len())
    }

    /// The entity that an entry leads to, in the zones of the entry.
    fn build_info(&self, entry: &PrefixEntry) -> (r: EntityInfo)
        requires
            entry.entity_idx < self@.entities.len(),
        ensures
            r@ == self@.info(*entry),
    {
        let entity = &self.db.entities[entry.entity_idx];
        EntityInfo {
            entity_name: entity.entity_name.clone(),
            continent: entity.continent,
            cq_zone: entry.cq_zone_override.unwrap_or(entity.cq_zone),
            itu_zone: entry.itu_zone_override.unwrap_or(entity.itu_zone),
            lat: entity.lat.clone(),
            lon: entity.lon.clone(),
            primary_prefix: entity.primary_prefix.clone(),
        }
    }

    /// Resolve a callsign that is in upper case.
    pub fn resolve_uppercase(&self, call: &str) -> (r: Option<EntityInfo>)
        ensures
            opt_entity(r) == self@.resolve(call@),
    {
        proof {
            use_type_invariant(self);
        }
        // Full callsigns first
        if let Some(entry) = self.db.exact_map.get(call) {
            return Some(self.build_info(entry));
        }
        // Then progressively shorter prefixes
        let mut n: usize = call.unicode_len();
        while n > 0
            invariant
                n <= call@.len(),
                self@.wf(),
                !self@.exacts.contains_key(call@),
                self@.longest_prefix(call@, call@.len() as int) == self@.longest_prefix(
                    call@,
                    n as int,
                ),
            decreases n,
        {
            assert(call@.subrange(0, n as int) =~= call@.take(n as int));
            if let Some(entry) = self.db.prefix_map.get(call.substring_char(0, n)) {
                return Some(self.build_info(entry));
            }
            n -= 1;
        }
        None
    }
}

/// An error among the first records is the outcome.
proof fn lemma_error_stays(records: Seq<RecordModel>, i: int)
    requires
        0 <= i < records.len(),
        database_of(records.take(i + 1)) is Err,
    ensures
        database_of(records) == database_of(records.take(i + 1)),
    decreases records.len(),
{
    if i + 1 == records.len() {
        assert(records.take(i + 1) =~= records);
    } else {
        let init = records.drop_last();
        assert(init.take(i + 1) =~= records.take(i + 1));
        lemma_error_stays(init, i);
    }
}

impl EntityResolver for CtyResolver {
    open spec fn may_answer(&self, callsign: Seq<char>, answer: Option<EntityModel>) -> bool {
        answer == self@.resolve(unicode_upper(callsign))
    }

    fn resolve(&self, callsign: &str) -> (r: Option<EntityInfo>)
        ensures
            opt_entity(r) == self@.resolve(unicode_upper(callsign@)),
            is_ascii_chars(callsign@) ==> opt_entity(r) == self@.resolve(upper_all(callsign@)),
    {
        let call = to_uppercase(callsign);
        self.resolve_uppercase(call.as_str())
    }
}

} // verus!
