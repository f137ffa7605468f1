//! What the cty.dat reader makes of a text.

use crate::domain::Continent;
use crate::text::{
    all_digits, digit, digits_value, first_of, lemma_first_of, lower_all, space, split_at_char,
    trimmed, words_of,
};
use vstd::prelude::*;
use vstd::string::*;

use super::cty::{
    continent_of, gathered, header_of, lemma_first_definition_wins, lemma_longest_prefix_wins,
    prefix_of, records_of, scan_of, scan_step, unicode_upper, with_new, with_prefix, with_prefixes,
    with_record, without_leading, without_trailing, zone_of, CtyErrorModel, CtyModel, PrefixEntry,
    PrefixModel, RecordModel, ScanModel,
};
use super::entity::EntityModel;
use super::float_text::{exponent_at, float_text, mantissa_text, unsigned_part};

verus! {

// ---------------------------------------------------------------------------
// Prefixes
// ---------------------------------------------------------------------------

/// No character of the text opens, closes or ends a modifier.
pub open spec fn plain(s: Seq<char>) -> bool {
    forall|i: int|
        0 <= i < s.len() ==> {
            let c = #[trigger] s[i];
            c != '(' && c != ')' && c != '[' && c != ']' && c != '<' && c != '>' && c != '{' && c
                != '}' && c != '~'
        }
}

/// The digits of a zone.
pub open spec fn zone_digits(s: Seq<char>) -> bool {
    s.len() > 0 && all_digits(s) && digits_value(s) <= 255
}

/// A prefix begins the text: nothing else is a modifier, nor marks a full callsign.
pub open spec fn plain_prefix(s: Seq<char>) -> bool {
    s.len() > 0 && plain(s) && s[0] != '='
}

/// The scan stands outside every modifier.
spec fn settled(s: ScanModel) -> bool {
    !s.in_paren && !s.in_bracket && !s.in_angle && !s.in_brace
}

proof fn lemma_scan_push(a: Seq<char>, c: char)
    ensures
        scan_of(a.push(c)) == scan_step(scan_of(a), c),
{
    assert(a.push(c).drop_last() =~= a);
}

/// Plain text goes where the scan stands.
proof fn lemma_scan_plain(a: Seq<char>, p: Seq<char>)
    requires
        plain(p),
    ensures
        ({
            let before = scan_of(a);
            let after = scan_of(a + p);
            &&& after.cq == before.cq && after.itu == before.itu
            &&& after.in_paren == before.in_paren && after.in_bracket == before.in_bracket
            &&& after.in_angle == before.in_angle && after.in_brace == before.in_brace
            &&& after.prefix == if settled(before) { before.prefix + p } else { before.prefix }
            &&& after.paren == if before.in_paren { before.paren + p } else { before.paren }
            &&& after.bracket == if before.in_bracket && !before.in_paren {
                before.bracket + p
            } else {
                before.bracket
            }
        }),
    decreases p.len(),
{
    let before = scan_of(a);
    if p.len() == 0 {
        assert(a + p =~= a);
        assert(before.prefix + p =~= before.prefix);
        assert(before.paren + p =~= before.paren);
        assert(before.bracket + p =~= before.bracket);
    } else {
        let init = p.drop_last();
        let c = p.last();
        assert(p[p.len() - 1] == c);
        assert forall|i: int| 0 <= i < init.len() implies {
            let c = #[trigger] init[i];
            c != '(' && c != ')' && c != '[' && c != ']' && c != '<' && c != '>' && c != '{' && c
                != '}' && c != '~'
        } by {
            assert(init[i] == p[i]);
        }
        lemma_scan_plain(a, init);
        assert(a + p =~= (a + init).push(c));
        lemma_scan_push(a + init, c);
        assert(before.prefix + p =~= (before.prefix + init).push(c));
        assert(before.paren + p =~= (before.paren + init).push(c));
        assert(before.bracket + p =~= (before.bracket + init).push(c));
    }
}

/// A text in brackets of some kind behind a settled scan.
proof fn lemma_scan_modifier(a: Seq<char>, open_c: char, inner: Seq<char>, close_c: char)
    requires
        settled(scan_of(a)),
        plain(inner),
        (open_c == '(' && close_c == ')') || (open_c == '[' && close_c == ']') || (open_c == '<'
            && close_c == '>') || (open_c == '{' && close_c == '}'),
    ensures
        ({
            let before = scan_of(a);
            let after = scan_of(a + seq![open_c] + inner + seq![close_c]);
            &&& settled(after)
            &&& after.prefix == before.prefix
            &&& after.cq == if open_c == '(' { zone_of(inner) } else { before.cq }
            &&& after.itu == if open_c == '[' { zone_of(inner) } else { before.itu }
        }),
{
    let opened = a.push(open_c);
    assert(a + seq![open_c] =~= opened);
    lemma_scan_push(a, open_c);
    lemma_scan_plain(opened, inner);
    assert(Seq::<char>::empty() + inner =~= inner);
    let all = opened + inner;
    assert(all + seq![close_c] =~= all.push(close_c));
    lemma_scan_push(all, close_c);
}

/// The scan of a plain text.
proof fn lemma_scan_from_start(p: Seq<char>)
    requires
        plain(p),
    ensures
        settled(scan_of(p)),
        scan_of(p).prefix == p,
        scan_of(p).cq is None,
        scan_of(p).itu is None,
{
    lemma_scan_plain(Seq::empty(), p);
    assert(Seq::<char>::empty() + p =~= p);
}

/// A text that is neither cut short nor marked is scanned whole.
proof fn lemma_prefix_whole(raw: Seq<char>)
    requires
        raw.len() > 0,
        raw[0] != '=',
        forall|i: int| 0 <= i < raw.len() ==> #[trigger] raw[i] != '~',
    ensures
        prefix_of(raw) == (PrefixModel {
            prefix: scan_of(raw).prefix,
            cq_zone_override: scan_of(raw).cq,
            itu_zone_override: scan_of(raw).itu,
            exact: false,
        }),
{
    lemma_first_of(raw, '~', raw.len() as int);
    assert(raw.take(raw.len() as int) =~= raw);
}

/// Digits up to 255 are the number of a zone.
proof fn lemma_zone_digits(d: Seq<char>)
    requires
        zone_digits(d),
    ensures
        zone_of(d) == Some(digits_value(d) as u8),
        plain(d),
        forall|i: int| 0 <= i < d.len() ==> #[trigger] d[i] != '~',
{
    assert(digit(d[0]));
    assert forall|i: int| 0 <= i < d.len() implies {
        let c = #[trigger] d[i];
        c != '(' && c != ')' && c != '[' && c != ']' && c != '<' && c != '>' && c != '{' && c
            != '}' && c != '~'
    } by {
        assert(digit(d[i]));
    }
}

/// A prefix without modifiers is itself, in the zones of its entity.
pub proof fn lemma_bare_prefix(p: Seq<char>)
    requires
        plain_prefix(p),
    ensures
        prefix_of(p) == (PrefixModel {
            prefix: p,
            cq_zone_override: None,
            itu_zone_override: None,
            exact: false,
        }),
{
    lemma_scan_from_start(p);
    lemma_prefix_whole(p);
}

/// Digits in parentheses behind a prefix are its CQ zone, all of them.
pub proof fn lemma_cq_zone_read(p: Seq<char>, zone: Seq<char>)
    requires
        plain_prefix(p),
        zone_digits(zone),
    ensures
        prefix_of(p + seq!['('] + zone + seq![')']) == (PrefixModel {
            prefix: p,
            cq_zone_override: Some(digits_value(zone) as u8),
            itu_zone_override: None,
            exact: false,
        }),
{
    lemma_scan_from_start(p);
    lemma_zone_digits(zone);
    lemma_scan_modifier(p, '(', zone, ')');
    let raw = p + seq!['('] + zone + seq![')'];
    assert(raw[0] == p[0]);
    lemma_prefix_whole(raw);
}

/// Digits in brackets behind a prefix are its ITU zone, all of them.
pub proof fn lemma_itu_zone_read(p: Seq<char>, zone: Seq<char>)
    requires
        plain_prefix(p),
        zone_digits(zone),
    ensures
        prefix_of(p + seq!['['] + zone + seq![']']) == (PrefixModel {
            prefix: p,
            cq_zone_override: None,
            itu_zone_override: Some(digits_value(zone) as u8),
            exact: false,
        }),
{
    lemma_scan_from_start(p);
    lemma_zone_digits(zone);
    lemma_scan_modifier(p, '[', zone, ']');
    let raw = p + seq!['['] + zone + seq![']'];
    assert(raw[0] == p[0]);
    lemma_prefix_whole(raw);
}

/// Both zones behind a prefix are read, each as its own.
pub proof fn lemma_both_zones_read(p: Seq<char>, cq: Seq<char>, itu: Seq<char>)
    requires
        plain_prefix(p),
        zone_digits(cq),
        zone_digits(itu),
    ensures
        prefix_of(p + seq!['('] + cq + seq![')'] + seq!['['] + itu + seq![']']) == (PrefixModel {
            prefix: p,
            cq_zone_override: Some(digits_value(cq) as u8),
            itu_zone_override: Some(digits_value(itu) as u8),
            exact: false,
        }),
{
    lemma_scan_from_start(p);
    lemma_zone_digits(cq);
    lemma_zone_digits(itu);
    lemma_scan_modifier(p, '(', cq, ')');
    let first = p + seq!['('] + cq + seq![')'];
    lemma_scan_modifier(first, '[', itu, ']');
    let raw = first + seq!['['] + itu + seq![']'];
    assert(raw[0] == p[0]);
    lemma_prefix_whole(raw);
}

/// What stands in angle brackets or braces behind a prefix is passed over.
pub proof fn lemma_other_modifiers_skipped(p: Seq<char>, inner: Seq<char>)
    requires
        plain_prefix(p),
        plain(inner),
    ensures
        prefix_of(p + seq!['<'] + inner + seq!['>']) == prefix_of(p),
        prefix_of(p + seq!['{'] + inner + seq!['}']) == prefix_of(p),
{
    lemma_scan_from_start(p);
    lemma_bare_prefix(p);
    lemma_scan_modifier(p, '<', inner, '>');
    lemma_scan_modifier(p, '{', inner, '}');
    let angle = p + seq!['<'] + inner + seq!['>'];
    let brace = p + seq!['{'] + inner + seq!['}'];
    assert(angle[0] == p[0] && brace[0] == p[0]);
    lemma_prefix_whole(angle);
    lemma_prefix_whole(brace);
}

/// An equals sign in front marks a full callsign and changes nothing else.
pub proof fn lemma_equals_marks_exact(raw: Seq<char>)
    requires
        raw.len() > 0,
        raw[0] != '=',
    ensures
        prefix_of(seq!['='] + raw) == (PrefixModel { exact: true, ..prefix_of(raw) }),
        !prefix_of(raw).exact,
{
    let marked = seq!['='] + raw;
    assert(marked.skip(1) =~= raw);
}

/// What follows a tilde is passed over.
pub proof fn lemma_tilde_ends(raw: Seq<char>, rest: Seq<char>)
    requires
        raw.len() > 0,
        raw[0] != '=',
        forall|i: int| 0 <= i < raw.len() ==> #[trigger] raw[i] != '~',
    ensures
        prefix_of(raw + seq!['~'] + rest) == prefix_of(raw),
{
    let all = raw + seq!['~'] + rest;
    assert forall|k: int| 0 <= k < raw.len() implies all[k] != '~' by {
        assert(all[k] == raw[k]);
    }
    assert(all[0] == raw[0]);
    lemma_first_of(all, '~', raw.len() as int);
    assert(all.take(raw.len() as int) =~= raw);
    lemma_first_of(raw, '~', raw.len() as int);
    assert(raw.take(raw.len() as int) =~= raw);
}

// ---------------------------------------------------------------------------
// Headers
// ---------------------------------------------------------------------------

/// The codes of the continents, and no others.
pub proof fn lemma_continents(code: Seq<char>)
    ensures
        continent_of(code) == Some(Continent::AF) <==> code == seq!['A', 'F'],
        continent_of(code) == Some(Continent::AN) <==> code == seq!['A', 'N'],
        continent_of(code) == Some(Continent::AS) <==> code == seq!['A', 'S'],
        continent_of(code) == Some(Continent::EU) <==> code == seq!['E', 'U'],
        continent_of(code) == Some(Continent::NA) <==> code == seq!['N', 'A'],
        continent_of(code) == Some(Continent::OC) <==> code == seq!['O', 'C'],
        continent_of(code) == Some(Continent::SA) <==> code == seq!['S', 'A'],
        continent_of(code) != Some(Continent::Unknown),
{
    reveal_strlit("AF");
    reveal_strlit("AN");
    reveal_strlit("AS");
    reveal_strlit("EU");
    reveal_strlit("NA");
    reveal_strlit("OC");
    reveal_strlit("SA");
    assert("AF"@ =~= seq!['A', 'F']);
    assert("AN"@ =~= seq!['A', 'N']);
    assert("AS"@ =~= seq!['A', 'S']);
    assert("EU"@ =~= seq!['E', 'U']);
    assert("NA"@ =~= seq!['N', 'A']);
    assert("OC"@ =~= seq!['O', 'C']);
    assert("SA"@ =~= seq!['S', 'A']);
    assert(seq!['A', 'F'][1] != seq!['A', 'N'][1]);
    assert(seq!['A', 'F'][1] != seq!['A', 'S'][1]);
    assert(seq!['A', 'N'][1] != seq!['A', 'S'][1]);
    assert(seq!['A', 'F'][0] != seq!['E', 'U'][0]);
    assert(seq!['A', 'N'][0] != seq!['E', 'U'][0]);
    assert(seq!['A', 'S'][0] != seq!['E', 'U'][0]);
    assert(seq!['N', 'A'][0] == 'N');
    assert(seq!['O', 'C'][0] == 'O');
    assert(seq!['S', 'A'][0] == 'S');
    assert(seq!['E', 'U'][0] == 'E');
    assert(seq!['A', 'F'][0] == 'A' && seq!['A', 'N'][0] == 'A' && seq!['A', 'S'][0] == 'A');
}

/// A header line with a name that is shown in some way.
proof fn lemma_header_shown(
    shown: Seq<char>,
    name: Seq<char>,
    fields: Seq<char>,
    f: Seq<Seq<char>>,
    continent: Continent,
    prefix: Seq<char>,
)
    requires
        without_leading(trimmed(shown), '*') == name,
        !shown.contains(':'),
        words_of(fields) == f,
        f.len() >= 7,
        zone_digits(f[0]),
        zone_digits(f[1]),
        continent_of(f[2]) == Some(continent),
        float_text(f[3]),
        float_text(f[4]),
        f.last() == prefix.push(':'),
        prefix.len() > 0,
        prefix.last() != ':',
    ensures
        header_of(shown + seq![':'] + fields) == Ok::<EntityModel, CtyErrorModel>(
            EntityModel {
                entity_name: name,
                continent,
                cq_zone: digits_value(f[0]) as u8,
                itu_zone: digits_value(f[1]) as u8,
                lat: f[3],
                lon: f[4],
                primary_prefix: prefix,
            },
        ),
{
    let line = shown + seq![':'] + fields;
    let n = shown.len() as int;
    assert forall|k: int| 0 <= k < n implies line[k] != ':' by {
        assert(line[k] == shown[k]);
        assert(shown.contains(shown[k]));
    }
    lemma_first_of(line, ':', n);
    assert(line.take(n) =~= shown);
    assert(line.skip(n + 1) =~= fields);
    lemma_zone_digits(f[0]);
    lemma_zone_digits(f[1]);
    assert(f.last().drop_last() =~= prefix);
    assert(without_trailing(f.last(), ':') == without_trailing(prefix, ':'));
}

/// A header line says what was put into it: behind the name and a colon the CQ
/// zone, the ITU zone, the continent, latitude, longitude, at least one field
/// more, and at last the primary prefix with a colon. A star in front of the
/// name is no part of it.
pub proof fn lemma_header_read(
    name: Seq<char>,
    fields: Seq<char>,
    f: Seq<Seq<char>>,
    continent: Continent,
    prefix: Seq<char>,
)
    requires
        name.len() > 0,
        !space(name[0]),
        !space(name.last()),
        name[0] != '*',
        !name.contains(':'),
        words_of(fields) == f,
        f.len() >= 7,
        zone_digits(f[0]),
        zone_digits(f[1]),
        continent_of(f[2]) == Some(continent),
        float_text(f[3]),
        float_text(f[4]),
        f.last() == prefix.push(':'),
        prefix.len() > 0,
        prefix.last() != ':',
    ensures
        ({
            let entity = EntityModel {
                entity_name: name,
                continent,
                cq_zone: digits_value(f[0]) as u8,
                itu_zone: digits_value(f[1]) as u8,
                lat: f[3],
                lon: f[4],
                primary_prefix: prefix,
            };
            &&& header_of(name + seq![':'] + fields) == Ok::<EntityModel, CtyErrorModel>(entity)
            &&& header_of(seq!['*'] + name + seq![':'] + fields) == Ok::<
                EntityModel,
                CtyErrorModel,
            >(entity)
        }),
{
    let starred = seq!['*'] + name;
    assert(trimmed(name) == name);
    assert(starred[0] == '*');
    assert(starred.last() == name.last());
    assert(trimmed(starred) == starred);
    assert(starred.skip(1) =~= name);
    assert(without_leading(name, '*') == name);
    assert(without_leading(starred, '*') == without_leading(starred.skip(1), '*'));
    assert(!starred.contains(':')) by {
        if starred.contains(':') {
            let k = choose|k: int| 0 <= k < starred.len() && starred[k] == ':';
            assert(starred[k] == name[k - 1]);
            assert(name.contains(name[k - 1]));
        }
    }
    lemma_header_shown(name, name, fields, f, continent, prefix);
    lemma_header_shown(starred, name, fields, f, continent, prefix);
}

// ---------------------------------------------------------------------------
// Entries and entities
// ---------------------------------------------------------------------------

/// A listed prefix with a zone leads to the entity that it is listed for, in
/// that zone, where nothing was listed for it before.
pub proof fn lemma_listed_zone(m: CtyModel, idx: usize, p: Seq<char>, zone: Seq<char>)
    requires
        plain_prefix(p),
        zone_digits(zone),
        !space(p[0]),
        unicode_upper(p).len() > 0,
        !m.prefixes.contains_key(unicode_upper(p)),
    ensures
        ({
            let after = with_prefix(m, idx, p + seq!['('] + zone + seq![')']);
            let key = unicode_upper(p);
            &&& after.prefixes.contains_key(key)
            &&& after.prefixes[key].entity_idx == idx
            &&& after.prefixes[key].cq_zone_override == Some(digits_value(zone) as u8)
            &&& after.prefixes[key].itu_zone_override is None
            &&& after.exacts == m.exacts
            &&& after.entities == m.entities
        }),
{
    let raw = p + seq!['('] + zone + seq![')'];
    assert(raw[0] == p[0]);
    assert(raw.last() == ')');
    assert(trimmed(raw) == raw);
    assert(without_trailing(raw, ';') == raw);
    lemma_cq_zone_read(p, zone);
}

/// What a callsign is resolved to is the entity of the entry it leads to, with
/// every field of that entity, but in the zones that the entry gives.
pub proof fn lemma_resolved_fields(m: CtyModel, entry: PrefixEntry)
    requires
        entry.entity_idx < m.entities.len(),
    ensures
        ({
            let e = m.entities[entry.entity_idx as int];
            let info = m.info(entry);
            &&& info.entity_name == e.entity_name
            &&& info.continent == e.continent
            &&& info.lat == e.lat
            &&& info.lon == e.lon
            &&& info.primary_prefix == e.primary_prefix
            &&& entry.cq_zone_override is None ==> info.cq_zone == e.cq_zone
            &&& entry.cq_zone_override matches Some(z) ==> info.cq_zone == z
            &&& entry.itu_zone_override is None ==> info.itu_zone == e.itu_zone
            &&& entry.itu_zone_override matches Some(z) ==> info.itu_zone == z
        }),
{
}

/// A callsign that is not listed in full is resolved by the longest listed
/// prefix: by `call.take(n)` where that is listed and no longer one is, and not
/// at all where no prefix of it is listed.
pub proof fn lemma_resolved_by_longest(m: CtyModel, call: Seq<char>, n: int)
    requires
        !m.exacts.contains_key(call),
        0 <= n <= call.len(),
        n > 0 ==> m.prefixes.contains_key(call.take(n)),
        forall|k: int| n < k <= call.len() ==> !m.prefixes.contains_key(#[trigger] call.take(k)),
    ensures
        n > 0 ==> m.resolve(call) == Some(m.info(m.prefixes[call.take(n)])),
        n == 0 ==> m.resolve(call) is None,
{
    lemma_longest_prefix_wins(m, call, call.len() as int);
    let got = m.longest_prefix(call, call.len() as int);
    if got > n {
        assert(m.prefixes.contains_key(call.take(got)));
    }
    if got < n {
        assert(!m.prefixes.contains_key(call.take(n)));
    }
}

// ---------------------------------------------------------------------------
// Lines
// ---------------------------------------------------------------------------

/// How lines make records: a blank line or a comment adds nothing, a line that
/// begins with a blank or a tab goes on with the record before it, and any other
/// line begins a record and closes the one before it.
pub proof fn lemma_gathering(lines: Seq<Seq<char>>, line: Seq<char>)
    ensures
        ({
            let before = gathered(lines);
            let after = gathered(lines.push(line));
            let text = trimmed(line);
            &&& text.len() == 0 ==> after == before
            &&& text.len() > 0 && text[0] == '#' ==> after == before
            &&& text.len() > 0 && text[0] != '#' && (line[0] == ' ' || line[0] == '\t') ==> {
                &&& after.done == before.done
                &&& after.header == before.header
                &&& after.text == if before.text.len() == 0 {
                    text
                } else {
                    before.text + seq![' '] + text
                }
            }
            &&& text.len() > 0 && text[0] != '#' && line[0] != ' ' && line[0] != '\t' ==> {
                &&& after.header == Some(text)
                &&& before.header matches Some(h) ==> after.done == before.done.push(
                    RecordModel { header: h, text: before.text },
                ) && after.text.len() == 0
                &&& before.header is None ==> after.done == before.done
            }
        }),
{
    assert(lines.push(line).drop_last() =~= lines);
    let before = gathered(lines);
    assert(before.text.push(' ') =~= before.text + seq![' ']);
}

/// A listed text leads to the entity that it is listed for, in the zones that it
/// gives, where nothing was listed for it before: among the full callsigns if it
/// is marked so, among the prefixes otherwise, and nowhere else.
pub proof fn lemma_listed(m: CtyModel, idx: usize, raw: Seq<char>)
    requires
        raw.len() > 0,
        !space(raw[0]),
        !space(raw.last()),
        raw.last() != ';',
        unicode_upper(prefix_of(raw).prefix).len() > 0,
    ensures
        ({
            let p = prefix_of(raw);
            let key = unicode_upper(p.prefix);
            let after = with_prefix(m, idx, raw);
            let entry = PrefixEntry {
                entity_idx: idx,
                cq_zone_override: p.cq_zone_override,
                itu_zone_override: p.itu_zone_override,
            };
            &&& p.exact ==> after.prefixes == m.prefixes && after.exacts.contains_key(key) && (
            !m.exacts.contains_key(key) ==> after.exacts[key] == entry)
            &&& !p.exact ==> after.exacts == m.exacts && after.prefixes.contains_key(key) && (
            !m.prefixes.contains_key(key) ==> after.prefixes[key] == entry)
            &&& after.entities == m.entities
            &&& with_prefix(m, idx, raw.push(';')) == after
        }),
{
    assert(trimmed(raw) == raw);
    assert(without_trailing(raw, ';') == raw);
    let ended = raw.push(';');
    assert(ended[0] == raw[0]);
    assert(trimmed(ended) == ended);
    assert(ended.drop_last() =~= raw);
    assert(without_trailing(ended, ';') == without_trailing(ended.drop_last(), ';'));
}

/// A record adds its entity behind those before it, and leads its primary prefix
/// to it, in its own zones, where nothing was listed for that before.
pub proof fn lemma_record_adds(m: CtyModel, record: RecordModel, entity: EntityModel)
    requires
        header_of(record.header) == Ok::<EntityModel, CtyErrorModel>(entity),
        m.entities.len() < usize::MAX,
    ensures
        ({
            let key = unicode_upper(entity.primary_prefix);
            &&& with_record(m, record) is Ok
            &&& (with_record(m, record)->Ok_0).entities == m.entities.push(entity)
            &&& (with_record(m, record)->Ok_0).prefixes.contains_key(key)
            &&& !m.prefixes.contains_key(key) ==> (with_record(m, record)->Ok_0).prefixes[key] == (
            PrefixEntry {
                entity_idx: m.entities.len() as usize,
                cq_zone_override: None,
                itu_zone_override: None,
            })
        }),
{
    let idx = m.entities.len() as usize;
    let entry = PrefixEntry { entity_idx: idx, cq_zone_override: None, itu_zone_override: None };
    let primary = CtyModel {
        prefixes: with_new(m.prefixes, unicode_upper(entity.primary_prefix), entry),
        ..m
    };
    let list = split_at_char(record.text, ',');
    lemma_first_definition_wins(primary, idx, list);
    lemma_entities_kept(primary, idx, list);
    assert(primary.prefixes.contains_key(unicode_upper(entity.primary_prefix)));
}

proof fn lemma_entities_kept(m: CtyModel, idx: usize, list: Seq<Seq<char>>)
    ensures
        with_prefixes(m, idx, list).entities == m.entities,
    decreases list.len(),
{
    if list.len() > 0 {
        lemma_entities_kept(m, idx, list.drop_last());
    }
}

/// The last record of a text is closed by its end, and none is made up.
pub proof fn lemma_last_record(data: Seq<char>)
    ensures
        ({
            let g = gathered(split_at_char(data, '\n'));
            &&& g.header matches Some(h) ==> records_of(data) == g.done.push(
                RecordModel { header: h, text: g.text },
            )
            &&& g.header is None ==> records_of(data) == g.done
        }),
{
}

/// Degrees are read with or without a sign and decimals; nothing, a point alone
/// and a sign alone are no number.
pub proof fn lemma_degrees(whole: Seq<char>, decimals: Seq<char>)
    requires
        whole.len() > 0,
        all_digits(whole),
        all_digits(decimals),
    ensures
        float_text(whole),
        float_text(whole + seq!['.'] + decimals),
        float_text(seq!['-'] + (whole + seq!['.'] + decimals)),
        float_text(seq!['-'] + whole),
        !float_text(Seq::empty()),
        !float_text(seq!['.']),
        !float_text(seq!['-']),
{
    reveal_strlit("inf");
    reveal_strlit("infinity");
    reveal_strlit("nan");
    let point = whole + seq!['.'] + decimals;
    let none = Seq::<char>::empty();
    lemma_digits_mantissa(whole);
    lemma_point_mantissa(whole, decimals);
    lemma_no_exponent(whole);
    lemma_no_exponent(point);
    assert(digit(whole[0]));
    assert(point[0] == whole[0]);
    assert(unsigned_part(whole) == whole);
    assert(unsigned_part(point) == point);
    assert((seq!['-'] + point).skip(1) =~= point);
    assert((seq!['-'] + whole).skip(1) =~= whole);
    assert(whole.take(whole.len() as int) =~= whole);
    assert(point.take(point.len() as int) =~= point);
    // Texts that write no number
    lemma_no_exponent(none);
    lemma_no_exponent(seq!['.']);
    assert(none.take(0) =~= none);
    assert(seq!['.'].take(1) =~= seq!['.']);
    assert(seq!['-'].skip(1) =~= none);
    assert(lower_all(none).len() == 0);
    assert(lower_all(seq!['.']).len() == 1);
    assert(lower_all("inf"@).len() == 3 && lower_all("infinity"@).len() == 8 && lower_all(
        "nan"@,
    ).len() == 3);
    assert(first_of(none, '.') == 0);
    assert(!mantissa_text(none));
    lemma_first_of(seq!['.'], '.', 0);
    assert(!mantissa_text(seq!['.']));
}

proof fn lemma_no_exponent(s: Seq<char>)
    requires
        forall|i: int| 0 <= i < s.len() ==> #[trigger] s[i] != 'e' && s[i] != 'E',
    ensures
        exponent_at(s) == s.len(),
    decreases s.len(),
{
    if s.len() > 0 {
        let rest = s.skip(1);
        assert(s[0] != 'e' && s[0] != 'E');
        assert forall|i: int| 0 <= i < rest.len() implies #[trigger] rest[i] != 'e' && rest[i]
            != 'E' by {
            assert(rest[i] == s[i + 1]);
        }
        lemma_no_exponent(rest);
    }
}

proof fn lemma_digits_mantissa(whole: Seq<char>)
    requires
        whole.len() > 0,
        all_digits(whole),
    ensures
        mantissa_text(whole),
        forall|i: int| 0 <= i < whole.len() ==> #[trigger] whole[i] != 'e' && whole[i] != 'E',
{
    assert forall|k: int| 0 <= k < whole.len() implies whole[k] != '.' by {
        assert(digit(whole[k]));
    }
    lemma_first_of(whole, '.', whole.len() as int);
    assert forall|i: int| 0 <= i < whole.len() implies #[trigger] whole[i] != 'e' && whole[i]
        != 'E' by {
        assert(digit(whole[i]));
    }
}

proof fn lemma_point_mantissa(whole: Seq<char>, decimals: Seq<char>)
    requires
        whole.len() > 0,
        all_digits(whole),
        all_digits(decimals),
    ensures
        mantissa_text(whole + seq!['.'] + decimals),
        forall|i: int|
            0 <= i < (whole + seq!['.'] + decimals).len() ==> #[trigger] (whole + seq!['.']
                + decimals)[i] != 'e' && (whole + seq!['.'] + decimals)[i] != 'E',
{
    let s = whole + seq!['.'] + decimals;
    let n = whole.len() as int;
    assert forall|k: int| 0 <= k < n implies s[k] != '.' by {
        assert(s[k] == whole[k]);
        assert(digit(whole[k]));
    }
    lemma_first_of(s, '.', n);
    assert(s.take(n) =~= whole);
    assert(s.skip(n + 1) =~= decimals);
    assert forall|i: int| 0 <= i < s.len() implies #[trigger] s[i] != 'e' && s[i] != 'E' by {
        if i < n {
            assert(digit(whole[i]));
        } else if i > n {
            assert(s[i] == decimals[i - n - 1]);
            assert(digit(decimals[i - n - 1]));
        }
    }
}

} // verus!
