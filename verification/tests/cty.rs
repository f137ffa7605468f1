//! The cty.dat resolver.

use dxfeed::domain::Continent;
use dxfeed::resolver::cty::{parse_prefix_modifiers, CtyResolver};
use dxfeed::resolver::entity::EntityResolver;

const TEST_CTY_DATA: &str = "\
Sov Mil Ord of Malta:         15  28  EU  41.90   12.43  -1.0  1A:
    1A;
United States:                05  08  NA  37.53  -97.00  5.0  K:
    AA,AB,AC,AD,AE,AF,AG,K,N,W,K5(4)[7];
Japan:                        25  45  AS  35.68  139.68  -9.0  JA:
    JA,JB,JC,JD,JE,JF,JG,JH,JI,JJ,JK,JL,JM,JN,JO,JP,JQ,JR,JS,
    7J,7K,7L,7M,7N,8J,8K,8L,8M,8N;
Anguilla:                     08  11  NA  18.20  -63.00  4.0  VP2E:
    VP2E;
ITU HQ:                       14  28  EU  46.17    6.05  -1.0  4U:
    4U;
United Nations HQ:            05  08  NA  40.75  -73.97  5.0  4U1U:
    4U1U;
*Sealand:                     14  27  EU  51.53    1.28   0.0  HZ:
    =HZ1AB;
";

fn test_resolver() -> CtyResolver {
    CtyResolver::from_cty_dat(TEST_CTY_DATA).unwrap()
}

#[test]
fn parse_basic_entities() {
    let resolver = test_resolver();
    assert!(resolver.entity_count() >= 6);
    assert!(resolver.prefix_count() > 10);
}

#[test]
fn resolve_us_callsign() {
    let resolver = test_resolver();
    let info = resolver.resolve("W1AW").unwrap();
    assert_eq!(info.entity_name, "United States");
    assert_eq!(info.continent, Continent::NA);
    assert_eq!(info.cq_zone, 5);
    assert_eq!(info.itu_zone, 8);
    assert_eq!(info.primary_prefix, "K");
}

#[test]
fn resolve_japan_callsign() {
    let resolver = test_resolver();
    let info = resolver.resolve("JA1ABC").unwrap();
    assert_eq!(info.entity_name, "Japan");
    assert_eq!(info.continent, Continent::AS);
    assert_eq!(info.cq_zone, 25);
    assert_eq!(info.itu_zone, 45);
}

#[test]
fn resolve_anguilla() {
    let resolver = test_resolver();
    let info = resolver.resolve("VP2EHC").unwrap();
    assert_eq!(info.entity_name, "Anguilla");
    assert_eq!(info.continent, Continent::NA);
    assert_eq!(info.cq_zone, 8);
}

#[test]
fn longest_prefix_match_un_hq() {
    let resolver = test_resolver();
    // 4U1UN should match 4U1U (United Nations HQ) not 4U (ITU HQ)
    let info = resolver.resolve("4U1UN").unwrap();
    assert_eq!(info.entity_name, "United Nations HQ");
    assert_eq!(info.cq_zone, 5);
}

#[test]
fn shortest_prefix_match_itu() {
    let resolver = test_resolver();
    // 4U2ABC should match 4U (ITU HQ) since 4U1U doesn't match
    let info = resolver.resolve("4U2ABC").unwrap();
    assert_eq!(info.entity_name, "ITU HQ");
}

#[test]
fn unknown_callsign_returns_none() {
    let resolver = test_resolver();
    assert!(resolver.resolve("GARBAGE").is_none());
    assert!(resolver.resolve("").is_none());
}

#[test]
fn case_insensitive_lookup() {
    let resolver = test_resolver();
    let info = resolver.resolve("ja1abc").unwrap();
    assert_eq!(info.entity_name, "Japan");
}

#[test]
fn cq_zone_override() {
    let resolver = test_resolver();
    // K5 has CQ zone override (4) and ITU zone override [7]
    let info = resolver.resolve("K5ABC").unwrap();
    assert_eq!(info.entity_name, "United States");
    assert_eq!(info.cq_zone, 4);
    assert_eq!(info.itu_zone, 7);
}

#[test]
fn no_override_uses_entity_defaults() {
    let resolver = test_resolver();
    // W prefix has no override, uses entity defaults
    let info = resolver.resolve("W3LPL").unwrap();
    assert_eq!(info.cq_zone, 5);
    assert_eq!(info.itu_zone, 8);
}

#[test]
fn exact_match_prefix() {
    let resolver = test_resolver();
    // =HZ1AB is an exact match entry for Sealand
    let info = resolver.resolve("HZ1AB").unwrap();
    assert_eq!(info.entity_name, "Sealand");
}

#[test]
fn deleted_entity_prefix_stripped() {
    let resolver = test_resolver();
    // *Sealand has the star stripped from the name
    let info = resolver.resolve("HZ1AB").unwrap();
    assert!(!info.entity_name.starts_with('*'));
}

#[test]
fn japan_7j_prefix() {
    let resolver = test_resolver();
    let info = resolver.resolve("7J1ABC").unwrap();
    assert_eq!(info.entity_name, "Japan");
}

#[test]
fn single_char_prefix() {
    let resolver = test_resolver();
    let info = resolver.resolve("K1ABC").unwrap();
    assert_eq!(info.entity_name, "United States");
}

#[test]
fn single_char_prefix_n() {
    let resolver = test_resolver();
    let info = resolver.resolve("N1MM").unwrap();
    assert_eq!(info.entity_name, "United States");
}

#[test]
fn sov_mil_ord_malta() {
    let resolver = test_resolver();
    let info = resolver.resolve("1A0ABC").unwrap();
    assert_eq!(info.entity_name, "Sov Mil Ord of Malta");
    assert_eq!(info.continent, Continent::EU);
}

// Prefix modifier parsing

#[test]
fn parse_simple_prefix() {
    let p = parse_prefix_modifiers("W");
    assert_eq!(p.prefix, "W");
    assert!(!p.exact);
    assert!(p.cq_zone_override.is_none());
    assert!(p.itu_zone_override.is_none());
}

#[test]
fn parse_exact_prefix() {
    let p = parse_prefix_modifiers("=W1AW");
    assert_eq!(p.prefix, "W1AW");
    assert!(p.exact);
}

#[test]
fn parse_cq_override() {
    let p = parse_prefix_modifiers("K5(4)");
    assert_eq!(p.prefix, "K5");
    assert_eq!(p.cq_zone_override, Some(4));
}

#[test]
fn parse_itu_override() {
    let p = parse_prefix_modifiers("K5[7]");
    assert_eq!(p.prefix, "K5");
    assert_eq!(p.itu_zone_override, Some(7));
}

#[test]
fn parse_both_overrides() {
    let p = parse_prefix_modifiers("K5(4)[7]");
    assert_eq!(p.prefix, "K5");
    assert_eq!(p.cq_zone_override, Some(4));
    assert_eq!(p.itu_zone_override, Some(7));
}

#[test]
fn parse_with_location_override() {
    let p = parse_prefix_modifiers("W5<30.00/-90.00>");
    assert_eq!(p.prefix, "W5");
}

#[test]
fn parse_with_continent_override() {
    let p = parse_prefix_modifiers("VP2E{NA}");
    assert_eq!(p.prefix, "VP2E");
}
