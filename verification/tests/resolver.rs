//! Resolver traits.

use dxfeed::domain::Continent;
use dxfeed::resolver::enrichment::{EnrichmentResolver, NullEnrichmentResolver};
use dxfeed::resolver::entity::{EntityInfo, EntityResolver};
use dxfeed::sets::ValueSet;

#[test]
fn null_resolver_returns_none() {
    let resolver = NullEnrichmentResolver;
    assert!(resolver.lotw_user("W1AW").is_none());
    assert!(resolver.in_master_db("W1AW").is_none());
    assert!(resolver.in_callbook("W1AW").is_none());
    assert!(resolver.memberships("W1AW").is_none());
}

struct MockEnrichment;

impl EnrichmentResolver for MockEnrichment {
    fn lotw_user(&self, callsign: &str) -> Option<bool> {
        Some(callsign == "W1AW")
    }

    fn in_master_db(&self, _callsign: &str) -> Option<bool> {
        Some(true)
    }

    fn in_callbook(&self, _callsign: &str) -> Option<bool> {
        Some(true)
    }

    fn memberships(&self, callsign: &str) -> Option<ValueSet<String>> {
        if callsign == "W1AW" {
            let mut set = ValueSet::new();
            set.insert("ARRL".into());
            Some(set)
        } else {
            None
        }
    }
}

#[test]
fn mock_resolver_returns_values() {
    let resolver = MockEnrichment;
    assert_eq!(resolver.lotw_user("W1AW"), Some(true));
    assert_eq!(resolver.lotw_user("JA1ABC"), Some(false));
    assert_eq!(resolver.in_master_db("W1AW"), Some(true));
    assert_eq!(resolver.in_callbook("W1AW"), Some(true));

    let memberships = resolver.memberships("W1AW").unwrap();
    assert!(memberships.contains_text("ARRL"));

    assert!(resolver.memberships("JA1ABC").is_none());
}

fn assert_send_sync<T: Send + Sync>() {}

#[test]
fn null_resolver_is_send_sync() {
    assert_send_sync::<NullEnrichmentResolver>();
}

struct MockResolver;

impl EntityResolver for MockResolver {
    fn resolve(&self, callsign: &str) -> Option<EntityInfo> {
        match callsign {
            "W1AW" => Some(EntityInfo {
                entity_name: "United States".into(),
                continent: Continent::NA,
                cq_zone: 5,
                itu_zone: 8,
                lat: "37.53".into(),
                lon: "-97.0".into(),
                primary_prefix: "K".into(),
            }),
            _ => None,
        }
    }
}

#[test]
fn mock_resolver_returns_info() {
    let resolver = MockResolver;
    let info = resolver.resolve("W1AW").unwrap();
    assert_eq!(info.entity_name, "United States");
    assert_eq!(info.continent, Continent::NA);
    assert_eq!(info.cq_zone, 5);
}

#[test]
fn mock_resolver_returns_none_for_unknown() {
    let resolver = MockResolver;
    assert!(resolver.resolve("GARBAGE").is_none());
}
