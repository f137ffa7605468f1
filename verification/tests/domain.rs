//! Vocabularies of the feed.

use dxfeed::domain::{
    Band, Continent, ModePolicy, OriginatorKind, PortablePolicy, TriState, UnknownFieldPolicy,
};

#[test]
fn tristate_default_is_any() {
    assert_eq!(TriState::default(), TriState::Any);
}

#[test]
fn unknown_field_policy_default_is_neutral() {
    assert_eq!(UnknownFieldPolicy::default(), UnknownFieldPolicy::Neutral);
}

#[test]
fn portable_policy_default_is_keep() {
    assert_eq!(PortablePolicy::default(), PortablePolicy::KeepAsIs);
}

#[test]
fn mode_policy_default_is_prefer_upstream() {
    assert_eq!(
        ModePolicy::default(),
        ModePolicy::PreferUpstreamFallbackInfer
    );
}

#[test]
fn band_ord_follows_declaration_order() {
    assert!(Band::B160 < Band::B80);
    assert!(Band::B80 < Band::B40);
    assert!(Band::B10 < Band::B6);
    assert!(Band::B6 < Band::Unknown);
}

#[test]
fn continent_equality() {
    assert_eq!(Continent::NA, Continent::NA);
    assert_ne!(Continent::NA, Continent::EU);
}

#[test]
fn originator_kind_variants() {
    let kinds = [
        OriginatorKind::Human,
        OriginatorKind::Skimmer,
        OriginatorKind::Unknown,
    ];
    for k in &kinds {
        assert_eq!(*k, *k);
    }
}
