//! The data model.

use dxfeed::domain::{Band, DxMode, OriginatorKind};
use dxfeed::model::{
    DxEvent, DxSpot, DxSpotEvent, SkimQualityTag, SourceConnectionState, SpotConfidence,
    SpotEventKind, SpotKey, SpotView,
};
use dxfeed::time::Timestamp;
use std::collections::HashMap;

/// A fixed point in time.
fn now() -> Timestamp {
    Timestamp::from_secs(1_700_000_000)
}

#[test]
fn spot_key_equality_and_hashing() {
    let k1 = SpotKey {
        dx_call_norm: "W1AW".into(),
        band: Band::B20,
        mode: DxMode::CW,
        freq_bucket_hz: 14_025_000,
    };
    let k2 = SpotKey {
        dx_call_norm: "W1AW".into(),
        band: Band::B20,
        mode: DxMode::CW,
        freq_bucket_hz: 14_025_000,
    };
    let k3 = SpotKey {
        dx_call_norm: "W1AW".into(),
        band: Band::B20,
        mode: DxMode::CW,
        freq_bucket_hz: 14_025_010,
    };

    assert_eq!(k1, k2);
    assert_ne!(k1, k3);

    let mut map = HashMap::new();
    map.insert(k1.clone(), 1);
    assert_eq!(map.get(&k2), Some(&1));
    assert_eq!(map.get(&k3), None);
}

#[test]
fn spot_key_different_band_is_different() {
    let k1 = SpotKey {
        dx_call_norm: "W1AW".into(),
        band: Band::B20,
        mode: DxMode::CW,
        freq_bucket_hz: 14_025_000,
    };
    let k2 = SpotKey {
        dx_call_norm: "W1AW".into(),
        band: Band::B40,
        mode: DxMode::CW,
        freq_bucket_hz: 7_025_000,
    };
    assert_ne!(k1, k2);
}

#[test]
fn dx_event_variants() {
    let now = now();

    let spot_event = DxEvent::Spot(DxSpotEvent {
        spot: DxSpot {
            spot_key: SpotKey {
                dx_call_norm: "JA1ABC".into(),
                band: Band::B20,
                mode: DxMode::CW,
                freq_bucket_hz: 14_025_100,
            },
            dx_call: "JA1ABC".into(),
            freq_hz: 14_025_100,
            band: Band::B20,
            mode: DxMode::CW,
            first_seen: now,
            last_seen: now,
            spot_time: None,
            comment: Some("CQ".into()),
            observations: vec![],
            unique_originators: 1,
            unique_sources: 1,
            skim_quality: None,
            quality_detail: None,
            confidence: SpotConfidence::default(),
        },
        kind: SpotEventKind::New,
        revision: 1,
    });

    // Just verify it constructs without panic
    match &spot_event {
        DxEvent::Spot(e) => {
            assert_eq!(e.kind, SpotEventKind::New);
            assert_eq!(e.revision, 1);
            assert_eq!(e.spot.dx_call, "JA1ABC");
        }
        _ => panic!("expected Spot variant"),
    }
}

#[test]
fn spot_view_test_default() {
    let now = now();
    let view = SpotView::test_default(now, "W1AW", 14_025_000, Band::B20, DxMode::CW);

    assert_eq!(view.dx_call_norm, "W1AW");
    assert_eq!(view.freq_hz, 14_025_000);
    assert_eq!(view.band, Band::B20);
    assert_eq!(view.mode, DxMode::CW);
    assert_eq!(view.originator_kind, OriginatorKind::Human);
    assert_eq!(view.unique_originators, 1);
    assert!(view.comment.is_none());
    assert!(view.dx_geo.continent.is_none());
    assert!(view.lotw.is_none());
}

#[test]
fn spot_confidence_default() {
    assert_eq!(SpotConfidence::default(), SpotConfidence::Unverified);
}

#[test]
fn source_connection_state_equality() {
    assert_eq!(SourceConnectionState::Connecting, SourceConnectionState::Connecting);
    assert_eq!(
        SourceConnectionState::Reconnecting { attempt: 3 },
        SourceConnectionState::Reconnecting { attempt: 3 }
    );
    assert_ne!(
        SourceConnectionState::Reconnecting { attempt: 1 },
        SourceConnectionState::Reconnecting { attempt: 2 }
    );
}

#[test]
fn skim_quality_tag_variants() {
    assert_ne!(SkimQualityTag::Valid, SkimQualityTag::Busted);
    assert_ne!(SkimQualityTag::Qsy, SkimQualityTag::Unknown);
    assert_eq!(SkimQualityTag::Valid, SkimQualityTag::Valid);
}
