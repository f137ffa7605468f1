//! Feed configuration and event flow.

use dxfeed::aggregator::pipeline::{Aggregator, AggregatorConfig, IncomingObservation};
use dxfeed::domain::OriginatorKind;
use dxfeed::feed::{on_message, DxFeedBuilder, DxFeedError, FeedSettings};
use dxfeed::filter::config::FilterConfigSerde;
use dxfeed::model::{
    DxAnnounce, DxEvent, SourceConnectionState, SourceId, SourceStatus, SpotEventKind,
};
use dxfeed::parser::spot::ParsedSpot;
use dxfeed::skimmer::config::SkimmerQualityConfig;
use dxfeed::source::supervisor::SourceConfig;
use dxfeed::source::telnet::TelnetSourceConfig;
use dxfeed::source::SourceMessage;
use dxfeed::time::{Duration, Timestamp};

fn telnet() -> SourceConfig {
    SourceConfig::Telnet(TelnetSourceConfig::new(
        "127.0.0.1",
        7300,
        "W1AW",
        SourceId("test".into()),
    ))
}

#[test]
fn no_sources_error() {
    let result = DxFeedBuilder::new().prepare();
    assert!(matches!(result, Err(DxFeedError::NoSources)));
}

#[test]
fn invalid_filter_error() {
    let mut filter = FilterConfigSerde::default();
    filter.freq_sanity_hz = Some((100_000_000, 1_000)); // reversed range

    let result = DxFeedBuilder::new().add_source(telnet()).set_filter(filter).prepare();

    assert!(matches!(result, Err(DxFeedError::FilterConfig(_))));
}

#[test]
fn builder_defaults() {
    let builder = DxFeedBuilder::new();
    assert_eq!(builder.sources.len(), 0);
    assert_eq!(builder.source_channel_capacity, 256);
    assert_eq!(builder.event_channel_capacity, 256);
    assert_eq!(builder.tick_interval, Duration::from_secs(10));
}

#[test]
fn builder_keeps_settings() {
    let config = AggregatorConfig { max_spots: 7, ..AggregatorConfig::default() };
    let plan = DxFeedBuilder::default()
        .add_source(telnet())
        .set_aggregator_config(config)
        .set_skimmer_quality(SkimmerQualityConfig::default())
        .source_channel_capacity(3)
        .event_channel_capacity(4)
        .tick_interval(Duration::from_millis(1500))
        .prepare();
    let plan = match plan {
        Ok(plan) => plan,
        Err(e) => panic!("{}", e.message()),
    };
    assert_eq!(plan.sources.len(), 1);
    assert_eq!(plan.aggregator_config.max_spots, 7);
    assert!(plan.skimmer_quality.is_some());
    assert_eq!(plan.source_channel_capacity, 3);
    assert_eq!(plan.event_channel_capacity, 4);
    assert_eq!(plan.tick_interval.as_nanos(), 1_500_000_000);
}

#[test]
fn error_texts() {
    assert_eq!(DxFeedError::NoSources.message(), "no sources configured");
    let mut filter = FilterConfigSerde::default();
    filter.max_age_secs = 0;
    match DxFeedBuilder::new().add_source(telnet()).set_filter(filter).prepare() {
        Err(e) => assert_eq!(e.message(), "filter config error: max_age must be > 0"),
        Ok(_) => panic!("expected an error"),
    }
}

#[test]
fn settings_change_one_by_one() {
    let mut s = FeedSettings { aggregator: AggregatorConfig::default(), skimmer: None };
    s.set_spot_ttl(Duration::from_secs(600));
    s.set_emit_updates(true);
    s.set_max_spots(100_000);
    assert_eq!(s.aggregator.spot_ttl, Duration::from_secs(600));
    assert!(s.aggregator.dedupe.emit_updates);
    assert_eq!(s.aggregator.max_spots, 100_000);
    s.set_skimmer_gate(false);
    s.set_allow_unverified(true);
    s.set_required_distinct_skimmers(2);
    let c = s.skimmer.unwrap();
    assert!(!c.gate_skimmer_output);
    assert!(c.allow_unknown);
    assert_eq!(c.valid_required_distinct_skimmers, 2);
    assert_eq!(c.valid_freq_window_hz, 300);
}

#[test]
fn messages_become_events() {
    let now = Timestamp::from_secs(1_700_000_000);
    let filter = FilterConfigSerde::default().validate_and_compile().unwrap();
    let mut agg = Aggregator::new(filter, None, AggregatorConfig::default(), None, None);
    let events = on_message(
        &mut agg,
        SourceMessage::Status(SourceStatus {
            source_id: SourceId("s".into()),
            state: SourceConnectionState::Connected,
            timestamp: now,
        }),
    );
    assert!(matches!(&events[..], [DxEvent::SourceStatus(s)] if s.source_id.0 == "s"));
    let events = on_message(
        &mut agg,
        SourceMessage::Announce(DxAnnounce {
            source: SourceId("s".into()),
            text: "hello".into(),
            timestamp: now,
        }),
    );
    assert!(matches!(&events[..], [DxEvent::Announce(a)] if a.text == "hello"));
    let events = on_message(
        &mut agg,
        SourceMessage::Observation(IncomingObservation {
            parsed: ParsedSpot {
                spotter_call: "W1AW".into(),
                dx_call: "JA1ABC".into(),
                freq_hz: 14_025_000,
                comment: None,
                utc_time: None,
            },
            source_id: SourceId("s".into()),
            originator_kind: OriginatorKind::Human,
            received_at: now,
            skimmer_fields: None,
        }),
    );
    assert!(matches!(&events[..], [DxEvent::Spot(e)] if e.kind == SpotEventKind::New));
}
