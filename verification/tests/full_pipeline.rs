//! From the lines of a cluster to the events of a feed.

use dxfeed::aggregator::pipeline::Aggregator;
use dxfeed::domain::{Band, DxMode};
use dxfeed::feed::{on_message, DxFeedBuilder, FeedPlan};
use dxfeed::filter::config::FilterConfigSerde;
use dxfeed::model::{DxEvent, DxSpotEvent, SourceConnectionState, SourceId, SpotEventKind};
use dxfeed::skimmer::config::SkimmerQualityConfig;
use dxfeed::source::cluster::{ClusterSession, SourceEvent, SourceExit};
use dxfeed::source::rbn::RbnSourceConfig;
use dxfeed::source::supervisor::{NextMove, SourceConfig, Supervisor};
use dxfeed::source::telnet::TelnetSourceConfig;
use dxfeed::source::SourceMessage;
use dxfeed::time::Timestamp;

fn now() -> Timestamp {
    Timestamp::from_secs(1_700_000_000)
}

fn telnet(id: &str) -> SourceConfig {
    SourceConfig::Telnet(TelnetSourceConfig::new("127.0.0.1", 7300, "TEST", SourceId(id.into())))
}

fn plan(builder: DxFeedBuilder) -> FeedPlan {
    match builder.prepare() {
        Ok(plan) => plan,
        Err(e) => panic!("{}", e.message()),
    }
}

/// A session that serves the lines after a login, then hangs up. Returns what
/// the session reported, and why it ended.
fn serve_lines(source: &SourceConfig, lines: &[&str]) -> (Vec<SourceMessage>, SourceExit) {
    let mut session = ClusterSession::new(source.cluster_config());
    let mut messages = vec![session.connecting_status(now())];
    let mut events = vec![SourceEvent::Connected, SourceEvent::Data(b"login:\r\n".to_vec())];
    events.push(SourceEvent::Data(b"Welcome to DX Cluster\r\n".to_vec()));
    for line in lines {
        events.push(SourceEvent::Data(format!("{line}\r\n").into_bytes()));
    }
    events.push(SourceEvent::Eof);
    for event in events {
        let step = session.handle(event, now());
        messages.extend(step.message);
        if let Some(exit) = step.exit {
            return (messages, exit);
        }
    }
    panic!("the session outlived its connection");
}

fn aggregator(plan: FeedPlan) -> Aggregator {
    Aggregator::new(
        plan.filter,
        plan.skimmer_quality,
        plan.aggregator_config,
        plan.entity_resolver,
        None,
    )
}

/// The spot events for the messages.
fn spots(aggregator: &mut Aggregator, messages: Vec<SourceMessage>) -> Vec<DxSpotEvent> {
    let mut out = Vec::new();
    for message in messages {
        for event in on_message(aggregator, message) {
            if let DxEvent::Spot(e) = event {
                out.push(e);
            }
        }
    }
    out
}

fn collect_spots(plan: FeedPlan, lines: &[&str]) -> Vec<DxSpotEvent> {
    let mut messages = Vec::new();
    for source in &plan.sources {
        messages.extend(serve_lines(source, lines).0);
    }
    spots(&mut aggregator(plan), messages)
}

fn calls(spots: &[DxSpotEvent]) -> Vec<&str> {
    spots.iter().map(|s| s.spot.dx_call.as_str()).collect()
}

#[test]
fn multi_source_dedup() {
    let line = "DX de W3LPL:     14025.0  JA1ABC       CQ                         1830Z";
    let feed = plan(DxFeedBuilder::new().add_source(telnet("src1")).add_source(telnet("src2")));

    let spots = collect_spots(feed, &[line]);

    let new_spots: Vec<_> = spots.iter().filter(|s| s.kind == SpotEventKind::New).collect();
    assert_eq!(new_spots.len(), 1, "same spot from two sources should dedup to one New event");
    assert_eq!(new_spots[0].spot.dx_call, "JA1ABC");
}

#[test]
fn skimmer_gating_end_to_end() {
    // Three different skimmers report the same call
    let lines = [
        "DX de W3LPL-2:   14025.0  JA1ABC       CW    18 dB  25 WPM  CQ     1830Z",
        "DX de DK8JP-1:   14025.1  JA1ABC       CW    15 dB  25 WPM  CQ     1830Z",
        "DX de VE3NEA-3:  14025.0  JA1ABC       CW    22 dB  25 WPM  CQ     1830Z",
    ];
    let rbn = RbnSourceConfig::new("TEST", SourceId("rbn-test".into()));
    let feed = plan(
        DxFeedBuilder::new()
            .add_source(SourceConfig::Rbn(rbn))
            .set_skimmer_quality(SkimmerQualityConfig::default()),
    );

    let spots = collect_spots(feed, &lines);

    let new_spots: Vec<_> = spots.iter().filter(|s| s.kind == SpotEventKind::New).collect();
    assert_eq!(new_spots.len(), 1, "should emit one New event after skimmer gating passes");
    assert_eq!(new_spots[0].spot.dx_call, "JA1ABC");
}

#[test]
fn filter_blocks_denied_band() {
    let lines = [
        "DX de W3LPL:     14025.0  JA1ABC       CQ                         1830Z",
        "DX de VE3NEA:     7025.5  DL1ABC       CQ TEST                    1831Z",
    ];
    let mut filter = FilterConfigSerde::default();
    filter.rf.band_deny.insert(Band::B20);
    let feed = plan(DxFeedBuilder::new().add_source(telnet("test")).set_filter(filter));

    let spots = collect_spots(feed, &lines);

    assert!(!calls(&spots).contains(&"JA1ABC"), "20m spot should be blocked");
    assert!(calls(&spots).contains(&"DL1ABC"), "40m spot should pass");
}

#[test]
fn filter_allows_only_listed_modes() {
    let lines = [
        // CW spot (14025)
        "DX de W3LPL:     14025.0  JA1ABC       CQ                         1830Z",
        // SSB spot (14195)
        "DX de AA1K:     14195.0  EA3FHP       59 in MA                   1835Z",
    ];
    let mut filter = FilterConfigSerde::default();
    filter.rf.mode_allow.insert(DxMode::CW);
    let feed = plan(DxFeedBuilder::new().add_source(telnet("test")).set_filter(filter));

    let spots = collect_spots(feed, &lines);

    assert!(calls(&spots).contains(&"JA1ABC"), "CW spot should pass");
    assert!(!calls(&spots).contains(&"EA3FHP"), "SSB spot should be blocked");
}

#[test]
fn hot_filter_update_takes_effect() {
    let source = telnet("test");
    let mut aggregator = aggregator(plan(DxFeedBuilder::new().add_source(telnet("test"))));
    let first = "DX de W3LPL:     14025.0  JA1ABC       CQ                         1830Z";
    let (messages, _) = serve_lines(&source, &[first]);
    assert_eq!(spots(&mut aggregator, messages).len(), 1, "should receive first spot");

    let mut filter = FilterConfigSerde::default();
    filter.rf.band_deny.insert(Band::B20);
    aggregator.update_filter(filter.validate_and_compile().unwrap());

    let second = "DX de VE3NEA:    14030.0  DL1ABC       CQ                         1831Z";
    let (messages, _) = serve_lines(&source, &[second]);
    assert!(
        spots(&mut aggregator, messages).is_empty(),
        "second 20m spot should be blocked after filter update"
    );
}

#[test]
fn reconnect_after_server_drop() {
    let source = telnet("test");
    let mut supervisor = Supervisor::new(SourceId("test".into()));
    let mut aggregator = aggregator(plan(DxFeedBuilder::new().add_source(telnet("test"))));
    let mut seen = Vec::new();
    for line in [
        "DX de W3LPL:     14025.0  JA1ABC       CQ                         1830Z",
        "DX de VE3NEA:     7025.5  DL1ABC       CQ TEST                    1831Z",
    ] {
        let (messages, exit) = serve_lines(&source, &[line]);
        seen.extend(spots(&mut aggregator, messages));
        let step = supervisor.after_exit(exit, false, now());
        assert!(!matches!(step.next, NextMove::Stop));
        assert!(matches!(
            &step.messages[..],
            [SourceMessage::Status(s)]
                if matches!(s.state, SourceConnectionState::Reconnecting { .. })
        ));
    }
    assert!(calls(&seen).contains(&"JA1ABC"), "should receive spot from first connection");
    assert!(calls(&seen).contains(&"DL1ABC"), "should receive spot from second connection");
}
