//! State and text of the terminal client.

use dxfeed::console::{
    activity_detail, format_age, format_band, format_clock, format_freq, format_mode, kind_label,
    parse_originator_policy, source_label, spot_row, truncate, App, Key, Screen, Stats,
    MAX_ACTIVITY,
};
use dxfeed::domain::{Band, DxMode, OriginatorKind};
use dxfeed::model::{
    DxEvent, DxSpot, DxSpotEvent, OriginatorId, SourceConnectionState, SourceId, SourceStatus,
    SpotConfidence, SpotEventKind, SpotKey, SpotObservation,
};
use dxfeed::parser::spot::parse_freq_to_hz;
use dxfeed::source::cluster::OriginatorPolicy;
use dxfeed::time::Timestamp;

fn now() -> Timestamp {
    Timestamp::from_secs(1_700_000_000)
}

fn spot(call: &str, freq_hz: u64) -> DxSpot {
    DxSpot {
        spot_key: SpotKey {
            dx_call_norm: call.into(),
            band: Band::B20,
            mode: DxMode::CW,
            freq_bucket_hz: freq_hz,
        },
        dx_call: call.into(),
        freq_hz,
        band: Band::B20,
        mode: DxMode::CW,
        first_seen: now(),
        last_seen: now(),
        spot_time: None,
        comment: Some("CQ contest, a rather long comment".into()),
        observations: vec![SpotObservation {
            source: SourceId("src".into()),
            originator: OriginatorId("W1AW".into()),
            originator_kind: OriginatorKind::Human,
            snr_db: None,
            wpm: None,
            obs_time: now(),
        }],
        unique_originators: 1,
        unique_sources: 1,
        skim_quality: None,
        quality_detail: None,
        confidence: SpotConfidence::default(),
    }
}

fn event(call: &str, freq_hz: u64, kind: SpotEventKind) -> DxEvent {
    DxEvent::Spot(DxSpotEvent { spot: spot(call, freq_hz), kind, revision: 1 })
}

#[test]
fn frequencies_are_shown_in_khz() {
    assert_eq!(format_freq(14_025_000), "14025.0");
    assert_eq!(format_freq(14_025_199), "14025.1");
    assert_eq!(format_freq(999), "0.9");
    assert_eq!(parse_freq_to_hz(&format_freq(7_001_550)), Some(7_001_500));
}

#[test]
fn ages_are_shown_in_units() {
    assert_eq!(format_age(0), "0s");
    assert_eq!(format_age(59), "59s");
    assert_eq!(format_age(60), "1m00s");
    assert_eq!(format_age(125), "2m05s");
    assert_eq!(format_age(3599), "59m59s");
    assert_eq!(format_age(3600), "1h00m");
    assert_eq!(format_age(4021), "1h07m");
}

#[test]
fn clock_shows_time_of_day() {
    assert_eq!(format_clock(Timestamp::from_secs(0)), "00:00:00");
    assert_eq!(format_clock(Timestamp::from_secs(86_399)), "23:59:59");
    assert_eq!(format_clock(Timestamp::from_secs(-1)), "23:59:59");
    assert_eq!(format_clock(now()), "22:13:20");
}

#[test]
fn truncation_counts_bytes() {
    assert_eq!(truncate("W3LPL-2", 12), "W3LPL-2");
    assert_eq!(truncate("ABCDEFGHIJKLMNOP", 12), "ABCDEFGHIJKL");
    assert_eq!(truncate("", 0), "");
    assert_eq!(truncate("ABC", 0), "");
    // A character that does not fit whole is left out
    assert_eq!(truncate("AB\u{e9}", 3), "AB");
}

#[test]
fn names_of_modes_and_bands() {
    assert_eq!(format_mode(DxMode::DIG), "DIG");
    assert_eq!(format_mode(DxMode::Unknown), "?");
    assert_eq!(format_band(Band::B160), "160m");
    assert_eq!(format_band(Band::Unknown), "?");
    assert_eq!(kind_label(SpotEventKind::Withdraw), " WDR ");
}

#[test]
fn policies_on_the_command_line() {
    assert_eq!(parse_originator_policy("auto"), Some(OriginatorPolicy::Auto));
    assert_eq!(parse_originator_policy("all-skimmer"), Some(OriginatorPolicy::AllSkimmer));
    assert_eq!(parse_originator_policy("all-human"), Some(OriginatorPolicy::AllHuman));
    assert_eq!(parse_originator_policy("Auto"), None);
}

#[test]
fn spots_come_and_go() {
    let mut app = App::new();
    app.handle_event(&event("JA1ABC", 14_025_000, SpotEventKind::New), now());
    app.handle_event(&event("JA1ABC", 14_025_000, SpotEventKind::Update), now());
    app.handle_event(&event("DL1ABC", 14_010_000, SpotEventKind::New), now());
    assert_eq!(app.spot_count(), 2);
    app.handle_event(&event("JA1ABC", 14_025_000, SpotEventKind::Withdraw), now());
    assert_eq!(app.spot_count(), 1);
    assert_eq!(app.spot(0).dx_call, "DL1ABC");
    assert_eq!(app.stats(), Stats { new_count: 2, update_count: 1, withdraw_count: 1 });
    assert_eq!(app.activity_count(), 4);
    assert_eq!(app.activity_entry(3).kind, SpotEventKind::Withdraw);
    assert_eq!(app.activity_entry(0).last_spotter, "W1AW");
}

#[test]
fn activity_is_bounded() {
    let mut app = App::new();
    for i in 0..(MAX_ACTIVITY as u64 + 10) {
        app.handle_event(&event("JA1ABC", 14_000_000 + i, SpotEventKind::New), now());
    }
    assert_eq!(app.activity_count(), MAX_ACTIVITY);
    assert_eq!(app.activity_entry(0).freq_hz, 14_000_010);
}

#[test]
fn stale_spots_are_hidden() {
    let mut app = App::new();
    app.handle_event(&event("JA1ABC", 14_025_000, SpotEventKind::New), now());
    app.evict_stale_spots(now().plus_secs(299).unwrap());
    assert_eq!(app.spot_count(), 1);
    app.evict_stale_spots(now().plus_secs(300).unwrap());
    assert_eq!(app.spot_count(), 0);
}

#[test]
fn sources_keep_their_last_state() {
    let mut app = App::new();
    for state in [SourceConnectionState::Connecting, SourceConnectionState::Connected] {
        app.handle_event(
            &DxEvent::SourceStatus(SourceStatus {
                source_id: SourceId("src".into()),
                state,
                timestamp: now(),
            }),
            now(),
        );
    }
    assert_eq!(app.source_count(), 1);
    let (name, state) = app.source(0);
    assert_eq!(source_label(name, state), "  src: Connected");
    assert_eq!(
        source_label("x", &SourceConnectionState::Reconnecting { attempt: 12 }),
        "  x: Reconn #12"
    );
    assert_eq!(
        source_label("x", &SourceConnectionState::Failed { reason: "y".into() }),
        "  x: Failed"
    );
}

#[test]
fn keys_scroll_switch_and_quit() {
    let mut app = App::new();
    assert_eq!(app.screen(), Screen::Activity);
    app.handle_key(Key::PageUp);
    app.handle_key(Key::Down);
    assert_eq!(app.scroll_offset(), 19);
    app.handle_key(Key::PageDown);
    assert_eq!(app.scroll_offset(), 0);
    app.handle_key(Key::Up);
    assert_eq!(app.scroll_label(), " [+1] ");
    app.handle_key(Key::Tab);
    assert_eq!(app.screen(), Screen::Spots);
    assert_eq!(app.scroll_label(), "");
    app.handle_key(Key::Home);
    app.handle_key(Key::Up);
    assert_eq!(app.scroll_offset(), usize::MAX);
    app.handle_key(Key::End);
    assert_eq!(app.scroll_offset(), 0);
    app.handle_key(Key::Char { c: 'c', control: false });
    app.handle_key(Key::Other);
    assert!(!app.should_quit());
    app.handle_key(Key::Char { c: 'c', control: true });
    assert!(app.should_quit());
    let mut app = App::new();
    app.handle_key(Key::Char { c: 'q', control: false });
    assert!(app.should_quit());
    let mut app = App::new();
    app.handle_key(Key::Esc);
    assert!(app.should_quit());
    let mut app = App::new();
    app.quit();
    assert!(app.should_quit());
}

#[test]
fn windows_are_brought_into_range() {
    let mut app = App::new();
    for i in 0..10u64 {
        app.handle_event(&event("JA1ABC", 14_000_000 + i, SpotEventKind::New), now());
    }
    assert_eq!(app.activity_window(4), (6, 10));
    app.handle_key(Key::Home);
    assert_eq!(app.activity_window(4), (0, 4));
    assert_eq!(app.scroll_offset(), 6);
    assert_eq!(app.activity_window(20), (0, 10));
    assert_eq!(app.scroll_offset(), 0);
    assert_eq!(app.spots_window(4), (0, 4));
    app.handle_key(Key::PageUp);
    assert_eq!(app.spots_window(4), (6, 10));
    assert_eq!(app.spots_window(20), (0, 10));
}

#[test]
fn spots_are_sorted_by_frequency() {
    let mut app = App::new();
    for (call, freq) in [("A1A", 14_030_000), ("B1B", 14_010_000), ("C1C", 14_030_000)] {
        app.handle_event(&event(call, freq, SpotEventKind::New), now());
    }
    assert_eq!(app.spots_by_freq(), vec![1, 0, 2]);
}

#[test]
fn rows_and_details() {
    let later = now().plus_secs(125).unwrap();
    assert_eq!(
        spot_row(&spot("JA1ABC", 14_025_100), later),
        vec![
            "14025.1",
            "CW",
            "20m",
            "JA1ABC",
            "W1AW",
            "2m05s",
            "2m05s",
            "1",
            "CQ contest, a rather lon",
        ]
    );
    let mut bare = spot("JA1ABC", 14_025_100);
    bare.observations.clear();
    bare.comment = None;
    let row = spot_row(&bare, now().plus_secs(-5).unwrap());
    assert_eq!(row[4], "-");
    assert_eq!(row[5], "0s");
    assert_eq!(row[7], "0");
    assert_eq!(row[8], "");

    let mut app = App::new();
    app.handle_event(&event("JA1ABC", 14_025_100, SpotEventKind::New), now());
    app.handle_event(&event("JA1ABC", 14_025_100, SpotEventKind::Withdraw), now());
    assert_eq!(
        activity_detail(app.activity_entry(0)),
        "   14025.1 CW  20m  JA1ABC        W1AW         1o 1s"
    );
    assert_eq!(
        activity_detail(app.activity_entry(1)),
        "   14025.1 CW  20m  JA1ABC       "
    );
}
