//! Cluster connections.

use dxfeed::domain::OriginatorKind;
use dxfeed::model::{SourceConnectionState, SourceId};
use dxfeed::source::cluster::{
    classify_originator, decode_latin1, dispatch_line, ClusterSession, ClusterSourceConfig,
    OriginatorPolicy, Phase, SourceEvent, SourceExit, RBN_DEFAULT_HOST, RBN_DEFAULT_PORT,
};
use dxfeed::source::iac::{DO, IAC, WONT};
use dxfeed::source::{SourceError, SourceMessage};
use dxfeed::time::{Duration, Timestamp};

fn now() -> Timestamp {
    Timestamp::from_secs(1_700_000_000)
}

fn line(text: &str) -> SourceEvent {
    SourceEvent::Data(format!("{text}\r\n").into_bytes())
}

fn session(policy: OriginatorPolicy) -> ClusterSession {
    let mut config =
        ClusterSourceConfig::new("dx.example.com", 7300, "W1AW", SourceId("test".into()));
    config.originator_policy = policy;
    ClusterSession::new(config)
}

fn logged_in(policy: OriginatorPolicy) -> ClusterSession {
    let mut s = session(policy);
    s.handle(SourceEvent::Connected, now());
    s.handle(line("login:"), now());
    s.handle(line("Welcome"), now());
    assert_eq!(s.phase, Phase::Reading);
    s
}

#[test]
fn decode_latin1_ascii() {
    assert_eq!(decode_latin1(b"Hello"), "Hello");
}

#[test]
fn decode_latin1_high_bytes() {
    // 0xE9 is the code in Latin-1, maps to U+00E9
    assert_eq!(decode_latin1(&[0xE9]), "\u{00E9}");
}

#[test]
fn decode_latin1_mixed() {
    let bytes = b"Caf\xe9";
    assert_eq!(decode_latin1(bytes), "Caf\u{e9}");
}

#[test]
fn rbn_constructor_defaults() {
    let config = ClusterSourceConfig::rbn("W1AW", SourceId("rbn".into()));
    assert_eq!(config.host, RBN_DEFAULT_HOST);
    assert_eq!(config.port, RBN_DEFAULT_PORT);
    assert!(matches!(config.originator_policy, OriginatorPolicy::AllSkimmer));
    assert!(config.password.is_none());
}

#[test]
fn address_is_host_and_port() {
    let config = ClusterSourceConfig::new("dx.example.com", 7300, "W1AW", SourceId("x".into()));
    assert_eq!(config.address(), "dx.example.com:7300");
    assert_eq!(config.login_timeout, Duration::from_secs(30));
    assert_eq!(config.read_timeout, Duration::from_secs(300));
}

#[test]
fn originator_policies() {
    assert_eq!(
        classify_originator(OriginatorPolicy::Auto, "W3LPL-2"),
        OriginatorKind::Skimmer
    );
    assert_eq!(
        classify_originator(OriginatorPolicy::Auto, "W1AW"),
        OriginatorKind::Human
    );
    assert_eq!(
        classify_originator(OriginatorPolicy::AllHuman, "W3LPL-2"),
        OriginatorKind::Human
    );
    assert_eq!(
        classify_originator(OriginatorPolicy::AllSkimmer, "W1AW"),
        OriginatorKind::Skimmer
    );
    assert_eq!(OriginatorPolicy::default(), OriginatorPolicy::Auto);
}

#[test]
fn session_logs_in_and_reports_spot() {
    let mut s = session(OriginatorPolicy::Auto);
    assert!(matches!(
        s.connecting_status(now()),
        SourceMessage::Status(st) if st.state == SourceConnectionState::Connecting
    ));
    assert!(s.timeout().is_none());

    let step = s.handle(SourceEvent::Connected, now());
    assert!(matches!(
        step.message,
        Some(SourceMessage::Status(st)) if st.state == SourceConnectionState::Connected
    ));
    assert_eq!(s.timeout(), Some(Duration::from_secs(30)));

    let step = s.handle(line("Please enter your callsign:"), now());
    assert_eq!(step.send.as_deref(), Some("W1AW\r\n"));
    assert!(step.message.is_none() && step.exit.is_none());

    let step = s.handle(line("Hello W1AW, welcome to the cluster"), now());
    assert!(step.send.is_none() && step.message.is_none());
    assert_eq!(s.phase, Phase::Reading);
    assert_eq!(s.timeout(), Some(Duration::from_secs(300)));

    let step = s.handle(
        line("DX de W3LPL:     14025.0  JA1ABC       CQ                         1830Z"),
        now(),
    );
    match step.message {
        Some(SourceMessage::Observation(o)) => {
            assert_eq!(o.parsed.dx_call, "JA1ABC");
            assert_eq!(o.parsed.freq_hz, 14_025_000);
            assert_eq!(o.originator_kind, OriginatorKind::Human);
            assert_eq!(o.source_id.0, "test");
            assert_eq!(o.received_at, now());
            assert!(o.skimmer_fields.unwrap().is_cq);
        }
        _ => panic!("expected an observation"),
    }
}

#[test]
fn session_sends_password_when_asked() {
    let mut s = session(OriginatorPolicy::Auto);
    s.config.password = Some("SECRET-REDACTED".into());
    s.handle(SourceEvent::Connected, now());
    s.handle(line("login:"), now());
    let step = s.handle(line("Password:"), now());
    assert_eq!(step.send.as_deref(), Some("SECRET-REDACTED\r\n"));
    // Another prompt keeps the login open
    let step = s.handle(line("W1AW de NODE >"), now());
    assert!(step.send.is_none());
    assert!(matches!(s.phase, Phase::LoggingIn { .. }));
    s.handle(line("Welcome"), now());
    assert_eq!(s.phase, Phase::Reading);
}

#[test]
fn session_without_password_stays_silent() {
    let mut s = session(OriginatorPolicy::Auto);
    s.handle(SourceEvent::Connected, now());
    s.handle(line("login:"), now());
    let step = s.handle(line("password:"), now());
    assert!(step.send.is_none() && step.exit.is_none());
    assert!(matches!(
        s.phase,
        Phase::LoggingIn { sent_callsign: true, sent_password: true }
    ));
}

#[test]
fn session_refuses_telnet_options() {
    let mut s = session(OriginatorPolicy::Auto);
    s.handle(SourceEvent::Connected, now());
    let step = s.handle(SourceEvent::Data(vec![IAC, DO, 1, b'l', b'o', b'g', b'i', b'n']), now());
    assert_eq!(step.replies, vec![[IAC, WONT, 1]]);
    assert_eq!(step.send.as_deref(), Some("W1AW\r\n"));
}

#[test]
fn session_errors() {
    let mut s = session(OriginatorPolicy::Auto);
    let step = s.handle(SourceEvent::ConnectFailed("refused".into()), now());
    match step.exit {
        Some(SourceExit::Failed(e)) => {
            assert_eq!(e, SourceError::ConnectFailed("refused".into()));
            assert_eq!(e.message(), "connection failed: refused");
        }
        _ => panic!("expected a failure"),
    }
    assert_eq!(s.phase, Phase::Finished);
    assert!(s.handle(SourceEvent::Connected, now()).message.is_none());

    let failures: Vec<(SourceEvent, SourceError)> = vec![
        (SourceEvent::Eof, SourceError::LoginFailed("connection closed during login".into())),
        (SourceEvent::TimedOut, SourceError::LoginFailed("login timeout".into())),
        (SourceEvent::WriteFailed("pipe".into()), SourceError::LoginFailed("pipe".into())),
        (SourceEvent::ReadFailed("reset".into()), SourceError::Io("reset".into())),
        (SourceEvent::ShutdownRequested, SourceError::Shutdown),
    ];
    for (event, expected) in failures {
        let mut s = session(OriginatorPolicy::Auto);
        s.handle(SourceEvent::Connected, now());
        match s.handle(event, now()).exit {
            Some(SourceExit::Failed(e)) => assert_eq!(e, expected),
            _ => panic!("expected a failure"),
        }
    }

    let failures: Vec<(SourceEvent, SourceError)> = vec![
        (SourceEvent::TimedOut, SourceError::ReadTimeout),
        (SourceEvent::ReadFailed("reset".into()), SourceError::Io("reset".into())),
        (SourceEvent::ChannelClosed, SourceError::ChannelClosed),
        (SourceEvent::ShutdownRequested, SourceError::Shutdown),
    ];
    for (event, expected) in failures {
        let mut s = logged_in(OriginatorPolicy::Auto);
        match s.handle(event, now()).exit {
            Some(SourceExit::Failed(e)) => assert_eq!(e, expected),
            _ => panic!("expected a failure"),
        }
    }

    let mut s = logged_in(OriginatorPolicy::Auto);
    assert!(matches!(s.handle(SourceEvent::Eof, now()).exit, Some(SourceExit::Closed)));
}

#[test]
fn error_messages() {
    assert_eq!(SourceError::LoginFailed("x".into()).message(), "login failed: x");
    assert_eq!(SourceError::ReadTimeout.message(), "read timeout (inactivity)");
    assert_eq!(SourceError::Io("x".into()).message(), "io error: x");
    assert_eq!(SourceError::ChannelClosed.message(), "channel closed");
    assert_eq!(SourceError::Shutdown.message(), "shutdown requested");
}

#[test]
fn session_tags_skimmers_by_policy() {
    let spots = [
        "DX de W3LPL-2:   14025.0  JA1ABC       15 dB  22 WPM  CQ         1830Z",
        "DX de W1AW:      14030.0  DL1ABC       CQ TEST                    1831Z",
    ];
    let mut s = logged_in(OriginatorPolicy::Auto);
    let mut kinds = Vec::new();
    for spot in spots {
        if let Some(SourceMessage::Observation(o)) = s.handle(line(spot), now()).message {
            kinds.push(o.originator_kind);
        }
    }
    assert_eq!(kinds, vec![OriginatorKind::Skimmer, OriginatorKind::Human]);

    let mut s = logged_in(OriginatorPolicy::AllSkimmer);
    match s.handle(line(spots[0]), now()).message {
        Some(SourceMessage::Observation(o)) => {
            assert_eq!(o.originator_kind, OriginatorKind::Skimmer);
            let fields = o.skimmer_fields.unwrap();
            assert_eq!(fields.snr_db, Some(15));
            assert_eq!(fields.wpm, Some(22));
            assert!(fields.is_cq);
        }
        _ => panic!("expected an observation"),
    }
}

#[test]
fn lines_are_dispatched_by_kind() {
    let config = ClusterSourceConfig::new("dx.example.com", 7300, "W1AW", SourceId("x".into()));
    match dispatch_line(&config, "To ALL de W1AW: hello", now()) {
        Some(SourceMessage::Announce(a)) => {
            assert_eq!(a.text, "To ALL de W1AW: hello");
            assert_eq!(a.source.0, "x");
        }
        _ => panic!("expected an announcement"),
    }
    assert!(dispatch_line(&config, "", now()).is_none());
    assert!(dispatch_line(&config, "WWV de W0MU <18Z> :   SFI=70", now()).is_none());
    assert!(dispatch_line(&config, "login:", now()).is_none());
    assert!(dispatch_line(&config, "whatever", now()).is_none());
}
