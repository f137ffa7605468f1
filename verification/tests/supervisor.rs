//! Supervision of sources.

use dxfeed::model::{SourceConnectionState, SourceId};
use dxfeed::source::cluster::{ClusterSourceConfig, OriginatorPolicy, SourceExit};
use dxfeed::source::rbn::RbnSourceConfig;
use dxfeed::source::supervisor::{NextMove, SourceConfig, Supervisor};
use dxfeed::source::telnet::TelnetSourceConfig;
use dxfeed::source::{SourceError, SourceMessage};
use dxfeed::time::{Duration, Timestamp};

fn now() -> Timestamp {
    Timestamp::from_secs(1_700_000_000)
}

fn states(messages: Vec<SourceMessage>) -> Vec<SourceConnectionState> {
    messages
        .into_iter()
        .map(|m| match m {
            SourceMessage::Status(s) => {
                assert_eq!(s.source_id.0, "src");
                assert_eq!(s.timestamp, now());
                s.state
            }
            _ => panic!("expected a status"),
        })
        .collect()
}

#[test]
fn failures_in_a_row_are_counted() {
    let mut sup = Supervisor::new(SourceId("src".into()));
    for attempt in 1..4 {
        let step = sup.after_exit(SourceExit::Failed(SourceError::ReadTimeout), false, now());
        assert_eq!(step.next, NextMove::BackOff);
        assert_eq!(
            states(step.messages),
            vec![
                SourceConnectionState::Reconnecting { attempt },
                SourceConnectionState::Failed { reason: "read timeout (inactivity)".into() },
            ]
        );
    }
    assert_eq!(sup.attempt, 3);
}

#[test]
fn closed_connection_starts_over() {
    let mut sup = Supervisor::new(SourceId("src".into()));
    sup.after_exit(SourceExit::Failed(SourceError::ReadTimeout), false, now());
    let step = sup.after_exit(SourceExit::Closed, false, now());
    assert_eq!(step.next, NextMove::Pause(Duration::from_secs(1)));
    assert_eq!(
        states(step.messages),
        vec![SourceConnectionState::Reconnecting { attempt: 1 }]
    );
    assert_eq!(sup.attempt, 0);
}

#[test]
fn shutdown_stops() {
    let mut sup = Supervisor::new(SourceId("src".into()));
    let step = sup.after_exit(SourceExit::Failed(SourceError::Shutdown), false, now());
    assert_eq!(step.next, NextMove::Stop);
    assert_eq!(states(step.messages), vec![SourceConnectionState::Shutdown]);
    let step = sup.after_exit(SourceExit::Closed, true, now());
    assert_eq!(step.next, NextMove::Stop);
    assert_eq!(states(step.messages), vec![SourceConnectionState::Shutdown]);
    assert_eq!(
        states(vec![sup.shutdown_status(now())]),
        vec![SourceConnectionState::Shutdown]
    );
}

#[test]
fn every_source_runs_as_a_cluster_connection() {
    let cluster = SourceConfig::Cluster(ClusterSourceConfig::new(
        "dx.example.com",
        7300,
        "W1AW",
        SourceId("a".into()),
    ));
    let telnet = SourceConfig::Telnet(TelnetSourceConfig::new(
        "dx.example.com",
        7300,
        "W1AW",
        SourceId("b".into()),
    ));
    let rbn = SourceConfig::Rbn(RbnSourceConfig::new("W1AW", SourceId("c".into())));
    assert_eq!(cluster.source_id().0, "a");
    assert_eq!(telnet.source_id().0, "b");
    assert_eq!(rbn.source_id().0, "c");
    assert_eq!(cluster.cluster_config().originator_policy, OriginatorPolicy::Auto);
    assert_eq!(telnet.cluster_config().originator_policy, OriginatorPolicy::Auto);
    assert_eq!(rbn.cluster_config().originator_policy, OriginatorPolicy::AllSkimmer);
    assert_eq!(rbn.cluster_config().host, "telnet.reversebeacon.net");
}

#[test]
fn source_configs_are_cloned() {
    let mut telnet = TelnetSourceConfig::new("host", 7300, "W1AW", SourceId("t".into()));
    telnet.password = Some("secret".into());
    telnet.skimmer_source = true;
    let rbn = RbnSourceConfig::new("W1AW", SourceId("r".into()));
    let cluster = ClusterSourceConfig::new("host", 23, "W1AW", SourceId("c".into()));
    for source in [
        SourceConfig::Telnet(telnet.clone()),
        SourceConfig::Rbn(rbn.clone()),
        SourceConfig::Cluster(cluster.clone()),
    ] {
        let copy = source.clone();
        assert_eq!(format!("{source:?}"), format!("{copy:?}"));
    }
}

#[test]
fn reconnection_goes_on_until_shutdown() {
    let mut sup = Supervisor::new(SourceId("src".into()));
    for (exit, expected, attempts) in [
        (SourceExit::Failed(SourceError::ReadTimeout), NextMove::BackOff, 1),
        (SourceExit::Failed(SourceError::ReadTimeout), NextMove::BackOff, 2),
        (SourceExit::Closed, NextMove::Pause(Duration::from_secs(1)), 0),
        (SourceExit::Failed(SourceError::ReadTimeout), NextMove::BackOff, 1),
    ] {
        let step = sup.after_exit(exit, false, now());
        assert_eq!(step.next, expected);
        assert_eq!(sup.attempt, attempts);
        assert!(!states(step.messages).contains(&SourceConnectionState::Shutdown));
    }
    let step = sup.after_exit(SourceExit::Failed(SourceError::Shutdown), false, now());
    assert_eq!(step.next, NextMove::Stop);
    assert_eq!(states(step.messages), vec![SourceConnectionState::Shutdown]);
}
