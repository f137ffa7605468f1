//! RBN and telnet configurations.

use dxfeed::model::SourceId;
use dxfeed::source::cluster::OriginatorPolicy;
use dxfeed::source::rbn::{RbnSourceConfig, RBN_DEFAULT_HOST, RBN_DEFAULT_PORT};
use dxfeed::source::telnet::TelnetSourceConfig;

#[test]
fn rbn_config_defaults() {
    let config = RbnSourceConfig::new("W1AW", SourceId("rbn".into()));
    assert_eq!(config.host, RBN_DEFAULT_HOST);
    assert_eq!(config.port, RBN_DEFAULT_PORT);
}

#[test]
fn rbn_to_telnet_config_sets_skimmer() {
    let config = RbnSourceConfig::new("W1AW", SourceId("rbn".into()));
    let telnet = config.to_telnet_config();
    assert!(telnet.skimmer_source);
    assert!(telnet.password.is_none());
}

#[test]
fn telnet_runs_as_cluster_source() {
    let mut telnet = TelnetSourceConfig::new("dx.example.com", 23, "W1AW", SourceId("t".into()));
    assert_eq!(telnet.to_cluster_config().originator_policy, OriginatorPolicy::Auto);
    telnet.skimmer_source = true;
    let cluster = telnet.to_cluster_config();
    assert_eq!(cluster.originator_policy, OriginatorPolicy::AllSkimmer);
    assert_eq!(cluster.host, "dx.example.com");
    assert_eq!(cluster.port, 23);
}
