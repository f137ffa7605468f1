//! Telnet source configuration.

use crate::model::{clone_text, opt_text, SourceId};
use crate::time::Duration;
use vstd::prelude::*;
use vstd::string::*;

use super::cluster::{ClusterModel, ClusterSourceConfig, OriginatorPolicy};

verus! {

/// Configuration for a telnet connection to a cluster node.
#[derive(Debug)]
pub struct TelnetSourceConfig {
    pub host: String,
    pub port: u16,
    pub callsign: String,
    pub password: Option<String>,
    pub source_id: SourceId,
    pub login_timeout: Duration,
    pub read_timeout: Duration,
    /// All spots of this connection come from skimmers.
    pub skimmer_source: bool,
}

impl Clone for TelnetSourceConfig {
    fn clone(&self) -> (r: Self)
        ensures
            r.host@ == self.host@,
            r.port == self.port,
            r.callsign@ == self.callsign@,
            opt_text(r.password) == opt_text(self.password),
            r.source_id@ == self.source_id@,
            r.login_timeout == self.login_timeout,
            r.read_timeout == self.read_timeout,
            r.skimmer_source == self.skimmer_source,
    {
        TelnetSourceConfig {
            host: self.host.clone(),
            port: self.port,
            callsign: self.callsign.clone(),
            password: clone_text(&self.password),
            source_id: self.source_id.clone(),
            login_timeout: self.login_timeout,
            read_timeout: self.read_timeout,
            skimmer_source: self.skimmer_source,
        }
    }
}

impl TelnetSourceConfig {
    /// Create a config for a standard DX cluster node.
    pub fn new(host: &str, port: u16, callsign: &str, source_id: SourceId) -> (r: Self)
        ensures
            r.host@ == host@,
            r.port == port,
            r.callsign@ == callsign@,
            r.password is None,
            r.source_id@ == source_id@,
            r.login_timeout@ == 30 * 1_000_000_000,
            r.read_timeout@ == 300 * 1_000_000_000,
            !r.skimmer_source,
    {
        TelnetSourceConfig {
            host: host.to_owned(),
            port,
            callsign: callsign.to_owned(),
            password: None,
            source_id,
            login_timeout: Duration::from_secs(30),
            read_timeout: Duration::from_secs(300),
            skimmer_source: false,
        }
    }

    /// The same connection as a cluster source.
    pub fn to_cluster_config(&self) -> (r: ClusterSourceConfig)
        ensures
            r@ == (ClusterModel {
                host: self.host@,
                port: self.port,
                callsign: self.callsign@,
                password: opt_text(self.password),
                source_id: self.source_id@,
                login_timeout: self.login_timeout@,
                read_timeout: self.read_timeout@,
                originator_policy: if self.skimmer_source {
                    OriginatorPolicy::AllSkimmer
                } else {
                    OriginatorPolicy::Auto
                },
            }),
    {
        ClusterSourceConfig {
            host: self.host.clone(),
            port: self.port,
            callsign: self.callsign.clone(),
            password: clone_text(&self.password),
            source_id: self.source_id.clone(),
            login_timeout: self.login_timeout,
            read_timeout: self.read_timeout,
            originator_policy: if self.skimmer_source {
                OriginatorPolicy::AllSkimmer
            } else {
                OriginatorPolicy::Auto
            },
        }
    }
}

} // verus!
