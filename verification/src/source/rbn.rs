//! Reverse Beacon Network (RBN) source configuration.
//!
//! RBN uses the same telnet protocol as DX clusters but all spots are
//! from automated skimmers.

use crate::model::SourceId;
use crate::time::Duration;
use vstd::prelude::*;
use vstd::string::*;

use super::telnet::TelnetSourceConfig;

pub use super::cluster::{RBN_DEFAULT_HOST, RBN_DEFAULT_PORT};

verus! {

/// Configuration for an RBN source connection.
#[derive(Debug)]
pub struct RbnSourceConfig {
    pub host: String,
    pub port: u16,
    pub callsign: String,
    pub source_id: SourceId,
    pub login_timeout: Duration,
    pub read_timeout: Duration,
}

impl Clone for RbnSourceConfig {
    fn clone(&self) -> (r: Self)
        ensures
            r.host@ == self.host@,
            r.port == self.port,
            r.callsign@ == self.callsign@,
            r.source_id@ == self.source_id@,
            r.login_timeout == self.login_timeout,
            r.read_timeout == self.read_timeout,
    {
        RbnSourceConfig {
            host: self.host.clone(),
            port: self.port,
            callsign: self.callsign.clone(),
            source_id: self.source_id.clone(),
            login_timeout: self.login_timeout,
            read_timeout: self.read_timeout,
        }
    }
}

impl RbnSourceConfig {
    /// Create a config with default RBN host/port.
    pub fn new(callsign: &str, source_id: SourceId) -> (r: Self)
        ensures
            r.host@ == "telnet.reversebeacon.net"@,
            r.port == 7000,
            r.callsign@ == callsign@,
            r.source_id@ == source_id@,
            r.login_timeout@ == 30 * 1_000_000_000,
            r.read_timeout@ == 300 * 1_000_000_000,
    {
        RbnSourceConfig {
            host: RBN_DEFAULT_HOST.to_owned(),
            port: RBN_DEFAULT_PORT,
            callsign: callsign.to_owned(),
            source_id,
            login_timeout: Duration::from_secs(30),
            read_timeout: Duration::from_secs(300),
        }
    }

    /// Convert to a TelnetSourceConfig with skimmer_source = true.
    pub fn to_telnet_config(&self) -> (r: TelnetSourceConfig)
        ensures
            r.host@ == self.host@,
            r.port == self.port,
            r.callsign@ == self.callsign@,
            r.password is None,
            r.source_id@ == self.source_id@,
            r.login_timeout == self.login_timeout,
            r.read_timeout == self.read_timeout,
            r.skimmer_source,
    {
        TelnetSourceConfig {
            host: self.host.clone(),
            port: self.port,
            callsign: self.callsign.clone(),
            password: None,
            source_id: self.source_id.clone(),
            login_timeout: self.login_timeout,
            read_timeout: self.read_timeout,
            skimmer_source: true,
        }
    }
}

} // verus!
