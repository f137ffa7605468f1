//! What source connectors report.

use crate::aggregator::pipeline::{IncomingModel, IncomingObservation};
use crate::model::{DxAnnounce, SourceConnectionState, SourceId, SourceStatus, StateModel};
use crate::time::Timestamp;
use vstd::prelude::*;
use vstd::string::*;

verus! {

/// Messages sent from a source connector to the aggregator.
pub enum SourceMessage {
    /// A parsed spot observation ready for aggregation.
    Observation(IncomingObservation),
    /// Connection state change.
    Status(SourceStatus),
    /// A text announcement from the cluster.
    Announce(DxAnnounce),
}

/// What a [`SourceMessage`] stands for.
pub enum MessageModel {
    Observation(IncomingModel),
    Status { source_id: Seq<char>, state: StateModel, timestamp: int },
    Announce { source: Seq<char>, text: Seq<char>, timestamp: int },
}

impl View for SourceMessage {
    type V = MessageModel;

    open spec fn view(&self) -> MessageModel {
        match *self {
            SourceMessage::Observation(o) => MessageModel::Observation(o@),
            SourceMessage::Status(s) => MessageModel::Status {
                source_id: s.source_id@,
                state: s.state@,
                timestamp: s.timestamp@,
            },
            SourceMessage::Announce(a) => MessageModel::Announce {
                source: a.source@,
                text: a.text@,
                timestamp: a.timestamp@,
            },
        }
    }
}

/// Errors from source connectors.
#[derive(Debug, PartialEq, Eq)]
pub enum SourceError {
    ConnectFailed(String),
    LoginFailed(String),
    ReadTimeout,
    Io(String),
    ChannelClosed,
    Shutdown,
}

/// What a [`SourceError`] stands for.
pub enum SourceErrorModel {
    ConnectFailed(Seq<char>),
    LoginFailed(Seq<char>),
    ReadTimeout,
    Io(Seq<char>),
    ChannelClosed,
    Shutdown,
}

impl View for SourceError {
    type V = SourceErrorModel;

    open spec fn view(&self) -> SourceErrorModel {
        match *self {
            SourceError::ConnectFailed(s) => SourceErrorModel::ConnectFailed(s@),
            SourceError::LoginFailed(s) => SourceErrorModel::LoginFailed(s@),
            SourceError::ReadTimeout => SourceErrorModel::ReadTimeout,
            SourceError::Io(s) => SourceErrorModel::Io(s@),
            SourceError::ChannelClosed => SourceErrorModel::ChannelClosed,
            SourceError::Shutdown => SourceErrorModel::Shutdown,
        }
    }
}

/// An error in words.
pub open spec fn error_text(e: SourceErrorModel) -> Seq<char> {
    match e {
        SourceErrorModel::ConnectFailed(s) => "connection failed: "@ + s,
        SourceErrorModel::LoginFailed(s) => "login failed: "@ + s,
        SourceErrorModel::ReadTimeout => "read timeout (inactivity)"@,
        SourceErrorModel::Io(s) => "io error: "@ + s,
        SourceErrorModel::ChannelClosed => "channel closed"@,
        SourceErrorModel::Shutdown => "shutdown requested"@,
    }
}

impl SourceError {
    /// The error in words.
    pub fn message(&self) -> (r: String)
        ensures
            r@ == error_text(self@),
    {
        match self {
            SourceError::ConnectFailed(s) => "connection failed: ".to_owned().concat(s.as_str()),
            SourceError::LoginFailed(s) => "login failed: ".to_owned().concat(s.as_str()),
            SourceError::ReadTimeout => "read timeout (inactivity)".to_owned(),
            SourceError::Io(s) => "io error: ".to_owned().concat(s.as_str()),
            SourceError::ChannelClosed => "channel closed".to_owned(),
            SourceError::Shutdown => "shutdown requested".to_owned(),
        }
    }
}

/// A status message.
pub fn status_message(source_id: &SourceId, state: SourceConnectionState, now: Timestamp) -> (r:
    SourceMessage)
    ensures
        r@ == (MessageModel::Status { source_id: source_id@, state: state@, timestamp: now@ }),
{
    SourceMessage::Status(SourceStatus { source_id: source_id.clone(), state, timestamp: now })
}

} // verus!
