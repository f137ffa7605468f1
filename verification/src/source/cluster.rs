//! DX cluster source connector.
//!
//! Logs in to a DX cluster node, strips IAC sequences, and turns spot lines
//! into observations.

use crate::aggregator::pipeline::{IncomingModel, IncomingObservation};
use crate::callsign::{is_likely_skimmer, likely_skimmer};
use crate::domain::OriginatorKind;
use crate::model::{clone_text, opt_text, DxAnnounce, SourceConnectionState, SourceId, StateModel};
use crate::parser::spot::{
    fields_of, line_of, parse_line, parse_skimmer_comment, LineModel, ParsedLine, ParsedSpotModel,
    SkimmerFields,
};
use crate::text::{chars_of, contains_text, decimal_of, lower_all, occurs, push_decimal, to_lower};
use crate::time::{Duration, Timestamp};
use vstd::prelude::*;
use vstd::string::*;

use super::iac::{data_of, replies_to, response_bytes, strip_iac};
use super::message::{
    status_message, MessageModel, SourceError, SourceErrorModel, SourceMessage,
};

verus! {

// ---------------------------------------------------------------------------
// Configuration
// ---------------------------------------------------------------------------

/// Default RBN host.
pub const RBN_DEFAULT_HOST: &'static str = "telnet.reversebeacon.net";

/// Default RBN port.
pub const RBN_DEFAULT_PORT: u16 = 7000;

/// How the source determines whether a spot is from a skimmer or a human.
#[derive(Debug, Clone, Copy, PartialEq, Eq, Structural)]
pub enum OriginatorPolicy {
    /// Infer per-spot from spotter callsign pattern.
    Auto,
    /// Force all spots from this connection to Skimmer.
    AllSkimmer,
    /// Force all spots from this connection to Human.
    AllHuman,
}

impl Default for OriginatorPolicy {
    fn default() -> (r: Self)
        ensures
            r == OriginatorPolicy::Auto,
    {
        OriginatorPolicy::Auto
    }
}

/// Configuration for a DX cluster source connection.
#[derive(Debug)]
pub struct ClusterSourceConfig {
    pub host: String,
    pub port: u16,
    pub callsign: String,
    pub password: Option<String>,
    pub source_id: SourceId,
    /// Timeout for login sequence completion.
    pub login_timeout: Duration,
    /// Inactivity timeout: if no data received for this duration, consider
    /// the connection hung and disconnect.
    pub read_timeout: Duration,
    /// How to determine the originator kind for spots from this connection.
    pub originator_policy: OriginatorPolicy,
}

/// What a [`ClusterSourceConfig`] stands for.
pub struct ClusterModel {
    pub host: Seq<char>,
    pub port: u16,
    pub callsign: Seq<char>,
    pub password: Option<Seq<char>>,
    pub source_id: Seq<char>,
    pub login_timeout: int,
    pub read_timeout: int,
    pub originator_policy: OriginatorPolicy,
}

impl View for ClusterSourceConfig {
    type V = ClusterModel;

    open spec fn view(&self) -> ClusterModel {
        ClusterModel {
            host: self.host@,
            port: self.port,
            callsign: self.callsign@,
            password: opt_text(self.password),
            source_id: self.source_id@,
            login_timeout: self.login_timeout@,
            read_timeout: self.read_timeout@,
            originator_policy: self.originator_policy,
        }
    }
}

impl Clone for ClusterSourceConfig {
    fn clone(&self) -> (r: Self)
        ensures
            r@ == self@,
    {
        ClusterSourceConfig {
            host: self.host.clone(),
            port: self.port,
            callsign: self.callsign.clone(),
            password: clone_text(&self.password),
            source_id: self.source_id.clone(),
            login_timeout: self.login_timeout,
            read_timeout: self.read_timeout,
            originator_policy: self.originator_policy,
        }
    }
}

impl ClusterSourceConfig {
    /// Create a config for a standard DX cluster node.
    pub fn new(host: &str, port: u16, callsign: &str, source_id: SourceId) -> (r: Self)
        ensures
            r@ == (ClusterModel {
                host: host@,
                port,
                callsign: callsign@,
                password: None,
                source_id: source_id@,
                login_timeout: 30_000_000_000,
                read_timeout: 300_000_000_000,
                originator_policy: OriginatorPolicy::Auto,
            }),
    {
        ClusterSourceConfig {
            host: host.to_owned(),
            port,
            callsign: callsign.to_owned(),
            password: None,
            source_id,
            login_timeout: Duration::from_secs(30),
            read_timeout: Duration::from_secs(300),
            originator_policy: OriginatorPolicy::Auto,
        }
    }

    /// Create a config pre-set for the Reverse Beacon Network.
    ///
    /// Uses the default RBN host/port and sets `originator_policy` to
    /// `AllSkimmer` since all RBN spots come from automated skimmers.
    pub fn rbn(callsign: &str, source_id: SourceId) -> (r: Self)
        ensures
            r@ == (ClusterModel {
                host: "telnet.reversebeacon.net"@,
                port: 7000,
                callsign: callsign@,
                password: None,
                source_id: source_id@,
                login_timeout: 30_000_000_000,
                read_timeout: 300_000_000_000,
                originator_policy: OriginatorPolicy::AllSkimmer,
            }),
    {
        ClusterSourceConfig {
            host: RBN_DEFAULT_HOST.to_owned(),
            port: RBN_DEFAULT_PORT,
            callsign: callsign.to_owned(),
            password: None,
            source_id,
            login_timeout: Duration::from_secs(30),
            read_timeout: Duration::from_secs(300),
            originator_policy: OriginatorPolicy::AllSkimmer,
        }
    }

    /// The address to connect to: host, colon, port.
    pub fn address(&self) -> (r: String)
        ensures
            r@ == self@.host + ":"@ + decimal_of(self@.port as nat),
    {
        let mut out = self.host.clone().concat(":");
        push_decimal(&mut out, self.port as u64);
        out
    }
}

// ---------------------------------------------------------------------------
// Lines
// ---------------------------------------------------------------------------

/// The text that bytes stand for in Latin-1: each byte is its own code point.
pub open spec fn latin1(bytes: Seq<u8>) -> Seq<char> {
    Seq::new(bytes.len(), |i: int| bytes[i] as char)
}

/// The text without carriage returns and line feeds at its end.
pub open spec fn without_line_end(s: Seq<char>) -> Seq<char>
    decreases s.len(),
{
    if s.len() > 0 && (s.last() == '\r' || s.last() == '\n') {
        without_line_end(s.drop_last())
    } else {
        s
    }
}

/// The kind of originator that a spotter is under a policy.
pub open spec fn kind_under(policy: OriginatorPolicy, spotter: Seq<char>) -> OriginatorKind {
    match policy {
        OriginatorPolicy::AllSkimmer => OriginatorKind::Skimmer,
        OriginatorPolicy::AllHuman => OriginatorKind::Human,
        OriginatorPolicy::Auto => if likely_skimmer(spotter) {
            OriginatorKind::Skimmer
        } else {
            OriginatorKind::Human
        },
    }
}

/// The observation that a parsed spot is on a connection.
pub open spec fn observation_of(config: ClusterModel, parsed: ParsedSpotModel, now: int)
    -> IncomingModel {
    IncomingModel {
        parsed,
        source_id: config.source_id,
        originator_kind: kind_under(config.originator_policy, parsed.spotter_call),
        received_at: now,
        skimmer_fields: match parsed.comment {
            Some(c) => Some(fields_of(c)),
            None => None,
        },
    }
}

/// What a received line is reported as: spots as observations, announcements
/// as such, anything else not at all.
pub open spec fn message_of(config: ClusterModel, line: Seq<char>, now: int) -> Option<
    MessageModel,
> {
    if line.len() == 0 {
        None
    } else {
        match line_of(line) {
            LineModel::Spot(parsed) => Some(
                MessageModel::Observation(observation_of(config, parsed, now)),
            ),
            LineModel::Announce(text) => Some(
                MessageModel::Announce { source: config.source_id, text, timestamp: now },
            ),
            _ => None,
        }
    }
}

/// Latin-1 tells all byte sequences apart.
pub proof fn lemma_latin1_injective(a: Seq<u8>, b: Seq<u8>)
    requires
        latin1(a) == latin1(b),
    ensures
        a == b,
{
    assert(latin1(a).len() == a.len() && latin1(b).len() == b.len());
    assert forall|i: int| 0 <= i < a.len() implies a[i] == b[i] by {
        let x: u8 = a[i];
        let y: u8 = b[i];
        assert(latin1(a)[i] == x as char);
        assert(latin1(b)[i] == y as char);
        assert(x as char as u32 == x as u32);
        assert(y as char as u32 == y as u32);
        assert(x as u32 == y as u32);
    }
    assert(a =~= b);
}

/// Decode bytes as Latin-1 (ISO 8859-1) to a String.
///
/// Latin-1 bytes map directly to Unicode codepoints 0-255, so every byte
/// is valid. This handles the common case of DX cluster nodes sending
/// accented characters in station comments.
pub fn decode_latin1(bytes: &[u8]) -> (r: String)
    ensures
        r@ == latin1(bytes@),
{
    let mut out = String::new();
    let mut i: usize = 0;
    while i < bytes.len()
        invariant
            i <= bytes@.len(),
            out@ == latin1(bytes@).take(i as int),
        decreases bytes@.len() - i,
    {
        out.push(bytes[i] as char);
        assert(out@ =~= latin1(bytes@).take(i + 1));
        i += 1;
    }
    assert(latin1(bytes@).take(i as int) =~= latin1(bytes@));
    out
}

/// Drop carriage returns and line feeds at the end.
fn trim_line_end(line: &str) -> (r: &str)
    ensures
        r@ == without_line_end(line@),
{
    let chars = chars_of(line);
    let mut n: usize = chars.len();
    assert(line@.take(n as int) =~= line@);
    while n > 0 && (chars[n - 1] == '\r' || chars[n - 1] == '\n')
        invariant
            n <= chars@.len(),
            chars@ == line@,
            without_line_end(line@) == without_line_end(line@.take(n as int)),
        decreases n,
    {
        assert(line@.take(n as int).drop_last() =~= line@.take(n - 1));
        n -= 1;
    }
    assert(line@.subrange(0, n as int) =~= line@.take(n as int));
    line.substring_char(0, n)
}

/// The kind of originator that a spotter is under a policy.
pub fn classify_originator(policy: OriginatorPolicy, spotter_call: &str) -> (r: OriginatorKind)
    ensures
        r == kind_under(policy, spotter_call@),
{
    match policy {
        OriginatorPolicy::AllSkimmer => OriginatorKind::Skimmer,
        OriginatorPolicy::AllHuman => OriginatorKind::Human,
        OriginatorPolicy::Auto => {
            if is_likely_skimmer(spotter_call) {
                OriginatorKind::Skimmer
            } else {
                OriginatorKind::Human
            }
        },
    }
}

/// Turn a received line into the message it is reported as.
pub fn dispatch_line(config: &ClusterSourceConfig, line: &str, now: Timestamp) -> (r: Option<
    SourceMessage,
>)
    ensures
        match r {
            Some(m) => message_of(config@, line@, now@) == Some(m@),
            None => message_of(config@, line@, now@) is None,
        },
{
    if line.is_empty() {
        return None;
    }
    match parse_line(line) {
        ParsedLine::Spot(parsed) => {
            let originator_kind = classify_originator(
                config.originator_policy,
                parsed.spotter_call.as_str(),
            );
            let skimmer_fields: Option<SkimmerFields> = match &parsed.comment {
                Some(c) => Some(parse_skimmer_comment(c.as_str())),
                None => None,
            };
            Some(
                SourceMessage::Observation(
                    IncomingObservation {
                        parsed,
                        source_id: config.source_id.clone(),
                        originator_kind,
                        received_at: now,
                        skimmer_fields,
                    },
                ),
            )
        },
        ParsedLine::Announce(text) => Some(
            SourceMessage::Announce(
                DxAnnounce { source: config.source_id.clone(), text, timestamp: now },
            ),
        ),
        ParsedLine::Prompt(_) => None,
        ParsedLine::Propagation(_) => None,
        ParsedLine::Unknown(_) => None,
    }
}

// ---------------------------------------------------------------------------
// Session
// ---------------------------------------------------------------------------

/// How far a connection has come.
#[derive(Debug, Clone, Copy, PartialEq, Eq, Structural)]
pub enum Phase {
    Connecting,
    LoggingIn { sent_callsign: bool, sent_password: bool },
    Reading,
    Finished,
}

/// What happens on a connection.
pub enum SourceEvent {
    /// The connection is established.
    Connected,
    /// The connection could not be established.
    ConnectFailed(String),
    /// Bytes were received, up to the end of a line.
    Data(Vec<u8>),
    /// The peer closed the connection.
    Eof,
    /// Reading failed.
    ReadFailed(String),
    /// Sending the callsign or the password failed.
    WriteFailed(String),
    /// The login deadline passed, or nothing was received for too long.
    TimedOut,
    /// The receiver of observations is gone.
    ChannelClosed,
    /// Shutdown was requested.
    ShutdownRequested,
}

/// What a [`SourceEvent`] stands for.
pub enum SourceEventModel {
    Connected,
    ConnectFailed(Seq<char>),
    Data(Seq<u8>),
    Eof,
    ReadFailed(Seq<char>),
    WriteFailed(Seq<char>),
    TimedOut,
    ChannelClosed,
    ShutdownRequested,
}

impl View for SourceEvent {
    type V = SourceEventModel;

    open spec fn view(&self) -> SourceEventModel {
        match *self {
            SourceEvent::Connected => SourceEventModel::Connected,
            SourceEvent::ConnectFailed(e) => SourceEventModel::ConnectFailed(e@),
            SourceEvent::Data(b) => SourceEventModel::Data(b@),
            SourceEvent::Eof => SourceEventModel::Eof,
            SourceEvent::ReadFailed(e) => SourceEventModel::ReadFailed(e@),
            SourceEvent::WriteFailed(e) => SourceEventModel::WriteFailed(e@),
            SourceEvent::TimedOut => SourceEventModel::TimedOut,
            SourceEvent::ChannelClosed => SourceEventModel::ChannelClosed,
            SourceEvent::ShutdownRequested => SourceEventModel::ShutdownRequested,
        }
    }
}

/// How a connection ended.
pub enum SourceExit {
    /// The peer closed it.
    Closed,
    Failed(SourceError),
}

/// What a [`SourceExit`] stands for.
pub enum ExitModel {
    Closed,
    Failed(SourceErrorModel),
}

impl View for SourceExit {
    type V = ExitModel;

    open spec fn view(&self) -> ExitModel {
        match *self {
            SourceExit::Closed => ExitModel::Closed,
            SourceExit::Failed(e) => ExitModel::Failed(e@),
        }
    }
}

/// What to do after an event.
pub struct SessionStep {
    /// IAC responses to write.
    pub replies: Vec<[u8; 3]>,
    /// A line to write.
    pub send: Option<String>,
    /// A message to report.
    pub message: Option<SourceMessage>,
    /// Set when the connection is over.
    pub exit: Option<SourceExit>,
}

/// What a [`SessionStep`] stands for.
pub struct StepModel {
    pub replies: Seq<Seq<u8>>,
    pub send: Option<Seq<char>>,
    pub message: Option<MessageModel>,
    pub exit: Option<ExitModel>,
}

impl View for SessionStep {
    type V = StepModel;

    open spec fn view(&self) -> StepModel {
        StepModel {
            replies: response_bytes(self.replies@),
            send: opt_text(self.send),
            message: match self.message {
                Some(m) => Some(m@),
                None => None,
            },
            exit: match self.exit {
                Some(e) => Some(e@),
                None => None,
            },
        }
    }
}

/// Nothing to do.
pub open spec fn no_step() -> StepModel {
    StepModel { replies: Seq::empty(), send: None, message: None, exit: None }
}

/// The connection is over.
pub open spec fn exit_step(exit: ExitModel) -> StepModel {
    StepModel { exit: Some(exit), ..no_step() }
}

/// The line asks for the callsign.
pub open spec fn asks_callsign(line: Seq<char>) -> bool {
    let low = lower_all(line);
    occurs(low, "login"@) || occurs(low, "call"@) || occurs(low, "enter your"@) || occurs(
        low,
        "your call"@,
    )
}

/// The line asks for the password.
pub open spec fn asks_password(line: Seq<char>) -> bool {
    occurs(lower_all(line), "password"@)
}

/// What a line is answered with during login: the callsign once it is asked
/// for, then the password, if there is one, once it is asked for.
pub open spec fn login_answer(
    config: ClusterModel,
    sent_callsign: bool,
    sent_password: bool,
    line: Seq<char>,
) -> Option<Seq<char>> {
    if !sent_callsign && asks_callsign(line) {
        Some(config.callsign + "\r\n"@)
    } else if sent_callsign && !sent_password && asks_password(line) {
        match config.password {
            Some(pw) => Some(pw + "\r\n"@),
            None => None,
        }
    } else {
        None
    }
}

/// The phase after a line during login. Once the callsign was sent, the first
/// line that is neither a password prompt nor another prompt ends the login.
pub open spec fn login_phase(sent_callsign: bool, sent_password: bool, line: Seq<char>) -> Phase {
    if !sent_callsign {
        Phase::LoggingIn { sent_callsign: asks_callsign(line), sent_password }
    } else if !sent_password && asks_password(line) {
        Phase::LoggingIn { sent_callsign, sent_password: true }
    } else if line_of(without_line_end(line)) is Prompt {
        Phase::LoggingIn { sent_callsign, sent_password }
    } else {
        Phase::Reading
    }
}

/// The phase after an event.
pub open spec fn next_phase(phase: Phase, event: SourceEventModel) -> Phase {
    match (phase, event) {
        (Phase::Finished, _) => Phase::Finished,
        (_, SourceEventModel::ShutdownRequested) => Phase::Finished,
        (Phase::Connecting, SourceEventModel::Connected) => Phase::LoggingIn {
            sent_callsign: false,
            sent_password: false,
        },
        (Phase::Connecting, SourceEventModel::ConnectFailed(_)) => Phase::Finished,
        (
            Phase::LoggingIn { sent_callsign, sent_password },
            SourceEventModel::Data(bytes),
        ) => login_phase(sent_callsign, sent_password, latin1(data_of(bytes))),
        (Phase::LoggingIn { .. }, SourceEventModel::Eof) => Phase::Finished,
        (Phase::LoggingIn { .. }, SourceEventModel::ReadFailed(_)) => Phase::Finished,
        (Phase::LoggingIn { .. }, SourceEventModel::WriteFailed(_)) => Phase::Finished,
        (Phase::LoggingIn { .. }, SourceEventModel::TimedOut) => Phase::Finished,
        (Phase::Reading, SourceEventModel::Eof) => Phase::Finished,
        (Phase::Reading, SourceEventModel::ReadFailed(_)) => Phase::Finished,
        (Phase::Reading, SourceEventModel::TimedOut) => Phase::Finished,
        (Phase::Reading, SourceEventModel::ChannelClosed) => Phase::Finished,
        _ => phase,
    }
}

/// What to do after an event.
pub open spec fn step_for(
    config: ClusterModel,
    phase: Phase,
    event: SourceEventModel,
    now: int,
) -> StepModel {
    match (phase, event) {
        (Phase::Finished, _) => no_step(),
        (_, SourceEventModel::ShutdownRequested) => exit_step(
            ExitModel::Failed(SourceErrorModel::Shutdown),
        ),
        (Phase::Connecting, SourceEventModel::Connected) => StepModel {
            message: Some(
                MessageModel::Status {
                    source_id: config.source_id,
                    state: StateModel::Connected,
                    timestamp: now,
                },
            ),
            ..no_step()
        },
        (Phase::Connecting, SourceEventModel::ConnectFailed(e)) => exit_step(
            ExitModel::Failed(SourceErrorModel::ConnectFailed(e)),
        ),
        (
            Phase::LoggingIn { sent_callsign, sent_password },
            SourceEventModel::Data(bytes),
        ) => StepModel {
            replies: replies_to(bytes),
            send: login_answer(config, sent_callsign, sent_password, latin1(data_of(bytes))),
            ..no_step()
        },
        (Phase::LoggingIn { .. }, SourceEventModel::Eof) => exit_step(
            ExitModel::Failed(SourceErrorModel::LoginFailed("connection closed during login"@)),
        ),
        (Phase::LoggingIn { .. }, SourceEventModel::ReadFailed(e)) => exit_step(
            ExitModel::Failed(SourceErrorModel::Io(e)),
        ),
        (Phase::LoggingIn { .. }, SourceEventModel::WriteFailed(e)) => exit_step(
            ExitModel::Failed(SourceErrorModel::LoginFailed(e)),
        ),
        (Phase::LoggingIn { .. }, SourceEventModel::TimedOut) => exit_step(
            ExitModel::Failed(SourceErrorModel::LoginFailed("login timeout"@)),
        ),
        (Phase::Reading, SourceEventModel::Data(bytes)) => StepModel {
            replies: replies_to(bytes),
            message: message_of(config, without_line_end(latin1(data_of(bytes))), now),
            ..no_step()
        },
        (Phase::Reading, SourceEventModel::Eof) => exit_step(ExitModel::Closed),
        (Phase::Reading, SourceEventModel::ReadFailed(e)) => exit_step(
            ExitModel::Failed(SourceErrorModel::Io(e)),
        ),
        (Phase::Reading, SourceEventModel::TimedOut) => exit_step(
            ExitModel::Failed(SourceErrorModel::ReadTimeout),
        ),
        (Phase::Reading, SourceEventModel::ChannelClosed) => exit_step(
            ExitModel::Failed(SourceErrorModel::ChannelClosed),
        ),
        _ => no_step(),
    }
}

// ---------------------------------------------------------------------------
// Laws
// ---------------------------------------------------------------------------

/// A connection is over exactly when it says so, and is then over for good.
pub proof fn lemma_exit_iff_finished(
    config: ClusterModel,
    phase: Phase,
    event: SourceEventModel,
    now: int,
)
    ensures
        phase != Phase::Finished ==> (step_for(config, phase, event, now).exit is Some
            <==> next_phase(phase, event) == Phase::Finished),
        phase == Phase::Finished ==> next_phase(phase, event) == Phase::Finished && step_for(
            config,
            phase,
            event,
            now,
        ) == no_step(),
{
}

/// Nothing but its connection state is reported before login is complete.
pub proof fn lemma_no_observation_before_login(
    config: ClusterModel,
    phase: Phase,
    event: SourceEventModel,
    now: int,
)
    requires
        phase != Phase::Reading,
    ensures
        step_for(config, phase, event, now).message matches Some(m) ==> m is Status,
{
}

/// The callsign is sent once, the password at most once, and only after the callsign.
pub proof fn lemma_login_sends_in_order(
    config: ClusterModel,
    sent_callsign: bool,
    sent_password: bool,
    line: Seq<char>,
)
    ensures
        login_answer(config, sent_callsign, sent_password, line) is Some ==> {
            ||| !sent_callsign && login_phase(sent_callsign, sent_password, line) == (
            Phase::LoggingIn { sent_callsign: true, sent_password })
            ||| sent_callsign && !sent_password && login_phase(sent_callsign, sent_password, line)
                == (Phase::LoggingIn { sent_callsign: true, sent_password: true })
        },
{
}

/// Every observation of a connection carries its source and the kind of
/// originator that its policy gives.
pub proof fn lemma_observation_origin(config: ClusterModel, line: Seq<char>, now: int)
    ensures
        message_of(config, line, now) matches Some(MessageModel::Observation(o)) ==> {
            &&& o.source_id == config.source_id
            &&& o.received_at == now
            &&& config.originator_policy == OriginatorPolicy::AllSkimmer ==> o.originator_kind
                == OriginatorKind::Skimmer
            &&& config.originator_policy == OriginatorPolicy::AllHuman ==> o.originator_kind
                == OriginatorKind::Human
        },
{
}

// ---------------------------------------------------------------------------
// The session
// ---------------------------------------------------------------------------

/// A connection to a DX cluster node.
pub struct ClusterSession {
    pub config: ClusterSourceConfig,
    pub phase: Phase,
}

/// Nothing to do.
fn nothing() -> (r: SessionStep)
    ensures
        r@ == no_step(),
{
    let replies: Vec<[u8; 3]> = Vec::new();
    assert(response_bytes(replies@) =~= Seq::<Seq<u8>>::empty());
    SessionStep { replies, send: None, message: None, exit: None }
}

/// Whether a text holds another, in ASCII lower case.
fn lower_holds(line: &str, needle: &str) -> (r: bool)
    ensures
        r == occurs(lower_all(line@), needle@),
{
    let chars = chars_of(line);
    let mut low: Vec<char> = Vec::new();
    let mut i: usize = 0;
    while i < chars.len()
        invariant
            i <= chars@.len(),
            chars@ == line@,
            low@ == lower_all(line@).take(i as int),
        decreases chars@.len() - i,
    {
        low.push(to_lower(chars[i]));
        assert(low@ =~= lower_all(line@).take(i + 1));
        i += 1;
    }
    assert(lower_all(line@).take(i as int) =~= lower_all(line@));
    let n = chars_of(needle);
    contains_text(low.as_slice(), n.as_slice())
}

impl ClusterSession {
    /// A connection that is being established.
    pub fn new(config: ClusterSourceConfig) -> (r: Self)
        ensures
            r.config == config,
            r.phase == Phase::Connecting,
    {
        ClusterSession { config, phase: Phase::Connecting }
    }

    /// The message to report while the connection is being established.
    pub fn connecting_status(&self, now: Timestamp) -> (r: SourceMessage)
        ensures
            r@ == (MessageModel::Status {
                source_id: self.config@.source_id,
                state: StateModel::Connecting,
                timestamp: now@,
            }),
    {
        status_message(&self.config.source_id, SourceConnectionState::Connecting, now)
    }

    /// How long to wait for the next event: until login must be complete, or
    /// until an established connection counts as hung.
    pub fn timeout(&self) -> (r: Option<Duration>)
        ensures
            r == match self.phase {
                Phase::LoggingIn { .. } => Some(self.config.login_timeout),
                Phase::Reading => Some(self.config.read_timeout),
                _ => None,
            },
    {
        match self.phase {
            Phase::Connecting => None,
            Phase::LoggingIn { sent_callsign: _, sent_password: _ } => Some(
                self.config.login_timeout,
            ),
            Phase::Reading => Some(self.config.read_timeout),
            Phase::Finished => None,
        }
    }

    /// End the connection.
    fn finish(&mut self, exit: SourceExit) -> (r: SessionStep)
        ensures
            r@ == exit_step(exit@),
            final(self).config == old(self).config,
            final(self).phase == Phase::Finished,
    {
        self.phase = Phase::Finished;
        let mut step = nothing();
        step.exit = Some(exit);
        step
    }

    /// Handle received bytes during login.
    fn login_data(&mut self, bytes: Vec<u8>, sent_callsign: bool, sent_password: bool) -> (r:
        SessionStep)
        ensures
            final(self).config == old(self).config,
            final(self).phase == login_phase(
                sent_callsign,
                sent_password,
                latin1(data_of(bytes@)),
            ),
            r@ == (StepModel {
                replies: replies_to(bytes@),
                send: login_answer(
                    old(self).config@,
                    sent_callsign,
                    sent_password,
                    latin1(data_of(bytes@)),
                ),
                ..no_step()
            }),
    {
        let mut buf = bytes;
        let stripped = strip_iac(&mut buf);
        let line = decode_latin1(buf.as_slice());
        let text = line.as_str();
        let mut step = nothing();
        step.replies = stripped.responses;
        if !sent_callsign {
            let asked: bool = lower_holds(text, "login") || lower_holds(text, "call")
                || lower_holds(text, "enter your") || lower_holds(text, "your call");
            if asked {
                step.send = Some(self.config.callsign.clone().concat("\r\n"));
            }
            self.phase = Phase::LoggingIn { sent_callsign: asked, sent_password };
        } else if !sent_password && lower_holds(text, "password") {
            if let Some(pw) = &self.config.password {
                step.send = Some(pw.clone().concat("\r\n"));
            }
            self.phase = Phase::LoggingIn { sent_callsign, sent_password: true };
        } else {
            // A line that is no prompt means that login is complete
            match parse_line(trim_line_end(text)) {
                ParsedLine::Prompt(_) => {
                    self.phase = Phase::LoggingIn { sent_callsign, sent_password };
                },
                _ => {
                    self.phase = Phase::Reading;
                },
            }
        }
        step
    }

    /// Handle received bytes after login.
    fn reading_data(&mut self, bytes: Vec<u8>, now: Timestamp) -> (r: SessionStep)
        ensures
            *final(self) == *old(self),
            r@ == (StepModel {
                replies: replies_to(bytes@),
                message: message_of(
                    old(self).config@,
                    without_line_end(latin1(data_of(bytes@))),
                    now@,
                ),
                ..no_step()
            }),
    {
        let mut buf = bytes;
        let stripped = strip_iac(&mut buf);
        let line = decode_latin1(buf.as_slice());
        let mut step = nothing();
        step.replies = stripped.responses;
        step.message = dispatch_line(&self.config, trim_line_end(line.as_str()), now);
        step
    }

    /// Handle an event: what to do, and the phase after it.
    pub fn handle(&mut self, event: SourceEvent, now: Timestamp) -> (r: SessionStep)
        ensures
            final(self).config == old(self).config,
            final(self).phase == next_phase(old(self).phase, event@),
            r@ == step_for(old(self).config@, old(self).phase, event@, now@),
    {
        match self.phase {
            Phase::Finished => nothing(),
            Phase::Connecting => match event {
                SourceEvent::ShutdownRequested => self.finish(
                    SourceExit::Failed(SourceError::Shutdown),
                ),
                SourceEvent::Connected => {
                    self.phase = Phase::LoggingIn { sent_callsign: false, sent_password: false };
                    let mut step = nothing();
                    step.message = Some(
                        status_message(
                            &self.config.source_id,
                            SourceConnectionState::Connected,
                            now,
                        ),
                    );
                    step
                },
                SourceEvent::ConnectFailed(e) => self.finish(
                    SourceExit::Failed(SourceError::ConnectFailed(e)),
                ),
                _ => nothing(),
            },
            Phase::LoggingIn { sent_callsign, sent_password } => match event {
                SourceEvent::ShutdownRequested => self.finish(
                    SourceExit::Failed(SourceError::Shutdown),
                ),
                SourceEvent::Data(bytes) => self.login_data(bytes, sent_callsign, sent_password),
                SourceEvent::Eof => self.finish(
                    SourceExit::Failed(
                        SourceError::LoginFailed("connection closed during login".to_owned()),
                    ),
                ),
                SourceEvent::ReadFailed(e) => self.finish(SourceExit::Failed(SourceError::Io(e))),
                SourceEvent::WriteFailed(e) => self.finish(
                    SourceExit::Failed(SourceError::LoginFailed(e)),
                ),
                SourceEvent::TimedOut => self.finish(
                    SourceExit::Failed(SourceError::LoginFailed("login timeout".to_owned())),
                ),
                _ => nothing(),
            },
            Phase::Reading => match event {
                SourceEvent::ShutdownRequested => self.finish(
                    SourceExit::Failed(SourceError::Shutdown),
                ),
                SourceEvent::Data(bytes) => self.reading_data(bytes, now),
                SourceEvent::Eof => self.finish(SourceExit::Closed),
                SourceEvent::ReadFailed(e) => self.finish(SourceExit::Failed(SourceError::Io(e))),
                SourceEvent::TimedOut => self.finish(SourceExit::Failed(SourceError::ReadTimeout)),
                SourceEvent::ChannelClosed => self.finish(
                    SourceExit::Failed(SourceError::ChannelClosed),
                ),
                _ => nothing(),
            },
        }
    }
}

} // verus!
