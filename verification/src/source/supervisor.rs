//! Source supervision: when to reconnect, and what to report.

use crate::model::{SourceConnectionState, SourceId, StateModel};
use crate::time::{Duration, Timestamp};
use vstd::prelude::*;

use super::cluster::{ClusterModel, ClusterSourceConfig, ExitModel, OriginatorPolicy, SourceExit};
use super::message::{
    error_text, status_message, MessageModel, SourceError, SourceErrorModel, SourceMessage,
};
use super::rbn::RbnSourceConfig;
use super::telnet::TelnetSourceConfig;

verus! {

/// Which type of source to run.
#[derive(Debug)]
pub enum SourceConfig {
    Cluster(ClusterSourceConfig),
    Telnet(TelnetSourceConfig),
    Rbn(RbnSourceConfig),
}

impl Clone for SourceConfig {
    fn clone(&self) -> (r: Self)
        ensures
            r is Cluster <==> self is Cluster,
            r is Telnet <==> self is Telnet,
            r is Rbn <==> self is Rbn,
            r.connection() == self.connection(),
    {
        match self {
            SourceConfig::Cluster(c) => SourceConfig::Cluster(c.clone()),
            SourceConfig::Telnet(c) => SourceConfig::Telnet(c.clone()),
            SourceConfig::Rbn(c) => SourceConfig::Rbn(c.clone()),
        }
    }
}

impl SourceConfig {
    /// The connection that the source stands for.
    pub open spec fn connection(&self) -> ClusterModel {
        match *self {
            SourceConfig::Cluster(c) => c@,
            SourceConfig::Telnet(c) => ClusterModel {
                host: c.host@,
                port: c.port,
                callsign: c.callsign@,
                password: crate::model::opt_text(c.password),
                source_id: c.source_id@,
                login_timeout: c.login_timeout@,
                read_timeout: c.read_timeout@,
                originator_policy: if c.skimmer_source {
                    OriginatorPolicy::AllSkimmer
                } else {
                    OriginatorPolicy::Auto
                },
            },
            SourceConfig::Rbn(c) => ClusterModel {
                host: c.host@,
                port: c.port,
                callsign: c.callsign@,
                password: None,
                source_id: c.source_id@,
                login_timeout: c.login_timeout@,
                read_timeout: c.read_timeout@,
                originator_policy: OriginatorPolicy::AllSkimmer,
            },
        }
    }

    /// The identifier of the source.
    pub fn source_id(&self) -> (r: &SourceId)
        ensures
            r@ == self.connection().source_id,
    {
        match self {
            SourceConfig::Cluster(c) => &c.source_id,
            SourceConfig::Telnet(c) => &c.source_id,
            SourceConfig::Rbn(c) => &c.source_id,
        }
    }

    /// The connection to run: RBN spots all come from skimmers.
    pub fn cluster_config(&self) -> (r: ClusterSourceConfig)
        ensures
            r@ == self.connection(),
    {
        match self {
            SourceConfig::Cluster(c) => c.clone(),
            SourceConfig::Telnet(c) => c.to_cluster_config(),
            SourceConfig::Rbn(c) => c.to_telnet_config().to_cluster_config(),
        }
    }
}

/// What to do after a connection has ended.
#[derive(Debug, Clone, Copy, PartialEq, Eq, Structural)]
pub enum NextMove {
    /// Stop for good.
    Stop,
    /// Wait for the next backoff delay, then connect again.
    BackOff,
    /// Start the backoff over, pause for the given time, then connect again.
    Pause(Duration),
}

/// What a [`NextMove`] stands for.
pub enum MoveModel {
    Stop,
    BackOff,
    Pause(int),
}

impl View for NextMove {
    type V = MoveModel;

    open spec fn view(&self) -> MoveModel {
        match *self {
            NextMove::Stop => MoveModel::Stop,
            NextMove::BackOff => MoveModel::BackOff,
            NextMove::Pause(d) => MoveModel::Pause(d@),
        }
    }
}

/// What to report and what to do after a connection has ended.
pub struct SupervisorStep {
    pub messages: Vec<SourceMessage>,
    pub next: NextMove,
}

/// The views of a list of messages.
pub open spec fn message_models(list: Seq<SourceMessage>) -> Seq<MessageModel> {
    Seq::new(list.len(), |i: int| list[i]@)
}

/// A status report.
pub open spec fn status(source_id: Seq<char>, state: StateModel, now: int) -> MessageModel {
    MessageModel::Status { source_id, state, timestamp: now }
}

/// The supervisor stops: shutdown was requested, or the connection says so.
pub open spec fn stops(exit: ExitModel, shutdown: bool) -> bool {
    shutdown || exit == ExitModel::Failed(SourceErrorModel::Shutdown)
}

/// The number of the next attempt after one that failed.
pub open spec fn next_attempt(attempt: u32) -> u32 {
    if attempt < u32::MAX {
        (attempt + 1) as u32
    } else {
        attempt
    }
}

/// The attempts counted after a connection has ended: failures in a row.
pub open spec fn attempts_after(attempt: u32, exit: ExitModel, shutdown: bool) -> u32 {
    if stops(exit, shutdown) {
        attempt
    } else {
        match exit {
            ExitModel::Closed => 0,
            ExitModel::Failed(_) => next_attempt(attempt),
        }
    }
}

/// What is reported after a connection has ended.
pub open spec fn reports(
    source_id: Seq<char>,
    attempt: u32,
    exit: ExitModel,
    shutdown: bool,
    now: int,
) -> Seq<MessageModel> {
    if stops(exit, shutdown) {
        seq![status(source_id, StateModel::Shutdown, now)]
    } else {
        match exit {
            ExitModel::Closed => seq![
                status(source_id, StateModel::Reconnecting { attempt: 1 }, now),
            ],
            ExitModel::Failed(e) => seq![
                status(
                    source_id,
                    StateModel::Reconnecting { attempt: next_attempt(attempt) },
                    now,
                ),
                status(source_id, StateModel::Failed { reason: error_text(e) }, now),
            ],
        }
    }
}

/// What to do after a connection has ended: a second's pause after one that the
/// peer closed, the next backoff delay after one that failed.
pub open spec fn next_move(exit: ExitModel, shutdown: bool) -> MoveModel {
    if stops(exit, shutdown) {
        MoveModel::Stop
    } else {
        match exit {
            ExitModel::Closed => MoveModel::Pause(1_000_000_000),
            ExitModel::Failed(_) => MoveModel::BackOff,
        }
    }
}

// ---------------------------------------------------------------------------
// Runs
// ---------------------------------------------------------------------------

/// The end of a connection: how it ended, whether shutdown was requested by
/// then, and when.
pub struct Ended {
    pub exit: ExitModel,
    pub shutdown: bool,
    pub at: int,
}

/// The attempts counted over a run of connections by a new supervisor.
pub open spec fn attempts_over(run: Seq<Ended>) -> u32
    decreases run.len(),
{
    if run.len() == 0 {
        0
    } else {
        attempts_after(attempts_over(run.drop_last()), run.last().exit, run.last().shutdown)
    }
}

/// What is reported over a run of connections by a new supervisor.
pub open spec fn run_reports(source_id: Seq<char>, run: Seq<Ended>) -> Seq<MessageModel>
    decreases run.len(),
{
    if run.len() == 0 {
        seq![]
    } else {
        run_reports(source_id, run.drop_last()) + reports(
            source_id,
            attempts_over(run.drop_last()),
            run.last().exit,
            run.last().shutdown,
            run.last().at,
        )
    }
}

/// How many connections have failed in a row at the end of a run.
pub open spec fn failures_in_a_row(run: Seq<Ended>) -> nat
    decreases run.len(),
{
    if run.len() == 0 || run.last().exit is Closed {
        0
    } else {
        1 + failures_in_a_row(run.drop_last())
    }
}

/// Shutdown was neither requested during the run nor the end of a connection.
pub open spec fn goes_on(run: Seq<Ended>) -> bool {
    forall|i: int| 0 <= i < run.len() ==> !stops((#[trigger] run[i]).exit, run[i].shutdown)
}

/// As long as shutdown is neither requested nor the end of a connection, the
/// supervisor asks for another connection every time: after a pause where the
/// peer closed the last one, after a backoff delay where it failed. It counts
/// the failures in a row, and does not report a shutdown.
pub proof fn lemma_reconnects_until_shutdown(source_id: Seq<char>, run: Seq<Ended>)
    requires
        goes_on(run),
    ensures
        forall|i: int|
            0 <= i < run.len() ==> next_move((#[trigger] run[i]).exit, run[i].shutdown) == (
            match run[i].exit {
                ExitModel::Closed => MoveModel::Pause(1_000_000_000),
                ExitModel::Failed(_) => MoveModel::BackOff,
            }),
        attempts_over(run) == if failures_in_a_row(run) < u32::MAX {
            failures_in_a_row(run)
        } else {
            u32::MAX as nat
        },
        forall|i: int|
            0 <= i < run_reports(source_id, run).len() ==> ((#[trigger] run_reports(
                source_id,
                run,
            )[i]) matches MessageModel::Status { source_id: id, state, .. } && id == source_id
                && state != StateModel::Shutdown),
    decreases run.len(),
{
    if run.len() > 0 {
        let init = run.drop_last();
        let last = run.last();
        assert(run[run.len() - 1] == last);
        assert forall|i: int| 0 <= i < init.len() implies !stops(
            (#[trigger] init[i]).exit,
            init[i].shutdown,
        ) by {
            assert(init[i] == run[i]);
        }
        lemma_reconnects_until_shutdown(source_id, init);
        let before = run_reports(source_id, init);
        let all = run_reports(source_id, run);
        assert forall|i: int| 0 <= i < all.len() implies ((#[trigger] all[i]) matches
            MessageModel::Status { source_id: id, state, .. } && id == source_id && state
            != StateModel::Shutdown) by {
            if i < before.len() {
                assert(all[i] == before[i]);
            }
        }
    }
}

/// Once shutdown is requested, or is how a connection ends, the supervisor
/// stops, and reports the shutdown as the last thing.
pub proof fn lemma_shutdown_stops(source_id: Seq<char>, run: Seq<Ended>, end: Ended)
    requires
        stops(end.exit, end.shutdown),
    ensures
        next_move(end.exit, end.shutdown) == MoveModel::Stop,
        run_reports(source_id, run.push(end)) == run_reports(source_id, run).push(
            status(source_id, StateModel::Shutdown, end.at),
        ),
{
    let all = run.push(end);
    assert(all.drop_last() =~= run);
    assert(run_reports(source_id, all) =~= run_reports(source_id, run).push(
        status(source_id, StateModel::Shutdown, end.at),
    ));
}

// ---------------------------------------------------------------------------
// The supervisor
// ---------------------------------------------------------------------------

/// Watches over one source.
pub struct Supervisor {
    pub source_id: SourceId,
    /// Connections that failed in a row.
    pub attempt: u32,
}

/// Append a status message.
fn push_status(
    messages: &mut Vec<SourceMessage>,
    source_id: &SourceId,
    state: SourceConnectionState,
    now: Timestamp,
)
    ensures
        message_models(final(messages)@) == message_models(old(messages)@).push(
            status(source_id@, state@, now@),
        ),
{
    let ghost before = message_models(messages@);
    let ghost m = status(source_id@, state@, now@);
    messages.push(status_message(source_id, state, now));
    assert(message_models(messages@) =~= before.push(m));
}

impl Supervisor {
    /// A supervisor that has seen no failure.
    pub fn new(source_id: SourceId) -> (r: Self)
        ensures
            r.source_id@ == source_id@,
            r.attempt == 0,
    {
        Supervisor { source_id, attempt: 0 }
    }

    /// Decide what to do after a connection has ended.
    ///
    /// A connection that the peer closed was healthy: the backoff starts over,
    /// and the next attempt follows after a brief pause.
    pub fn after_exit(&mut self, exit: SourceExit, shutdown: bool, now: Timestamp) -> (r:
        SupervisorStep)
        ensures
            final(self).source_id == old(self).source_id,
            final(self).attempt == attempts_after(old(self).attempt, exit@, shutdown),
            message_models(r.messages@) == reports(
                old(self).source_id@,
                old(self).attempt,
                exit@,
                shutdown,
                now@,
            ),
            r.next@ == next_move(exit@, shutdown),
    {
        let ghost id = self.source_id@;
        let mut messages: Vec<SourceMessage> = Vec::new();
        assert(message_models(messages@) =~= Seq::<MessageModel>::empty());
        let shutting_down: bool = shutdown || (match &exit {
            SourceExit::Failed(SourceError::Shutdown) => true,
            _ => false,
        });
        if shutting_down {
            push_status(&mut messages, &self.source_id, SourceConnectionState::Shutdown, now);
            assert(message_models(messages@) =~= seq![status(id, StateModel::Shutdown, now@)]);
            return SupervisorStep { messages, next: NextMove::Stop };
        }
        match exit {
            SourceExit::Failed(e) => {
                self.attempt = self.attempt.saturating_add(1);
                push_status(
                    &mut messages,
                    &self.source_id,
                    SourceConnectionState::Reconnecting { attempt: self.attempt },
                    now,
                );
                push_status(
                    &mut messages,
                    &self.source_id,
                    SourceConnectionState::Failed { reason: e.message() },
                    now,
                );
                assert(message_models(messages@) =~= reports(
                    id,
                    old(self).attempt,
                    exit@,
                    shutdown,
                    now@,
                ));
                SupervisorStep { messages, next: NextMove::BackOff }
            },
            SourceExit::Closed => {
                self.attempt = 0;
                push_status(
                    &mut messages,
                    &self.source_id,
                    SourceConnectionState::Reconnecting { attempt: 1 },
                    now,
                );
                assert(message_models(messages@) =~= reports(
                    id,
                    old(self).attempt,
                    exit@,
                    shutdown,
                    now@,
                ));
                SupervisorStep { messages, next: NextMove::Pause(Duration::from_secs(1)) }
            },
        }
    }

    /// The message to report when shutdown is requested while waiting.
    pub fn shutdown_status(&self, now: Timestamp) -> (r: SourceMessage)
        ensures
            r@ == status(self.source_id@, StateModel::Shutdown, now@),
    {
        status_message(&self.source_id, SourceConnectionState::Shutdown, now)
    }
}

} // verus!
