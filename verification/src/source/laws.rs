//! What a cluster connection makes of bytes and lines.

use crate::callsign::lemma_skimmer_calls;
use crate::domain::OriginatorKind;
use crate::model::StateModel;
use crate::parser::spot::{fields_of, line_of, LineModel};
use crate::text::{lower_all, occurs_at};
use vstd::prelude::*;
use vstd::string::*;

use super::cluster::{
    asks_callsign, asks_password, kind_under, latin1, login_answer, login_phase, message_of,
    next_phase, step_for, without_line_end, ClusterModel, ExitModel, OriginatorPolicy, Phase,
    SourceEventModel,
};
use super::iac::{data_of, item_len, replies_to, subnegotiation_len};
use super::message::{error_text, MessageModel, SourceErrorModel};
use super::rbn::RbnSourceConfig;
use super::supervisor::{attempts_after, reports, SourceConfig};
use super::telnet::TelnetSourceConfig;

verus! {

// ---------------------------------------------------------------------------
// Telnet commands
// ---------------------------------------------------------------------------

/// A request to enable an option (255, 253) is taken out of the data and
/// refused with the same option (255, 252); the other option commands (251, 252
/// and 254 behind 255) are taken out and not answered.
pub proof fn lemma_option_commands(option: u8, rest: Seq<u8>)
    ensures
        data_of(seq![255u8, 253u8, option] + rest) == data_of(rest),
        replies_to(seq![255u8, 253u8, option] + rest) == seq![seq![255u8, 252u8, option]]
            + replies_to(rest),
        data_of(seq![255u8, 254u8, option] + rest) == data_of(rest),
        replies_to(seq![255u8, 254u8, option] + rest) == replies_to(rest),
        data_of(seq![255u8, 251u8, option] + rest) == data_of(rest),
        replies_to(seq![255u8, 251u8, option] + rest) == replies_to(rest),
        data_of(seq![255u8, 252u8, option] + rest) == data_of(rest),
        replies_to(seq![255u8, 252u8, option] + rest) == replies_to(rest),
{
    assert((seq![255u8, 253u8, option] + rest).skip(3) =~= rest);
    assert((seq![255u8, 254u8, option] + rest).skip(3) =~= rest);
    assert((seq![255u8, 251u8, option] + rest).skip(3) =~= rest);
    assert((seq![255u8, 252u8, option] + rest).skip(3) =~= rest);
    let none = Seq::<u8>::empty();
    assert(none + data_of(rest) =~= data_of(rest));
    let quiet = Seq::<Seq<u8>>::empty();
    assert(quiet + replies_to(rest) =~= replies_to(rest));
}

/// An escaped 255 is one byte of data, and a 255 at the very end stays.
pub proof fn lemma_escapes(rest: Seq<u8>)
    ensures
        data_of(seq![255u8, 255u8] + rest) == seq![255u8] + data_of(rest),
        replies_to(seq![255u8, 255u8] + rest) == replies_to(rest),
        data_of(seq![255u8]) == seq![255u8],
        replies_to(seq![255u8]) == Seq::<Seq<u8>>::empty(),
{
    assert((seq![255u8, 255u8] + rest).skip(2) =~= rest);
    assert(seq![255u8].skip(1) =~= Seq::<u8>::empty());
    assert(data_of(Seq::<u8>::empty()) == Seq::<u8>::empty());
    assert(seq![255u8] + Seq::<u8>::empty() =~= seq![255u8]);
    let quiet = Seq::<Seq<u8>>::empty();
    assert(quiet + replies_to(rest) =~= replies_to(rest));
    assert(quiet + replies_to(Seq::<u8>::empty()) =~= quiet);
}

/// Every other command is two bytes, taken out and not answered.
pub proof fn lemma_other_commands(command: u8, rest: Seq<u8>)
    requires
        command < 250,
    ensures
        data_of(seq![255u8, command] + rest) == data_of(rest),
        replies_to(seq![255u8, command] + rest) == replies_to(rest),
{
    assert((seq![255u8, command] + rest).skip(2) =~= rest);
    let none = Seq::<u8>::empty();
    assert(none + data_of(rest) =~= data_of(rest));
    let quiet = Seq::<Seq<u8>>::empty();
    assert(quiet + replies_to(rest) =~= replies_to(rest));
}

proof fn lemma_subnegotiation_end(content: Seq<u8>, rest: Seq<u8>)
    requires
        forall|i: int| 0 <= i < content.len() ==> #[trigger] content[i] != 255,
    ensures
        subnegotiation_len(content + seq![255u8, 240u8] + rest) == content.len() + 2,
    decreases content.len(),
{
    let s = content + seq![255u8, 240u8] + rest;
    if content.len() > 0 {
        let tail = content.skip(1);
        assert(s[0] == content[0]);
        assert(s.skip(1) =~= tail + seq![255u8, 240u8] + rest);
        assert forall|i: int| 0 <= i < tail.len() implies #[trigger] tail[i] != 255 by {
            assert(tail[i] == content[i + 1]);
        }
        lemma_subnegotiation_end(tail, rest);
    } else {
        assert(s[0] == 255 && s[1] == 240);
    }
}

/// A subnegotiation (from 255, 250 to 255, 240) is taken out whole and not
/// answered.
pub proof fn lemma_subnegotiations(content: Seq<u8>, rest: Seq<u8>)
    requires
        forall|i: int| 0 <= i < content.len() ==> #[trigger] content[i] != 255,
    ensures
        data_of(seq![255u8, 250u8] + content + seq![255u8, 240u8] + rest) == data_of(rest),
        replies_to(seq![255u8, 250u8] + content + seq![255u8, 240u8] + rest) == replies_to(rest),
{
    let s = seq![255u8, 250u8] + content + seq![255u8, 240u8] + rest;
    lemma_subnegotiation_end(content, rest);
    assert(s.skip(2) =~= content + seq![255u8, 240u8] + rest);
    assert(item_len(s) == content.len() + 4);
    assert(s.skip(content.len() as int + 4) =~= rest);
    let none = Seq::<u8>::empty();
    assert(none + data_of(rest) =~= data_of(rest));
    let quiet = Seq::<Seq<u8>>::empty();
    assert(quiet + replies_to(rest) =~= replies_to(rest));
}

// ---------------------------------------------------------------------------
// Lines
// ---------------------------------------------------------------------------

/// Every byte is the character of its number.
pub proof fn lemma_latin1_codes(bytes: Seq<u8>, i: int)
    requires
        0 <= i < bytes.len(),
    ensures
        latin1(bytes).len() == bytes.len(),
        latin1(bytes)[i] as u32 == bytes[i],
{
}

/// Carriage returns and line feeds are taken off the end of a line, and nothing
/// else is.
pub proof fn lemma_line_ends(line: Seq<char>)
    requires
        line.len() == 0 || (line.last() != '\r' && line.last() != '\n'),
    ensures
        without_line_end(line) == line,
        without_line_end(line.push('\n')) == line,
        without_line_end(line.push('\r').push('\n')) == line,
{
    let returned = line.push('\r');
    let fed = line.push('\n');
    let both = returned.push('\n');
    assert(without_line_end(line) == line);
    assert(returned.drop_last() =~= line);
    assert(fed.drop_last() =~= line);
    assert(both.drop_last() =~= returned);
    assert(returned.last() == '\r' && fed.last() == '\n' && both.last() == '\n');
    assert(without_line_end(returned) == without_line_end(returned.drop_last()));
    assert(without_line_end(fed) == without_line_end(fed.drop_last()));
    assert(without_line_end(both) == without_line_end(both.drop_last()));
}

/// Who reported a spot: a policy for all decides alone; otherwise a call that
/// ends in a dash and one or two digits is a skimmer's, and any other a human's.
pub proof fn lemma_originators(call: Seq<char>, suffix: Seq<char>)
    requires
        !suffix.contains('-'),
    ensures
        kind_under(OriginatorPolicy::AllSkimmer, call) == OriginatorKind::Skimmer,
        kind_under(OriginatorPolicy::AllHuman, call) == OriginatorKind::Human,
        kind_under(OriginatorPolicy::Auto, call + seq!['-'] + suffix) == if (suffix.len() == 1
            && '0' <= suffix[0] <= '9') || (suffix.len() == 2 && '0' <= suffix[0] <= '9' && '0'
            <= suffix[1] <= '9') {
            OriginatorKind::Skimmer
        } else {
            OriginatorKind::Human
        },
        !call.contains('-') ==> kind_under(OriginatorPolicy::Auto, call) == OriginatorKind::Human,
{
    lemma_skimmer_calls(call, suffix);
}

/// What a line is reported as: a spot as an observation of what it says, with
/// the skimmer fields of its comment, an announcement as such, and nothing else.
pub proof fn lemma_lines_reported(config: ClusterModel, line: Seq<char>, now: int)
    requires
        line.len() > 0,
    ensures
        line_of(line) matches LineModel::Spot(parsed) ==> {
            &&& message_of(config, line, now) matches Some(MessageModel::Observation(o))
            &&& (message_of(config, line, now)->0)->Observation_0.parsed == parsed
            &&& parsed.comment is None ==> (message_of(
                config,
                line,
                now,
            )->0)->Observation_0.skimmer_fields is None
            &&& parsed.comment matches Some(c) ==> (message_of(
                config,
                line,
                now,
            )->0)->Observation_0.skimmer_fields == Some(fields_of(c))
        },
        line_of(line) matches LineModel::Announce(text) ==> message_of(config, line, now) == Some(
            MessageModel::Announce { source: config.source_id, text, timestamp: now },
        ),
        line_of(line) is Prompt || line_of(line) is Propagation || line_of(line) is Unknown
            ==> message_of(config, line, now) is None,
{
}

// ---------------------------------------------------------------------------
// Sessions
// ---------------------------------------------------------------------------

/// How a connection ends, by what happens on it.
pub proof fn lemma_session_ends(
    config: ClusterModel,
    phase: Phase,
    reason: Seq<char>,
    now: int,
)
    ensures
        phase != Phase::Finished ==> step_for(
            config,
            phase,
            SourceEventModel::ShutdownRequested,
            now,
        ).exit == Some(ExitModel::Failed(SourceErrorModel::Shutdown)),
        step_for(
            config,
            Phase::Connecting,
            SourceEventModel::ConnectFailed(reason),
            now,
        ).exit == Some(ExitModel::Failed(SourceErrorModel::ConnectFailed(reason))),
        step_for(config, Phase::Reading, SourceEventModel::Eof, now).exit == Some(
            ExitModel::Closed,
        ),
        step_for(config, Phase::Reading, SourceEventModel::TimedOut, now).exit == Some(
            ExitModel::Failed(SourceErrorModel::ReadTimeout),
        ),
        step_for(config, Phase::Reading, SourceEventModel::ReadFailed(reason), now).exit == Some(
            ExitModel::Failed(SourceErrorModel::Io(reason)),
        ),
        step_for(config, Phase::Reading, SourceEventModel::ChannelClosed, now).exit == Some(
            ExitModel::Failed(SourceErrorModel::ChannelClosed),
        ),
        phase is LoggingIn ==> {
            &&& step_for(config, phase, SourceEventModel::Eof, now).exit matches Some(
                ExitModel::Failed(SourceErrorModel::LoginFailed(_)),
            )
            &&& step_for(config, phase, SourceEventModel::TimedOut, now).exit matches Some(
                ExitModel::Failed(SourceErrorModel::LoginFailed(_)),
            )
            &&& step_for(config, phase, SourceEventModel::WriteFailed(reason), now).exit == Some(
                ExitModel::Failed(SourceErrorModel::LoginFailed(reason)),
            )
            &&& step_for(config, phase, SourceEventModel::ReadFailed(reason), now).exit == Some(
                ExitModel::Failed(SourceErrorModel::Io(reason)),
            )
        },
{
}

/// What is received while reading is handed on without its commands and its
/// line end, and every command is answered, before login too.
pub proof fn lemma_session_reads(
    config: ClusterModel,
    phase: Phase,
    bytes: Seq<u8>,
    now: int,
)
    ensures
        step_for(config, Phase::Reading, SourceEventModel::Data(bytes), now).message
            == message_of(config, without_line_end(latin1(data_of(bytes))), now),
        next_phase(Phase::Reading, SourceEventModel::Data(bytes)) == Phase::Reading,
        phase is LoggingIn || phase == Phase::Reading ==> step_for(
            config,
            phase,
            SourceEventModel::Data(bytes),
            now,
        ).replies == replies_to(bytes),
        step_for(config, Phase::Reading, SourceEventModel::Data(bytes), now).send is None,
{
}

/// A line that names a login or a call asks for the callsign, one that names a
/// password for that, in any case of the letters.
pub proof fn lemma_login_prompts(line: Seq<char>, at: int)
    ensures
        occurs_at(lower_all(line), seq!['l', 'o', 'g', 'i', 'n'], at) ==> asks_callsign(line),
        occurs_at(lower_all(line), seq!['c', 'a', 'l', 'l'], at) ==> asks_callsign(line),
        occurs_at(
            lower_all(line),
            seq!['p', 'a', 's', 's', 'w', 'o', 'r', 'd'],
            at,
        ) ==> asks_password(line),
{
    reveal_strlit("login");
    reveal_strlit("call");
    reveal_strlit("password");
    assert("login"@ =~= seq!['l', 'o', 'g', 'i', 'n']);
    assert("call"@ =~= seq!['c', 'a', 'l', 'l']);
    assert("password"@ =~= seq!['p', 'a', 's', 's', 'w', 'o', 'r', 'd']);
}

/// What is sent during login: the callsign when it is first asked for, the
/// password when it is first asked for after that, each with a line end, and
/// nothing in between. The login is over with the first line behind the
/// callsign that is no prompt.
pub proof fn lemma_login(config: ClusterModel, sent_password: bool, line: Seq<char>)
    ensures
        login_answer(config, false, sent_password, line) == if asks_callsign(line) {
            Some(config.callsign + seq!['\r', '\n'])
        } else {
            None
        },
        asks_password(line) ==> login_answer(config, true, false, line) == match config.password {
            Some(pw) => Some(pw + seq!['\r', '\n']),
            None => None,
        },
        !asks_password(line) ==> login_answer(config, true, sent_password, line) is None,
        login_answer(config, true, true, line) is None,
        login_phase(false, sent_password, line) != Phase::Reading,
        login_phase(true, sent_password, line) == Phase::Reading <==> (sent_password
            || !asks_password(line)) && !(line_of(without_line_end(line)) is Prompt),
{
    reveal_strlit("\r\n");
    assert("\r\n"@ =~= seq!['\r', '\n']);
}

/// A connection that is established is reported as such.
pub proof fn lemma_session_connects(config: ClusterModel, now: int)
    ensures
        step_for(config, Phase::Connecting, SourceEventModel::Connected, now).message == Some(
            MessageModel::Status {
                source_id: config.source_id,
                state: StateModel::Connected,
                timestamp: now,
            },
        ),
        next_phase(Phase::Connecting, SourceEventModel::Connected) == (Phase::LoggingIn {
            sent_callsign: false,
            sent_password: false,
        }),
{
}

// ---------------------------------------------------------------------------
// Sources
// ---------------------------------------------------------------------------

/// The connection that a source stands for has the host, port, callsign,
/// identifier and timeouts of the source; only a telnet or cluster source can
/// have a password, and an RBN source reports skimmers alone.
pub proof fn lemma_connections(telnet: TelnetSourceConfig, rbn: RbnSourceConfig)
    ensures
        ({
            let c = SourceConfig::Telnet(telnet).connection();
            &&& c.host == telnet.host@ && c.port == telnet.port && c.callsign == telnet.callsign@
            &&& c.source_id == telnet.source_id@
            &&& c.login_timeout == telnet.login_timeout@ && c.read_timeout == telnet.read_timeout@
            &&& telnet.password is None ==> c.password is None
            &&& telnet.password matches Some(p) ==> c.password == Some(p@)
            &&& telnet.skimmer_source ==> c.originator_policy == OriginatorPolicy::AllSkimmer
            &&& !telnet.skimmer_source ==> c.originator_policy == OriginatorPolicy::Auto
        }),
        ({
            let c = SourceConfig::Rbn(rbn).connection();
            &&& c.host == rbn.host@ && c.port == rbn.port && c.callsign == rbn.callsign@
            &&& c.source_id == rbn.source_id@
            &&& c.login_timeout == rbn.login_timeout@ && c.read_timeout == rbn.read_timeout@
            &&& c.password is None
            &&& c.originator_policy == OriginatorPolicy::AllSkimmer
        }),
{
}

/// What is reported after a connection has ended, as long as the supervisor goes
/// on: the number of the next attempt, one after a connection that the peer
/// closed and one more than before after one that failed, and then why it
/// failed.
pub proof fn lemma_attempts_reported(
    source_id: Seq<char>,
    attempt: u32,
    error: SourceErrorModel,
    now: int,
)
    requires
        attempt < u32::MAX,
        error != SourceErrorModel::Shutdown,
    ensures
        reports(source_id, attempt, ExitModel::Closed, false, now) == seq![
            MessageModel::Status {
                source_id,
                state: StateModel::Reconnecting { attempt: 1 },
                timestamp: now,
            },
        ],
        reports(source_id, attempt, ExitModel::Failed(error), false, now) == seq![
            MessageModel::Status {
                source_id,
                state: StateModel::Reconnecting { attempt: (attempt + 1) as u32 },
                timestamp: now,
            },
            MessageModel::Status {
                source_id,
                state: StateModel::Failed { reason: error_text(error) },
                timestamp: now,
            },
        ],
        attempts_after(attempt, ExitModel::Closed, false) == 0,
        attempts_after(attempt, ExitModel::Failed(error), false) == attempt + 1,
{
}

} // verus!
