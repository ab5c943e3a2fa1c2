//! What the controls of the service do, and what it records.

use vstd::prelude::*;

use crate::config::BackendConfig;
use crate::engine::{EngineSnapshot, OutputModel};
use crate::journal::{blank, record_models, LineModel, MarketDataSource, RecordModel};
use crate::laws::discovery::{is_set, requests_go_before_the_environment};
use crate::mapping::{DiscoveryConfig, DiscoveryError, EnvironmentValues, ResolvedLiveFeed};
use crate::pascal::PascalConfig;
use crate::runtime::{
    after_market_event, commanded, commanded_status, event_record, event_taken, proof_of,
    proofs_for, readiness_of, records_for, records_of, restarted, restarts, runtime_commanded,
    runtime_stepped, session_state, stepped, stepped_status, ProcessedEvent, ProofModel, Readiness,
    ReplayAction, ReplayWorker, Runtime, RuntimeModel, SessionState, WorkerModel,
};
use crate::session::{
    authorized, bounded_pause, first_unreadable, initial_statuses, pascal_config, proof_delay,
    replay_command, replay_events, replay_gap, requested_session, resolve_control_token,
    txline_config, Backoff, Environment, FeedController, FeedMode, FeedModeState, FeedSwitch,
    MappingStatus, Refusal, ReplayCommand, ReplayCommandRequest, ReplayStatus, RunMode, StartAction,
};
use crate::strategy::DislocationTaker;
use crate::text::text_option;
use crate::txline::TxLineConfig;
use crate::types::{EnvelopeModel, EventEnvelope, EventModel, FeedStatus, OrderMode, Stamp};

verus! {

/// The pause before a replayed event is never shorter than twenty milliseconds nor longer
/// than two seconds, and in between it is what it is to be.
pub proof fn pauses_are_bounded(scaled_ns: u64, pause: u64)
    requires
        call_ensures(bounded_pause, (scaled_ns,), pause),
    ensures
        20_000_000 <= pause <= 2_000_000_000,
        20_000_000 <= scaled_ns <= 2_000_000_000 ==> pause == scaled_ns,
        scaled_ns < 20_000_000 ==> pause == 20_000_000,
        scaled_ns > 2_000_000_000 ==> pause == 2_000_000_000,
{
}

/// The gap before an event is the time since the event before it, none where the clock went
/// back. The first event has no gap.
pub proof fn gaps_are_recorded_times(previous: Option<u64>, current: u64, gap: Option<u64>)
    requires
        call_ensures(replay_gap, (previous, current), gap),
    ensures
        gap is None <==> previous is None,
        previous matches Some(p) ==> (gap matches Some(g) && g == if p <= current {
            current - p
        } else {
            0
        }),
{
}

/// Only a request that carries exactly the control token is authorized. The token is the
/// configured one; without one there is a token for connections from the same machine
/// alone.
pub proof fn control_needs_the_token(
    given: Option<&str>,
    token: &str,
    allowed: bool,
    is_loopback: bool,
    configured: Option<String>,
    used: Option<String>,
)
    requires
        call_ensures(authorized, (given, token), allowed),
        call_ensures(resolve_control_token, (is_loopback, configured), used),
    ensures
        allowed <==> given is Some && given->0@ == token@,
        configured matches Some(c) ==> used is Some && used->0@ == c@,
        configured is None && !is_loopback ==> used is None,
        configured is None && is_loopback ==> used is Some,
{
}

/// A replay request becomes a command exactly when it is authorized, a speed lies between a
/// quarter and twenty times that of the recording, the session is a replay, and there is
/// something to replay. The command is the one that was asked for. What is missing first is
/// the reason of a refusal.
pub proof fn replay_requests_are_checked_in_turn(
    allowed: bool,
    request: ReplayCommandRequest,
    mode: RunMode,
    available: bool,
    answer: Result<ReplayCommand, Refusal>,
)
    requires
        call_ensures(replay_command, (allowed, request, mode, available), answer),
    ensures
        ({
            let too_slow_or_fast = request matches ReplayCommandRequest::SetSpeed { speed_bits }
                && (speed_bits < 0x3fd0_0000_0000_0000 || speed_bits > 0x4034_0000_0000_0000);
            if !allowed {
                answer == Err::<ReplayCommand, Refusal>(Refusal::TokenRejected)
            } else if too_slow_or_fast {
                answer == Err::<ReplayCommand, Refusal>(Refusal::SpeedOutOfRange)
            } else if mode == RunMode::Live {
                answer == Err::<ReplayCommand, Refusal>(Refusal::NotReplaying)
            } else if !available {
                answer == Err::<ReplayCommand, Refusal>(Refusal::ReplayUnavailable)
            } else {
                answer is Ok && match request {
                    ReplayCommandRequest::Play => answer->Ok_0 == ReplayCommand::Play,
                    ReplayCommandRequest::Pause => answer->Ok_0 == ReplayCommand::Pause,
                    ReplayCommandRequest::Reset => answer->Ok_0 == ReplayCommand::Reset,
                    ReplayCommandRequest::SetSpeed { speed_bits } =>
                    answer->Ok_0 matches ReplayCommand::SetSpeed(speed) && speed@ == speed_bits,
                    ReplayCommandRequest::Seek { event_index } => answer->Ok_0
                        == ReplayCommand::Seek(event_index),
                }
            }
        }),
{
}

/// What is refused for want of the token, or for a speed that no replay has, is the fault
/// of the request; what the session cannot do now is a conflict.
pub proof fn refusals_have_their_status(refusal: &Refusal, status: u16)
    requires
        call_ensures(Refusal::status, (refusal,), status),
    ensures
        *refusal == Refusal::TokenRejected <==> status == 401,
        *refusal == Refusal::SpeedOutOfRange <==> status == 400,
        status == 401 || status == 400 || status == 409,
{
}

/// Feeds can always be stopped, and a request for the mode they are in changes nothing. They
/// can be made live exactly on the development network with a known mapping.
pub proof fn live_feeds_need_the_development_network_and_a_mapping(
    c: &FeedController,
    mode: FeedMode,
    answer: Result<FeedSwitch, Refusal>,
)
    requires
        call_ensures(FeedController::plan_feed_switch, (c, mode), answer),
    ensures
        c.mode == mode ==> answer == Ok::<FeedSwitch, Refusal>(FeedSwitch::Keep),
        c.mode != mode && mode == FeedMode::Inactive ==> answer == Ok::<FeedSwitch, Refusal>(
            FeedSwitch::Switch,
        ),
        c.mode != mode && mode == FeedMode::Live ==> {
            &&& answer is Ok <==> c.environment == Environment::Devnet && c.live is Some
            &&& answer is Ok ==> answer->Ok_0 == FeedSwitch::Switch
            &&& answer is Err && c.environment == Environment::Mainnet ==> answer->Err_0
                == Refusal::MainnetUnconfigured
            &&& answer is Err && c.environment == Environment::Devnet && c.discovery
                == MappingStatus::Discovering ==> answer->Err_0 == Refusal::StillDiscovering
            &&& answer is Err && c.environment == Environment::Devnet && c.discovery
                == MappingStatus::Unavailable ==> answer->Err_0 == Refusal::TokenMissing
        },
{
}

/// A session begins with its feeds stopped, in the environment and the mode asked for, and
/// keeps what is known of the mapping. A replay starts in replay mode; live feeds start in
/// live mode, on the development network, with a known mapping; otherwise nothing starts.
pub proof fn sessions_begin_with_stopped_feeds(
    c: &mut FeedController,
    environment: Environment,
    mode: RunMode,
    start: StartAction,
)
    requires
        call_ensures(FeedController::begin_session, (c, environment, mode), start),
    ensures
        final(c).mode == FeedMode::Inactive,
        final(c).environment == environment,
        final(c).run_mode == mode,
        final(c).replaying <==> mode == RunMode::Replay,
        final(c).live == old(c).live,
        final(c).discovery == old(c).discovery,
        start == StartAction::Replay <==> mode == RunMode::Replay,
        start == StartAction::LiveFeeds <==> mode == RunMode::Live && environment
            == Environment::Devnet && old(c).live is Some,
{
}

/// A mapping that was found is kept and makes the session ready. The live feeds start with
/// it exactly in a live session on the development network.
pub proof fn found_mappings_make_the_session_ready(
    c: &mut FeedController,
    live: ResolvedLiveFeed,
    start: StartAction,
)
    requires
        call_ensures(FeedController::accept_mapping, (c, live), start),
    ensures
        final(c).live == Some(live),
        final(c).discovery == MappingStatus::Ready,
        final(c).mode == old(c).mode,
        final(c).environment == old(c).environment,
        final(c).run_mode == old(c).run_mode,
        final(c).replaying == old(c).replaying,
        start == StartAction::LiveFeeds <==> old(c).run_mode == RunMode::Live && old(c).environment
            == Environment::Devnet,
        start != StartAction::Replay,
{
}

/// A request that leaves the environment or the mode open keeps the one at hand.
pub proof fn open_requests_keep_the_session(
    at_environment: Environment,
    at_mode: RunMode,
    environment: Option<Environment>,
    mode: Option<RunMode>,
    session: (Environment, RunMode),
)
    requires
        call_ensures(
            requested_session,
            (at_environment, at_mode, environment, mode),
            session,
        ),
    ensures
        environment is None ==> session.0 == at_environment,
        environment matches Some(e) ==> session.0 == e,
        mode is None ==> session.1 == at_mode,
        mode matches Some(m) ==> session.1 == m,
{
}

/// Each wait is twice the one before it, up to the limit, and stays at the limit.
pub proof fn waits_double_up_to_their_limit(b: &mut Backoff, wait: u64)
    requires
        call_ensures(Backoff::next, (b,), wait),
    ensures
        wait == old(b).seconds,
        final(b).limit == old(b).limit,
        old(b).seconds * 2 <= old(b).limit ==> final(b).seconds == old(b).seconds * 2,
        old(b).seconds * 2 > old(b).limit ==> final(b).seconds == old(b).limit,
{
}

/// A proof is fetched at once, then after fifteen seconds, and then after twice the wait
/// before, six times in all.
pub proof fn proofs_are_fetched_six_times(
    attempt: usize,
    wait: Option<u64>,
    next: Option<u64>,
)
    requires
        attempt < usize::MAX,
        call_ensures(proof_delay, (attempt,), wait),
        call_ensures(proof_delay, ((attempt + 1) as usize,), next),
    ensures
        wait is Some <==> attempt < 6,
        attempt == 0 ==> wait == Some(0u64) && next == Some(15u64),
        1 <= attempt < 5 ==> next is Some && next->0 == 2 * wait->0,
{
}

/// Both feeds begin as connecting in live mode and as disconnected otherwise, and there are
/// no others.
pub proof fn feeds_begin_connecting_or_disconnected(mode: FeedMode, name: Seq<char>)
    ensures
        initial_statuses(mode).contains_key(name) <==> name == "txline"@ || name == "pascal"@,
        initial_statuses(mode).contains_key(name) && mode == FeedMode::Live
            ==> initial_statuses(mode)[name] == FeedStatus::Connecting,
        initial_statuses(mode).contains_key(name) && mode == FeedMode::Inactive
            ==> initial_statuses(mode)[name] == FeedStatus::Disconnected,
{
}

/// The recording of a journal is made of its fair values with their message and proof and
/// of its books, each from its own feed, in their order.
pub proof fn recordings_hold_what_the_feeds_sent(
    a: Seq<LineModel>,
    b: Seq<LineModel>,
    line: LineModel,
)
    ensures
        replay_events(a + b) == replay_events(a) + replay_events(b),
        ({
            let kept = match line {
                LineModel::Event { source, event } => match event.event {
                    EventModel::FairValue { message_id, proof_ts, .. } => source
                        == MarketDataSource::Txline && proof_ts is Some && (
                    message_id matches Some(id) && !blank(id)),
                    EventModel::Book { .. } => source == MarketDataSource::Pascal,
                    _ => false,
                },
                _ => false,
            };
            replay_events(seq![line]) == if kept {
                seq![line->Event_event]
            } else {
                Seq::empty()
            }
        }),
{
    lemma_replay_events_add(a, b);
    assert(seq![line].drop_last() =~= Seq::<LineModel>::empty());
    assert(replay_events(seq![line].drop_last()) =~= Seq::<EnvelopeModel>::empty());
    assert(seq![line].last() == line);
    if line is Event {
        assert(Seq::<EnvelopeModel>::empty().push(line->Event_event) =~= seq![line->Event_event]);
    }
}

proof fn lemma_replay_events_add(a: Seq<LineModel>, b: Seq<LineModel>)
    ensures
        replay_events(a + b) == replay_events(a) + replay_events(b),
    decreases b.len(),
{
    if b.len() == 0 {
        assert(a + b =~= a);
        assert(replay_events(a) + replay_events(b) =~= replay_events(a));
    } else {
        let rest = b.drop_last();
        lemma_replay_events_add(a, rest);
        assert((a + b).drop_last() =~= a + rest);
        assert((a + b).last() == b.last());
        assert(replay_events(a + b) =~= replay_events(a) + replay_events(b));
    }
}

/// A journal is unreadable exactly when one of its lines is, and the first of these is
/// named, counted from one.
pub proof fn the_first_unreadable_line_is_named(lines: Seq<LineModel>)
    ensures
        first_unreadable(lines, 0) is None <==> forall|i: int|
            0 <= i < lines.len() ==> !((#[trigger] lines[i]) is Unreadable),
        first_unreadable(lines, 0) matches Some(number) ==> {
            &&& 1 <= number <= lines.len()
            &&& lines[number - 1] is Unreadable
            &&& forall|i: int| 0 <= i < number - 1 ==> !((#[trigger] lines[i]) is Unreadable)
        },
{
    lemma_first_unreadable(lines, 0);
}

proof fn lemma_first_unreadable(lines: Seq<LineModel>, from: int)
    requires
        0 <= from,
    ensures
        first_unreadable(lines, from) is None <==> forall|i: int|
            from <= i < lines.len() ==> !((#[trigger] lines[i]) is Unreadable),
        first_unreadable(lines, from) matches Some(number) ==> {
            &&& from < number <= lines.len()
            &&& lines[number - 1] is Unreadable
            &&& forall|i: int| from <= i < number - 1 ==> !((#[trigger] lines[i]) is Unreadable)
        },
    decreases lines.len() - from,
{
    if from < lines.len() && !(lines[from] is Unreadable) {
        lemma_first_unreadable(lines, from + 1);
    }
}

/// The service is ready exactly when it runs, is not killed, its feeds are to be live, and
/// each of them is. What is missing first is the reason.
pub proof fn the_service_is_ready_when_all_feeds_are_live(rt: RuntimeModel)
    ensures
        readiness_of(rt) == Readiness::Ready <==> rt.running && !rt.killed && rt.feed_mode
            == FeedMode::Live && forall|name: Seq<char>| #[trigger]
            rt.feed_status.contains_key(name) ==> rt.feed_status[name] == FeedStatus::Live,
        readiness_of(rt) == Readiness::Stopped <==> !rt.running,
        readiness_of(rt) == Readiness::Killed <==> rt.running && rt.killed,
        readiness_of(rt) == Readiness::Inactive <==> rt.running && !rt.killed && rt.feed_mode
            == FeedMode::Inactive,
{
}

/// A restart leaves the kill switch and the recording as they are, whatever was traded
/// before: the engine is fresh, and the replay stands at its start.
pub proof fn restarts_keep_the_kill_switch(
    a: RuntimeModel,
    b: RuntimeModel,
    run_id: int,
    config: BackendConfig,
    mode: FeedMode,
)
    requires
        a.killed == b.killed,
        a.running == b.running,
        a.replay == b.replay,
    ensures
        restarted(a, run_id, config, mode) == restarted(b, run_id, config, mode),
        ({
            let now = restarted(a, run_id, config, mode);
            &&& now.killed == a.killed && now.running == a.running && now.feed_mode == mode
            &&& now.engine.trading.risk.killed == a.killed
            &&& now.engine.trading.state.position == 0
            &&& now.engine.trading.state.cash_micros == 0
            &&& now.engine.processed_events == 0
            &&& now.engine.decisions.len() == 0
            &&& now.engine.config.mode == OrderMode::Paper
            &&& now.engine.config.risk == config.risk
            &&& now.engine.config.paper == config.paper
            &&& now.engine.config.decision_history == config.decision_history
            &&& now.engine.strategy.config == config.strategy
            &&& now.replay.event_index == 0
            &&& now.replay.total_events == a.replay.total_events
            &&& now.replay.speed == a.replay.speed
            &&& now.replay.journal == a.replay.journal
            &&& now.replay.status == ReplayStatus::Unavailable <==> a.replay.total_events == 0
            &&& now.replay.total_events != 0 ==> now.replay.status == ReplayStatus::Paused
        }),
{
}

/// An event makes its own feed live and leaves the state of the other feed as it is. A fair
/// value is TxLINE's, a book Pascal's. Any other event changes nothing.
pub proof fn events_make_their_feed_live(
    rt: RuntimeModel,
    event: EnvelopeModel,
    stamps: Seq<Stamp>,
)
    ensures
        ({
            let after = after_market_event(rt, event, stamps);
            &&& event.event is FairValue ==> after.feed_status == rt.feed_status.insert(
                "txline"@,
                FeedStatus::Live,
            )
            &&& event.event is Book ==> after.feed_status == rt.feed_status.insert(
                "pascal"@,
                FeedStatus::Live,
            )
            &&& event.event is FairValue || event.event is Book ==> after == (RuntimeModel {
                engine: crate::engine::after_event::<DislocationTaker>(rt.engine, event, stamps),
                feed_status: after.feed_status,
                ..rt
            })
            &&& !(event.event is FairValue) && !(event.event is Book) ==> after == rt
        }),
{
}

/// An event is recorded where that is wanted, with the feed that it came from, in the
/// current schema.
pub proof fn events_are_recorded_with_their_feed(event: EnvelopeModel, wanted: bool)
    ensures
        ({
            let made = event_record(event, wanted);
            &&& !wanted ==> made.len() == 0
            &&& wanted && event.event is FairValue ==> made == seq![
                RecordModel::Event { schema: 2, source: MarketDataSource::Txline, event },
            ]
            &&& wanted && event.event is Book ==> made == seq![
                RecordModel::Event { schema: 2, source: MarketDataSource::Pascal, event },
            ]
            &&& !(event.event is FairValue) && !(event.event is Book) ==> made.len() == 0
        }),
{
}

/// Outputs are recorded one after the other, each with its decision first, then its fill and
/// then its trade, as far as it has them.
pub proof fn outputs_are_recorded_in_turn(
    a: Seq<OutputModel>,
    b: Seq<OutputModel>,
    one: OutputModel,
)
    ensures
        records_for(a + b) == records_for(a) + records_for(b),
        proofs_for(a + b) == proofs_for(a) + proofs_for(b),
        ({
            let made = records_for(seq![one]);
            &&& made.len() >= 1
            &&& made[0] == (RecordModel::Decision { schema: 2, decision: one.decision })
            &&& one.fill matches Some(fill) ==> made.len() >= 2 && made[1] == (RecordModel::Fill {
                schema: 2,
                fill,
            })
            &&& one.trade matches Some(trade) ==> made.last() == (RecordModel::Trade {
                schema: 2,
                trade,
            })
            &&& made.len() == 1 + (if one.fill is Some {
                1int
            } else {
                0
            }) + (if one.trade is Some {
                1int
            } else {
                0
            })
        }),
{
    lemma_records_add(a, b);
    assert(seq![one].drop_last() =~= Seq::<OutputModel>::empty());
    assert(seq![one].last() == one);
    assert(records_for(seq![one].drop_last()) =~= Seq::<RecordModel>::empty());
    assert(records_for(seq![one]) =~= records_of(one));
}

proof fn lemma_records_add(a: Seq<OutputModel>, b: Seq<OutputModel>)
    ensures
        records_for(a + b) == records_for(a) + records_for(b),
        proofs_for(a + b) == proofs_for(a) + proofs_for(b),
    decreases b.len(),
{
    if b.len() == 0 {
        assert(a + b =~= a);
        assert(records_for(a) + records_for(b) =~= records_for(a));
        assert(proofs_for(a) + proofs_for(b) =~= proofs_for(a));
    } else {
        let rest = b.drop_last();
        lemma_records_add(a, rest);
        assert((a + b).drop_last() =~= a + rest);
        assert((a + b).last() == b.last());
        assert(records_for(a + b) =~= records_for(a) + records_for(b));
        assert(proofs_for(a + b) =~= proofs_for(a) + proofs_for(b));
    }
}

/// A proof is asked for exactly for a submitted order that names its message and its proof
/// time, with both of these and the order's identifier.
pub proof fn submitted_orders_ask_for_their_proof(one: OutputModel)
    ensures
        proofs_for(seq![one]) == if one.decision.action == "submitted"@ && one.decision.intent
            is Some && one.decision.intent->0.source_message_id is Some
            && one.decision.intent->0.source_proof_ts is Some {
            seq![
                ProofModel {
                    order_id: one.decision.intent->0.id,
                    message_id: one.decision.intent->0.source_message_id->0,
                    proof_ts: one.decision.intent->0.source_proof_ts->0,
                },
            ]
        } else {
            Seq::empty()
        },
{
    assert(seq![one].drop_last() =~= Seq::<OutputModel>::empty());
    assert(seq![one].last() == one);
    assert(proofs_for(seq![one].drop_last()) =~= Seq::<ProofModel>::empty());
    match proof_of(one) {
        Some(p) => {
            assert(Seq::<ProofModel>::empty().push(p) =~= seq![p]);
        },
        None => {},
    }
}

/// What each command does to a replay. Playing plays on, and from the start where the
/// recording is at its end; a pause stops where it is; a reset stops at the start; a speed
/// changes the speed alone; a seek goes to the start and runs to the place asked for, or to
/// the end where that lies beyond it. The recording itself never changes.
pub proof fn commands_do_what_they_say(w: WorkerModel, command: ReplayCommand)
    requires
        0 <= w.index <= w.events.len(),
        w.target is None,
    ensures
        ({
            let now = commanded(w, command);
            &&& now.events == w.events && now.journal == w.journal
            &&& match command {
                ReplayCommand::Play => {
                    &&& now.playing <==> w.events.len() > 0
                    &&& w.index < w.events.len() ==> now.index == w.index && now.previous_time_ns
                        == w.previous_time_ns
                    &&& w.index == w.events.len() && w.events.len() > 0 ==> now.index == 0
                        && now.previous_time_ns is None
                    &&& now.target is None && now.speed == w.speed
                },
                ReplayCommand::Pause => {
                    &&& !now.playing && now.index == w.index && now.speed == w.speed
                    &&& now.previous_time_ns == w.previous_time_ns && now.target is None
                },
                ReplayCommand::Reset => {
                    &&& !now.playing && now.index == 0 && now.speed == w.speed
                    &&& now.previous_time_ns is None && now.target is None
                },
                ReplayCommand::SetSpeed(speed) => {
                    &&& now.speed == speed@ && now.index == w.index && now.playing == w.playing
                    &&& now.previous_time_ns == w.previous_time_ns && now.target is None
                },
                ReplayCommand::Seek(at) => {
                    &&& !now.playing && now.index == 0 && now.speed == w.speed
                    &&& now.previous_time_ns is None
                    &&& at == 0 || w.events.len() == 0 ==> now.target is None
                    &&& 0 < at <= w.events.len() ==> now.target == Some(at as int)
                    &&& at > w.events.len() && w.events.len() > 0 ==> now.target == Some(
                        w.events.len() as int,
                    )
                },
            }
        }),
{
}

/// How a replay is shown after a command: as playing, as paused, as complete at the end of
/// an empty recording, or as unavailable where there is nothing to replay. A seek shows the
/// replay when it has arrived. A new run begins with a reset, with a seek, and with playing
/// from the end.
pub proof fn commands_are_shown(w: WorkerModel, command: ReplayCommand)
    requires
        0 <= w.index <= w.events.len(),
        w.target is None,
    ensures
        ({
            let some = w.events.len() > 0;
            match command {
                ReplayCommand::Play => {
                    &&& commanded_status(w, command) == Some(
                        if some {
                            ReplayStatus::Playing
                        } else {
                            ReplayStatus::Unavailable
                        },
                    )
                    &&& restarts(w, command) <==> some && w.index == w.events.len()
                },
                ReplayCommand::Pause => commanded_status(w, command) == Some(ReplayStatus::Paused)
                    && !restarts(w, command),
                ReplayCommand::Reset => commanded_status(w, command) == Some(
                    if some {
                        ReplayStatus::Paused
                    } else {
                        ReplayStatus::Unavailable
                    },
                ) && restarts(w, command),
                ReplayCommand::SetSpeed(_) => commanded_status(w, command) == Some(
                    if w.playing {
                        ReplayStatus::Playing
                    } else {
                        ReplayStatus::Paused
                    },
                ) && !restarts(w, command),
                ReplayCommand::Seek(at) => {
                    &&& restarts(w, command)
                    &&& at > 0 && some ==> commanded_status(w, command) is None
                    &&& at == 0 && some ==> commanded_status(w, command) == Some(
                        ReplayStatus::Paused,
                    )
                    &&& !some ==> commanded_status(w, command) == Some(ReplayStatus::Complete)
                },
            }
        }),
{
}

/// A step replays one event: the replay stands behind it and remembers when it was recorded.
/// A run to a place goes on until it is there, and then shows the replay as paused, or as
/// complete at the end of the recording; a playing replay stops at the end.
pub proof fn steps_replay_one_event(w: WorkerModel)
    requires
        0 <= w.index < w.events.len(),
        w.target matches Some(t) ==> w.index < t <= w.events.len(),
    ensures
        ({
            let now = stepped(w);
            let at_the_end = w.index + 1 == w.events.len();
            &&& now.index == w.index + 1
            &&& now.previous_time_ns == Some(w.events[w.index].received_time_ns as u64)
            &&& now.events == w.events && now.speed == w.speed && now.journal == w.journal
            &&& now.playing <==> w.playing && !at_the_end
            &&& w.target is None ==> now.target is None && stepped_status(w) == Some(
                if at_the_end {
                    ReplayStatus::Complete
                } else {
                    ReplayStatus::Playing
                },
            )
            &&& w.target matches Some(t) ==> {
                &&& w.index + 1 < t ==> now.target == w.target && stepped_status(w) is None
                &&& w.index + 1 == t ==> now.target is None && stepped_status(w) == Some(
                    if at_the_end {
                        ReplayStatus::Complete
                    } else {
                        ReplayStatus::Paused
                    },
                )
            }
        }),
{
}

/// The replay that the service shows stands where the worker does, at its speed, in its
/// recording; nothing else of the service changes with a step than its event does.
pub proof fn replays_are_shown_where_they_stand(
    rt: RuntimeModel,
    w: WorkerModel,
    command: ReplayCommand,
    run_id: int,
    config: BackendConfig,
    stamps: Seq<Stamp>,
)
    ensures
        commanded_status(w, command) matches Some(status) ==> {
            let now = runtime_commanded(rt, w, command, run_id, config);
            let at = commanded(w, command);
            &&& now.replay.status == status && now.replay.event_index == at.index
            &&& now.replay.total_events == at.events.len() && now.replay.speed == at.speed
            &&& now.replay.journal == at.journal
            &&& !restarts(w, command) ==> now == (RuntimeModel { replay: now.replay, ..rt })
        },
        stepped_status(w) matches Some(status) ==> {
            let now = runtime_stepped(rt, w, stamps);
            let at = stepped(w);
            &&& now.replay.status == status && now.replay.event_index == at.index
            &&& now.replay.total_events == at.events.len() && now.replay.speed == at.speed
            &&& now.replay.journal == at.journal
            &&& now == (RuntimeModel {
                replay: now.replay,
                ..after_market_event(rt, w.events[w.index], stamps)
            })
        },
{
}

/// The session is shown as it is. Live feeds are available exactly on the development
/// network, once a mapping is known and ready; on the main network there is none. A market
/// is shown where one was found and the engine does not work on another.
pub proof fn sessions_are_shown_as_they_are(
    c: &FeedController,
    runtime: &Runtime,
    shown: SessionState,
)
    requires
        call_ensures(session_state, (c, runtime), shown),
    ensures
        shown.environment == c.environment,
        shown.run_mode == c.run_mode,
        shown.live_available <==> c.environment == Environment::Devnet && c.live is Some
            && c.discovery == MappingStatus::Ready,
        c.environment == Environment::Mainnet ==> shown.mapping_status
            == MappingStatus::Unavailable,
        c.environment == Environment::Devnet ==> shown.mapping_status == c.discovery,
        shown.replay@ == runtime@.replay,
        ({
            let at = runtime@.engine.trading.state.market;
            &&& shown.market is Some <==> (c.live matches Some(live) && (at.len() == 0 || at
                == live@.mapping.market))
            &&& shown.market matches Some(m) ==> {
                &&& m.event@ == c.live->0@.event_label
                &&& m.contract@ == c.live->0@.contract_label
                &&& m.period@ == c.live->0@.market_period
                &&& m.starts_at_ms == c.live->0@.expected_event_start_time_ms
            }
        }),
{
}

/// The service takes an event exactly when it is a fair value or a book. The feed is live
/// then, the event is the first record where it is to be recorded, and the engine has
/// counted it; the kill switch stays.
pub proof fn feed_events_are_taken_and_recorded(
    runtime: &mut Runtime,
    event: EventEnvelope,
    record: bool,
    result: Option<ProcessedEvent>,
)
    requires
        call_ensures(Runtime::process_market_event, (runtime, event, record), result),
    ensures
        result is Some <==> event@.event is FairValue || event@.event is Book,
        result is None ==> final(runtime)@ == old(runtime)@,
        event@.event is FairValue ==> final(runtime)@.feed_status == old(
            runtime,
        )@.feed_status.insert("txline"@, FeedStatus::Live),
        event@.event is Book ==> final(runtime)@.feed_status == old(runtime)@.feed_status.insert(
            "pascal"@,
            FeedStatus::Live,
        ),
        result is Some ==> final(runtime)@.engine.processed_events == old(
            runtime,
        )@.engine.processed_events + 1,
        result matches Some(p) ==> record ==> p.records@.len() > 0 && (
        record_models(p.records@)[0] matches RecordModel::Event { event: recorded, .. }
            && recorded == event@),
        final(runtime)@.killed == old(runtime)@.killed,
        final(runtime)@.running == old(runtime)@.running,
        final(runtime)@.replay == old(runtime)@.replay,
{
    let stamps = choose|stamps: Seq<Stamp>| #[trigger]
        event_taken(old(runtime)@, final(runtime)@, event@, record, result, stamps);
    assert(event_taken(old(runtime)@, final(runtime)@, event@, record, result, stamps));
    crate::laws::engine::events_are_counted_and_taken_in::<DislocationTaker>(
        old(runtime)@.engine,
        event@,
        stamps,
    );
    if record && result is Some {
        let records = record_models(result->0.records@);
        assert(records.len() == result->0.records@.len());
        assert(records[0] == event_record(event@, record)[0]);
    }
}

/// Throwing or clearing the kill switch does so for the engine as well, and does nothing
/// else.
pub proof fn the_kill_switch_reaches_the_engine(runtime: &mut Runtime, killed: bool)
    requires
        call_ensures(Runtime::set_killed, (runtime, killed), ()),
    ensures
        final(runtime)@.killed == killed,
        final(runtime)@.engine.trading.risk.killed == killed,
        final(runtime)@.engine.trading.state == old(runtime)@.engine.trading.state,
        final(runtime)@.engine.trading.risk.order_times_ns == old(
            runtime,
        )@.engine.trading.risk.order_times_ns,
        final(runtime)@.engine.decisions == old(runtime)@.engine.decisions,
        final(runtime)@.feed_status == old(runtime)@.feed_status,
        final(runtime)@.replay == old(runtime)@.replay,
        final(runtime)@.running == old(runtime)@.running,
{
}

/// What a replay does next: it runs on while it is on its way to a place, waits while it is
/// not playing, ends behind the last event, and otherwise pauses for the time between the
/// next event and the one before it.
pub proof fn replays_pause_for_the_recorded_gap(worker: &ReplayWorker, action: ReplayAction)
    requires
        call_ensures(ReplayWorker::next_action, (worker,), action),
    ensures
        ({
            let w = worker@;
            &&& action is Run <==> w.target is Some
            &&& action is Await <==> w.target is None && !w.playing
            &&& action is Finish <==> w.target is None && w.playing && w.index >= w.events.len()
            &&& action matches ReplayAction::Pause { gap_ns } ==> {
                let next = w.events[w.index].received_time_ns as u64;
                &&& gap_ns is None <==> w.previous_time_ns is None
                &&& w.previous_time_ns matches Some(p) ==> gap_ns->0 == if p <= next {
                    next - p
                } else {
                    0
                }
            }
        }),
{
}

/// A snapshot shows the service and its engine as they are.
pub proof fn snapshots_show_the_engine(runtime: &Runtime, shown: EngineSnapshot)
    requires
        call_ensures(Runtime::snapshot, (runtime,), shown),
    ensures
        shown.running == runtime@.running,
        shown.killed == runtime@.killed,
        shown.markets@.len() == 1,
        shown.markets@[0]@ == runtime@.engine.trading.state,
        shown.decisions@.len() == runtime@.engine.decisions.len(),
        forall|i: int|
            0 <= i < shown.decisions@.len() ==> (#[trigger] shown.decisions@[i])@
                == runtime@.engine.decisions[i],
        shown.fills@.len() == runtime@.engine.fills.len(),
        shown.trades@.len() == runtime@.engine.trades.len(),
        shown.processed_events == runtime@.engine.processed_events,
        shown.ignored_events == runtime@.engine.ignored_events,
        shown.rejected_orders == runtime@.engine.trading.rejected_orders,
        shown.feed_status@ == runtime@.feed_status,
{
    let decisions = crate::engine::decision_models(shown.decisions@);
    assert(decisions == runtime@.engine.decisions);
    assert(decisions.len() == shown.decisions@.len());
    assert(crate::engine::fill_models(shown.fills@).len() == shown.fills@.len());
    assert(crate::engine::trade_models(shown.trades@).len() == shown.trades@.len());
    assert forall|i: int| 0 <= i < shown.decisions@.len() implies (
    #[trigger] shown.decisions@[i])@ == runtime@.engine.decisions[i] by {
        assert(decisions[i] == shown.decisions@[i]@);
    }
}

/// A resolved feed is followed on both sides: TxLINE for its fixture and outcome, Pascal for
/// its symbol, both under the name of its market.
pub proof fn both_feeds_follow_the_mapping(
    live: &ResolvedLiveFeed,
    odds: TxLineConfig,
    book: PascalConfig,
)
    requires
        call_ensures(txline_config, (live,), odds),
        call_ensures(pascal_config, (live,), book),
    ensures
        odds.market@ == book.market@,
        odds.market@ == live@.mapping.market,
        odds.fixture_id == live@.mapping.fixture_id,
        odds.selection@ == live@.mapping.txline_selection,
        odds.origin@ == live@.txline_origin,
        odds.api_token@ == live@.api_token,
        book.symbol@ == live@.mapping.pascal_symbol,
        book.ws_url@ == live@.pascal_ws,
{
}

/// The state of the feeds is answered as it is, and after a switch with the new mode; on the
/// main network no live feed is available then.
pub proof fn feed_states_are_answered_as_they_are(
    c: &FeedController,
    mode: FeedMode,
    now: FeedModeState,
    after: FeedModeState,
)
    requires
        call_ensures(FeedController::feed_mode_state, (c,), now),
        call_ensures(FeedController::switched_state, (c, mode), after),
    ensures
        now.mode == c.mode,
        now.live_available <==> c.live is Some,
        now.mapping_status == c.discovery,
        after.mode == mode,
        after.live_available <==> c.live is Some && c.environment == Environment::Devnet,
        after.mapping_status == c.discovery,
{
}

/// A switch of the feeds leaves a replay, and ends in the mode asked for; the environment
/// and the mapping stay.
pub proof fn feed_switches_leave_a_replay(
    a: &mut FeedController,
    b: &mut FeedController,
    mode: FeedMode,
)
    requires
        call_ensures(FeedController::begin_feed_switch, (a,), ()),
        call_ensures(FeedController::finish_feed_switch, (b, mode), ()),
    ensures
        final(a).run_mode == RunMode::Live,
        !final(a).replaying,
        final(a).mode == old(a).mode,
        final(a).environment == old(a).environment,
        final(a).live == old(a).live,
        final(a).discovery == old(a).discovery,
        final(b).mode == mode,
        final(b).run_mode == old(b).run_mode,
        final(b).environment == old(b).environment,
        final(b).live == old(b).live,
{
}

/// A session begins on the development network, live, without feeds, and looks for a
/// mapping where it can.
pub proof fn new_sessions_have_no_feeds(discovering: bool, c: FeedController)
    requires
        call_ensures(FeedController::new, (discovering,), c),
    ensures
        c.mode == FeedMode::Inactive,
        c.environment == Environment::Devnet,
        c.run_mode == RunMode::Live,
        c.live is None,
        !c.replaying,
        discovering ==> c.discovery == MappingStatus::Discovering,
        !discovering ==> c.discovery == MappingStatus::Unavailable,
{
}

/// Without an API token in the environment there is nothing to discover, which is no error.
pub proof fn discovery_is_optional_without_a_token(
    environment: &EnvironmentValues,
    market: Option<String>,
    symbol: Option<String>,
    read: Result<Option<DiscoveryConfig>, DiscoveryError>,
)
    requires
        call_ensures(
            DiscoveryConfig::optional_from_environment,
            (environment, market, symbol),
            read,
        ),
    ensures
        read is Ok && read->Ok_0 is None <==> !is_set(environment.txline_api_token),
        read matches Err(error) ==> error == DiscoveryError::FixtureId,
        read matches Ok(Some(c)) ==> c@.api_token == environment.txline_api_token->0@,
{
    requests_go_before_the_environment(*environment, text_option(market), text_option(symbol));
}

} // verus!
