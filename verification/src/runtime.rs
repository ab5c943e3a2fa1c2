//! The running service: an engine with its feeds, and the replay of a recording.

use vstd::prelude::*;
use vstd::string::StringExecFns;

use crate::clock::utc_now;
use crate::config::{engine_settings, usable, BackendConfig};
use crate::engine::{
    after_event, event_outputs, fresh, output_models, stamps_of, switched, Engine, EngineOutput,
    EngineSnapshot, OutputModel,
};
use crate::feeds::FeedStatusMap;
use crate::fixed::least;
use crate::journal::{record_models, JournalRecord, MarketDataSource, RecordModel, JOURNAL_SCHEMA};
use crate::latency::latency_summary;
use crate::laws::{
    after_events, events_leave_the_kill_switch, every_event_is_processable,
    every_event_keeps_the_engine_sound, sound, switching_keeps_the_engine_sound, TakerEngine,
};
use crate::mapping::ResolvedLiveFeed;
use crate::session::{
    envelope_models, feed_status_for, initial_statuses, recorded_gap, replay_gap, Environment,
    ExecutionMode, FeedController, FeedMode, MappingStatus, ReplayCommand, ReplaySpeed,
    ReplayStatus, RunMode, NORMAL_SPEED_BITS,
};
use crate::strategy::{DislocationTaker, TakerModel};
use crate::text::{decimal, decimal_signed, push_decimal, push_decimal_signed, same_text};
use crate::types::{EnvelopeModel, EventEnvelope, EventModel, FeedStatus, MarketEvent, Stamp};

verus! {

/// Where the replay of a recording stands.
#[derive(Debug)]
pub struct ReplayRuntime {
    pub status: ReplayStatus,
    pub event_index: usize,
    pub total_events: usize,
    pub speed: ReplaySpeed,
    pub journal: String,
}

/// The model of where a replay stands.
#[verifier::ext_equal]
pub struct ReplayStateModel {
    pub status: ReplayStatus,
    pub event_index: int,
    pub total_events: int,
    pub speed: u64,
    pub journal: Seq<char>,
}

impl View for ReplayRuntime {
    type V = ReplayStateModel;

    open spec fn view(&self) -> ReplayStateModel {
        ReplayStateModel {
            status: self.status,
            event_index: self.event_index as int,
            total_events: self.total_events as int,
            speed: self.speed@,
            journal: self.journal@,
        }
    }
}

impl Clone for ReplayRuntime {
    fn clone(&self) -> (r: Self)
        ensures
            r@ == self@,
    {
        ReplayRuntime {
            status: self.status,
            event_index: self.event_index,
            total_events: self.total_events,
            speed: self.speed,
            journal: self.journal.clone(),
        }
    }
}

/// How a replay begins: paused, or unavailable where there is nothing to replay.
pub open spec fn idle_status(total_events: int) -> ReplayStatus {
    if total_events == 0 {
        ReplayStatus::Unavailable
    } else {
        ReplayStatus::Paused
    }
}

fn status_when_idle(total_events: usize) -> (r: ReplayStatus)
    ensures
        r == idle_status(total_events as int),
{
    if total_events == 0 {
        ReplayStatus::Unavailable
    } else {
        ReplayStatus::Paused
    }
}

/// A validation proof to be fetched.
#[derive(Debug, PartialEq, Eq)]
pub struct ProofRequest {
    pub order_id: u128,
    pub message_id: String,
    pub proof_ts: i64,
}

/// The model of a proof request.
#[verifier::ext_equal]
pub struct ProofModel {
    pub order_id: int,
    pub message_id: Seq<char>,
    pub proof_ts: i64,
}

impl View for ProofRequest {
    type V = ProofModel;

    open spec fn view(&self) -> ProofModel {
        ProofModel {
            order_id: self.order_id as int,
            message_id: self.message_id@,
            proof_ts: self.proof_ts,
        }
    }
}

/// The models of some proof requests.
pub open spec fn proof_models(s: Seq<ProofRequest>) -> Seq<ProofModel> {
    Seq::new(s.len(), |i: int| s[i]@)
}

/// The records of an output: its decision, and its fill and its trade where it
/// has them.
pub open spec fn records_of(output: OutputModel) -> Seq<RecordModel> {
    let decision = seq![
        RecordModel::Decision { schema: JOURNAL_SCHEMA, decision: output.decision },
    ];
    let fill = match output.fill {
        Some(fill) => seq![RecordModel::Fill { schema: JOURNAL_SCHEMA, fill }],
        None => Seq::empty(),
    };
    let trade = match output.trade {
        Some(trade) => seq![RecordModel::Trade { schema: JOURNAL_SCHEMA, trade }],
        None => Seq::empty(),
    };
    decision + fill + trade
}

/// The records of some outputs.
pub open spec fn records_for(outputs: Seq<OutputModel>) -> Seq<RecordModel>
    decreases outputs.len(),
{
    if outputs.len() == 0 {
        Seq::empty()
    } else {
        records_for(outputs.drop_last()) + records_of(outputs.last())
    }
}

/// The proof that an output calls for: one for a submitted order that says which
/// message it came from.
pub open spec fn proof_of(output: OutputModel) -> Option<ProofModel> {
    if output.decision.action != "submitted"@ {
        None
    } else {
        match output.decision.intent {
            None => None,
            Some(order) => match (order.source_message_id, order.source_proof_ts) {
                (Some(message_id), Some(proof_ts)) => Some(
                    ProofModel { order_id: order.id, message_id, proof_ts },
                ),
                _ => None,
            },
        }
    }
}

/// The proofs that some outputs call for.
pub open spec fn proofs_for(outputs: Seq<OutputModel>) -> Seq<ProofModel>
    decreases outputs.len(),
{
    if outputs.len() == 0 {
        Seq::empty()
    } else {
        match proof_of(outputs.last()) {
            Some(proof) => proofs_for(outputs.drop_last()).push(proof),
            None => proofs_for(outputs.drop_last()),
        }
    }
}

/// What is to be journaled and fetched after an event.
#[derive(Debug)]
pub struct ProcessedEvent {
    pub records: Vec<JournalRecord>,
    pub proofs: Vec<ProofRequest>,
}

/// The feed and the source that an event comes from, if it has one.
pub open spec fn origin_of(event: EventModel) -> Option<(Seq<char>, MarketDataSource)> {
    match event {
        EventModel::FairValue { .. } => Some(("txline"@, MarketDataSource::Txline)),
        EventModel::Book { .. } => Some(("pascal"@, MarketDataSource::Pascal)),
        _ => None,
    }
}

/// The record of the event itself, where it is wanted.
pub open spec fn event_record(event: EnvelopeModel, wanted: bool) -> Seq<RecordModel> {
    match origin_of(event.event) {
        Some((_, source)) => if wanted {
            seq![RecordModel::Event { schema: JOURNAL_SCHEMA, source, event }]
        } else {
            Seq::empty()
        },
        None => Seq::empty(),
    }
}

/// The running service.
pub struct Runtime {
    engine: Engine<DislocationTaker>,
    running: bool,
    killed: bool,
    feed_mode: FeedMode,
    feed_status: FeedStatusMap,
    replay: ReplayRuntime,
}

/// The model of the running service.
#[verifier::ext_equal]
pub struct RuntimeModel {
    pub engine: TakerEngine,
    pub running: bool,
    pub killed: bool,
    pub feed_mode: FeedMode,
    pub feed_status: Map<Seq<char>, FeedStatus>,
    pub replay: ReplayStateModel,
}

impl View for Runtime {
    type V = RuntimeModel;

    closed spec fn view(&self) -> RuntimeModel {
        RuntimeModel {
            engine: self.engine@,
            running: self.running,
            killed: self.killed,
            feed_mode: self.feed_mode,
            feed_status: self.feed_status@,
            replay: self.replay@,
        }
    }
}

/// The strategy of the settings, before any event.
pub open spec fn fresh_taker(config: BackendConfig) -> TakerModel {
    TakerModel { config: config.strategy, last_source_seq: 0, last_venue_seq: 0 }
}

/// The service with a fresh engine: the kill switch stays as it is, the feeds are
/// as they begin in the mode, and the replay is at its start.
pub open spec fn restarted(
    rt: RuntimeModel,
    run_id: int,
    config: BackendConfig,
    feed_mode: FeedMode,
) -> RuntimeModel {
    RuntimeModel {
        engine: switched(
            fresh(run_id, fresh_taker(config), engine_settings(config)),
            rt.killed,
        ),
        feed_mode,
        feed_status: initial_statuses(feed_mode),
        replay: ReplayStateModel {
            event_index: 0,
            status: idle_status(rt.replay.total_events),
            ..rt.replay
        },
        ..rt
    }
}

/// The service after an event: its feed is live, and the engine has processed it.
/// An event without a feed changes nothing.
pub open spec fn after_market_event(
    rt: RuntimeModel,
    event: EnvelopeModel,
    stamps: Seq<Stamp>,
) -> RuntimeModel {
    match origin_of(event.event) {
        None => rt,
        Some((feed, _)) => RuntimeModel {
            engine: after_event::<DislocationTaker>(rt.engine, event, stamps),
            feed_status: rt.feed_status.insert(feed, FeedStatus::Live),
            ..rt
        },
    }
}

/// The outputs of the service for an event.
pub open spec fn market_event_outputs(
    rt: RuntimeModel,
    event: EnvelopeModel,
    stamps: Seq<Stamp>,
) -> Seq<OutputModel> {
    match origin_of(event.event) {
        None => Seq::empty(),
        Some(_) => event_outputs::<DislocationTaker>(rt.engine, event, stamps),
    }
}

/// Whether the service took an event as it should.
pub open spec fn event_taken(
    before: RuntimeModel,
    after: RuntimeModel,
    event: EnvelopeModel,
    record_event: bool,
    result: Option<ProcessedEvent>,
    stamps: Seq<Stamp>,
) -> bool {
    &&& after == after_market_event(before, event, stamps)
    &&& match result {
        None => origin_of(event.event) is None,
        Some(p) => {
            let outputs = market_event_outputs(before, event, stamps);
            &&& origin_of(event.event) is Some
            &&& record_models(p.records@) == event_record(event, record_event) + records_for(
                outputs,
            )
            &&& proof_models(p.proofs@) == proofs_for(outputs)
        },
    }
}

/// The metrics, one counter or gauge after the other.
pub open spec fn metrics_text(rt: RuntimeModel) -> Seq<char> {
    "# TYPE edgerunner_events_total counter\nedgerunner_events_total "@ + decimal(
        rt.engine.processed_events as nat,
    ) + "\n# TYPE edgerunner_orders_rejected_total counter\nedgerunner_orders_rejected_total "@
        + decimal(rt.engine.trading.rejected_orders as nat)
        + "\n# TYPE edgerunner_events_ignored_total counter\nedgerunner_events_ignored_total "@
        + decimal(rt.engine.ignored_events as nat)
        + "\n# TYPE edgerunner_decision_p99_microseconds gauge\nedgerunner_decision_p99_microseconds "@
        + decimal(latency_summary(rt.engine.samples).p99_us as nat)
        + "\n# TYPE edgerunner_position_contracts gauge\nedgerunner_position_contracts "@
        + decimal_signed(rt.engine.trading.state.position)
        + "\n# TYPE edgerunner_pnl_micros gauge\nedgerunner_pnl_micros "@ + decimal_signed(
        rt.engine.trading.state.pnl_micros,
    ) + "\n# TYPE edgerunner_kill_switch gauge\nedgerunner_kill_switch "@ + (if rt.killed {
        "1"@
    } else {
        "0"@
    }) + "\n"@
}

/// Whether the service can trade, and why not.
#[derive(Clone, Copy, Debug, PartialEq, Eq, Structural)]
pub enum Readiness {
    Ready,
    Stopped,
    Killed,
    Inactive,
    FeedUnavailable,
}

/// Whether the service can trade.
pub open spec fn readiness_of(rt: RuntimeModel) -> Readiness {
    if !rt.running {
        Readiness::Stopped
    } else if rt.killed {
        Readiness::Killed
    } else if rt.feed_mode == FeedMode::Inactive {
        Readiness::Inactive
    } else if forall|name: Seq<char>| #[trigger]
        rt.feed_status.contains_key(name) ==> rt.feed_status[name] == FeedStatus::Live {
        Readiness::Ready
    } else {
        Readiness::FeedUnavailable
    }
}

impl Readiness {
    /// Whether the service can trade.
    pub fn is_ready(&self) -> (r: bool)
        ensures
            r == (*self == Readiness::Ready),
    {
        *self == Readiness::Ready
    }

    /// The HTTP status of the answer.
    pub fn status(&self) -> (r: u16)
        ensures
            r == if *self == Readiness::Ready {
                200u16
            } else {
                503u16
            },
    {
        if *self == Readiness::Ready {
            200
        } else {
            503
        }
    }

    /// The reason that is answered.
    pub fn reason(&self) -> (r: &'static str)
        ensures
            r@ == match *self {
                Readiness::Ready => "ready"@,
                Readiness::Stopped => "engine stopped"@,
                Readiness::Killed => "kill switch active"@,
                Readiness::Inactive => "live feeds inactive"@,
                Readiness::FeedUnavailable => "feed unavailable"@,
            },
    {
        match self {
            Readiness::Ready => "ready",
            Readiness::Stopped => "engine stopped",
            Readiness::Killed => "kill switch active",
            Readiness::Inactive => "live feeds inactive",
            Readiness::FeedUnavailable => "feed unavailable",
        }
    }
}

impl Runtime {
    /// Whether the engine is sound and its kill switch is that of the service.
    pub closed spec fn well_formed(&self) -> bool {
        &&& self.engine.well_formed()
        &&& sound(self.engine@)
        &&& self.engine@.trading.risk.killed == self.killed
    }

    /// What a well-formed service keeps to.
    pub proof fn lemma_well_formed(&self)
        requires
            self.well_formed(),
        ensures
            sound(self@.engine),
            self@.engine.trading.risk.killed == self@.killed,
    {
    }

    /// A service that has seen nothing, without feeds, with a recording of some
    /// events to replay.
    pub fn new(config: &BackendConfig, total_events: usize, journal: String) -> (r: Self)
        requires
            usable(*config),
        ensures
            r.well_formed(),
            r@ == (RuntimeModel {
                engine: fresh(r@.engine.run_id, fresh_taker(*config), engine_settings(*config)),
                running: true,
                killed: false,
                feed_mode: FeedMode::Inactive,
                feed_status: initial_statuses(FeedMode::Inactive),
                replay: ReplayStateModel {
                    status: idle_status(total_events as int),
                    event_index: 0,
                    total_events: total_events as int,
                    speed: NORMAL_SPEED_BITS,
                    journal: journal@,
                },
            }),
    {
        Runtime {
            engine: config.new_engine(),
            running: true,
            killed: false,
            feed_mode: FeedMode::Inactive,
            feed_status: feed_status_for(FeedMode::Inactive),
            replay: ReplayRuntime {
                status: status_when_idle(total_events),
                event_index: 0,
                total_events,
                speed: ReplaySpeed::normal(),
                journal,
            },
        }
    }

    /// The state of the service for display.
    pub fn snapshot(&self) -> (r: EngineSnapshot)
        requires
            self.well_formed(),
        ensures
            r.run_id == self@.engine.run_id,
            r.mode == self@.engine.config.mode,
            r.running == self@.running,
            r.killed == self@.killed,
            r.feed_status@ == self@.feed_status,
            r.markets@.len() == 1,
            r.markets@[0]@ == self@.engine.trading.state,
            crate::engine::decision_models(r.decisions@) == self@.engine.decisions,
            crate::engine::fill_models(r.fills@) == self@.engine.fills,
            crate::engine::trade_models(r.trades@) == self@.engine.trades,
            r.position_lifecycle@ == crate::engine::current_lifecycle(self@.engine),
            r.latency == latency_summary(self@.engine.samples),
            crate::types::requirement_option(r.next_order_requirement)
                == crate::engine::funds_needed(self@.engine),
            r.risk_capacity@ == crate::engine::room_ahead(self@.engine),
            r.processed_events == self@.engine.processed_events,
            r.ignored_events == self@.engine.ignored_events,
            r.rejected_orders == self@.engine.trading.rejected_orders,
    {
        self.engine.snapshot(self.running, self.killed, self.feed_status.clone())
    }

    /// Starts a new run. The record of the run carries the time of the clock.
    pub fn reset(&mut self, config: &BackendConfig, feed_mode: FeedMode) -> (r: JournalRecord)
        requires
            usable(*config),
        ensures
            final(self).well_formed(),
            final(self)@ == restarted(
                old(self)@,
                final(self)@.engine.run_id,
                *config,
                feed_mode,
            ),
            r@ == (RecordModel::Run {
                schema: JOURNAL_SCHEMA,
                run_id: final(self)@.engine.run_id,
            }),
    {
        let mut engine = config.new_engine();
        let ghost begun = engine@;
        engine.set_killed(self.killed);
        proof {
            switching_keeps_the_engine_sound(begun, self.killed);
        }
        let run_id: u128 = engine.id();
        self.engine = engine;
        self.feed_mode = feed_mode;
        self.feed_status = feed_status_for(feed_mode);
        self.replay.event_index = 0;
        self.replay.status = status_when_idle(self.replay.total_events);
        JournalRecord::Run { schema: JOURNAL_SCHEMA, run_id, started_at: utc_now() }
    }

    /// Sets or clears the kill switch.
    pub fn set_killed(&mut self, killed: bool)
        requires
            old(self).well_formed(),
        ensures
            final(self).well_formed(),
            final(self)@ == (RuntimeModel {
                killed,
                engine: switched(old(self)@.engine, killed),
                ..old(self)@
            }),
    {
        proof {
            switching_keeps_the_engine_sound(self.engine@, killed);
        }
        self.killed = killed;
        self.engine.set_killed(killed);
    }

    /// Sets the state of a feed.
    pub fn set_feed_status(&mut self, feed: &str, status: FeedStatus)
        requires
            old(self).well_formed(),
        ensures
            final(self).well_formed(),
            final(self)@ == (RuntimeModel {
                feed_status: old(self)@.feed_status.insert(feed@, status),
                ..old(self)@
            }),
    {
        self.feed_status.insert(feed.to_owned(), status);
    }

    /// Sets where the replay stands.
    pub fn update_replay_state(
        &mut self,
        status: ReplayStatus,
        event_index: usize,
        total_events: usize,
        speed: ReplaySpeed,
        journal: &str,
    )
        requires
            old(self).well_formed(),
        ensures
            final(self).well_formed(),
            final(self)@ == (RuntimeModel {
                replay: ReplayStateModel {
                    status,
                    event_index: event_index as int,
                    total_events: total_events as int,
                    speed: speed@,
                    journal: journal@,
                },
                ..old(self)@
            }),
    {
        self.replay = ReplayRuntime {
            status,
            event_index,
            total_events,
            speed,
            journal: journal.to_owned(),
        };
    }

    /// The number of events that the engine has processed.
    pub fn event_count(&self) -> (r: u64)
        ensures
            r == self@.engine.processed_events,
    {
        self.engine.event_count()
    }

    /// Where the replay stands.
    pub fn replay_state(&self) -> (r: &ReplayRuntime)
        ensures
            r@ == self@.replay,
    {
        &self.replay
    }

    /// The market that the engine works on.
    pub fn active_market(&self) -> (r: &String)
        ensures
            r@ == self@.engine.trading.state.market,
    {
        &self.engine.market_state().market
    }

    /// Whether the service can trade.
    pub fn readiness(&self) -> (r: Readiness)
        ensures
            r == readiness_of(self@),
    {
        if !self.running {
            Readiness::Stopped
        } else if self.killed {
            Readiness::Killed
        } else if self.feed_mode == FeedMode::Inactive {
            Readiness::Inactive
        } else if self.feed_status.all_live() {
            Readiness::Ready
        } else {
            Readiness::FeedUnavailable
        }
    }

    /// The metrics.
    pub fn metrics(&self) -> (r: String)
        requires
            self.well_formed(),
        ensures
            r@ == metrics_text(self@),
    {
        let latency = self.engine.latency_snapshot();
        let state = self.engine.market_state();
        let mut out =
            "# TYPE edgerunner_events_total counter\nedgerunner_events_total ".to_owned();
        push_decimal(&mut out, self.engine.event_count());
        out.append(
            "\n# TYPE edgerunner_orders_rejected_total counter\nedgerunner_orders_rejected_total ",
        );
        push_decimal(&mut out, self.engine.rejected_count());
        out.append(
            "\n# TYPE edgerunner_events_ignored_total counter\nedgerunner_events_ignored_total ",
        );
        push_decimal(&mut out, self.engine.ignored_count());
        out.append(
            "\n# TYPE edgerunner_decision_p99_microseconds gauge\nedgerunner_decision_p99_microseconds ",
        );
        push_decimal(&mut out, latency.p99_us);
        out.append(
            "\n# TYPE edgerunner_position_contracts gauge\nedgerunner_position_contracts ",
        );
        push_decimal_signed(&mut out, state.position);
        out.append("\n# TYPE edgerunner_pnl_micros gauge\nedgerunner_pnl_micros ");
        push_decimal_signed(&mut out, state.pnl_micros);
        out.append("\n# TYPE edgerunner_kill_switch gauge\nedgerunner_kill_switch ");
        if self.killed {
            out.append("1");
        } else {
            out.append("0");
        }
        out.append("\n");
        out
    }

    /// Processes an event of a feed: the feed is live, the engine decides, and
    /// what is to be journaled and fetched is handed back. An event that no feed
    /// sends is dropped.
    pub fn process_market_event(&mut self, event: EventEnvelope, record_event: bool) -> (r: Option<
        ProcessedEvent,
    >)
        requires
            old(self).well_formed(),
            old(self)@.engine.processed_events < u64::MAX,
        ensures
            final(self).well_formed(),
            exists|stamps: Seq<Stamp>| #[trigger]
                event_taken(old(self)@, final(self)@, event@, record_event, r, stamps),
    {
        let ghost before = self@;
        let (feed, source) = match &event.event {
            MarketEvent::FairValue { .. } => ("txline", MarketDataSource::Txline),
            MarketEvent::Book { .. } => ("pascal", MarketDataSource::Pascal),
            _ => {
                assert(event_taken(
                    before,
                    self@,
                    event@,
                    record_event,
                    None,
                    Seq::<Stamp>::empty(),
                ));
                return None;
            },
        };
        let ghost envelope = event@;
        let mut records: Vec<JournalRecord> = Vec::new();
        if record_event {
            records.push(
                JournalRecord::Event { schema: JOURNAL_SCHEMA, source, event: event.clone() },
            );
        }
        assert(record_models(records@) =~= event_record(envelope, record_event));
        proof {
            every_event_is_processable(before.engine, envelope);
        }
        self.feed_status.insert(feed.to_owned(), FeedStatus::Live);
        let outputs = self.engine.process(event);
        let ghost stamps = stamps_of(outputs@);
        let ghost made = output_models(outputs@);
        proof {
            every_event_keeps_the_engine_sound(before.engine, envelope, stamps);
            events_leave_the_kill_switch(before.engine, envelope, stamps);
        }
        let proofs = collect_records(&outputs, &mut records);
        let result = Some(ProcessedEvent { records, proofs });
        assert(event_taken(before, self@, envelope, record_event, result, stamps));
        result
    }
}

/// Appends the records of some outputs, and collects the proofs to fetch.
fn collect_records(outputs: &Vec<EngineOutput>, records: &mut Vec<JournalRecord>) -> (r: Vec<
    ProofRequest,
>)
    ensures
        record_models(final(records)@) == record_models(old(records)@) + records_for(
            output_models(outputs@),
        ),
        proof_models(r@) == proofs_for(output_models(outputs@)),
{
    let ghost start = record_models(records@);
    let ghost made = output_models(outputs@);
    let mut proofs: Vec<ProofRequest> = Vec::new();
    let mut i: usize = 0;
    assert(made.take(0) =~= Seq::<OutputModel>::empty());
    assert(proof_models(proofs@) =~= Seq::<ProofModel>::empty());
    assert(start + records_for(made.take(0)) =~= start);
    while i < outputs.len()
        invariant
            i <= outputs@.len(),
            made == output_models(outputs@),
            record_models(records@) == start + records_for(made.take(i as int)),
            proof_models(proofs@) == proofs_for(made.take(i as int)),
        decreases outputs@.len() - i,
    {
        let output = &outputs[i];
        let ghost before = records@;
        let ghost asked = proofs@;
        proof {
            assert(made.take(i + 1).drop_last() =~= made.take(i as int));
            assert(made.take(i + 1).last() == output@);
        }
        if same_text(output.decision.action.as_str(), "submitted") {
            if let Some(intent) = &output.decision.intent {
                if let (Some(message_id), Some(proof_ts)) = (
                    &intent.source_message_id,
                    intent.source_proof_ts,
                ) {
                    let request = ProofRequest {
                        order_id: intent.id,
                        message_id: message_id.clone(),
                        proof_ts,
                    };
                    proofs.push(request);
                    assert(proof_models(proofs@) =~= proof_models(asked).push(request@));
                }
            }
        }
        records.push(
            JournalRecord::Decision { schema: JOURNAL_SCHEMA, decision: output.decision.clone() },
        );
        if let Some(fill) = &output.fill {
            records.push(JournalRecord::Fill { schema: JOURNAL_SCHEMA, fill: fill.clone() });
        }
        if let Some(trade) = &output.trade {
            records.push(JournalRecord::Trade { schema: JOURNAL_SCHEMA, trade: trade.clone() });
        }
        assert(record_models(records@) =~= record_models(before) + records_of(output@));
        i = i + 1;
        assert(start + records_for(made.take(i - 1)) + records_of(output@) =~= start
            + records_for(made.take(i as int)));
    }
    assert(made.take(i as int) =~= made);
    proofs
}

/// The market as it is shown.
#[derive(Debug)]
pub struct MarketDisplay {
    pub event: String,
    pub contract: String,
    pub period: String,
    pub starts_at_ms: Option<u64>,
}

/// The session as it is shown.
#[derive(Debug)]
pub struct SessionState {
    pub environment: Environment,
    pub run_mode: RunMode,
    pub execution: ExecutionMode,
    pub live_available: bool,
    pub mapping_status: MappingStatus,
    pub replay: ReplayRuntime,
    pub market: Option<MarketDisplay>,
}

/// Whether the discovered market is the one that the engine works on, or the
/// engine works on none yet.
pub open spec fn shows_market(live: ResolvedLiveFeed, active_market: Seq<char>) -> bool {
    active_market.len() == 0 || active_market == live@.mapping.market
}

/// Puts the session together as it is shown. On the main network there is neither
/// a mapping nor a live feed.
pub fn session_state(controller: &FeedController, runtime: &Runtime) -> (r: SessionState)
    ensures
        r.environment == controller.environment,
        r.run_mode == controller.run_mode,
        r.execution == ExecutionMode::Simulated,
        r.live_available == (controller.environment == Environment::Devnet && controller.live
            is Some && controller.discovery == MappingStatus::Ready),
        r.mapping_status == if controller.environment == Environment::Mainnet {
            MappingStatus::Unavailable
        } else {
            controller.discovery
        },
        r.replay@ == runtime@.replay,
        match controller.live {
            Some(live) => if shows_market(live, runtime@.engine.trading.state.market) {
                &&& r.market is Some
                &&& r.market->0.event@ == live@.event_label
                &&& r.market->0.contract@ == live@.contract_label
                &&& r.market->0.period@ == live@.market_period
                &&& r.market->0.starts_at_ms == live@.expected_event_start_time_ms
            } else {
                r.market is None
            },
            None => r.market is None,
        },
{
    let market = match &controller.live {
        Some(live) => {
            let active = runtime.active_market();
            if active.as_str().is_empty() || same_text(
                active.as_str(),
                live.mapping.market.as_str(),
            ) {
                Some(
                    MarketDisplay {
                        event: live.event_label.clone(),
                        contract: live.contract_label.clone(),
                        period: live.market_period.clone(),
                        starts_at_ms: live.expected_event_start_time_ms,
                    },
                )
            } else {
                None
            }
        },
        None => None,
    };
    SessionState {
        environment: controller.environment,
        run_mode: controller.run_mode,
        execution: ExecutionMode::Simulated,
        live_available: controller.environment == Environment::Devnet && controller.live.is_some()
            && controller.discovery == MappingStatus::Ready,
        mapping_status: if controller.environment == Environment::Mainnet {
            MappingStatus::Unavailable
        } else {
            controller.discovery
        },
        replay: runtime.replay_state().clone(),
        market,
    }
}

/// Replays the events of a recording through the service.
pub struct ReplayWorker {
    events: Vec<EventEnvelope>,
    journal: String,
    index: usize,
    speed: ReplaySpeed,
    previous_time_ns: Option<u64>,
    playing: bool,
    target: Option<usize>,
}

/// The model of a replay.
#[verifier::ext_equal]
pub struct WorkerModel {
    pub events: Seq<EnvelopeModel>,
    pub journal: Seq<char>,
    /// How many events were replayed.
    pub index: int,
    pub speed: u64,
    /// When the event before the next one was recorded.
    pub previous_time_ns: Option<u64>,
    pub playing: bool,
    /// Up to where the replay is to run at once.
    pub target: Option<int>,
}

impl View for ReplayWorker {
    type V = WorkerModel;

    closed spec fn view(&self) -> WorkerModel {
        WorkerModel {
            events: envelope_models(self.events@),
            journal: self.journal@,
            index: self.index as int,
            speed: self.speed@,
            previous_time_ns: self.previous_time_ns,
            playing: self.playing,
            target: match self.target {
                Some(t) => Some(t as int),
                None => None,
            },
        }
    }
}

/// Whether the replay is within its recording, and a place to run to lies ahead.
pub open spec fn on_track(w: WorkerModel) -> bool {
    &&& 0 <= w.index <= w.events.len()
    &&& w.target matches Some(t) ==> w.index < t <= w.events.len()
}

/// The service with the replay shown at the place of the worker.
pub open spec fn shown(rt: RuntimeModel, w: WorkerModel, status: ReplayStatus) -> RuntimeModel {
    RuntimeModel {
        replay: ReplayStateModel {
            status,
            event_index: w.index,
            total_events: w.events.len() as int,
            speed: w.speed,
            journal: w.journal,
        },
        ..rt
    }
}

/// The replay at its start.
pub open spec fn rewound(w: WorkerModel) -> WorkerModel {
    WorkerModel { index: 0, previous_time_ns: None, ..w }
}

/// Whether a command starts a new run.
pub open spec fn restarts(w: WorkerModel, command: ReplayCommand) -> bool {
    match command {
        ReplayCommand::Play => w.events.len() > 0 && w.index >= w.events.len(),
        ReplayCommand::Reset => true,
        ReplayCommand::Seek(_) => true,
        _ => false,
    }
}

/// The replay after a command.
pub open spec fn commanded(w: WorkerModel, command: ReplayCommand) -> WorkerModel {
    match command {
        ReplayCommand::Play => if w.events.len() == 0 {
            WorkerModel { playing: false, ..w }
        } else if w.index >= w.events.len() {
            WorkerModel { playing: true, ..rewound(w) }
        } else {
            WorkerModel { playing: true, ..w }
        },
        ReplayCommand::Pause => WorkerModel { playing: false, ..w },
        ReplayCommand::Reset => WorkerModel { playing: false, ..rewound(w) },
        ReplayCommand::SetSpeed(speed) => WorkerModel { speed: speed@, ..w },
        ReplayCommand::Seek(at) => {
            let target = if at <= w.events.len() {
                at as int
            } else {
                w.events.len() as int
            };
            WorkerModel {
                playing: false,
                target: if target > 0 {
                    Some(target)
                } else {
                    None
                },
                ..rewound(w)
            }
        },
    }
}

/// How a replay that stopped at some place is shown.
pub open spec fn stopped_status(w: WorkerModel) -> ReplayStatus {
    if w.index >= w.events.len() {
        ReplayStatus::Complete
    } else {
        ReplayStatus::Paused
    }
}

/// How the replay is shown after a command, unless it is to run on first.
pub open spec fn commanded_status(w: WorkerModel, command: ReplayCommand) -> Option<ReplayStatus> {
    match command {
        ReplayCommand::Play => if w.events.len() == 0 {
            Some(ReplayStatus::Unavailable)
        } else {
            Some(ReplayStatus::Playing)
        },
        ReplayCommand::Pause => Some(ReplayStatus::Paused),
        ReplayCommand::Reset => Some(idle_status(w.events.len() as int)),
        ReplayCommand::SetSpeed(_) => if w.playing {
            Some(ReplayStatus::Playing)
        } else {
            Some(ReplayStatus::Paused)
        },
        ReplayCommand::Seek(_) => if commanded(w, command).target is Some {
            None
        } else {
            Some(stopped_status(rewound(w)))
        },
    }
}

/// The service after a command.
pub open spec fn runtime_commanded(
    rt: RuntimeModel,
    w: WorkerModel,
    command: ReplayCommand,
    run_id: int,
    config: BackendConfig,
) -> RuntimeModel {
    let begun = if restarts(w, command) {
        restarted(rt, run_id, config, FeedMode::Inactive)
    } else {
        rt
    };
    match commanded_status(w, command) {
        Some(status) => shown(begun, commanded(w, command), status),
        None => begun,
    }
}

/// The replay after the next event. A run to a place ends there; a playing one
/// ends with the recording.
pub open spec fn stepped(w: WorkerModel) -> WorkerModel {
    let index = w.index + 1;
    WorkerModel {
        index,
        previous_time_ns: Some(w.events[w.index].received_time_ns as u64),
        playing: w.playing && index < w.events.len(),
        target: match w.target {
            Some(t) => if index >= t {
                None
            } else {
                Some(t)
            },
            None => None,
        },
        ..w
    }
}

/// How the replay is shown after the next event, unless it is to run on first.
pub open spec fn stepped_status(w: WorkerModel) -> Option<ReplayStatus> {
    if w.target is Some {
        if stepped(w).target is Some {
            None
        } else {
            Some(stopped_status(stepped(w)))
        }
    } else if stepped(w).index >= w.events.len() {
        Some(ReplayStatus::Complete)
    } else {
        Some(ReplayStatus::Playing)
    }
}

/// The service after the next event of the replay.
pub open spec fn runtime_stepped(
    rt: RuntimeModel,
    w: WorkerModel,
    stamps: Seq<Stamp>,
) -> RuntimeModel {
    let after = after_market_event(rt, w.events[w.index], stamps);
    match stepped_status(w) {
        Some(status) => shown(after, stepped(w), status),
        None => after,
    }
}

/// What a replay does next.
#[derive(Clone, Copy, Debug, PartialEq, Eq, Structural)]
pub enum ReplayAction {
    /// Replays the next event at once.
    Run,
    /// Waits for a command.
    Await,
    /// Shows that the recording is at its end.
    Finish,
    /// Replays the next event after a pause, or takes a command before. The pause
    /// depends on the time between the next event and the one before it.
    Pause { gap_ns: Option<u64> },
}

impl ReplayWorker {
    /// Whether the replay is within its recording.
    pub closed spec fn well_formed(&self) -> bool {
        on_track(self@)
    }

    /// What a well-formed replay keeps to.
    pub proof fn lemma_well_formed(&self)
        requires
            self.well_formed(),
        ensures
            on_track(self@),
    {
    }

    /// A replay at the start of a recording.
    pub fn new(events: Vec<EventEnvelope>, journal: String) -> (r: Self)
        ensures
            r.well_formed(),
            r@ == (WorkerModel {
                events: envelope_models(events@),
                journal: journal@,
                index: 0,
                speed: NORMAL_SPEED_BITS,
                previous_time_ns: None,
                playing: false,
                target: None,
            }),
    {
        ReplayWorker {
            events,
            journal,
            index: 0,
            speed: ReplaySpeed::normal(),
            previous_time_ns: None,
            playing: false,
            target: None,
        }
    }

    fn show(&self, runtime: &mut Runtime, status: ReplayStatus)
        requires
            old(runtime).well_formed(),
        ensures
            final(runtime).well_formed(),
            final(runtime)@ == shown(old(runtime)@, self@, status),
    {
        runtime.update_replay_state(
            status,
            self.index,
            self.events.len(),
            self.speed,
            self.journal.as_str(),
        );
    }

    /// Shows the replay at its start.
    pub fn start(&self, runtime: &mut Runtime)
        requires
            old(runtime).well_formed(),
        ensures
            final(runtime).well_formed(),
            final(runtime)@ == shown(
                old(runtime)@,
                self@,
                idle_status(self@.events.len() as int),
            ),
    {
        let status = status_when_idle(self.events.len());
        self.show(runtime, status);
    }

    /// What the replay does next.
    pub fn next_action(&self) -> (r: ReplayAction)
        requires
            self.well_formed(),
        ensures
            match r {
                ReplayAction::Run => self@.target is Some,
                ReplayAction::Await => self@.target is None && !self@.playing,
                ReplayAction::Finish => self@.target is None && self@.playing && self@.index
                    >= self@.events.len(),
                ReplayAction::Pause { gap_ns } => self@.target is None && self@.playing
                    && self@.index < self@.events.len() && recorded_gap(
                    self@.previous_time_ns,
                    self@.events[self@.index].received_time_ns as u64,
                ) == match gap_ns {
                    Some(gap) => Some(gap as int),
                    None => None,
                },
            },
    {
        if self.target.is_some() {
            ReplayAction::Run
        } else if !self.playing {
            ReplayAction::Await
        } else if self.index >= self.events.len() {
            ReplayAction::Finish
        } else {
            assert(self@.events[self@.index] == self.events@[self.index as int]@);
            ReplayAction::Pause {
                gap_ns: replay_gap(
                    self.previous_time_ns,
                    self.events[self.index].received_time_ns,
                ),
            }
        }
    }

    /// Shows that the recording is at its end.
    pub fn finish(&mut self, runtime: &mut Runtime)
        requires
            old(self).well_formed(),
            old(runtime).well_formed(),
        ensures
            final(self).well_formed(),
            final(self)@ == (WorkerModel { playing: false, ..old(self)@ }),
            final(runtime).well_formed(),
            final(runtime)@ == shown(old(runtime)@, old(self)@, ReplayStatus::Complete),
    {
        self.playing = false;
        self.show(runtime, ReplayStatus::Complete);
    }

    /// Carries out a command. The record of a new run is handed back.
    pub fn handle_replay_command(
        &mut self,
        command: ReplayCommand,
        runtime: &mut Runtime,
        config: &BackendConfig,
    ) -> (r: Option<JournalRecord>)
        requires
            old(self).well_formed(),
            old(self)@.target is None,
            old(runtime).well_formed(),
            usable(*config),
        ensures
            final(self).well_formed(),
            final(self)@ == commanded(old(self)@, command),
            final(runtime).well_formed(),
            final(runtime)@ == runtime_commanded(
                old(runtime)@,
                old(self)@,
                command,
                final(runtime)@.engine.run_id,
                *config,
            ),
            match r {
                Some(record) => restarts(old(self)@, command) && record@ == (RecordModel::Run {
                    schema: JOURNAL_SCHEMA,
                    run_id: final(runtime)@.engine.run_id,
                }),
                None => !restarts(old(self)@, command),
            },
    {
        let total: usize = self.events.len();
        match command {
            ReplayCommand::Play => {
                if total == 0 {
                    self.playing = false;
                    self.show(runtime, ReplayStatus::Unavailable);
                    return None;
                }
                let mut record: Option<JournalRecord> = None;
                if self.index >= total {
                    record = Some(runtime.reset(config, FeedMode::Inactive));
                    self.index = 0;
                    self.previous_time_ns = None;
                }
                self.playing = true;
                self.show(runtime, ReplayStatus::Playing);
                record
            },
            ReplayCommand::Pause => {
                self.playing = false;
                self.show(runtime, ReplayStatus::Paused);
                None
            },
            ReplayCommand::Reset => {
                let record = runtime.reset(config, FeedMode::Inactive);
                self.index = 0;
                self.previous_time_ns = None;
                self.playing = false;
                let status = status_when_idle(total);
                self.show(runtime, status);
                Some(record)
            },
            ReplayCommand::SetSpeed(speed) => {
                self.speed = speed;
                let status = if self.playing {
                    ReplayStatus::Playing
                } else {
                    ReplayStatus::Paused
                };
                self.show(runtime, status);
                None
            },
            ReplayCommand::Seek(at) => {
                let target: usize = if at <= total {
                    at
                } else {
                    total
                };
                let record = runtime.reset(config, FeedMode::Inactive);
                self.index = 0;
                self.previous_time_ns = None;
                self.playing = false;
                if target > 0 {
                    self.target = Some(target);
                } else {
                    let status = if total == 0 {
                        ReplayStatus::Complete
                    } else {
                        ReplayStatus::Paused
                    };
                    self.show(runtime, status);
                }
                Some(record)
            },
        }
    }

    /// Replays the next event. The event is not recorded again, and no proof is
    /// fetched for it.
    pub fn step(&mut self, runtime: &mut Runtime) -> (r: Option<ProcessedEvent>)
        requires
            old(self).well_formed(),
            old(self)@.index < old(self)@.events.len(),
            old(self)@.target is Some || old(self)@.playing,
            old(runtime).well_formed(),
            old(runtime)@.engine.processed_events < u64::MAX,
        ensures
            final(self).well_formed(),
            final(self)@ == stepped(old(self)@),
            final(runtime).well_formed(),
            exists|stamps: Seq<Stamp>|
                #![trigger runtime_stepped(old(runtime)@, old(self)@, stamps)]
                final(runtime)@ == runtime_stepped(old(runtime)@, old(self)@, stamps)
                    && event_taken(
                    old(runtime)@,
                    after_market_event(
                        old(runtime)@,
                        old(self)@.events[old(self)@.index],
                        stamps,
                    ),
                    old(self)@.events[old(self)@.index],
                    false,
                    r,
                    stamps,
                ),
    {
        let ghost before = self@;
        let ghost rt = runtime@;
        let total: usize = self.events.len();
        assert(before.events.len() == total);
        let event = self.events[self.index].clone();
        assert(before.events[before.index] == event@);
        self.previous_time_ns = Some(event.received_time_ns);
        let result = runtime.process_market_event(event, false);
        let ghost stamps = choose|stamps: Seq<Stamp>|
            event_taken(rt, runtime@, event@, false, result, stamps);
        self.index = self.index + 1;
        if let Some(target) = self.target {
            if self.index >= target {
                self.target = None;
                self.playing = self.playing && self.index < total;
                let status = if self.index >= total {
                    ReplayStatus::Complete
                } else {
                    ReplayStatus::Paused
                };
                assert(self@ == stepped(before));
                self.show(runtime, status);
            } else {
                assert(self@ == stepped(before));
            }
        } else if self.index >= total {
            self.playing = false;
            assert(self@ == stepped(before));
            self.show(runtime, ReplayStatus::Complete);
        } else {
            assert(self@ == stepped(before));
            self.show(runtime, ReplayStatus::Playing);
        }
        assert(runtime@ == runtime_stepped(rt, before, stamps));
        result
    }
}

/// The replay and the service after `count` events of it.
pub open spec fn stepped_times(
    w: WorkerModel,
    rt: RuntimeModel,
    stamps: Seq<Seq<Stamp>>,
    count: nat,
) -> (WorkerModel, RuntimeModel)
    decreases count,
{
    if count == 0 {
        (w, rt)
    } else {
        let (w1, rt1) = stepped_times(w, rt, stamps, (count - 1) as nat);
        (stepped(w1), runtime_stepped(rt1, w1, stamps[count - 1]))
    }
}

/// Whether an event comes from one of the two feeds.
pub open spec fn from_a_feed(event: EnvelopeModel) -> bool {
    origin_of(event.event) is Some
}

/// Seeking shows what replaying from the start would: a run to a place leaves the
/// engine as a fresh one that has processed the events before that place, in
/// their order, and the replay stands there.
pub proof fn seeking_replays_from_the_start(
    w: WorkerModel,
    rt: RuntimeModel,
    at: usize,
    run_id: int,
    config: BackendConfig,
    stamps: Seq<Seq<Stamp>>,
    count: nat,
)
    requires
        on_track(w),
        w.target is None,
        count <= at,
        count <= w.events.len(),
        count <= stamps.len(),
        forall|i: int| 0 <= i < w.events.len() ==> from_a_feed(#[trigger] w.events[i]),
    ensures
        ({
            let command = ReplayCommand::Seek(at);
            let begun = runtime_commanded(rt, w, command, run_id, config);
            let (w1, rt1) = stepped_times(commanded(w, command), begun, stamps, count);
            let start = switched(
                fresh(run_id, fresh_taker(config), engine_settings(config)),
                rt.killed,
            );
            &&& w1.index == count
            &&& w1.events == w.events
            &&& on_track(w1)
            &&& !w1.playing
            &&& w1.target == if count < at && count < w.events.len() {
                Some(least(at as int, w.events.len() as int))
            } else {
                None
            }
            &&& rt1.killed == rt.killed
            &&& rt1.engine == after_events::<DislocationTaker>(
                start,
                w.events.take(count as int),
                stamps.take(count as int),
            )
        }),
    decreases count,
{
    let command = ReplayCommand::Seek(at);
    let start = switched(fresh(run_id, fresh_taker(config), engine_settings(config)), rt.killed);
    if count == 0 {
        assert(w.events.take(0) =~= Seq::<EnvelopeModel>::empty());
    } else {
        let less = (count - 1) as nat;
        seeking_replays_from_the_start(w, rt, at, run_id, config, stamps, less);
        let events = w.events.take(count as int);
        assert(events.drop_last() =~= w.events.take(less as int));
        assert(events.last() == w.events[less as int]);
        assert(stamps.take(count as int).drop_last() =~= stamps.take(less as int));
        assert(stamps.take(count as int).last() == stamps[less as int]);
        assert(from_a_feed(w.events[less as int]));
    }
}

/// Whether a fresh engine that has processed the events before the place of the
/// replay, in their order, is where the service's engine is.
pub open spec fn reached(
    w: WorkerModel,
    rt: RuntimeModel,
    config: BackendConfig,
    run_id: int,
    stamps: Seq<Seq<Stamp>>,
) -> bool {
    stamps.len() == w.index && rt.engine == after_events::<DislocationTaker>(
        switched(fresh(run_id, fresh_taker(config), engine_settings(config)), rt.killed),
        w.events.take(w.index),
        stamps,
    )
}

/// Whether the service is where the replay is: its engine has processed the events
/// before that place, in their order, and nothing else.
pub open spec fn in_step(w: WorkerModel, rt: RuntimeModel, config: BackendConfig) -> bool {
    exists|run_id: int, stamps: Seq<Seq<Stamp>>| #[trigger]
        reached(w, rt, config, run_id, stamps)
}

/// The replay controls change the schedule and nothing else: whatever is
/// commanded, the service stays where the replay is.
pub proof fn commands_keep_in_step(
    w: WorkerModel,
    rt: RuntimeModel,
    command: ReplayCommand,
    run_id: int,
    config: BackendConfig,
)
    requires
        on_track(w),
        in_step(w, rt, config),
    ensures
        in_step(
            commanded(w, command),
            runtime_commanded(rt, w, command, run_id, config),
            config,
        ),
{
    let after = commanded(w, command);
    let now = runtime_commanded(rt, w, command, run_id, config);
    if restarts(w, command) {
        let none = Seq::<Seq<Stamp>>::empty();
        assert(after.events.take(0) =~= Seq::<EnvelopeModel>::empty());
        assert(reached(after, now, config, run_id, none));
    } else {
        let (id, stamps) = choose|id: int, stamps: Seq<Seq<Stamp>>| #[trigger]
            reached(w, rt, config, id, stamps);
        assert(reached(after, now, config, id, stamps));
    }
}

/// Replaying an event keeps the service where the replay is.
pub proof fn steps_keep_in_step(
    w: WorkerModel,
    rt: RuntimeModel,
    config: BackendConfig,
    stamps: Seq<Stamp>,
)
    requires
        on_track(w),
        w.index < w.events.len(),
        from_a_feed(w.events[w.index]),
        in_step(w, rt, config),
    ensures
        in_step(stepped(w), runtime_stepped(rt, w, stamps), config),
{
    let (id, before) = choose|id: int, before: Seq<Seq<Stamp>>| #[trigger]
        reached(w, rt, config, id, before);
    let all = before.push(stamps);
    let events = w.events.take(w.index + 1);
    assert(events.drop_last() =~= w.events.take(w.index));
    assert(all.drop_last() =~= before);
    assert(reached(stepped(w), runtime_stepped(rt, w, stamps), config, id, all));
}

/// A replay that begins after a reset is in step.
pub proof fn replays_begin_in_step(
    w: WorkerModel,
    rt: RuntimeModel,
    run_id: int,
    config: BackendConfig,
    feed_mode: FeedMode,
)
    requires
        w.index == 0,
    ensures
        in_step(w, restarted(rt, run_id, config, feed_mode), config),
{
    let now = restarted(rt, run_id, config, feed_mode);
    assert(w.events.take(0) =~= Seq::<EnvelopeModel>::empty());
    assert(reached(w, now, config, run_id, Seq::<Seq<Stamp>>::empty()));
}

/// No command of a replay clears or throws the kill switch.
pub proof fn replay_leaves_the_kill_switch(
    rt: RuntimeModel,
    w: WorkerModel,
    command: ReplayCommand,
    run_id: int,
    config: BackendConfig,
    stamps: Seq<Stamp>,
)
    ensures
        runtime_commanded(rt, w, command, run_id, config).killed == rt.killed,
        runtime_stepped(rt, w, stamps).killed == rt.killed,
{
}

/// A replay is shown as complete exactly when it stands at the end of its
/// recording.
pub proof fn complete_means_the_end(w: WorkerModel)
    requires
        on_track(w),
        w.index < w.events.len(),
        stepped_status(w) is Some,
    ensures
        stepped_status(w) == Some(ReplayStatus::Complete) <==> stepped(w).index
            == w.events.len(),
        on_track(stepped(w)),
{
}

} // verus!
