//! The single-writer engine: event in, decisions, fills and trades out.

use std::collections::VecDeque;
use std::time::Instant;

use vstd::multiset::Multiset;
use vstd::prelude::*;

use crate::account::{
    active_option, entry_capacity, entry_room, mark_to_market, marked, settle, settled,
    size_evaluation, sized, track_position, tracked_active, tracked_history, trade_of, ActiveModel,
    ActivePosition,
};
use crate::clock::{datetime_from_ns, nanos_since, time_of_ns, utc_now, Timestamp};
use crate::feeds::FeedStatusMap;
use crate::fixed::{as_signed, greatest, sat, sat_add, sat_mul, to_signed, usat, Price, SCALE};
use crate::ids::random_id;
use crate::latency::{
    engine_bounds, latency_bounds, latency_samples, latency_summary, LatencyHistogram,
    LatencySnapshot, LARGEST_LATENCY,
};
use crate::paper::{fee, paper_execution, ExecutionVenue, PaperConfig, PaperVenue};
use crate::risk::{
    after_verdict, computable, verdict, RiskConfig, RiskDecision, RiskEngine, RiskModel,
    VerdictModel,
};
use crate::strategy::{evaluation_models, EvaluationModel, Strategy, StrategyEvaluation};
use crate::types::{
    fill_option, no_position, outdated, requirement_option, trade_option, unknown_market, updated,
    CapacityModel, DecisionModel, DecisionRecord, EnvelopeModel, EventEnvelope, Fill, FillModel,
    LifecycleModel, MarketModel, MarketState, NextOrderRequirement, OrderIntent, OrderIntentKind,
    OrderMode, OrderModel, PositionLifecycle, PositionStatus, RequirementModel,
    RiskCapacitySnapshot, Side, Stamp, TradeEvent, TradeModel,
};

verus! {

/// The settings of the engine.
#[derive(Clone, Copy, Debug, PartialEq, Eq, Structural)]
pub struct EngineConfig {
    pub mode: OrderMode,
    pub risk: RiskConfig,
    pub paper: PaperConfig,
    pub decision_history: usize,
}

impl Default for EngineConfig {
    fn default() -> (r: Self)
        ensures
            r.mode == OrderMode::Paper,
            r.risk == (RiskConfig {
                max_position: 250,
                max_notional_micros: 100_000_000,
                max_orders_per_minute: 60,
                max_drawdown_micros: 15_000_000,
                feed_stale_after_ms: 2_500,
            }),
            r.paper == (PaperConfig {
                acknowledgement_delay_ns: 2_000_000,
                taker_fee_rate_micros: 1_000,
            }),
            r.decision_history == 100,
    {
        EngineConfig {
            mode: OrderMode::Paper,
            risk: RiskConfig::default(),
            paper: PaperConfig::default(),
            decision_history: 100,
        }
    }
}

/// One decision with what it led to.
#[derive(Debug)]
pub struct EngineOutput {
    pub decision: DecisionRecord,
    pub fill: Option<Fill>,
    pub trade: Option<TradeEvent>,
}

/// The model of an output.
#[verifier::ext_equal]
pub struct OutputModel {
    pub decision: DecisionModel,
    pub fill: Option<FillModel>,
    pub trade: Option<TradeModel>,
}

impl View for EngineOutput {
    type V = OutputModel;

    open spec fn view(&self) -> OutputModel {
        OutputModel {
            decision: self.decision@,
            fill: fill_option(self.fill),
            trade: trade_option(self.trade),
        }
    }
}

/// The models of some outputs.
pub open spec fn output_models(s: Seq<EngineOutput>) -> Seq<OutputModel> {
    Seq::new(s.len(), |i: int| s[i]@)
}

/// What chance put into some outputs.
pub open spec fn stamps_of(s: Seq<EngineOutput>) -> Seq<Stamp> {
    Seq::new(s.len(), |i: int| s[i].decision@.stamp)
}

/// The models of some decisions.
pub open spec fn decision_models(s: Seq<DecisionRecord>) -> Seq<DecisionModel> {
    Seq::new(s.len(), |i: int| s[i]@)
}

/// The models of some fills.
pub open spec fn fill_models(s: Seq<Fill>) -> Seq<FillModel> {
    Seq::new(s.len(), |i: int| s[i]@)
}

/// The models of some trades.
pub open spec fn trade_models(s: Seq<TradeEvent>) -> Seq<TradeModel> {
    Seq::new(s.len(), |i: int| s[i]@)
}

/// What decides on orders and is changed by them. Nothing in it comes from
/// chance or from the clock.
#[verifier::ext_equal]
pub struct TradingModel {
    pub state: MarketModel,
    pub risk: RiskModel,
    pub active: Option<ActiveModel>,
    pub lifecycle: LifecycleModel,
    pub rejected_orders: int,
}

/// What came of one evaluation.
#[verifier::ext_equal]
pub struct OutcomeModel {
    pub market: Seq<char>,
    pub action: Seq<char>,
    pub reason: Seq<char>,
    pub intent: Option<OrderModel>,
    pub fill: Option<FillModel>,
    pub trade: Option<TradeModel>,
}

/// The outcome of an evaluation in which no order was executed.
pub open spec fn unfilled(
    t: TradingModel,
    evaluation: EvaluationModel,
    action: Seq<char>,
    reason: Seq<char>,
) -> OutcomeModel {
    OutcomeModel {
        market: match evaluation.intent {
            Some(order) => order.market,
            None => t.state.market,
        },
        action,
        reason,
        intent: evaluation.intent,
        fill: None,
        trade: None,
    }
}

/// What an order that the gates answered leads to.
pub open spec fn ordered(
    config: EngineConfig,
    t: TradingModel,
    evaluation: EvaluationModel,
    order: OrderModel,
    now: int,
) -> (TradingModel, OutcomeModel) {
    let risk = after_verdict(t.risk, order, t.state, now);
    match verdict(t.risk, order, t.state, now) {
        VerdictModel::Rejected { reason } => (
            TradingModel { risk, rejected_orders: t.rejected_orders + 1, ..t },
            unfilled(t, evaluation, "rejected"@, reason),
        ),
        VerdictModel::Approved => match paper_execution(config.paper, order, t.state, now) {
            None => (
                TradingModel { risk, ..t },
                unfilled(t, evaluation, "submitted"@, evaluation.reason),
            ),
            Some(fill) => (
                TradingModel {
                    state: settled(t.state, fill),
                    risk,
                    active: tracked_active(t.active, order.kind, fill),
                    lifecycle: tracked_history(t.active, t.lifecycle, order.kind, fill),
                    ..t
                },
                OutcomeModel {
                    fill: Some(fill),
                    trade: Some(trade_of(t.active, fill, order)),
                    ..unfilled(t, evaluation, "submitted"@, evaluation.reason)
                },
            ),
        },
    }
}

/// What an evaluation leads to: its entry is clipped to the limits, what is not
/// eligible is skipped, the gates answer the rest, and the venue executes what
/// they approve.
pub open spec fn traded(
    config: EngineConfig,
    t: TradingModel,
    evaluation: EvaluationModel,
    now: int,
) -> (TradingModel, OutcomeModel) {
    let e = sized(config.risk, t.state.position, evaluation);
    if !e.eligible {
        (t, unfilled(t, e, "skipped"@, e.reason))
    } else {
        match e.intent {
            Some(order) => ordered(config, t, e, order, now),
            None => (
                TradingModel { rejected_orders: t.rejected_orders + 1, ..t },
                unfilled(t, e, "rejected"@, "eligible evaluation has no order candidate"@),
            ),
        }
    }
}

/// Whether an evaluation can be carried out in 64-bit integers: the counter of
/// rejections, the gates and the signed quantity of a fill exist, and an entry
/// goes with the open position.
pub open spec fn permissible(
    config: EngineConfig,
    t: TradingModel,
    evaluation: EvaluationModel,
    now: int,
) -> bool {
    let e = sized(config.risk, t.state.position, evaluation);
    &&& t.rejected_orders < u64::MAX
    &&& e.eligible && e.intent is Some ==> {
        let order = e.intent->0;
        &&& computable(t.risk, order, t.state, now)
        &&& verdict(t.risk, order, t.state, now) is Approved ==> (match paper_execution(
            config.paper,
            order,
            t.state,
            now,
        ) {
            Some(fill) => {
                &&& fill.side == Side::Ask ==> as_signed(fill.quantity) != i64::MIN
                &&& order.kind == OrderIntentKind::Entry && t.active is Some
                    ==> t.active->0.entry_side == fill.side
            },
            None => true,
        })
    }
}

/// What some evaluations lead to, one after the other.
pub open spec fn traded_all(
    config: EngineConfig,
    t: TradingModel,
    evaluations: Seq<EvaluationModel>,
    now: int,
) -> TradingModel
    decreases evaluations.len(),
{
    if evaluations.len() == 0 {
        t
    } else {
        traded(
            config,
            traded_all(config, t, evaluations.drop_last(), now),
            evaluations.last(),
            now,
        ).0
    }
}

/// Whether some evaluations can be carried out, one after the other.
pub open spec fn all_permissible(
    config: EngineConfig,
    t: TradingModel,
    evaluations: Seq<EvaluationModel>,
    now: int,
) -> bool {
    forall|i: int|
        0 <= i < evaluations.len() ==> permissible(
            config,
            traded_all(config, t, #[trigger] evaluations.take(i), now),
            evaluations[i],
            now,
        )
}

/// `history` with `item` in front, no longer than `limit`.
pub open spec fn remembered<T>(history: Seq<T>, item: T, limit: int) -> Seq<T> {
    let all = seq![item] + history;
    if all.len() <= limit {
        all
    } else {
        all.take(limit)
    }
}

/// `samples` with the latency of a decision. A latency of zero counts as one
/// nanosecond, and one beyond the histogram's range is not recorded.
pub open spec fn sampled(samples: Multiset<u64>, latency_ns: int) -> Multiset<u64> {
    if latency_ns <= LARGEST_LATENCY {
        samples.insert(greatest(latency_ns, 1) as u64)
    } else {
        samples
    }
}

/// The model of the engine.
#[verifier::ext_equal]
pub struct EngineModel<M> {
    pub run_id: int,
    pub trading: TradingModel,
    pub strategy: M,
    pub config: EngineConfig,
    pub processed_events: int,
    pub ignored_events: int,
    pub last_event_time_ns: int,
    pub decisions: Seq<DecisionModel>,
    pub fills: Seq<FillModel>,
    pub trades: Seq<TradeModel>,
    pub samples: Multiset<u64>,
}

/// The record of an outcome.
pub open spec fn decision_on(
    outcome: OutcomeModel,
    event: EnvelopeModel,
    stamp: Stamp,
) -> DecisionModel {
    DecisionModel {
        stamp,
        at: time_of_ns(event.received_time_ns),
        event_id: event.id,
        market: outcome.market,
        action: outcome.action,
        reason: outcome.reason,
        intent: outcome.intent,
    }
}

/// The output for an evaluation.
pub open spec fn output_for<M>(
    e: EngineModel<M>,
    evaluation: EvaluationModel,
    event: EnvelopeModel,
    stamp: Stamp,
) -> OutputModel {
    let outcome = traded(e.config, e.trading, evaluation, event.received_time_ns).1;
    OutputModel {
        decision: decision_on(outcome, event, stamp),
        fill: outcome.fill,
        trade: outcome.trade,
    }
}

/// The engine after an evaluation: the trading moves on, and decision, fill,
/// trade and latency are recorded.
pub open spec fn decided<M>(
    e: EngineModel<M>,
    evaluation: EvaluationModel,
    event: EnvelopeModel,
    stamp: Stamp,
) -> EngineModel<M> {
    let (trading, outcome) = traded(e.config, e.trading, evaluation, event.received_time_ns);
    let limit = e.config.decision_history as int;
    EngineModel {
        trading,
        decisions: remembered(e.decisions, decision_on(outcome, event, stamp), limit),
        fills: match outcome.fill {
            Some(fill) => remembered(e.fills, fill, limit),
            None => e.fills,
        },
        trades: match outcome.trade {
            Some(trade) => remembered(e.trades, trade, limit),
            None => e.trades,
        },
        samples: sampled(e.samples, stamp.compute_latency_ns),
        ..e
    }
}

/// The engine after some evaluations.
pub open spec fn decided_all<M>(
    e: EngineModel<M>,
    evaluations: Seq<EvaluationModel>,
    event: EnvelopeModel,
    stamps: Seq<Stamp>,
) -> EngineModel<M>
    decreases evaluations.len(),
{
    if evaluations.len() == 0 {
        e
    } else {
        decided(
            decided_all(e, evaluations.drop_last(), event, stamps.drop_last()),
            evaluations.last(),
            event,
            stamps.last(),
        )
    }
}

/// The outputs for some evaluations.
pub open spec fn outputs_for<M>(
    e: EngineModel<M>,
    evaluations: Seq<EvaluationModel>,
    event: EnvelopeModel,
    stamps: Seq<Stamp>,
) -> Seq<OutputModel>
    decreases evaluations.len(),
{
    if evaluations.len() == 0 {
        Seq::empty()
    } else {
        outputs_for(e, evaluations.drop_last(), event, stamps.drop_last()).push(
            output_for(
                decided_all(e, evaluations.drop_last(), event, stamps.drop_last()),
                evaluations.last(),
                event,
                stamps.last(),
            ),
        )
    }
}

/// The engine that has taken an event into the market state and marked the
/// profit, before the strategy is asked.
pub open spec fn informed<M>(e: EngineModel<M>, event: EnvelopeModel) -> EngineModel<M> {
    EngineModel {
        trading: TradingModel {
            state: marked(updated(e.trading.state, event)),
            ..e.trading
        },
        processed_events: e.processed_events + 1,
        last_event_time_ns: event.received_time_ns,
        ..e
    }
}

/// The evaluations that the strategy makes of an event.
pub open spec fn event_evaluations<S: Strategy>(
    e: EngineModel<S::Model>,
    event: EnvelopeModel,
) -> Seq<EvaluationModel> {
    S::evaluations(e.strategy, informed(e, event).trading.state, event)
}

/// The engine that has asked the strategy about an event, before anything is
/// decided.
pub open spec fn advised<S: Strategy>(
    e: EngineModel<S::Model>,
    event: EnvelopeModel,
) -> EngineModel<S::Model> {
    EngineModel {
        strategy: S::advanced(e.strategy, informed(e, event).trading.state, event),
        ..informed(e, event)
    }
}

/// The engine after an event.
pub open spec fn after_event<S: Strategy>(
    e: EngineModel<S::Model>,
    event: EnvelopeModel,
    stamps: Seq<Stamp>,
) -> EngineModel<S::Model> {
    if outdated(e.trading.state, event.event) {
        EngineModel {
            processed_events: e.processed_events + 1,
            ignored_events: e.ignored_events + 1,
            ..e
        }
    } else {
        decided_all(advised::<S>(e, event), event_evaluations::<S>(e, event), event, stamps)
    }
}

/// The outputs for an event: none for an outdated one, and else one for each of
/// the strategy's evaluations.
pub open spec fn event_outputs<S: Strategy>(
    e: EngineModel<S::Model>,
    event: EnvelopeModel,
    stamps: Seq<Stamp>,
) -> Seq<OutputModel> {
    if outdated(e.trading.state, event.event) {
        Seq::empty()
    } else {
        outputs_for(advised::<S>(e, event), event_evaluations::<S>(e, event), event, stamps)
    }
}

/// Whether an event can be processed in 64-bit integers.
pub open spec fn processable<S: Strategy>(e: EngineModel<S::Model>, event: EnvelopeModel) -> bool {
    &&& S::ready(e.strategy)
    &&& e.processed_events < u64::MAX
    &&& e.ignored_events < u64::MAX
    &&& !outdated(e.trading.state, event.event) ==> {
        let evaluations = event_evaluations::<S>(e, event);
        &&& e.samples.len() + evaluations.len() <= u64::MAX
        &&& all_permissible(
            e.config,
            informed(e, event).trading,
            evaluations,
            event.received_time_ns,
        )
    }
}

/// The engine.
pub struct Engine<S: Strategy> {
    pub run_id: u128,
    pub state: MarketState,
    pub processed_events: u64,
    pub ignored_events: u64,
    pub rejected_orders: u64,
    pub decisions: VecDeque<DecisionRecord>,
    pub fills: VecDeque<Fill>,
    pub trades: VecDeque<TradeEvent>,
    pub position_lifecycle: PositionLifecycle,
    strategy: S,
    risk: RiskEngine,
    venue: PaperVenue,
    config: EngineConfig,
    latency: LatencyHistogram,
    active_position: Option<ActivePosition>,
    last_event_time_ns: u64,
}

impl<S: Strategy> View for Engine<S> {
    type V = EngineModel<S::Model>;

    closed spec fn view(&self) -> EngineModel<S::Model> {
        EngineModel {
            run_id: self.run_id as int,
            trading: TradingModel {
                state: self.state@,
                risk: self.risk@,
                active: active_option(self.active_position),
                lifecycle: self.position_lifecycle@,
                rejected_orders: self.rejected_orders as int,
            },
            strategy: self.strategy.model(),
            config: self.config,
            processed_events: self.processed_events as int,
            ignored_events: self.ignored_events as int,
            last_event_time_ns: self.last_event_time_ns as int,
            decisions: decision_models(self.decisions@),
            fills: fill_models(self.fills@),
            trades: trade_models(self.trades@),
            samples: latency_samples(self.latency),
        }
    }
}

impl<S: Strategy> Engine<S> {
    /// Whether gates, venue and histogram are the ones that the settings ask for,
    /// and the number of samples can be counted.
    pub closed spec fn well_formed(&self) -> bool {
        &&& self.risk@.config == self.config.risk
        &&& self.venue.terms() == self.config.paper
        &&& latency_bounds(self.latency) == engine_bounds()
        &&& latency_samples(self.latency).len() <= u64::MAX
    }

    /// Carries out one evaluation and records it.
    fn decide(
        &mut self,
        evaluation: &StrategyEvaluation,
        event: &EventEnvelope,
        started: &Instant,
    ) -> (r: EngineOutput)
        requires
            old(self).well_formed(),
            old(self)@.samples.len() < u64::MAX,
            permissible(
                old(self)@.config,
                old(self)@.trading,
                evaluation@,
                event.received_time_ns as int,
            ),
        ensures
            final(self).well_formed(),
            final(self)@ == decided(old(self)@, evaluation@, event@, r.decision@.stamp),
            r@ == output_for(old(self)@, evaluation@, event@, r.decision@.stamp),
            final(self)@.samples.len() <= old(self)@.samples.len() + 1,
    {
        let now_ns: u64 = event.received_time_ns;
        let sized_evaluation = size_evaluation(&self.config.risk, self.state.position, evaluation);
        let market = match &sized_evaluation.intent {
            Some(intent) => intent.market.clone(),
            None => self.state.market.clone(),
        };
        let mut fill: Option<Fill> = None;
        let mut trade: Option<TradeEvent> = None;
        let action: &str;
        let reason: String;
        if !sized_evaluation.eligible {
            action = "skipped";
            reason = sized_evaluation.reason.clone();
        } else {
            match &sized_evaluation.intent {
                Some(intent) => {
                    match self.risk.evaluate(intent, &self.state, now_ns) {
                        RiskDecision::Approved => {
                            action = "submitted";
                            reason = sized_evaluation.reason.clone();
                            fill = self.venue.execute(intent, &self.state, now_ns);
                            if let Some(executed) = &fill {
                                trade = Some(self.apply_fill(executed, intent));
                            }
                        },
                        RiskDecision::Rejected { reason: gate } => {
                            self.rejected_orders = self.rejected_orders + 1;
                            action = "rejected";
                            reason = gate;
                        },
                    }
                },
                None => {
                    self.rejected_orders = self.rejected_orders + 1;
                    action = "rejected";
                    reason = "eligible evaluation has no order candidate".to_owned();
                },
            }
        }
        let latency_ns: u64 = nanos_since(started);
        let sample: u64 = if latency_ns > 1 {
            latency_ns
        } else {
            1
        };
        let _ = self.latency.record(sample);
        proof {
            vstd::multiset::lemma_insert_len(old(self)@.samples, sample);
        }
        let decision = DecisionRecord {
            id: random_id(),
            at: datetime_from_ns(now_ns),
            event_id: event.id,
            market,
            action: action.to_owned(),
            reason,
            intent: sized_evaluation.intent,
            compute_latency_ns: latency_ns,
        };
        self.push_decision(decision.clone());
        if let Some(executed) = &fill {
            self.push_fill(executed.clone());
        }
        if let Some(made) = &trade {
            self.push_trade(made.clone());
        }
        EngineOutput { decision, fill, trade }
    }

    /// Takes a fill into position, cash and history.
    fn apply_fill(&mut self, fill: &Fill, intent: &OrderIntent) -> (r: TradeEvent)
        requires
            fill.side == Side::Ask ==> as_signed(fill.quantity as int) != i64::MIN,
        ensures
            final(self).well_formed() == old(self).well_formed(),
            r@ == trade_of(old(self)@.trading.active, fill@, intent@),
            final(self)@ == (EngineModel {
                trading: TradingModel {
                    state: settled(old(self)@.trading.state, fill@),
                    active: tracked_active(old(self)@.trading.active, intent.kind, fill@),
                    lifecycle: tracked_history(
                        old(self)@.trading.active,
                        old(self)@.trading.lifecycle,
                        intent.kind,
                        fill@,
                    ),
                    ..old(self)@.trading
                },
                ..old(self)@
            }),
    {
        let trade = track_position(
            &mut self.active_position,
            &mut self.position_lifecycle,
            fill,
            intent,
        );
        settle(&mut self.state, fill);
        trade
    }

    fn push_decision(&mut self, decision: DecisionRecord)
        ensures
            final(self).well_formed() == old(self).well_formed(),
            final(self)@ == (EngineModel {
                decisions: remembered(
                    old(self)@.decisions,
                    decision@,
                    old(self)@.config.decision_history as int,
                ),
                ..old(self)@
            }),
    {
        self.decisions.push_front(decision);
        self.decisions.truncate(self.config.decision_history);
        assert(self@.decisions =~= remembered(
            old(self)@.decisions,
            decision@,
            old(self)@.config.decision_history as int,
        ));
    }

    fn push_fill(&mut self, fill: Fill)
        ensures
            final(self).well_formed() == old(self).well_formed(),
            final(self)@ == (EngineModel {
                fills: remembered(
                    old(self)@.fills,
                    fill@,
                    old(self)@.config.decision_history as int,
                ),
                ..old(self)@
            }),
    {
        self.fills.push_front(fill);
        self.fills.truncate(self.config.decision_history);
        assert(self@.fills =~= remembered(
            old(self)@.fills,
            fill@,
            old(self)@.config.decision_history as int,
        ));
    }

    fn push_trade(&mut self, trade: TradeEvent)
        ensures
            final(self).well_formed() == old(self).well_formed(),
            final(self)@ == (EngineModel {
                trades: remembered(
                    old(self)@.trades,
                    trade@,
                    old(self)@.config.decision_history as int,
                ),
                ..old(self)@
            }),
    {
        self.trades.push_front(trade);
        self.trades.truncate(self.config.decision_history);
        assert(self@.trades =~= remembered(
            old(self)@.trades,
            trade@,
            old(self)@.config.decision_history as int,
        ));
    }

    /// An engine that has seen nothing. Its run identifier is random, so nothing
    /// is claimed of it.
    pub fn new(strategy: S, config: EngineConfig) -> (r: Self)
        ensures
            r.well_formed(),
            r@ == fresh(r@.run_id, strategy.model(), config),
    {
        let r = Engine {
            run_id: random_id(),
            state: MarketState::default(),
            processed_events: 0,
            ignored_events: 0,
            rejected_orders: 0,
            decisions: VecDeque::new(),
            fills: VecDeque::new(),
            trades: VecDeque::new(),
            position_lifecycle: PositionLifecycle::default(),
            strategy,
            risk: RiskEngine::new(config.risk),
            venue: PaperVenue::new(config.paper),
            config,
            latency: LatencyHistogram::new(),
            active_position: None,
            last_event_time_ns: 0,
        };
        assert(r@.decisions =~= Seq::<DecisionModel>::empty());
        assert(r@.fills =~= Seq::<FillModel>::empty());
        assert(r@.trades =~= Seq::<TradeModel>::empty());
        r
    }

    /// Sets or clears the kill switch of the risk gates.
    pub fn set_killed(&mut self, killed: bool)
        ensures
            final(self).well_formed() == old(self).well_formed(),
            final(self)@ == switched(old(self)@, killed),
    {
        self.risk.set_killed(killed);
    }

    /// Processes an event: updates the market state, asks the strategy, and
    /// carries out its evaluations.
    pub fn process(&mut self, event: EventEnvelope) -> (r: Vec<EngineOutput>)
        requires
            old(self).well_formed(),
            processable::<S>(old(self)@, event@),
        ensures
            final(self).well_formed(),
            final(self)@ == after_event::<S>(old(self)@, event@, stamps_of(r@)),
            output_models(r@) == event_outputs::<S>(old(self)@, event@, stamps_of(r@)),
    {
        let started = Instant::now();
        let mut outputs: Vec<EngineOutput> = Vec::new();
        self.processed_events = self.processed_events + 1;
        if !self.state.apply(&event) {
            self.ignored_events = self.ignored_events + 1;
            assert(output_models(outputs@) =~= Seq::<OutputModel>::empty());
            return outputs;
        }
        self.last_event_time_ns = event.received_time_ns;
        mark_to_market(&mut self.state);
        assert(self@ == informed(old(self)@, event@));
        let evaluations = self.strategy.on_event(&self.state, &event);
        let ghost start = advised::<S>(old(self)@, event@);
        let ghost models = event_evaluations::<S>(old(self)@, event@);
        assert(self@ == start);
        assert(evaluation_models(evaluations@) == models);
        assert(models.len() == evaluations@.len());
        assert(models.take(0) =~= Seq::<EvaluationModel>::empty());
        assert(output_models(outputs@) =~= Seq::<OutputModel>::empty());
        let mut i: usize = 0;
        while i < evaluations.len()
            invariant
                self.well_formed(),
                i <= evaluations@.len(),
                evaluation_models(evaluations@) == models,
                outputs@.len() == i,
                self@ == decided_all(start, models.take(i as int), event@, stamps_of(outputs@)),
                output_models(outputs@) == outputs_for(
                    start,
                    models.take(i as int),
                    event@,
                    stamps_of(outputs@),
                ),
                all_permissible(
                    start.config,
                    start.trading,
                    models,
                    event.received_time_ns as int,
                ),
                self@.samples.len() + (evaluations@.len() - i) <= u64::MAX,
            decreases evaluations@.len() - i,
        {
            proof {
                lemma_decided_all_trades(
                    start,
                    models.take(i as int),
                    event@,
                    stamps_of(outputs@),
                );
                assert(evaluations@[i as int]@ == models[i as int]);
            }
            let ghost before = outputs@;
            let output = self.decide(&evaluations[i], &event, &started);
            outputs.push(output);
            i = i + 1;
            proof {
                let now = models.take(i as int);
                assert(now.drop_last() =~= models.take(i - 1));
                assert(now.last() == models[i - 1]);
                assert(stamps_of(outputs@).drop_last() =~= stamps_of(before));
                assert(stamps_of(outputs@).last() == output.decision@.stamp);
                assert(output_models(outputs@) =~= output_models(before).push(output@));
            }
        }
        assert(models.take(models.len() as int) =~= models);
        outputs
    }

    /// The state of the market.
    pub fn market_state(&self) -> (r: &MarketState)
        ensures
            r@ == self@.trading.state,
    {
        &self.state
    }

    /// The number of events that were processed.
    pub fn event_count(&self) -> (r: u64)
        ensures
            r == self@.processed_events,
    {
        self.processed_events
    }

    /// The number of events that were passed over as outdated.
    pub fn ignored_count(&self) -> (r: u64)
        ensures
            r == self@.ignored_events,
    {
        self.ignored_events
    }

    /// The number of orders that were rejected.
    pub fn rejected_count(&self) -> (r: u64)
        ensures
            r == self@.trading.rejected_orders,
    {
        self.rejected_orders
    }

    /// The identifier of the run.
    pub fn id(&self) -> (r: u128)
        ensures
            r == self@.run_id,
    {
        self.run_id
    }

    /// A summary of the decision latencies.
    pub fn latency_snapshot(&self) -> (r: LatencySnapshot)
        requires
            self.well_formed(),
        ensures
            r == latency_summary(self@.samples),
    {
        self.latency.snapshot()
    }

    /// What the latest order candidate needs in funds.
    fn next_order_requirement(&self) -> (r: Option<NextOrderRequirement>)
        ensures
            requirement_option(r) == funds_needed(self@),
    {
        if self.decisions.len() == 0 {
            return None;
        }
        let decision = &self.decisions[0];
        assert(self@.decisions[0] == decision@);
        let intent = match &decision.intent {
            Some(intent) => intent,
            None => return None,
        };
        let price_micros: i64 = intent.limit_price.micros();
        let collateral_micros: i64 = if intent.kind == OrderIntentKind::Exit {
            0
        } else {
            let per_contract: i64 = match intent.side {
                Side::Bid => price_micros,
                Side::Ask => SCALE - price_micros,
            };
            sat_mul(per_contract, to_signed(intent.quantity))
        };
        let fee_micros: i64 = self.config.paper.fee_micros(price_micros, intent.quantity);
        Some(
            NextOrderRequirement {
                side: intent.side,
                quantity: intent.quantity,
                price: intent.limit_price,
                collateral_micros,
                fee_micros,
                required_funds_micros: sat_add(collateral_micros, fee_micros),
                decision_status: decision.action.clone(),
            },
        )
    }

    /// How many contracts the next entry may add.
    fn risk_capacity_snapshot(&self) -> (r: RiskCapacitySnapshot)
        ensures
            r@ == room_ahead(self@),
    {
        let position: i64 = self.state.position;
        let ask = match self.state.best_ask {
            Some(price) => price,
            None => Price::zero(),
        };
        let bid = match self.state.best_bid {
            Some(price) => price,
            None => Price::zero(),
        };
        if position > 0 {
            return entry_capacity(&self.config.risk, position, Side::Bid, ask);
        }
        if position < 0 {
            return entry_capacity(&self.config.risk, position, Side::Ask, bid);
        }
        if self.decisions.len() > 0 {
            let decision = &self.decisions[0];
            assert(self@.decisions[0] == decision@);
            if let Some(intent) = &decision.intent {
                let (side, price) = match (intent.kind, intent.side) {
                    (OrderIntentKind::Entry, side) => (side, intent.limit_price),
                    (OrderIntentKind::Exit, Side::Ask) => (Side::Bid, ask),
                    (OrderIntentKind::Exit, Side::Bid) => (Side::Ask, bid),
                };
                return entry_capacity(&self.config.risk, position, side, price);
            }
        }
        let buy: i64 = match (self.state.fair_value, self.state.best_ask) {
            (Some(fair), Some(quote)) => fair.micros() - quote.micros(),
            _ => 0,
        };
        let sell: i64 = match (self.state.best_bid, self.state.fair_value) {
            (Some(quote), Some(fair)) => quote.micros() - fair.micros(),
            _ => 0,
        };
        if sell > buy {
            entry_capacity(&self.config.risk, position, Side::Ask, bid)
        } else {
            entry_capacity(&self.config.risk, position, Side::Bid, ask)
        }
    }

    /// The state of the engine for display. The time of the snapshot comes from
    /// the clock, so nothing is claimed of it.
    pub fn snapshot(&self, running: bool, killed: bool, feed_status: FeedStatusMap) -> (r:
        EngineSnapshot)
        requires
            self.well_formed(),
        ensures
            r.run_id == self@.run_id,
            r.mode == self@.config.mode,
            r.running == running,
            r.killed == killed,
            r.feed_status == feed_status,
            r.markets@.len() == 1,
            r.markets@[0]@ == self@.trading.state,
            decision_models(r.decisions@) == self@.decisions,
            fill_models(r.fills@) == self@.fills,
            trade_models(r.trades@) == self@.trades,
            r.position_lifecycle@ == current_lifecycle(self@),
            r.latency == latency_summary(self@.samples),
            requirement_option(r.next_order_requirement) == funds_needed(self@),
            r.risk_capacity@ == room_ahead(self@),
            r.processed_events == self@.processed_events,
            r.ignored_events == self@.ignored_events,
            r.rejected_orders == self@.trading.rejected_orders,
    {
        let mut position_lifecycle = self.position_lifecycle;
        if position_lifecycle.status == PositionStatus::Open {
            if let Some(active) = self.active_position {
                position_lifecycle.holding_time_ns =
                self.last_event_time_ns.saturating_sub(active.entry_time_ns);
            }
        }
        let mut markets: Vec<MarketState> = Vec::new();
        markets.push(self.state.clone());
        EngineSnapshot {
            run_id: self.run_id,
            mode: self.config.mode,
            running,
            killed,
            feed_status,
            markets,
            decisions: clone_decisions(&self.decisions),
            fills: clone_fills(&self.fills),
            trades: clone_trades(&self.trades),
            position_lifecycle,
            latency: self.latency_snapshot(),
            next_order_requirement: self.next_order_requirement(),
            risk_capacity: self.risk_capacity_snapshot(),
            processed_events: self.processed_events,
            ignored_events: self.ignored_events,
            rejected_orders: self.rejected_orders,
            last_update: utc_now(),
        }
    }
}

fn clone_decisions(items: &VecDeque<DecisionRecord>) -> (r: VecDeque<DecisionRecord>)
    ensures
        decision_models(r@) == decision_models(items@),
{
    let mut out: VecDeque<DecisionRecord> = VecDeque::new();
    let mut i: usize = 0;
    while i < items.len()
        invariant
            i <= items@.len(),
            out@.len() == i,
            forall|j: int| 0 <= j < i ==> (#[trigger] out@[j])@ == items@[j]@,
        decreases items@.len() - i,
    {
        out.push_back(items[i].clone());
        i = i + 1;
    }
    assert(decision_models(out@) =~= decision_models(items@));
    out
}

fn clone_fills(items: &VecDeque<Fill>) -> (r: VecDeque<Fill>)
    ensures
        fill_models(r@) == fill_models(items@),
{
    let mut out: VecDeque<Fill> = VecDeque::new();
    let mut i: usize = 0;
    while i < items.len()
        invariant
            i <= items@.len(),
            out@.len() == i,
            forall|j: int| 0 <= j < i ==> (#[trigger] out@[j])@ == items@[j]@,
        decreases items@.len() - i,
    {
        out.push_back(items[i].clone());
        i = i + 1;
    }
    assert(fill_models(out@) =~= fill_models(items@));
    out
}

fn clone_trades(items: &VecDeque<TradeEvent>) -> (r: VecDeque<TradeEvent>)
    ensures
        trade_models(r@) == trade_models(items@),
{
    let mut out: VecDeque<TradeEvent> = VecDeque::new();
    let mut i: usize = 0;
    while i < items.len()
        invariant
            i <= items@.len(),
            out@.len() == i,
            forall|j: int| 0 <= j < i ==> (#[trigger] out@[j])@ == items@[j]@,
        decreases items@.len() - i,
    {
        out.push_back(items[i].clone());
        i = i + 1;
    }
    assert(trade_models(out@) =~= trade_models(items@));
    out
}

/// The state of the engine for display.
#[derive(Debug)]
pub struct EngineSnapshot {
    pub run_id: u128,
    pub mode: OrderMode,
    pub running: bool,
    pub killed: bool,
    pub feed_status: FeedStatusMap,
    pub markets: Vec<MarketState>,
    pub decisions: VecDeque<DecisionRecord>,
    pub fills: VecDeque<Fill>,
    pub trades: VecDeque<TradeEvent>,
    pub position_lifecycle: PositionLifecycle,
    pub latency: LatencySnapshot,
    pub next_order_requirement: Option<NextOrderRequirement>,
    pub risk_capacity: RiskCapacitySnapshot,
    pub processed_events: u64,
    pub ignored_events: u64,
    pub rejected_orders: u64,
    pub last_update: Timestamp,
}

/// An engine that has seen nothing.
pub open spec fn fresh<M>(run_id: int, strategy: M, config: EngineConfig) -> EngineModel<M> {
    EngineModel {
        run_id,
        trading: TradingModel {
            state: unknown_market(),
            risk: RiskModel { config: config.risk, order_times_ns: Seq::empty(), killed: false },
            active: None,
            lifecycle: no_position(),
            rejected_orders: 0,
        },
        strategy,
        config,
        processed_events: 0,
        ignored_events: 0,
        last_event_time_ns: 0,
        decisions: Seq::empty(),
        fills: Seq::empty(),
        trades: Seq::empty(),
        samples: Multiset::empty(),
    }
}

/// The engine with its kill switch set or cleared.
pub open spec fn switched<M>(e: EngineModel<M>, killed: bool) -> EngineModel<M> {
    EngineModel {
        trading: TradingModel { risk: RiskModel { killed, ..e.trading.risk }, ..e.trading },
        ..e
    }
}

/// The history of the position, with the time that an open one has been held.
pub open spec fn current_lifecycle<M>(e: EngineModel<M>) -> LifecycleModel {
    match e.trading.active {
        Some(a) => if e.trading.lifecycle.status == PositionStatus::Open {
            LifecycleModel {
                holding_time_ns: usat(e.last_event_time_ns - a.entry_time_ns),
                ..e.trading.lifecycle
            }
        } else {
            e.trading.lifecycle
        },
        None => e.trading.lifecycle,
    }
}

/// The funds that the order of the latest decision needs: the price of a bought
/// contract or of the opposite outcome of a sold one, nothing for an exit, and
/// the fee.
pub open spec fn funds_needed<M>(e: EngineModel<M>) -> Option<RequirementModel> {
    if e.decisions.len() == 0 {
        None
    } else {
        match e.decisions[0].intent {
            None => None,
            Some(order) => {
                let collateral_micros = if order.kind == OrderIntentKind::Exit {
                    0
                } else {
                    sat(
                        (if order.side == Side::Bid {
                            order.limit_price
                        } else {
                            SCALE - order.limit_price
                        }) * as_signed(order.quantity),
                    )
                };
                let fee_micros = fee(
                    e.config.paper.taker_fee_rate_micros as int,
                    order.limit_price,
                    order.quantity,
                );
                Some(
                    RequirementModel {
                        side: order.side,
                        quantity: order.quantity,
                        price: order.limit_price,
                        collateral_micros,
                        fee_micros,
                        required_funds_micros: sat(collateral_micros + fee_micros),
                        decision_status: e.decisions[0].action,
                    },
                )
            },
        }
    }
}

/// A price where it is known, and zero where it is not.
pub open spec fn known_price(price: Option<int>) -> int {
    match price {
        Some(micros) => micros,
        None => 0,
    }
}

/// The side on which the next entry is expected, and its price: the side of the
/// position, else that of the latest candidate, else that of the larger gross
/// edge.
pub open spec fn next_entry<M>(e: EngineModel<M>) -> (Side, int) {
    let state = e.trading.state;
    let ask = known_price(state.best_ask);
    let bid = known_price(state.best_bid);
    if state.position > 0 {
        (Side::Bid, ask)
    } else if state.position < 0 {
        (Side::Ask, bid)
    } else if e.decisions.len() > 0 && e.decisions[0].intent is Some {
        let order = e.decisions[0].intent->0;
        match (order.kind, order.side) {
            (OrderIntentKind::Entry, side) => (side, order.limit_price),
            (OrderIntentKind::Exit, Side::Ask) => (Side::Bid, ask),
            (OrderIntentKind::Exit, Side::Bid) => (Side::Ask, bid),
        }
    } else {
        let buy = match (state.fair_value, state.best_ask) {
            (Some(fair), Some(quote)) => fair - quote,
            _ => 0,
        };
        let sell = match (state.best_bid, state.fair_value) {
            (Some(quote), Some(fair)) => quote - fair,
            _ => 0,
        };
        if sell > buy {
            (Side::Ask, bid)
        } else {
            (Side::Bid, ask)
        }
    }
}

/// How many contracts the next entry may add.
pub open spec fn room_ahead<M>(e: EngineModel<M>) -> CapacityModel {
    let (side, price) = next_entry(e);
    entry_room(e.config.risk, e.trading.state.position, side, price)
}

/// Decisions move the trading on as the evaluations say, whatever chance put
/// into their records, and leave the rest of the engine alone.
pub proof fn lemma_decided_all_trades<M>(
    e: EngineModel<M>,
    evaluations: Seq<EvaluationModel>,
    event: EnvelopeModel,
    stamps: Seq<Stamp>,
)
    ensures
        decided_all(e, evaluations, event, stamps).trading == traded_all(
            e.config,
            e.trading,
            evaluations,
            event.received_time_ns,
        ),
        decided_all(e, evaluations, event, stamps).config == e.config,
        decided_all(e, evaluations, event, stamps).strategy == e.strategy,
        decided_all(e, evaluations, event, stamps).run_id == e.run_id,
        decided_all(e, evaluations, event, stamps).processed_events == e.processed_events,
        decided_all(e, evaluations, event, stamps).ignored_events == e.ignored_events,
        decided_all(e, evaluations, event, stamps).last_event_time_ns == e.last_event_time_ns,
    decreases evaluations.len(),
{
    if evaluations.len() > 0 {
        lemma_decided_all_trades(e, evaluations.drop_last(), event, stamps.drop_last());
    }
}

} // verus!
