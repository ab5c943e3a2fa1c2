//! What holds of the engine as a whole, and, in the modules below, of each part of it.
//!
//! The functions of the library are stated one by one where they stand. Here are
//! the properties that span them: that the engine with the dislocation strategy
//! never meets an event it cannot process, that its books agree and its limits
//! are kept after every event, that a fill is always an approved one, and that
//! the same events lead to the same trades. The modules relate what goes into an
//! operation to what comes out of it:
//!
//! - `replay`, `records`: what a journal says, and what is written of a run;
//! - `account`, `strategy`, `engine`: what fills do to the account, what the
//!   strategy asks for, and how the engine gets from one to the other;
//! - `book`, `odds`, `discovery`: what the feeds say, and which of their markets
//!   belong together;
//! - `service`, `messages`: what the controls do, and what the service says;
//! - `texts`: numbers, prices and addresses as text;
//! - `operations`, `interface`: the same of the functions that are called.

pub mod account;
pub mod book;
pub mod discovery;
pub mod engine;
pub mod interface;
pub mod messages;
pub mod odds;
pub mod operations;
pub mod records;
pub mod replay;
pub mod service;
pub mod strategy;
pub mod texts;

use vstd::prelude::*;

use crate::account::{
    marked, realized_by, same_direction, settled, share, sized, tracked_active, ActiveModel,
};
use crate::engine::{
    advised, after_event, decided, decided_all, decision_on, event_evaluations, event_outputs,
    fresh, informed, lemma_decided_all_trades, outputs_for, permissible, processable, remembered,
    switched, traded, traded_all, EngineConfig, EngineModel, OutputModel, TradingModel,
};
use crate::fixed::{abs, as_signed, greatest, sat};
use crate::order::those;
use crate::paper::{crosses, fills_stay_within_the_book, opposite_quote, paper_execution};
use crate::risk::{
    after_verdict, approval_keeps_every_limit, closed_gate, counted, killed_gates_reject, recent,
    resulting_notional, resulting_position, stale, verdict, RiskConfig, RiskModel, VerdictModel,
};
use crate::strategy::{
    assessment, buy_edge, candidate, costs_fit, long_edge, qualifies, sell_edge, short_edge,
    DislocationConfig, DislocationTaker, EvaluationModel, Strategy, TakerModel,
    ENTRY_EDGE_THRESHOLD_MICROS, EXIT_EDGE_THRESHOLD_MICROS,
};
use crate::types::{
    outdated, DecisionModel, EnvelopeModel, EventModel, FillModel, MarketModel, OrderIntentKind,
    OrderModel, PositionStatus, Side, Stamp,
};

verus! {

/// The model of an engine that runs the dislocation strategy.
pub type TakerEngine = EngineModel<TakerModel>;

/// Whether an event carries depths that a 64-bit unsigned integer holds.
pub open spec fn proper_event(event: EventModel) -> bool {
    match event {
        EventModel::Book { bid_size, ask_size, .. } => 0 <= bid_size <= u64::MAX && 0 <= ask_size
            <= u64::MAX,
        _ => true,
    }
}

/// Whether position and cost basis agree: the position is within the position
/// limit, and a basis is held exactly while it is not flat, for the same side
/// and the same number of contracts.
pub open spec fn books_agree(config: RiskConfig, t: TradingModel) -> bool {
    &&& 0 <= t.state.bid_size <= u64::MAX
    &&& 0 <= t.state.ask_size <= u64::MAX
    &&& abs(t.state.position) <= greatest(config.max_position as int, 0)
    &&& t.risk.config == config
    &&& match t.active {
        None => t.state.position == 0 && t.lifecycle.status == PositionStatus::Closed,
        Some(a) => {
            &&& t.state.position != 0
            &&& a.remaining_quantity == abs(t.state.position)
            &&& a.entry_side == if t.state.position > 0 {
                Side::Bid
            } else {
                Side::Ask
            }
            &&& t.lifecycle.status == PositionStatus::Open
        },
    }
}

/// Whether an engine with the dislocation strategy is in a state that events can
/// lead to.
pub open spec fn sound(e: TakerEngine) -> bool {
    &&& costs_fit(e.strategy.config)
    &&& e.config.risk.max_drawdown_micros != i64::MIN
    &&& books_agree(e.config.risk, e.trading)
    &&& 0 <= e.ignored_events <= e.processed_events
    &&& 0 <= e.trading.rejected_orders <= e.processed_events
    &&& e.samples.len() <= e.processed_events
    &&& e.decisions.len() <= e.config.decision_history
    &&& e.fills.len() <= e.config.decision_history
    &&& e.trades.len() <= e.config.decision_history
}

/// A fresh engine is sound.
pub proof fn fresh_engine_is_sound(run_id: int, taker: TakerModel, config: EngineConfig)
    requires
        costs_fit(taker.config),
        config.risk.max_drawdown_micros != i64::MIN,
    ensures
        sound(fresh(run_id, taker, config)),
{
}

/// What the dislocation strategy's order is like once it is sized: an entry goes
/// with the position and stays within the position limit, an exit goes against
/// the position and is no larger than it.
proof fn lemma_sized_order(
    config: RiskConfig,
    taker: DislocationConfig,
    t: TradingModel,
    event: EnvelopeModel,
)
    requires
        books_agree(config, t),
    ensures
        ({
            let e = sized(config, t.state.position, assessment(taker, t.state, event));
            e.eligible ==> e.intent is Some && ({
                let order = e.intent->0;
                &&& 0 < order.quantity
                &&& order.kind == OrderIntentKind::Entry ==> same_direction(
                    t.state.position,
                    order.side,
                ) && order.quantity + abs(t.state.position) <= config.max_position
                &&& order.kind == OrderIntentKind::Exit ==> order.quantity <= abs(
                    t.state.position,
                ) && (t.state.position > 0 ==> order.side == Side::Ask) && (t.state.position < 0
                    ==> order.side == Side::Bid)
            })
        }),
{
}

/// One evaluation of the dislocation strategy can be carried out and leaves the
/// books in agreement.
proof fn lemma_trade_keeps_books(
    config: EngineConfig,
    taker: DislocationConfig,
    t: TradingModel,
    event: EnvelopeModel,
)
    requires
        books_agree(config.risk, t),
        config.risk.max_drawdown_micros != i64::MIN,
        0 <= t.rejected_orders < u64::MAX,
    ensures
        ({
            let a = assessment(taker, t.state, event);
            let after = traded(config, t, a, event.received_time_ns).0;
            &&& permissible(config, t, a, event.received_time_ns)
            &&& books_agree(config.risk, after)
            &&& t.rejected_orders <= after.rejected_orders <= t.rejected_orders + 1
        }),
{
    let now = event.received_time_ns;
    let a = assessment(taker, t.state, event);
    let e = sized(config.risk, t.state.position, a);
    lemma_sized_order(config.risk, taker, t, event);
    if e.eligible {
        let order = e.intent->0;
        assert(as_signed(order.quantity) == order.quantity);
        fills_stay_within_the_book(config.paper, order, t.state, now);
        if verdict(t.risk, order, t.state, now) is Approved {
            match paper_execution(config.paper, order, t.state, now) {
                Some(fill) => {
                    assert(0 < fill.quantity <= order.quantity);
                    assert(as_signed(fill.quantity) == fill.quantity);
                },
                None => {},
            }
        }
    }
}

/// The engine with the dislocation strategy can process every event, as long as
/// its counter of events can count it.
pub proof fn every_event_is_processable(e: TakerEngine, event: EnvelopeModel)
    requires
        sound(e),
        proper_event(event.event),
        e.processed_events < u64::MAX,
    ensures
        processable::<DislocationTaker>(e, event),
{
    let evaluations = event_evaluations::<DislocationTaker>(e, event);
    let t = informed(e, event).trading;
    if !outdated(e.trading.state, event.event) {
        assert(books_agree(e.config.risk, t));
        if evaluations.len() > 0 {
            lemma_trade_keeps_books(e.config, e.strategy.config, t, event);
            assert(evaluations.take(0) =~= Seq::<EvaluationModel>::empty());
            assert(traded_all(e.config, t, evaluations.take(0), event.received_time_ns) == t);
        }
    }
}

/// Every event leaves the engine sound. In particular the position stays within
/// its limit, position and cost basis agree, and the histories stay within their
/// length.
pub proof fn every_event_keeps_the_engine_sound(
    e: TakerEngine,
    event: EnvelopeModel,
    stamps: Seq<Stamp>,
)
    requires
        sound(e),
        proper_event(event.event),
        e.processed_events < u64::MAX,
    ensures
        sound(after_event::<DislocationTaker>(e, event, stamps)),
{
    if !outdated(e.trading.state, event.event) {
        let evaluations = event_evaluations::<DislocationTaker>(e, event);
        let start = advised::<DislocationTaker>(e, event);
        let t = informed(e, event).trading;
        assert(books_agree(e.config.risk, t));
        if evaluations.len() > 0 {
            lemma_trade_keeps_books(e.config, e.strategy.config, t, event);
            assert(evaluations.drop_last() =~= Seq::<EvaluationModel>::empty());
            assert(decided_all(start, evaluations, event, stamps) == decided(
                start,
                evaluations.last(),
                event,
                stamps.last(),
            )) by {
                reveal_with_fuel(decided_all, 2);
            }
            vstd::multiset::lemma_insert_len(
                e.samples,
                greatest(stamps.last().compute_latency_ns, 1) as u64,
            );
        }
    }
}

/// Throwing or clearing the kill switch leaves the engine sound.
pub proof fn switching_keeps_the_engine_sound(e: TakerEngine, killed: bool)
    requires
        sound(e),
    ensures
        sound(switched(e, killed)),
{
}

/// An event leads to at most one decision, and to none unless it is a fair value
/// or a book.
pub proof fn one_decision_per_event(e: TakerEngine, event: EnvelopeModel, stamps: Seq<Stamp>)
    ensures
        event_outputs::<DislocationTaker>(e, event, stamps).len() <= 1,
        !(event.event is FairValue) && !(event.event is Book) ==> event_outputs::<
            DislocationTaker,
        >(e, event, stamps).len() == 0,
{
    let evaluations = event_evaluations::<DislocationTaker>(e, event);
    if evaluations.len() > 0 {
        assert(evaluations.drop_last() =~= Seq::<EvaluationModel>::empty());
        reveal_with_fuel(outputs_for, 2);
    }
}

/// An outdated event changes nothing but the two counters of events.
pub proof fn outdated_events_are_only_counted<S: Strategy>(
    e: EngineModel<S::Model>,
    event: EnvelopeModel,
    stamps: Seq<Stamp>,
)
    requires
        outdated(e.trading.state, event.event),
    ensures
        after_event::<S>(e, event, stamps) == (EngineModel {
            processed_events: e.processed_events + 1,
            ignored_events: e.ignored_events + 1,
            ..e
        }),
        event_outputs::<S>(e, event, stamps).len() == 0,
{
}

/// Nothing is executed without approval: a fill comes from an order that passed
/// every gate, at the top of the book, within the order's limit and the visible
/// depth.
pub proof fn fills_are_approved(
    config: EngineConfig,
    t: TradingModel,
    evaluation: EvaluationModel,
    now: int,
)
    requires
        traded(config, t, evaluation, now).1.fill is Some,
    ensures
        ({
            let outcome = traded(config, t, evaluation, now).1;
            let order = outcome.intent->0;
            let fill = outcome.fill->0;
            &&& outcome.intent is Some
            &&& outcome.action == "submitted"@
            &&& verdict(t.risk, order, t.state, now) is Approved
            &&& !t.risk.killed && !t.state.suspended && !t.state.danger
            &&& abs(resulting_position(t.state, order)) <= t.risk.config.max_position
            &&& resulting_notional(t.state, order) <= t.risk.config.max_notional_micros
            &&& opposite_quote(t.state, order.side).0 == Some(fill.price)
            &&& crosses(order.side, order.limit_price, fill.price)
            &&& fill.quantity <= opposite_quote(t.state, order.side).1
            &&& fill.quantity <= order.quantity
        }),
{
    let e = sized(config.risk, t.state.position, evaluation);
    let order = e.intent->0;
    fills_stay_within_the_book(config.paper, order, t.state, now);
    approval_keeps_every_limit(t.risk, order, t.state, now);
}

/// While the kill switch is set nothing is executed and the account does not
/// change.
pub proof fn killed_engine_does_not_trade(
    config: EngineConfig,
    t: TradingModel,
    evaluation: EvaluationModel,
    now: int,
)
    requires
        t.risk.killed,
    ensures
        traded(config, t, evaluation, now).1.fill is None,
        traded(config, t, evaluation, now).1.trade is None,
        traded(config, t, evaluation, now).0.state == t.state,
        traded(config, t, evaluation, now).0.active == t.active,
        traded(config, t, evaluation, now).0.lifecycle == t.lifecycle,
        traded(config, t, evaluation, now).0.risk == t.risk,
{
}

/// An entry is never larger than what the limits leave room for, so that an
/// entry that is filled keeps both the position limit and the notional limit at
/// its price.
pub proof fn entries_are_clipped_to_the_limits(
    config: RiskConfig,
    position: int,
    evaluation: EvaluationModel,
)
    requires
        evaluation.intent is Some,
        evaluation.intent->0.kind == OrderIntentKind::Entry,
        evaluation.intent->0.limit_price >= 0,
        evaluation.eligible,
        sized(config, position, evaluation).eligible,
        evaluation.intent->0.quantity >= 0,
    ensures
        ({
            let order = sized(config, position, evaluation).intent->0;
            &&& sized(config, position, evaluation).intent is Some
            &&& 0 < order.quantity <= evaluation.intent->0.quantity
            &&& same_direction(position, order.side)
            &&& abs(position) + order.quantity <= config.max_position
            &&& (abs(position) + order.quantity) * order.limit_price <= greatest(
                config.max_notional_micros as int,
                0,
            )
        }),
{
    let order = sized(config, position, evaluation).intent->0;
    let price = order.limit_price;
    let total = abs(position) + order.quantity;
    let limit = greatest(config.max_notional_micros as int, 0);
    if price > 0 {
        assert(total <= limit / price);
        assert(total * price <= limit) by (nonlinear_arith)
            requires
                total <= limit / price,
                price > 0,
                limit >= 0,
        ;
    } else {
        assert(total * price == 0) by (nonlinear_arith)
            requires
                price == 0,
        ;
    }
}

/// A decision without what chance put into it.
pub open spec fn unstamped(d: DecisionModel) -> DecisionModel {
    DecisionModel { stamp: Stamp { id: 0, compute_latency_ns: 0 }, ..d }
}

/// Decisions without what chance put into them.
pub open spec fn unstamped_all(s: Seq<DecisionModel>) -> Seq<DecisionModel> {
    Seq::new(s.len(), |i: int| unstamped(s[i]))
}

/// Whether two engines differ at most in what comes from chance and the clock:
/// their run identifiers, the identifiers of their decisions and the time that
/// these took.
pub open spec fn alike<M>(a: EngineModel<M>, b: EngineModel<M>) -> bool {
    &&& a.trading == b.trading
    &&& a.strategy == b.strategy
    &&& a.config == b.config
    &&& a.processed_events == b.processed_events
    &&& a.ignored_events == b.ignored_events
    &&& a.last_event_time_ns == b.last_event_time_ns
    &&& unstamped_all(a.decisions) == unstamped_all(b.decisions)
    &&& a.fills == b.fills
    &&& a.trades == b.trades
}

/// An output without what chance put into it.
pub open spec fn unstamped_output(o: OutputModel) -> OutputModel {
    OutputModel { decision: unstamped(o.decision), ..o }
}

/// Outputs without what chance put into them.
pub open spec fn unstamped_outputs(s: Seq<OutputModel>) -> Seq<OutputModel> {
    Seq::new(s.len(), |i: int| unstamped_output(s[i]))
}

proof fn lemma_remember_alike(
    a: Seq<DecisionModel>,
    b: Seq<DecisionModel>,
    x: DecisionModel,
    y: DecisionModel,
    limit: int,
)
    requires
        unstamped_all(a) == unstamped_all(b),
        unstamped(x) == unstamped(y),
        limit >= 0,
    ensures
        unstamped_all(remembered(a, x, limit)) == unstamped_all(remembered(b, y, limit)),
{
    let p = remembered(a, x, limit);
    let q = remembered(b, y, limit);
    assert(unstamped_all(a).len() == a.len());
    assert(unstamped_all(b).len() == b.len());
    assert((seq![x] + a).len() == (seq![y] + b).len());
    assert forall|i: int| 0 <= i < p.len() implies unstamped(p[i]) == unstamped(q[i]) by {
        if i > 0 {
            assert(p[i] == a[i - 1]);
            assert(q[i] == b[i - 1]);
            assert(unstamped_all(a)[i - 1] == unstamped_all(b)[i - 1]);
        }
    }
    assert(unstamped_all(p) =~= unstamped_all(q));
}

proof fn lemma_decide_alike<M>(
    a: EngineModel<M>,
    b: EngineModel<M>,
    evaluations: Seq<EvaluationModel>,
    event: EnvelopeModel,
    x: Seq<Stamp>,
    y: Seq<Stamp>,
)
    requires
        alike(a, b),
    ensures
        alike(decided_all(a, evaluations, event, x), decided_all(b, evaluations, event, y)),
        unstamped_outputs(outputs_for(a, evaluations, event, x)) == unstamped_outputs(
            outputs_for(b, evaluations, event, y),
        ),
    decreases evaluations.len(),
{
    if evaluations.len() > 0 {
        let rest = evaluations.drop_last();
        lemma_decide_alike(a, b, rest, event, x.drop_last(), y.drop_last());
        let p = decided_all(a, rest, event, x.drop_last());
        let q = decided_all(b, rest, event, y.drop_last());
        let outcome = traded(p.config, p.trading, evaluations.last(), event.received_time_ns).1;
        lemma_remember_alike(
            p.decisions,
            q.decisions,
            decision_on(outcome, event, x.last()),
            decision_on(outcome, event, y.last()),
            p.config.decision_history as int,
        );
        let s = outputs_for(a, rest, event, x.drop_last());
        let t = outputs_for(b, rest, event, y.drop_last());
        let u = outputs_for(a, evaluations, event, x);
        let v = outputs_for(b, evaluations, event, y);
        assert(unstamped_outputs(s).len() == unstamped_outputs(t).len());
        assert forall|i: int| 0 <= i < u.len() implies unstamped_output(u[i])
            == unstamped_output(v[i]) by {
            if i < s.len() {
                assert(unstamped_outputs(s)[i] == unstamped_outputs(t)[i]);
            }
        }
        assert(unstamped_outputs(u) =~= unstamped_outputs(v));
    } else {
        assert(unstamped_outputs(outputs_for(a, evaluations, event, x)) =~= unstamped_outputs(
            outputs_for(b, evaluations, event, y),
        ));
    }
}

/// The same event takes two engines that differ at most by chance to two such
/// engines, with the same outputs but for chance.
pub proof fn same_event_same_path<S: Strategy>(
    a: EngineModel<S::Model>,
    b: EngineModel<S::Model>,
    event: EnvelopeModel,
    x: Seq<Stamp>,
    y: Seq<Stamp>,
)
    requires
        alike(a, b),
    ensures
        alike(after_event::<S>(a, event, x), after_event::<S>(b, event, y)),
        unstamped_outputs(event_outputs::<S>(a, event, x)) == unstamped_outputs(
            event_outputs::<S>(b, event, y),
        ),
{
    if !outdated(a.trading.state, event.event) {
        lemma_decide_alike(
            advised::<S>(a, event),
            advised::<S>(b, event),
            event_evaluations::<S>(a, event),
            event,
            x,
            y,
        );
    }
}

/// The engine after some events.
pub open spec fn after_events<S: Strategy>(
    e: EngineModel<S::Model>,
    events: Seq<EnvelopeModel>,
    stamps: Seq<Seq<Stamp>>,
) -> EngineModel<S::Model>
    decreases events.len(),
{
    if events.len() == 0 {
        e
    } else {
        after_event::<S>(
            after_events::<S>(e, events.drop_last(), stamps.drop_last()),
            events.last(),
            stamps.last(),
        )
    }
}

/// The outputs for some events, one after the other.
pub open spec fn run_outputs<S: Strategy>(
    e: EngineModel<S::Model>,
    events: Seq<EnvelopeModel>,
    stamps: Seq<Seq<Stamp>>,
) -> Seq<OutputModel>
    decreases events.len(),
{
    if events.len() == 0 {
        Seq::empty()
    } else {
        run_outputs::<S>(e, events.drop_last(), stamps.drop_last()) + event_outputs::<S>(
            after_events::<S>(e, events.drop_last(), stamps.drop_last()),
            events.last(),
            stamps.last(),
        )
    }
}

/// Two runs over the same events with the same settings decide, fill and trade
/// the same: what they put out differs at most by chance.
pub proof fn runs_agree<S: Strategy>(
    a: EngineModel<S::Model>,
    b: EngineModel<S::Model>,
    events: Seq<EnvelopeModel>,
    x: Seq<Seq<Stamp>>,
    y: Seq<Seq<Stamp>>,
)
    requires
        alike(a, b),
    ensures
        alike(after_events::<S>(a, events, x), after_events::<S>(b, events, y)),
        unstamped_outputs(run_outputs::<S>(a, events, x)) == unstamped_outputs(
            run_outputs::<S>(b, events, y),
        ),
    decreases events.len(),
{
    if events.len() > 0 {
        let rest = events.drop_last();
        runs_agree::<S>(a, b, rest, x.drop_last(), y.drop_last());
        let p = after_events::<S>(a, rest, x.drop_last());
        let q = after_events::<S>(b, rest, y.drop_last());
        same_event_same_path::<S>(p, q, events.last(), x.last(), y.last());
        let s1 = run_outputs::<S>(a, rest, x.drop_last());
        let s2 = event_outputs::<S>(p, events.last(), x.last());
        let t1 = run_outputs::<S>(b, rest, y.drop_last());
        let t2 = event_outputs::<S>(q, events.last(), y.last());
        assert(unstamped_outputs(s1 + s2) =~= unstamped_outputs(s1) + unstamped_outputs(s2));
        assert(unstamped_outputs(t1 + t2) =~= unstamped_outputs(t1) + unstamped_outputs(t2));
    }
}

/// A run from a fresh engine over proper events, no more than can be counted,
/// meets no event that cannot be processed and ends in a sound engine.
pub proof fn runs_stay_sound(
    e: TakerEngine,
    events: Seq<EnvelopeModel>,
    stamps: Seq<Seq<Stamp>>,
)
    requires
        sound(e),
        e.processed_events + events.len() <= u64::MAX,
        forall|i: int| 0 <= i < events.len() ==> proper_event(#[trigger] events[i].event),
    ensures
        sound(after_events::<DislocationTaker>(e, events, stamps)),
        after_events::<DislocationTaker>(e, events, stamps).processed_events
            == e.processed_events + events.len(),
    decreases events.len(),
{
    if events.len() > 0 {
        let rest = events.drop_last();
        assert forall|i: int| 0 <= i < rest.len() implies proper_event(
            #[trigger] rest[i].event,
        ) by {
            assert(rest[i] == events[i]);
        }
        runs_stay_sound(e, rest, stamps.drop_last());
        let p = after_events::<DislocationTaker>(e, rest, stamps.drop_last());
        assert(proper_event(events[events.len() - 1].event));
        every_event_keeps_the_engine_sound(p, events.last(), stamps.last());
        lemma_decided_all_trades(
            advised::<DislocationTaker>(p, events.last()),
            event_evaluations::<DislocationTaker>(p, events.last()),
            events.last(),
            stamps.last(),
        );
    }
}

/// When the strategy acts: a flat position waits while its best edge is below
/// the entry threshold and enters on the stronger side from there; an open one
/// is added to while its own side has the entry edge, is held while its exit
/// edge is above the exit threshold, and is closed at or below it. Visible depth
/// and the order size are taken to be there.
pub proof fn mean_reversion_lifecycle(
    config: DislocationConfig,
    state: MarketModel,
    fair: int,
    bid: int,
    ask: int,
)
    requires
        state.bid_size > 0,
        state.ask_size > 0,
        config.order_size > 0,
    ensures
        ({
            let c = candidate(config, state, fair, bid, ask);
            let buy = buy_edge(config, fair, ask);
            let sell = sell_edge(config, fair, bid);
            &&& state.position == 0 ==> {
                &&& c.kind == OrderIntentKind::Entry
                &&& c.edge == greatest(buy, sell)
                &&& qualifies(c) == (greatest(buy, sell) >= ENTRY_EDGE_THRESHOLD_MICROS)
                &&& c.side == if buy >= sell {
                    Side::Bid
                } else {
                    Side::Ask
                }
            }
            &&& state.position > 0 && buy >= ENTRY_EDGE_THRESHOLD_MICROS ==> qualifies(c) && c.kind
                == OrderIntentKind::Entry && c.side == Side::Bid
            &&& state.position < 0 && sell >= ENTRY_EDGE_THRESHOLD_MICROS ==> qualifies(c) && c.kind
                == OrderIntentKind::Entry && c.side == Side::Ask
            &&& state.position > 0 && buy < ENTRY_EDGE_THRESHOLD_MICROS ==> c.kind
                == OrderIntentKind::Exit && c.side == Side::Ask && qualifies(c) == (long_edge(
                config,
                fair,
                bid,
            ) <= EXIT_EDGE_THRESHOLD_MICROS)
            &&& state.position < 0 && sell < ENTRY_EDGE_THRESHOLD_MICROS ==> c.kind
                == OrderIntentKind::Exit && c.side == Side::Bid && qualifies(c) == (short_edge(
                config,
                fair,
                ask,
            ) <= EXIT_EDGE_THRESHOLD_MICROS)
        }),
{
}

/// An order of the strategy is never larger than the depth that is visible at
/// its price.
pub proof fn orders_stay_within_visible_depth(
    config: DislocationConfig,
    state: MarketModel,
    event: EnvelopeModel,
)
    ensures
        assessment(config, state, event).intent matches Some(order) ==> {
            &&& order.quantity <= opposite_quote(state, order.side).1
            &&& opposite_quote(state, order.side).0 == Some(order.limit_price)
        },
{
}

/// What the open position has cost: the notional and the fees of its entries. A
/// sold position costs its fees less its notional.
pub open spec fn cost_basis(active: Option<ActiveModel>) -> int {
    match active {
        None => 0,
        Some(a) => match a.entry_side {
            Side::Bid => a.remaining_entry_notional_micros + a.remaining_entry_fee_micros,
            Side::Ask => a.remaining_entry_fee_micros - a.remaining_entry_notional_micros,
        },
    }
}

/// Whether an amount is a 64-bit signed integer, so that no computation has to stop
/// at an end of the range.
pub open spec fn fits(amount: int) -> bool {
    i64::MIN <= amount <= i64::MAX
}

/// Whether the position, the cash and the fees after a fill are computed exactly.
pub open spec fn settles_exactly(
    position: int,
    cash_micros: int,
    fees_micros: int,
    fill: FillModel,
) -> bool {
    let signed = contracts(fill);
    &&& 0 <= fill.quantity <= i64::MAX
    &&& fits(signed * fill.price)
    &&& fits(position + signed)
    &&& fits(cash_micros - signed * fill.price)
    &&& fits(cash_micros - signed * fill.price - fill.fee_micros)
    &&& fits(fees_micros + fill.fee_micros)
}

/// The contracts that a fill adds to the position.
pub open spec fn contracts(fill: FillModel) -> int {
    match fill.side {
        Side::Bid => fill.quantity,
        Side::Ask => -fill.quantity,
    }
}

/// The difference of proceeds and cost basis that an exit fill makes, before fees.
pub open spec fn gross_profit(a: ActiveModel, fill: FillModel) -> int {
    let cost = share(a.remaining_entry_notional_micros, fill.quantity, a.remaining_quantity);
    match a.entry_side {
        Side::Bid => fill.price * fill.quantity - cost,
        Side::Ask => cost - fill.price * fill.quantity,
    }
}

/// The entry fees that fall to an exit fill.
pub open spec fn entry_fee_share(a: ActiveModel, fill: FillModel) -> int {
    share(a.remaining_entry_fee_micros, fill.quantity, a.remaining_quantity)
}

/// Whether the cost basis after a fill, and the profit that the fill realises, are
/// computed exactly. An exit is no larger than what is open.
pub open spec fn tracks_exactly(
    active: Option<ActiveModel>,
    kind: OrderIntentKind,
    fill: FillModel,
) -> bool {
    &&& 0 <= fill.quantity <= i64::MAX
    &&& fits(fill.price * fill.quantity)
    &&& match (kind, active) {
        (OrderIntentKind::Entry, None) => true,
        (OrderIntentKind::Entry, Some(a)) => {
            &&& fits(a.remaining_entry_notional_micros + fill.price * fill.quantity)
            &&& fits(a.remaining_entry_fee_micros + fill.fee_micros)
            &&& 0 <= a.remaining_quantity
            &&& a.remaining_quantity + fill.quantity <= i64::MAX
        },
        (OrderIntentKind::Exit, None) => false,
        (OrderIntentKind::Exit, Some(a)) => {
            &&& fill.quantity <= a.remaining_quantity <= i64::MAX
            &&& fits(a.remaining_entry_notional_micros)
            &&& fits(a.remaining_entry_fee_micros)
            &&& fits(gross_profit(a, fill))
            &&& fits(gross_profit(a, fill) - entry_fee_share(a, fill))
            &&& fits(gross_profit(a, fill) - entry_fee_share(a, fill) - fill.fee_micros)
            &&& fits(
                a.realized_pnl_micros + gross_profit(a, fill) - entry_fee_share(a, fill)
                    - fill.fee_micros,
            )
        },
    }
}

proof fn lemma_share_is_part(total: int, part: int, whole: int)
    requires
        fits(total),
        0 <= part <= whole <= i64::MAX,
    ensures
        total >= 0 ==> 0 <= share(total, part, whole) <= total,
        total <= 0 ==> total <= share(total, part, whole) <= 0,
{
    if part != whole {
        let x = sat(total * part);
        assert(as_signed(part) == part && as_signed(whole) == whole);
        if total >= 0 {
            assert(0 <= total * part <= total * whole) by (nonlinear_arith)
                requires
                    total >= 0,
                    0 <= part <= whole,
            ;
            assert(0 <= x <= total * whole);
            assert(0 <= x / whole <= total) by (nonlinear_arith)
                requires
                    0 <= x <= total * whole,
                    whole > 0,
                    total >= 0,
            ;
        } else {
            assert(total * whole <= total * part <= 0) by (nonlinear_arith)
                requires
                    total <= 0,
                    0 <= part <= whole,
            ;
            assert(total * whole <= x <= 0);
            assert(0 <= (-x) / whole <= -total) by (nonlinear_arith)
                requires
                    total * whole <= x <= 0,
                    whole > 0,
                    total <= 0,
            ;
            if x == 0 {
                assert(0int / whole == 0) by (nonlinear_arith)
                    requires
                        whole > 0,
                ;
            }
        }
    }
}

/// What a fill does to the cost basis: its cost and its fee come in, and what comes
/// out beyond them is the profit that it realises. Entries realise none.
pub proof fn fills_move_the_cost_basis(
    active: Option<ActiveModel>,
    kind: OrderIntentKind,
    fill: FillModel,
)
    requires
        tracks_exactly(active, kind, fill),
        active matches Some(a) ==> (kind == OrderIntentKind::Entry) == (a.entry_side == fill.side),
    ensures
        cost_basis(tracked_active(active, kind, fill)) == cost_basis(active) + contracts(fill)
            * fill.price + fill.fee_micros + realized_by(active, kind, fill),
        kind == OrderIntentKind::Entry ==> realized_by(active, kind, fill) == 0,
        kind == OrderIntentKind::Exit ==> realized_by(active, kind, fill) == gross_profit(
            active->0,
            fill,
        ) - entry_fee_share(active->0, fill) - fill.fee_micros,
{
    assert(as_signed(fill.quantity) == fill.quantity);
    assert((-fill.quantity) * fill.price == -(fill.price * fill.quantity)) by (nonlinear_arith);
    assert(fill.quantity * fill.price == fill.price * fill.quantity) by (nonlinear_arith);
    if kind == OrderIntentKind::Exit {
        let a = active->0;
        lemma_share_is_part(
            a.remaining_entry_notional_micros,
            fill.quantity,
            a.remaining_quantity,
        );
        lemma_share_is_part(a.remaining_entry_fee_micros, fill.quantity, a.remaining_quantity);
    }
}

/// A fill neither makes nor loses money unseen: what it does to cash and cost
/// basis together is exactly the profit that its trade reports. Entries report
/// none. It is so wherever the amounts are computed exactly.
pub proof fn fills_conserve_value(t: TradingModel, order: OrderModel, fill: FillModel)
    requires
        settles_exactly(
            t.state.position,
            t.state.cash_micros,
            t.state.fees_micros,
            fill,
        ),
        tracks_exactly(t.active, order.kind, fill),
        t.active matches Some(a) ==> (order.kind == OrderIntentKind::Entry) == (a.entry_side
            == fill.side),
    ensures
        ({
            let after = tracked_active(t.active, order.kind, fill);
            settled(t.state, fill).cash_micros + cost_basis(after) == t.state.cash_micros
                + cost_basis(t.active) + realized_by(t.active, order.kind, fill)
        }),
{
    fills_move_the_cost_basis(t.active, order.kind, fill);
    assert(as_signed(fill.quantity) == fill.quantity);
}

/// The cash together with what the open position has cost.
pub open spec fn value_of(t: TradingModel) -> int {
    t.state.cash_micros + cost_basis(t.active)
}

/// The profit that the trades among some outputs report, all together.
pub open spec fn realized_total(outputs: Seq<OutputModel>) -> int
    decreases outputs.len(),
{
    if outputs.len() == 0 {
        0
    } else {
        realized_total(outputs.drop_last()) + match outputs.last().trade {
            Some(trade) => trade.realized_pnl_micros,
            None => 0,
        }
    }
}

proof fn lemma_realized_total_adds_up(a: Seq<OutputModel>, b: Seq<OutputModel>)
    ensures
        realized_total(a + b) == realized_total(a) + realized_total(b),
    decreases b.len(),
{
    if b.len() == 0 {
        assert(a + b =~= a);
    } else {
        assert((a + b).drop_last() =~= a + b.drop_last());
        lemma_realized_total_adds_up(a, b.drop_last());
    }
}

/// Whether the amounts that an event's fills move are computed exactly.
pub open spec fn exact_event(e: TakerEngine, event: EnvelopeModel, stamps: Seq<Stamp>) -> bool {
    let outputs = event_outputs::<DislocationTaker>(e, event, stamps);
    let t = informed(e, event).trading;
    forall|i: int|
        0 <= i < outputs.len() ==> ((#[trigger] outputs[i]).fill matches Some(fill)
            ==> settles_exactly(
            t.state.position,
            t.state.cash_micros,
            t.state.fees_micros,
            fill,
        ) && tracks_exactly(t.active, outputs[i].decision.intent->0.kind, fill))
}

proof fn lemma_event_conserves_value(e: TakerEngine, event: EnvelopeModel, stamps: Seq<Stamp>)
    requires
        sound(e),
        proper_event(event.event),
        exact_event(e, event, stamps),
    ensures
        value_of(after_event::<DislocationTaker>(e, event, stamps).trading) == value_of(e.trading)
            + realized_total(event_outputs::<DislocationTaker>(e, event, stamps)),
{
    let outputs = event_outputs::<DislocationTaker>(e, event, stamps);
    if !outdated(e.trading.state, event.event) {
        let evaluations = event_evaluations::<DislocationTaker>(e, event);
        let start = advised::<DislocationTaker>(e, event);
        let t = informed(e, event).trading;
        if evaluations.len() > 0 {
            assert(evaluations.drop_last() =~= Seq::<EvaluationModel>::empty());
            reveal_with_fuel(decided_all, 2);
            reveal_with_fuel(outputs_for, 2);
            let outcome = traded(e.config, t, evaluations.last(), event.received_time_ns).1;
            assert(outputs.len() == 1);
            assert(outputs.drop_last() =~= Seq::<OutputModel>::empty());
            assert(realized_total(outputs.drop_last()) == 0);
            assert(outputs[0].fill == outcome.fill && outputs[0].trade == outcome.trade);
            lemma_sized_order(e.config.risk, e.strategy.config, t, event);
            match outcome.fill {
                Some(fill) => {
                    let order = outcome.intent->0;
                    assert(outputs[0].decision.intent == outcome.intent);
                    fills_stay_within_the_book(
                        e.config.paper,
                        order,
                        t.state,
                        event.received_time_ns,
                    );
                    fills_conserve_value(t, order, fill);
                },
                None => {},
            }
        }
    }
}

/// Over a whole run, what the trades report as realised is exactly what was
/// gained: cash and cost basis together change by the sum of the reported
/// profits, wherever the amounts are computed exactly.
pub proof fn runs_conserve_value(
    e: TakerEngine,
    events: Seq<EnvelopeModel>,
    stamps: Seq<Seq<Stamp>>,
)
    requires
        sound(e),
        e.processed_events + events.len() <= u64::MAX,
        stamps.len() == events.len(),
        forall|i: int| 0 <= i < events.len() ==> proper_event(#[trigger] events[i].event),
        forall|i: int|
            0 <= i < events.len() ==> exact_event(
                after_events::<DislocationTaker>(e, events.take(i), stamps.take(i)),
                #[trigger] events[i],
                stamps[i],
            ),
    ensures
        value_of(after_events::<DislocationTaker>(e, events, stamps).trading) == value_of(
            e.trading,
        ) + realized_total(run_outputs::<DislocationTaker>(e, events, stamps)),
    decreases events.len(),
{
    if events.len() > 0 {
        let rest = events.drop_last();
        let before = stamps.drop_last();
        let last = events.len() - 1;
        assert forall|i: int| 0 <= i < rest.len() implies proper_event(
            #[trigger] rest[i].event,
        ) by {
            assert(rest[i] == events[i]);
        }
        assert forall|i: int| 0 <= i < rest.len() implies exact_event(
            after_events::<DislocationTaker>(e, rest.take(i), before.take(i)),
            #[trigger] rest[i],
            before[i],
        ) by {
            assert(rest[i] == events[i]);
            assert(rest.take(i) =~= events.take(i));
            assert(before.take(i) =~= stamps.take(i));
        }
        runs_conserve_value(e, rest, before);
        runs_stay_sound(e, rest, before);
        assert(events.take(last) =~= rest);
        assert(stamps.take(last) =~= before);
        assert(proper_event(events[last].event));
        let p = after_events::<DislocationTaker>(e, rest, before);
        lemma_event_conserves_value(p, events.last(), stamps.last());
        lemma_realized_total_adds_up(
            run_outputs::<DislocationTaker>(e, rest, before),
            event_outputs::<DislocationTaker>(p, events.last(), stamps.last()),
        );
    }
}

/// A run that begins with a fresh engine and ends flat has earned in cash what
/// its trades report as realised.
pub proof fn flat_runs_earn_what_they_realized(
    run_id: int,
    taker: TakerModel,
    config: EngineConfig,
    events: Seq<EnvelopeModel>,
    stamps: Seq<Seq<Stamp>>,
)
    requires
        costs_fit(taker.config),
        config.risk.max_drawdown_micros != i64::MIN,
        events.len() <= u64::MAX,
        stamps.len() == events.len(),
        forall|i: int| 0 <= i < events.len() ==> proper_event(#[trigger] events[i].event),
        forall|i: int|
            0 <= i < events.len() ==> exact_event(
                after_events::<DislocationTaker>(
                    fresh(run_id, taker, config),
                    events.take(i),
                    stamps.take(i),
                ),
                #[trigger] events[i],
                stamps[i],
            ),
        after_events::<DislocationTaker>(
            fresh(run_id, taker, config),
            events,
            stamps,
        ).trading.state.position == 0,
    ensures
        after_events::<DislocationTaker>(
            fresh(run_id, taker, config),
            events,
            stamps,
        ).trading.state.cash_micros == realized_total(
            run_outputs::<DislocationTaker>(fresh(run_id, taker, config), events, stamps),
        ),
{
    let e = fresh(run_id, taker, config);
    fresh_engine_is_sound(run_id, taker, config);
    runs_stay_sound(e, events, stamps);
    runs_conserve_value(e, events, stamps);
}

/// While the position is flat, the marked profit is the cash.
pub proof fn flat_profit_is_cash(state: MarketModel)
    requires
        state.position == 0,
        i64::MIN <= state.cash_micros <= i64::MAX,
        state.fair_value is Some,
    ensures
        marked(state).pnl_micros == state.cash_micros,
{
    let fair = state.fair_value->0;
    assert(0 * fair == 0) by (nonlinear_arith);
}

/// Whether some times do not run backwards.
pub open spec fn ascending(times: Seq<u64>) -> bool {
    forall|i: int, j: int| 0 <= i <= j < times.len() ==> times[i] <= times[j]
}

/// A request to the risk gates, with the kill switch as it stands at that time.
pub struct RequestModel {
    pub killed: bool,
    pub order: OrderModel,
    pub state: MarketModel,
    pub now: u64,
}

/// The gates that a request meets. The kill switch may have been set or cleared since
/// the request before it.
pub open spec fn met_by(risk: RiskModel, r: RequestModel) -> RiskModel {
    RiskModel { killed: r.killed, ..risk }
}

/// What a request is answered.
pub open spec fn answer_to(risk: RiskModel, r: RequestModel) -> VerdictModel {
    verdict(met_by(risk, r), r.order, r.state, r.now as int)
}

/// The gates after some requests.
pub open spec fn after_requests(risk: RiskModel, requests: Seq<RequestModel>) -> RiskModel
    decreases requests.len(),
{
    if requests.len() == 0 {
        risk
    } else {
        let before = after_requests(risk, requests.drop_last());
        let r = requests.last();
        after_verdict(met_by(before, r), r.order, r.state, r.now as int)
    }
}

/// The times of the approved requests.
pub open spec fn approvals(risk: RiskModel, requests: Seq<RequestModel>) -> Seq<u64>
    decreases requests.len(),
{
    if requests.len() == 0 {
        Seq::empty()
    } else {
        let before = after_requests(risk, requests.drop_last());
        let r = requests.last();
        let earlier = approvals(risk, requests.drop_last());
        if answer_to(before, r) is Approved {
            earlier.push(r.now)
        } else {
            earlier
        }
    }
}

/// The start of the window that ends at `now`.
pub open spec fn window_start(now: int) -> int {
    if now < crate::risk::ORDER_WINDOW_NS {
        0
    } else {
        now - crate::risk::ORDER_WINDOW_NS
    }
}

proof fn lemma_recent(times: Seq<u64>, cutoff: int) -> (dropped: int)
    requires
        ascending(times),
    ensures
        0 <= dropped <= times.len(),
        recent(times, cutoff) == times.skip(dropped),
        forall|i: int| 0 <= i < dropped ==> times[i] < cutoff,
        forall|i: int| dropped <= i < times.len() ==> times[i] >= cutoff,
    decreases times.len(),
{
    if times.len() > 0 && times[0] < cutoff {
        let rest = times.drop_first();
        let d = lemma_recent(rest, cutoff);
        assert(rest.skip(d) =~= times.skip(d + 1));
        assert forall|i: int| 0 <= i < d + 1 implies times[i] < cutoff by {
            if i > 0 {
                assert(times[i] == rest[i - 1]);
            }
        }
        assert forall|i: int| d + 1 <= i < times.len() implies times[i] >= cutoff by {
            assert(times[i] == rest[i - 1]);
        }
        d + 1
    } else {
        assert(times.skip(0) =~= times);
        0
    }
}

/// The gates hold the approvals that are not older than the window, and no more.
proof fn lemma_approvals_are_held(risk: RiskModel, requests: Seq<RequestModel>) -> (gone: int)
    requires
        risk.order_times_ns.len() == 0,
        forall|i: int, j: int|
            0 <= i <= j < requests.len() ==> (#[trigger] requests[i]).now <= (
            #[trigger] requests[j]).now,
    ensures
        ({
            let times = approvals(risk, requests);
            let held = after_requests(risk, requests).order_times_ns;
            &&& 0 <= gone <= times.len()
            &&& held == times.skip(gone)
            &&& ascending(times)
            &&& after_requests(risk, requests).config == risk.config
            &&& requests.len() > 0 ==> forall|i: int|
                0 <= i < times.len() ==> times[i] <= requests.last().now
            &&& requests.len() == 0 ==> times.len() == 0
            &&& requests.len() > 0 ==> forall|i: int|
                0 <= i < gone ==> times[i] < window_start(requests.last().now as int)
        }),
    decreases requests.len(),
{
    if requests.len() == 0 {
        assert(Seq::<u64>::empty().skip(0) =~= risk.order_times_ns);
        0
    } else {
        let rest = requests.drop_last();
        let r = requests.last();
        assert forall|i: int, j: int| 0 <= i <= j < rest.len() implies (#[trigger] rest[i]).now <= (
        #[trigger] rest[j]).now by {
            assert(rest[i] == requests[i] && rest[j] == requests[j]);
        }
        let gone = lemma_approvals_are_held(risk, rest);
        let before = met_by(after_requests(risk, rest), r);
        let times = approvals(risk, rest);
        let now = r.now as int;
        if rest.len() > 0 {
            assert(rest.last() == requests[requests.len() - 2]);
            assert(rest.last().now <= r.now);
        }
        if closed_gate(before, r.order, r.state, now) is Some {
            gone
        } else {
            assert(ascending(before.order_times_ns)) by {
                assert forall|i: int, j: int|
                    0 <= i <= j < before.order_times_ns.len() implies before.order_times_ns[i]
                    <= before.order_times_ns[j] by {
                    assert(times[gone + i] <= times[gone + j]);
                }
            }
            let d = lemma_recent(before.order_times_ns, window_start(now));
            let kept = counted(before, now);
            assert(kept =~= times.skip(gone + d));
            assert forall|i: int| 0 <= i < gone + d implies times[i] < window_start(now) by {
                if i >= gone {
                    assert(before.order_times_ns[i - gone] == times[i]);
                }
            }
            if verdict(before, r.order, r.state, now) is Approved {
                assert(kept.push(r.now) =~= times.push(r.now).skip(gone + d));
                assert(after_requests(risk, requests).order_times_ns == kept.push(r.now));
            }
            gone + d
        }
    }
}

/// However many orders are asked for, no window of a minute that ends with an
/// approval holds more approvals than the limit: the approval that many places
/// earlier is older than the window. The requests come in the order of time.
pub proof fn approvals_keep_the_order_rate(risk: RiskModel, requests: Seq<RequestModel>)
    requires
        risk.order_times_ns.len() == 0,
        requests.len() > 0,
        forall|i: int, j: int|
            0 <= i <= j < requests.len() ==> (#[trigger] requests[i]).now <= (
            #[trigger] requests[j]).now,
        ({
            let before = after_requests(risk, requests.drop_last());
            answer_to(before, requests.last()) is Approved
        }),
    ensures
        ({
            let times = approvals(risk, requests);
            let earlier = times.len() - 1 - risk.config.max_orders_per_minute;
            &&& times.len() > 0 && times.last() == requests.last().now
            &&& forall|i: int|
                0 <= i <= earlier ==> times[i] < window_start(requests.last().now as int)
        }),
{
    let gone = lemma_approvals_are_held(risk, requests);
    let rest = requests.drop_last();
    assert forall|i: int, j: int| 0 <= i <= j < rest.len() implies (#[trigger] rest[i]).now <= (
    #[trigger] rest[j]).now by {
        assert(rest[i] == requests[i] && rest[j] == requests[j]);
    }
    let _ = lemma_approvals_are_held(risk, rest);
    let r = requests.last();
    let before = met_by(after_requests(risk, rest), r);
    let times = approvals(risk, requests);
    assert(after_requests(risk, requests).order_times_ns == counted(before, r.now as int).push(
        r.now,
    ));
    let held = counted(before, r.now as int);
    assert(held.len() < before.config.max_orders_per_minute);
    assert(held.push(r.now).len() == held.len() + 1);
    assert(times.skip(gone).len() == times.len() - gone);
}

/// The approvals that fall into the window that ends at `now`.
pub open spec fn in_window(times: Seq<u64>, now: int) -> Seq<u64> {
    those(times, |time: u64| time >= window_start(now))
}

proof fn lemma_window_is_the_end(times: Seq<u64>, now: int, gone: int)
    requires
        0 <= gone <= times.len(),
        forall|i: int| 0 <= i < gone ==> times[i] < window_start(now),
        forall|i: int| gone <= i < times.len() ==> times[i] >= window_start(now),
    ensures
        in_window(times, now) == times.skip(gone),
    decreases times.len(),
{
    let recent_enough = |time: u64| time >= window_start(now);
    if times.len() > 0 {
        let rest = times.drop_last();
        assert(times.last() == times[times.len() - 1]);
        if gone < times.len() {
            assert(recent_enough(times.last()));
            lemma_window_is_the_end(rest, now, gone);
            assert(rest.skip(gone).push(times.last()) =~= times.skip(gone));
        } else {
            assert(!recent_enough(times.last()));
            lemma_window_is_the_end(rest, now, gone - 1);
            assert(rest.skip(gone - 1) =~= times.skip(gone));
        }
    } else {
        assert(times.skip(gone) =~= times);
    }
}

/// The answer of the gates after any requests before it, in the order of time, with the
/// kill switch set and cleared between them at will. An order is approved exactly when
/// the kill switch is clear at that time, the market is neither suspended nor in danger,
/// both feeds are fresh, the drawdown, the resulting position and its notional are
/// within their limits, and the window of a minute holds fewer approvals than the
/// limit. It is rejected for its rate exactly when all of that holds but the last: the
/// window is full of approvals.
pub proof fn approval_is_exactly_all_gates_open(
    risk: RiskModel,
    requests: Seq<RequestModel>,
    r: RequestModel,
)
    requires
        risk.order_times_ns.len() == 0,
        forall|i: int, j: int|
            0 <= i <= j < requests.len() ==> (#[trigger] requests[i]).now <= (
            #[trigger] requests[j]).now,
        requests.len() > 0 ==> requests.last().now <= r.now,
    ensures
        ({
            let answer = answer_to(after_requests(risk, requests), r);
            let open = {
                &&& !r.killed
                &&& !r.state.suspended
                &&& !r.state.danger
                &&& !stale(risk.config, r.state, r.now as int)
                &&& r.state.pnl_micros >= -risk.config.max_drawdown_micros
                &&& abs(resulting_position(r.state, r.order)) <= risk.config.max_position
                &&& resulting_notional(r.state, r.order) <= risk.config.max_notional_micros
            };
            let approved = in_window(approvals(risk, requests), r.now as int).len();
            &&& answer is Approved <==> open && approved < risk.config.max_orders_per_minute
            &&& open && approved >= risk.config.max_orders_per_minute ==> answer == (
            VerdictModel::Rejected { reason: "order rate exceeded"@ })
            &&& answer == (VerdictModel::Rejected { reason: "order rate exceeded"@ }) ==> open
                && approved >= risk.config.max_orders_per_minute
        }),
{
    let now = r.now as int;
    let before = met_by(after_requests(risk, requests), r);
    let times = approvals(risk, requests);
    let gone = lemma_approvals_are_held(risk, requests);
    assert(ascending(before.order_times_ns)) by {
        assert forall|i: int, j: int|
            0 <= i <= j < before.order_times_ns.len() implies before.order_times_ns[i]
            <= before.order_times_ns[j] by {
            assert(times[gone + i] <= times[gone + j]);
        }
    }
    let d = lemma_recent(before.order_times_ns, window_start(now));
    assert(counted(before, now) =~= times.skip(gone + d));
    assert forall|i: int| 0 <= i < gone + d implies times[i] < window_start(now) by {
        if i >= gone {
            assert(before.order_times_ns[i - gone] == times[i]);
        }
    }
    assert forall|i: int| gone + d <= i < times.len() implies times[i] >= window_start(now) by {
        assert(before.order_times_ns[i - gone] == times[i]);
    }
    lemma_window_is_the_end(times, now, gone + d);
    reveal_strlit("order rate exceeded");
    reveal_strlit("kill switch active");
    reveal_strlit("market safety circuit active");
    reveal_strlit("feed is stale");
    reveal_strlit("drawdown limit exceeded");
    reveal_strlit("position limit exceeded");
    reveal_strlit("total notional limit exceeded");
    assert("order rate exceeded"@.len() == 19);
    assert("kill switch active"@.len() == 18);
    assert("market safety circuit active"@.len() == 28);
    assert("feed is stale"@.len() == 13);
    assert("drawdown limit exceeded"@.len() == 23);
    assert("position limit exceeded"@.len() == 23);
    assert("total notional limit exceeded"@.len() == 29);
}

/// Requests that are answered while the kill switch is set leave no trace: the approvals,
/// and the times that the gates hold, are those of the other requests alone.
pub proof fn killed_requests_do_not_count(risk: RiskModel, requests: Seq<RequestModel>)
    ensures
        ({
            let others = those(requests, |r: RequestModel| !r.killed);
            let after = after_requests(risk, requests);
            &&& approvals(risk, requests) == approvals(risk, others)
            &&& after_requests(risk, others) == (RiskModel {
                killed: after_requests(risk, others).killed,
                ..after
            })
        }),
    decreases requests.len(),
{
    if requests.len() > 0 {
        let rest = requests.drop_last();
        let r = requests.last();
        let live = |q: RequestModel| !q.killed;
        let others = those(rest, live);
        killed_requests_do_not_count(risk, rest);
        if r.killed {
            killed_gates_reject(
                met_by(after_requests(risk, rest), r),
                r.order,
                r.state,
                r.now as int,
            );
        } else {
            assert(met_by(after_requests(risk, rest), r) == met_by(
                after_requests(risk, others),
                r,
            ));
            assert(others.push(r).drop_last() =~= others);
        }
    }
}

proof fn lemma_killed_decisions<M>(
    e: EngineModel<M>,
    evaluations: Seq<EvaluationModel>,
    event: EnvelopeModel,
    stamps: Seq<Stamp>,
)
    requires
        e.trading.risk.killed,
    ensures
        ({
            let after = decided_all(e, evaluations, event, stamps).trading;
            &&& after.state == e.trading.state
            &&& after.active == e.trading.active
            &&& after.lifecycle == e.trading.lifecycle
            &&& after.risk == e.trading.risk
        }),
        forall|i: int|
            0 <= i < outputs_for(e, evaluations, event, stamps).len() ==> (#[trigger] outputs_for(
                e,
                evaluations,
                event,
                stamps,
            )[i]).fill is None && outputs_for(e, evaluations, event, stamps)[i].trade is None,
    decreases evaluations.len(),
{
    if evaluations.len() > 0 {
        let rest = evaluations.drop_last();
        lemma_killed_decisions(e, rest, event, stamps.drop_last());
        let before = decided_all(e, rest, event, stamps.drop_last());
        killed_engine_does_not_trade(
            before.config,
            before.trading,
            evaluations.last(),
            event.received_time_ns,
        );
    }
}

/// However many events come in while the kill switch is set, nothing is executed:
/// no output has a fill or a trade, and position, cash, fees, cost basis and
/// history stay as they are. The switch stays set.
pub proof fn killed_runs_do_not_trade<S: Strategy>(
    e: EngineModel<S::Model>,
    events: Seq<EnvelopeModel>,
    stamps: Seq<Seq<Stamp>>,
)
    requires
        e.trading.risk.killed,
    ensures
        ({
            let after = after_events::<S>(e, events, stamps).trading;
            &&& after.risk.killed
            &&& after.state.position == e.trading.state.position
            &&& after.state.cash_micros == e.trading.state.cash_micros
            &&& after.state.fees_micros == e.trading.state.fees_micros
            &&& after.active == e.trading.active
            &&& after.lifecycle == e.trading.lifecycle
        }),
        forall|i: int|
            0 <= i < run_outputs::<S>(e, events, stamps).len() ==> (#[trigger] run_outputs::<S>(
                e,
                events,
                stamps,
            )[i]).fill is None && run_outputs::<S>(e, events, stamps)[i].trade is None,
    decreases events.len(),
{
    if events.len() > 0 {
        killed_runs_do_not_trade::<S>(e, events.drop_last(), stamps.drop_last());
        let p = after_events::<S>(e, events.drop_last(), stamps.drop_last());
        let event = events.last();
        if !outdated(p.trading.state, event.event) {
            lemma_killed_decisions(
                advised::<S>(p, event),
                event_evaluations::<S>(p, event),
                event,
                stamps.last(),
            );
        }
    }
}

/// No event throws or clears the kill switch.
pub proof fn events_leave_the_kill_switch(
    e: TakerEngine,
    event: EnvelopeModel,
    stamps: Seq<Stamp>,
)
    ensures
        after_event::<DislocationTaker>(e, event, stamps).trading.risk.killed
            == e.trading.risk.killed,
{
    if !outdated(e.trading.state, event.event) {
        let evaluations = event_evaluations::<DislocationTaker>(e, event);
        lemma_decided_all_trades(
            advised::<DislocationTaker>(e, event),
            evaluations,
            event,
            stamps,
        );
        if evaluations.len() > 0 {
            assert(evaluations.drop_last() =~= Seq::<EvaluationModel>::empty());
            reveal_with_fuel(traded_all, 2);
        }
    }
}

} // verus!
