//! What the engine makes of an event and of an evaluation.

use vstd::multiset::Multiset;
use vstd::prelude::*;

use crate::account::{entry_room, settled, sized, tracked_active, tracked_history, trade_of};
use crate::clock::time_of_ns;
use crate::engine::{
    advised, after_event, current_lifecycle, decided, event_evaluations, event_outputs, fresh,
    funds_needed, next_entry, output_for, remembered, room_ahead, switched, traded, EngineConfig,
    EngineModel, TradingModel,
};
use crate::fixed::{abs, as_signed};
use crate::laws::account::nearest;
use crate::paper::{paper_execution, unit_fee};
use crate::risk::{after_verdict, counted, recent, stale, verdict, RiskModel, VerdictModel};
use crate::strategy::{EvaluationModel, Strategy};
use crate::types::{
    outdated, updated, EnvelopeModel, EventModel, LifecycleModel, MarketModel, OrderIntentKind,
    OrderModel, PositionStatus, Side, Stamp,
};

verus! {

/// A fair value is taken over unless the market has a sequence number that it does not
/// exceed. It then is the market's fair value, with its sequence number, its message, its
/// proof and the time it came in; nothing else changes.
pub proof fn fair_values_are_taken_over(
    state: MarketModel,
    envelope: EnvelopeModel,
    name: Seq<char>,
    value: int,
    seq: int,
    message: Option<Seq<char>>,
    proof_time: Option<i64>,
)
    requires
        envelope.event == (EventModel::FairValue {
            market: name,
            probability: value,
            source_seq: seq,
            message_id: message,
            proof_ts: proof_time,
        }),
    ensures
        outdated(state, envelope.event) <==> state.source_seq > 0 && seq <= state.source_seq,
        ({
            let now = updated(state, envelope);
            &&& now.market == name
            &&& now.fair_value == Some(value)
            &&& now.source_seq == seq
            &&& now.last_message_id == message
            &&& now.last_proof_ts == proof_time
            &&& now.last_fair_time_ns == envelope.received_time_ns
            &&& state == (MarketModel {
                market: state.market,
                fair_value: state.fair_value,
                source_seq: state.source_seq,
                last_message_id: state.last_message_id,
                last_proof_ts: state.last_proof_ts,
                last_fair_time_ns: state.last_fair_time_ns,
                ..now
            })
        }),
{
}

/// A book is taken over unless the market has a sequence number that it does not exceed.
/// Its bid and its ask with the contracts there then are those of the market, with its
/// sequence number and the time it came in; nothing else changes.
pub proof fn books_are_taken_over(
    state: MarketModel,
    envelope: EnvelopeModel,
    name: Seq<char>,
    best_bid: int,
    to_buy: int,
    best_ask: int,
    to_sell: int,
    seq: int,
)
    requires
        envelope.event == (EventModel::Book {
            market: name,
            bid: best_bid,
            bid_size: to_buy,
            ask: best_ask,
            ask_size: to_sell,
            venue_seq: seq,
        }),
    ensures
        outdated(state, envelope.event) <==> state.venue_seq > 0 && seq <= state.venue_seq,
        ({
            let now = updated(state, envelope);
            &&& now.market == name
            &&& now.best_bid == Some(best_bid)
            &&& now.bid_size == to_buy
            &&& now.best_ask == Some(best_ask)
            &&& now.ask_size == to_sell
            &&& now.venue_seq == seq
            &&& now.last_book_time_ns == envelope.received_time_ns
            &&& state == (MarketModel {
                market: state.market,
                best_bid: state.best_bid,
                bid_size: state.bid_size,
                best_ask: state.best_ask,
                ask_size: state.ask_size,
                venue_seq: state.venue_seq,
                last_book_time_ns: state.last_book_time_ns,
                ..now
            })
        }),
{
}

/// A score is always taken over: phase, score and the two marks of an unsafe market. The
/// state of a feed and the timer change nothing.
pub proof fn other_events_are_never_outdated(state: MarketModel, envelope: EnvelopeModel)
    requires
        !(envelope.event is FairValue),
        !(envelope.event is Book),
    ensures
        !outdated(state, envelope.event),
        ({
            let now = updated(state, envelope);
            match envelope.event {
                EventModel::Score { market, phase, home, away, danger, suspended } => {
                    &&& now.market == market && now.phase == phase
                    &&& now.score_home == home && now.score_away == away
                    &&& now.danger == danger && now.suspended == suspended
                    &&& state == (MarketModel {
                        market: state.market,
                        phase: state.phase,
                        score_home: state.score_home,
                        score_away: state.score_away,
                        danger: state.danger,
                        suspended: state.suspended,
                        ..now
                    })
                },
                _ => now == state,
            }
        }),
{
}

/// The position that an order would lead to, if it were filled: a purchase adds its
/// contracts, a sale takes them away.
pub open spec fn would_hold(state: MarketModel, order: OrderModel) -> int {
    if order.side == Side::Bid {
        state.position + order.quantity
    } else {
        state.position - order.quantity
    }
}

/// The gates are asked in turn, and the first that is closed gives the reason: the kill
/// switch, an unsafe market, a feed that was last heard of longer ago than allowed, a loss
/// beyond the drawdown limit, a position beyond the position limit on either side, a
/// notional at the order's price beyond the notional limit, and as many approvals as
/// allowed that are not older than a minute. An order that passes all of them is approved.
/// The first `aged` of the approvals are older than a minute, and the next one is not.
pub proof fn gates_are_asked_in_turn(
    risk: RiskModel,
    order: OrderModel,
    state: MarketModel,
    now: int,
    aged: int,
)
    requires
        0 <= order.quantity <= i64::MAX,
        0 <= now <= u64::MAX,
        0 <= state.last_fair_time_ns <= u64::MAX,
        0 <= state.last_book_time_ns <= u64::MAX,
        0 <= aged <= risk.order_times_ns.len(),
        forall|i: int| 0 <= i < aged ==> (#[trigger] risk.order_times_ns[i]) < now - 60_000_000_000,
        aged < risk.order_times_ns.len() ==> risk.order_times_ns[aged] >= now - 60_000_000_000,
    ensures
        ({
            let answer = verdict(risk, order, state, now);
            let held = nearest(would_hold(state, order));
            let contracts = if held < 0 {
                -held
            } else {
                held
            };
            let limits = risk.config;
            let allowed_ns = limits.feed_stale_after_ms * 1_000_000;
            let stale_feed = now - state.last_fair_time_ns > allowed_ns || now
                - state.last_book_time_ns > allowed_ns;
            if risk.killed {
                answer == (VerdictModel::Rejected { reason: "kill switch active"@ })
            } else if state.suspended || state.danger {
                answer == (VerdictModel::Rejected { reason: "market safety circuit active"@ })
            } else if stale_feed {
                answer == (VerdictModel::Rejected { reason: "feed is stale"@ })
            } else if state.pnl_micros + limits.max_drawdown_micros < 0 {
                answer == (VerdictModel::Rejected { reason: "drawdown limit exceeded"@ })
            } else if contracts > limits.max_position {
                answer == (VerdictModel::Rejected { reason: "position limit exceeded"@ })
            } else if nearest(contracts * order.limit_price) > limits.max_notional_micros {
                answer == (VerdictModel::Rejected { reason: "total notional limit exceeded"@ })
            } else if risk.order_times_ns.len() - aged >= limits.max_orders_per_minute {
                answer == (VerdictModel::Rejected { reason: "order rate exceeded"@ })
            } else {
                answer is Approved
            }
        }),
{
    let held = nearest(would_hold(state, order));
    let contracts = abs(held);
    assert(as_signed(order.quantity) == order.quantity);
    assert(order.limit_price * contracts == contracts * order.limit_price) by (nonlinear_arith);
    let since = if now < 60_000_000_000 {
        0
    } else {
        now - 60_000_000_000
    };
    let times = risk.order_times_ns;
    lemma_recent_ends(times, since);
    let kept = recent(times, since);
    assert(counted(risk, now) == kept);
    let dropped = times.len() - kept.len();
    if dropped < aged {
        assert(kept[0] == times[dropped]);
        assert(times[dropped] < now - 60_000_000_000);
    } else if aged < dropped {
        assert(times[aged] < since);
    }
}

proof fn lemma_recent_ends(times: Seq<u64>, since: int)
    ensures
        recent(times, since).len() <= times.len(),
        (forall|i: int| 0 <= i < times.len() ==> (#[trigger] times[i]) >= since) ==> recent(
            times,
            since,
        ) == times,
        (forall|i: int| 0 <= i < times.len() ==> (#[trigger] times[i]) < since) ==> recent(
            times,
            since,
        ).len() == 0,
        recent(times, since).len() > 0 ==> recent(times, since)[0] >= since,
        recent(times, since) == times.skip(times.len() - recent(times, since).len()),
        forall|i: int|
            0 <= i < times.len() - recent(times, since).len() ==> (#[trigger] times[i]) < since,
    decreases times.len(),
{
    if times.len() > 0 && times[0] < since {
        let rest = times.drop_first();
        lemma_recent_ends(rest, since);
        if forall|i: int| 0 <= i < times.len() ==> (#[trigger] times[i]) < since {
            assert forall|i: int| 0 <= i < rest.len() implies (#[trigger] rest[i]) < since by {
                assert(rest[i] == times[i + 1]);
            }
        }
        let kept = recent(times, since);
        assert(kept =~= times.skip(times.len() - kept.len()));
        assert forall|i: int| 0 <= i < times.len() - kept.len() implies (#[trigger] times[i])
            < since by {
            if i > 0 {
                assert(rest[i - 1] == times[i]);
            }
        }
    } else {
        assert(times.skip(0) =~= times);
    }
}

/// An approved order is remembered with its time, behind those of the approvals before it
/// that are no more than a minute old. A rejection is not remembered, and nothing else of
/// the gates changes.
pub proof fn only_approvals_are_remembered(
    risk: RiskModel,
    order: OrderModel,
    state: MarketModel,
    now: int,
)
    requires
        0 <= now <= u64::MAX,
    ensures
        ({
            let after = after_verdict(risk, order, state, now);
            let before = risk.order_times_ns;
            let since = if now < 60_000_000_000 {
                0
            } else {
                now - 60_000_000_000
            };
            let kept = if verdict(risk, order, state, now) is Approved {
                after.order_times_ns.drop_last()
            } else {
                after.order_times_ns
            };
            &&& after == (RiskModel { order_times_ns: after.order_times_ns, ..risk })
            &&& verdict(risk, order, state, now) is Approved ==> after.order_times_ns.len() > 0
                && after.order_times_ns.last() == now
            &&& kept.len() <= before.len() && kept == before.skip(before.len() - kept.len())
            &&& forall|i: int|
                0 <= i < before.len() - kept.len() ==> (#[trigger] before[i]) < since
        }),
{
    let since = if now < 60_000_000_000 {
        0
    } else {
        now - 60_000_000_000
    };
    lemma_recent_ends(risk.order_times_ns, since);
    let kept = counted(risk, now);
    assert(kept == recent(risk.order_times_ns, since));
    assert(kept.push(now as u64).drop_last() =~= kept);
    assert(risk.order_times_ns.skip(0) =~= risk.order_times_ns);
}

/// What the engine does with an evaluation, after an entry was sized to the limits. One that
/// is not eligible is skipped. An order is put to the gates; where they reject it, it is
/// counted as rejected for their reason, and where they approve it, it is submitted, and
/// what the venue fills of it moves the account, the position and its history, and makes a
/// trade.
pub proof fn evaluations_become_orders_and_fills(
    config: EngineConfig,
    t: TradingModel,
    evaluation: EvaluationModel,
    now: int,
)
    ensures
        ({
            let e = sized(config.risk, t.state.position, evaluation);
            let (after, outcome) = traded(config, t, evaluation, now);
            &&& outcome.intent == e.intent
            &&& e.intent matches Some(order) ==> outcome.market == order.market
            &&& e.intent is None ==> outcome.market == t.state.market
            &&& outcome.fill is Some <==> outcome.trade is Some
            &&& !e.eligible ==> after == t && outcome.action == "skipped"@ && outcome.reason
                == e.reason && outcome.fill is None
            &&& e.eligible && e.intent is None ==> outcome.action == "rejected"@ && after == (
            TradingModel { rejected_orders: t.rejected_orders + 1, ..t }) && outcome.fill is None
            &&& e.eligible ==> (e.intent matches Some(order) ==> {
                let answer = verdict(t.risk, order, t.state, now);
                let filled = paper_execution(config.paper, order, t.state, now);
                &&& after.risk == after_verdict(t.risk, order, t.state, now)
                &&& answer matches VerdictModel::Rejected { reason } ==> {
                    &&& outcome.action == "rejected"@ && outcome.reason == reason
                    &&& outcome.fill is None
                    &&& after == (TradingModel {
                        risk: after.risk,
                        rejected_orders: t.rejected_orders + 1,
                        ..t
                    })
                }
                &&& answer is Approved ==> {
                    &&& outcome.action == "submitted"@ && outcome.reason == e.reason
                    &&& outcome.fill == filled
                    &&& after.rejected_orders == t.rejected_orders
                    &&& filled is None ==> after == (TradingModel { risk: after.risk, ..t })
                    &&& filled matches Some(fill) ==> {
                        &&& after.state == settled(t.state, fill)
                        &&& after.active == tracked_active(t.active, order.kind, fill)
                        &&& after.lifecycle == tracked_history(
                            t.active,
                            t.lifecycle,
                            order.kind,
                            fill,
                        )
                        &&& outcome.trade == Some(trade_of(t.active, fill, order))
                    }
                }
            })
        }),
{
}

/// A history holds what was remembered last in front, and as many of those before it as the
/// limit leaves room for, in their order.
pub proof fn histories_begin_with_the_latest<T>(history: Seq<T>, item: T, limit: int)
    requires
        limit >= 0,
    ensures
        ({
            let now = remembered(history, item, limit);
            &&& now.len() <= limit
            &&& history.len() < limit ==> now.len() == history.len() + 1
            &&& history.len() >= limit ==> now.len() == limit
            &&& limit > 0 ==> now[0] == item
            &&& forall|i: int| 0 < i < now.len() ==> #[trigger] now[i] == history[i - 1]
        }),
{
}

/// Each evaluation leaves one decision record, the latest in front, and a fill and a trade
/// where there was one. The record tells when its event came in and which event it was, and
/// what was decided. The time it took is sampled, at least as one nanosecond, as far as the
/// histogram reaches.
pub proof fn decisions_are_recorded<M>(
    e: EngineModel<M>,
    evaluation: EvaluationModel,
    event: EnvelopeModel,
    stamp: Stamp,
)
    ensures
        ({
            let after = decided(e, evaluation, event, stamp);
            let output = output_for(e, evaluation, event, stamp);
            let (trading, outcome) = traded(
                e.config,
                e.trading,
                evaluation,
                event.received_time_ns,
            );
            let limit = e.config.decision_history as int;
            &&& after.trading == trading
            &&& output.fill == outcome.fill && output.trade == outcome.trade
            &&& output.decision.stamp == stamp
            &&& output.decision.event_id == event.id
            &&& output.decision.at == time_of_ns(event.received_time_ns)
            &&& output.decision.market == outcome.market
            &&& output.decision.action == outcome.action
            &&& output.decision.reason == outcome.reason
            &&& output.decision.intent == outcome.intent
            &&& after.decisions == remembered(e.decisions, output.decision, limit)
            &&& output.fill is None ==> after.fills == e.fills && after.trades == e.trades
            &&& output.fill matches Some(fill) ==> after.fills == remembered(e.fills, fill, limit)
            &&& output.trade matches Some(trade) ==> after.trades == remembered(
                e.trades,
                trade,
                limit,
            )
            &&& stamp.compute_latency_ns < 1 ==> after.samples == e.samples.insert(1u64)
            &&& 1 <= stamp.compute_latency_ns <= 67_108_863 ==> after.samples
                == e.samples.insert(stamp.compute_latency_ns as u64)
            &&& stamp.compute_latency_ns > 67_108_863 ==> after.samples == e.samples
            &&& after.processed_events == e.processed_events
            &&& after.ignored_events == e.ignored_events
            &&& after.strategy == e.strategy
            &&& after.config == e.config
            &&& after.run_id == e.run_id
        }),
{
}

/// Every event is counted as processed. An outdated one is counted as ignored as well and
/// changes nothing else. Any other is taken into the market, with the profit marked at fair
/// value, before the strategy is asked about it; its time is the engine's latest.
pub proof fn events_are_counted_and_taken_in<S: Strategy>(
    e: EngineModel<S::Model>,
    event: EnvelopeModel,
    stamps: Seq<Stamp>,
)
    ensures
        ({
            let after = after_event::<S>(e, event, stamps);
            let late = outdated(e.trading.state, event.event);
            let seen = updated(e.trading.state, event);
            let marked_state = advised::<S>(e, event).trading.state;
            &&& after.processed_events == e.processed_events + 1
            &&& late ==> after == (EngineModel {
                processed_events: e.processed_events + 1,
                ignored_events: e.ignored_events + 1,
                ..e
            }) && event_outputs::<S>(e, event, stamps).len() == 0
            &&& !late ==> after.ignored_events == e.ignored_events
            &&& !late ==> after.last_event_time_ns == event.received_time_ns
            &&& !late ==> after.strategy == S::advanced(e.strategy, marked_state, event)
            &&& marked_state == (MarketModel { pnl_micros: marked_state.pnl_micros, ..seen })
            &&& seen.fair_value is None ==> marked_state.pnl_micros == seen.pnl_micros
            &&& seen.fair_value matches Some(fair) ==> marked_state.pnl_micros == nearest(
                seen.cash_micros + nearest(seen.position * fair),
            )
            &&& event_evaluations::<S>(e, event) == S::evaluations(e.strategy, marked_state, event)
        }),
{
    crate::engine::lemma_decided_all_trades(
        advised::<S>(e, event),
        event_evaluations::<S>(e, event),
        event,
        stamps,
    );
}

/// A fresh engine holds nothing, knows no price, has counted nothing, and is not killed.
/// Setting the kill switch changes nothing else.
pub proof fn fresh_engines_hold_nothing<M>(
    run_id: int,
    strategy: M,
    config: EngineConfig,
    killed: bool,
)
    ensures
        ({
            let e = fresh(run_id, strategy, config);
            let s = switched(e, killed);
            &&& e.trading.state.position == 0 && e.trading.state.cash_micros == 0
            &&& e.trading.state.fees_micros == 0 && e.trading.state.pnl_micros == 0
            &&& e.trading.state.fair_value is None
            &&& e.trading.state.best_bid is None && e.trading.state.best_ask is None
            &&& e.trading.state.source_seq == 0 && e.trading.state.venue_seq == 0
            &&& !e.trading.state.suspended && !e.trading.state.danger
            &&& e.trading.active is None
            &&& e.trading.lifecycle.status == PositionStatus::Closed
            &&& e.trading.rejected_orders == 0
            &&& !e.trading.risk.killed && e.trading.risk.order_times_ns.len() == 0
            &&& e.trading.risk.config == config.risk
            &&& e.processed_events == 0 && e.ignored_events == 0
            &&& e.decisions.len() == 0 && e.fills.len() == 0 && e.trades.len() == 0
            &&& e.samples == Multiset::<u64>::empty()
            &&& e.strategy == strategy && e.config == config && e.run_id == run_id
            &&& s.trading.risk.killed == killed
            &&& switched(s, false) == e
        }),
{
}

/// The funds that the latest order candidate needs: the price of each contract for a
/// purchase, what is left of one for a sale, nothing for an exit; and the fee on each
/// contract. There is no requirement without a candidate.
pub proof fn funds_cover_the_worst_case_and_the_fee<M>(e: EngineModel<M>)
    ensures
        funds_needed(e) is Some <==> e.decisions.len() > 0 && e.decisions[0].intent is Some,
        funds_needed(e) matches Some(needed) ==> {
            let order = e.decisions[0].intent->0;
            let at_risk = if order.side == Side::Bid {
                order.limit_price
            } else {
                1_000_000 - order.limit_price
            };
            let per_contract = unit_fee(
                e.config.paper.taker_fee_rate_micros as int,
                order.limit_price,
            );
            &&& needed.side == order.side && needed.quantity == order.quantity
            &&& needed.price == order.limit_price
            &&& needed.decision_status == e.decisions[0].action
            &&& order.kind == OrderIntentKind::Exit ==> needed.collateral_micros == 0
            &&& order.kind == OrderIntentKind::Entry && 0 <= order.quantity <= i64::MAX
                ==> needed.collateral_micros == nearest(at_risk * order.quantity)
            &&& 0 <= order.quantity <= i64::MAX ==> needed.fee_micros == nearest(
                per_contract * order.quantity,
            )
            &&& needed.required_funds_micros == nearest(
                needed.collateral_micros + needed.fee_micros,
            )
        },
{
}

/// The next entry is expected on the side of the position at the price that it would trade
/// at: a long buys at the ask, a short sells at the bid. A flat market goes by the latest
/// candidate, or the opposite of a latest exit, and without one by the side on which fair
/// value is farther beyond the quote. The room shown is the room for that entry.
pub proof fn next_entries_follow_the_position<M>(e: EngineModel<M>)
    ensures
        ({
            let state = e.trading.state;
            let (side, price) = next_entry(e);
            let ask = if state.best_ask is Some {
                state.best_ask->0
            } else {
                0
            };
            let bid = if state.best_bid is Some {
                state.best_bid->0
            } else {
                0
            };
            let latest = e.decisions.len() > 0 && e.decisions[0].intent is Some;
            let order = e.decisions[0].intent->0;
            &&& state.position > 0 ==> side == Side::Bid && price == ask
            &&& state.position < 0 ==> side == Side::Ask && price == bid
            &&& state.position == 0 && latest && order.kind == OrderIntentKind::Entry ==> side
                == order.side && price == order.limit_price
            &&& state.position == 0 && latest && order.kind == OrderIntentKind::Exit ==> side
                != order.side && (side == Side::Bid ==> price == ask) && (side == Side::Ask
                ==> price == bid)
            &&& state.position == 0 && !latest ==> (side == Side::Bid ==> price == ask) && (side
                == Side::Ask ==> price == bid)
            &&& state.position == 0 && !latest && state.fair_value is Some && state.best_bid is Some
                && state.best_ask is Some ==> (side == Side::Ask <==> bid - state.fair_value->0
                > state.fair_value->0 - ask)
            &&& state.fair_value is None && state.position == 0 && !latest ==> side == Side::Bid
            &&& room_ahead(e) == entry_room(e.config.risk, state.position, side, price)
        }),
{
}

/// The history of an open position shows how long it has been held up to the latest event;
/// otherwise it is shown as it stands.
pub proof fn open_positions_show_their_age<M>(e: EngineModel<M>)
    ensures
        ({
            let shown = current_lifecycle(e);
            let open = e.trading.active is Some && e.trading.lifecycle.status
                == PositionStatus::Open;
            let age = e.last_event_time_ns - e.trading.active->0.entry_time_ns;
            &&& !open ==> shown == e.trading.lifecycle
            &&& open ==> shown == (LifecycleModel {
                holding_time_ns: shown.holding_time_ns,
                ..e.trading.lifecycle
            })
            &&& open && 0 <= age <= u64::MAX ==> shown.holding_time_ns == age
            &&& open && age < 0 ==> shown.holding_time_ns == 0
        }),
{
}

} // verus!
