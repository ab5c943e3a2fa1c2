//! What the operations of the library give for what they are given.

use vstd::prelude::*;

use crate::account::{entry_capacity, settle, track_position, ActivePosition};
use crate::config::BackendConfig;
use crate::engine::{Engine, EngineConfig};
use crate::fixed::Price;
use crate::journal::{
    line_models, JournalLine, MarketDataSource, SelectionModel, TxLineMarketSelection,
};
use crate::json::{field, JsonValue};
use crate::laws::account::{
    falls_to, fills_move_position_and_cash, nearest, partial_exits_take_their_share,
    room_is_what_both_limits_leave,
};
use crate::laws::book::{listed, messages_update_both_sides, says, updated_by};
use crate::laws::discovery::{is_outcome, outcomes_are_the_first_that_fit_best};
use crate::laws::engine::{events_are_counted_and_taken_in, gates_are_asked_in_turn, would_hold};
use crate::laws::replay::{
    count_from, count_mappings, events_answer_to_the_last_mapping, events_in,
    journals_need_both_feeds, replayable_line,
};
use crate::laws::strategy::{
    at_most, considers, fills_are_at_the_opposite_quote, short_positions_are_held_for_their_edge,
};
use crate::laws::after_events;
use crate::mapping::select_outcome;
use crate::paper::{unit_fee, ExecutionVenue, PaperConfig, PaperVenue};
use crate::pascal::{BookStep, PascalBook, PascalBookAdapter, PascalFault, PascalMarket};
use crate::replay::{replay, replayed, scan, ReplayError, ReplayReport};
use crate::risk::{RiskConfig, RiskDecision, RiskEngine, VerdictModel};
use crate::strategy::{DislocationConfig, DislocationTaker, Strategy, StrategyEvaluation};
use crate::txline::{odds_line_models, TxLineFixture, TxLineOddsLine};
use crate::types::{
    EventEnvelope, EventModel, Fill, MarketState, OrderIntent, OrderIntentKind, OrderMode,
    PositionLifecycle, RiskCapacitySnapshot, Side, Stamp, TradeEvent,
};

verus! {

/// An exit that closes some of the contracts of a position takes the part of the entry
/// notional and of the entry fees that falls to them, and reports the difference to its
/// proceeds, less both fees.
pub proof fn exits_report_their_part(
    active: &mut Option<ActivePosition>,
    history: &mut PositionLifecycle,
    fill: &Fill,
    intent: &OrderIntent,
    trade: TradeEvent,
)
    requires
        call_ensures(track_position, (active, history, fill, intent), trade),
        intent.kind == OrderIntentKind::Exit,
        *old(active) is Some,
        0 < fill.quantity < (*old(active))->0.remaining_quantity <= i64::MAX,
    ensures
        *final(active) is Some,
        ({
            let a = (*old(active))->0;
            let left = (*final(active))->0;
            let cost = a.remaining_entry_notional_micros - left.remaining_entry_notional_micros;
            let entry_fee = a.remaining_entry_fee_micros - left.remaining_entry_fee_micros;
            let proceeds = nearest(fill.price@ * fill.quantity);
            let gross = match a.entry_side {
                Side::Bid => nearest(proceeds - cost),
                Side::Ask => nearest(cost - proceeds),
            };
            &&& left.remaining_quantity == a.remaining_quantity - fill.quantity
            &&& falls_to(
                cost,
                a.remaining_entry_notional_micros as int,
                fill.quantity as int,
                a.remaining_quantity as int,
            )
            &&& falls_to(
                entry_fee,
                a.remaining_entry_fee_micros as int,
                fill.quantity as int,
                a.remaining_quantity as int,
            )
            &&& trade.realized_pnl_micros == nearest(
                nearest(gross - entry_fee) - fill.fee_micros,
            )
        }),
{
    partial_exits_take_their_share((*old(active))->0@, fill@, intent@);
}

/// A purchase joins the position and is paid with its fee; a sale leaves it and is paid in
/// less its fee.
pub proof fn settled_fills_move_position_and_cash(state: &mut MarketState, fill: &Fill)
    requires
        call_ensures(settle, (state, fill), ()),
        fill.quantity <= i64::MAX,
    ensures
        ({
            let before = old(state)@;
            let now = final(state)@;
            let bought = fill.quantity * fill.price@;
            &&& fill.side == Side::Bid ==> now.position == nearest(before.position + fill.quantity)
                && now.cash_micros == nearest(
                nearest(before.cash_micros - nearest(bought)) - fill.fee_micros,
            )
            &&& fill.side == Side::Ask ==> now.position == nearest(before.position - fill.quantity)
                && now.cash_micros == nearest(
                nearest(before.cash_micros - nearest(-bought)) - fill.fee_micros,
            )
        }),
{
    fills_move_position_and_cash(old(state)@, fill@);
}

/// The capacity for an entry is the largest number of contracts that keeps both limits.
pub proof fn capacity_keeps_both_limits(
    config: &RiskConfig,
    position: i64,
    side: Side,
    price: Price,
    room: RiskCapacitySnapshot,
    quantity: int,
)
    requires
        call_ensures(entry_capacity, (config, position, side, price), room),
        config.max_position >= 0,
        config.max_notional_micros >= 0,
        0 <= price@,
        quantity > 0,
    ensures
        ({
            let with = if position < 0 {
                -position + quantity
            } else {
                position + quantity
            };
            let against = (position > 0 && side == Side::Ask) || (position < 0 && side
                == Side::Bid);
            quantity <= room.remaining_contracts <==> !against && with <= config.max_position
                && with
                * price@ <= config.max_notional_micros
        }),
{
    room_is_what_both_limits_leave(*config, position as int, side, price@, quantity);
}

/// The gates answer the first of them that is closed, and approve an order that none turns
/// away. Only an approval changes what they remember, and nothing else of them changes.
pub proof fn orders_are_answered_by_the_first_closed_gate(
    risk: &mut RiskEngine,
    intent: &OrderIntent,
    state: &MarketState,
    now_ns: u64,
    answer: RiskDecision,
    old_approvals: int,
)
    requires
        call_ensures(RiskEngine::evaluate, (risk, intent, state, now_ns), answer),
        intent.quantity <= i64::MAX,
        0 <= old_approvals <= old(risk)@.order_times_ns.len(),
        forall|i: int|
            0 <= i < old_approvals ==> (#[trigger] old(risk)@.order_times_ns[i]) < now_ns
                - 60_000_000_000,
        old_approvals < old(risk)@.order_times_ns.len() ==> old(
            risk,
        )@.order_times_ns[old_approvals] >= now_ns - 60_000_000_000,
    ensures
        ({
            let r = old(risk)@;
            let s = state@;
            let allowed_ns = r.config.feed_stale_after_ms * 1_000_000;
            let held = nearest(would_hold(s, intent@));
            let contracts = if held < 0 {
                -held
            } else {
                held
            };
            &&& answer is Approved <==> {
                &&& !r.killed && !s.suspended && !s.danger
                &&& now_ns - s.last_fair_time_ns <= allowed_ns
                &&& now_ns - s.last_book_time_ns <= allowed_ns
                &&& s.pnl_micros + r.config.max_drawdown_micros >= 0
                &&& contracts <= r.config.max_position
                &&& nearest(contracts * intent.limit_price@) <= r.config.max_notional_micros
                &&& r.order_times_ns.len() - old_approvals < r.config.max_orders_per_minute
            }
            &&& r.killed ==> answer@ == (VerdictModel::Rejected { reason: "kill switch active"@ })
            &&& answer is Approved ==> final(risk)@.order_times_ns.last() == now_ns
            &&& final(risk)@.killed == r.killed && final(risk)@.config == r.config
        }),
{
    gates_are_asked_in_turn(old(risk)@, intent@, state@, now_ns as int, old_approvals);
    crate::laws::engine::only_approvals_are_remembered(
        old(risk)@,
        intent@,
        state@,
        now_ns as int,
    );
}

/// An event is applied unless it is outdated, and what is applied is what it says.
pub proof fn events_are_applied_unless_outdated(
    state: &mut MarketState,
    envelope: &EventEnvelope,
    applied: bool,
)
    requires
        call_ensures(MarketState::apply, (state, envelope), applied),
    ensures
        !applied ==> final(state)@ == old(state)@,
        envelope@.event matches EventModel::FairValue { probability, source_seq, .. } ==> {
            &&& applied <==> old(state)@.source_seq <= 0 || source_seq > old(state)@.source_seq
            &&& applied ==> final(state)@.fair_value == Some(probability)
                && final(state)@.source_seq == source_seq
        },
        envelope@.event matches EventModel::Book { bid, bid_size, ask, ask_size, venue_seq, .. }
            ==> {
            &&& applied <==> old(state)@.venue_seq <= 0 || venue_seq > old(state)@.venue_seq
            &&& applied ==> final(state)@.best_bid == Some(bid) && final(state)@.best_ask == Some(
                ask,
            ) && final(state)@.bid_size == bid_size && final(state)@.ask_size == ask_size
                && final(state)@.venue_seq == venue_seq
        },
        envelope@.event matches EventModel::Score { danger, suspended, .. } ==> applied
            && final(state)@.danger == danger && final(state)@.suspended == suspended,
        final(state)@.position == old(state)@.position,
        final(state)@.cash_micros == old(state)@.cash_micros,
{
}

/// A message about the book updates both sides by the levels that it lists, and hands out
/// the top of the book.
pub proof fn book_messages_update_both_sides(
    adapter: &PascalBookAdapter,
    book: &mut PascalBook,
    payload: &JsonValue,
    received_time_ns: u64,
    step: Result<BookStep, PascalFault>,
)
    requires
        call_ensures(
            PascalBookAdapter::on_payload,
            (adapter, book, payload, received_time_ns),
            step,
        ),
        says(payload@, "channel"@, "book"@),
        says(payload@, "symbol"@, adapter.settings().symbol@),
        !says(payload@, "type"@, "error"@),
        field(payload@, "data"@) is Some,
    ensures
        ({
            let data = field(payload@, "data"@)->0;
            let fresh = says(payload@, "type"@, "snapshot"@);
            let bids = if fresh {
                Map::empty()
            } else {
                old(book)@.bids
            };
            let asks = if fresh {
                Map::empty()
            } else {
                old(book)@.asks
            };
            &&& updated_by(final(book)@.bids, bids, listed(field(data, "bids"@)))
            &&& updated_by(final(book)@.asks, asks, listed(field(data, "asks"@)))
            &&& step is Ok
            &&& step matches Ok(BookStep::Event(envelope)) ==> envelope.received_time_ns
                == received_time_ns && (envelope.event@ matches EventModel::Book { market, .. }
                && market == adapter.settings().market@)
        }),
{
    messages_update_both_sides(
        old(book)@,
        payload@,
        adapter.settings().symbol@,
        field(payload@, "data"@)->0,
    );
}

/// The selected outcome is the first of the prices that fit the market best.
pub proof fn the_selected_outcome_fits_best(
    fixture: &TxLineFixture,
    market: &PascalMarket,
    lines: &Vec<TxLineOddsLine>,
    choice: Option<TxLineMarketSelection>,
)
    requires
        call_ensures(select_outcome, (fixture, market, lines), choice),
    ensures
        ({
            let all = odds_line_models(lines@);
            &&& choice matches Some(s) ==> exists|i: int, k: int| #[trigger]
                is_outcome(fixture@, market@, all, i, k) && s@ == (SelectionModel {
                    super_odds_type: all[i].super_odds_type,
                    market_parameters: all[i].market_parameters,
                    market_period: all[i].market_period,
                    price_index: k,
                    price_name: all[i].price_names[k],
                })
            &&& choice is None ==> forall|i: int, k: int| !#[trigger]
                is_outcome(fixture@, market@, all, i, k)
        }),
{
    outcomes_are_the_first_that_fit_best(fixture@, market@, odds_line_models(lines@));
    let all = odds_line_models(lines@);
    if choice is None {
        assert forall|i: int, k: int| !#[trigger] is_outcome(fixture@, market@, all, i, k) by {
            if is_outcome(fixture@, market@, all, i, k) {
                assert(crate::laws::discovery::score_of(fixture@, market@, all[i], k) > 0);
            }
        }
    }
}

/// A replay succeeds exactly when each line can be replayed where it stands and both feeds
/// are there. It then reports the events, the fair values, the books and the mappings of the
/// journal, and the engine has processed the events.
pub proof fn replays_report_what_the_journal_holds(
    lines: &Vec<JournalLine>,
    engine: &mut Engine<DislocationTaker>,
    result: Result<ReplayReport, ReplayError>,
)
    requires
        call_ensures(replay::<DislocationTaker>, (lines, engine), result),
    ensures
        ({
            let all = line_models(lines@);
            let good = forall|i: int| 0 <= i < all.len() ==> #[trigger] replayable_line(all, i);
            let fair_values = count_from(all, MarketDataSource::Txline);
            let books = count_from(all, MarketDataSource::Pascal);
            &&& result is Ok <==> good && fair_values > 0 && books > 0
            &&& result matches Ok(report) ==> {
                &&& report.events == events_in(all).len()
                &&& report.txline_events == fair_values
                &&& report.pascal_events == books
                &&& report.mappings == count_mappings(all)
                &&& report.pnl_micros == final(engine)@.trading.state.pnl_micros
                &&& final(engine)@.processed_events == old(engine)@.processed_events
                    + events_in(all).len()
            }
        }),
{
    let all = line_models(lines@);
    let s = scan(all, None);
    let stamps = choose|stamps: Seq<Seq<Stamp>>| #[trigger]
        replayed::<DislocationTaker>(old(engine)@, final(engine)@, s, result, stamps);
    assert(replayed::<DislocationTaker>(old(engine)@, final(engine)@, s, result, stamps));
    events_answer_to_the_last_mapping(all);
    if forall|i: int| 0 <= i < all.len() ==> #[trigger] replayable_line(all, i) {
        journals_need_both_feeds(all);
    }
    lemma_events_counted(old(engine)@, s.events, stamps);
}

proof fn lemma_events_counted(
    e: crate::laws::TakerEngine,
    events: Seq<crate::types::EnvelopeModel>,
    stamps: Seq<Seq<Stamp>>,
)
    ensures
        after_events::<DislocationTaker>(e, events, stamps).processed_events == e.processed_events
            + events.len(),
    decreases events.len(),
{
    if events.len() > 0 {
        lemma_events_counted(e, events.drop_last(), stamps.drop_last());
        events_are_counted_and_taken_in::<DislocationTaker>(
            after_events::<DislocationTaker>(e, events.drop_last(), stamps.drop_last()),
            events.last(),
            stamps.last(),
        );
    }
}

/// The strategy holds a short while the ask is above fair value by more than one percent
/// after fee and haircut, and buys it back otherwise.
pub proof fn shorts_are_bought_back_when_their_edge_is_gone(
    taker: &mut DislocationTaker,
    state: &MarketState,
    event: &EventEnvelope,
    evaluations: Vec<StrategyEvaluation>,
    fair: int,
    bid: int,
    ask: int,
)
    requires
        call_ensures(
            <DislocationTaker as Strategy>::on_event,
            (taker, state, event),
            evaluations,
        ),
        state@.position < 0,
        state@.fair_value == Some(fair),
        state@.best_bid == Some(bid),
        state@.best_ask == Some(ask),
        event@.event is Book || event@.event is FairValue,
        state@.source_seq != old(taker).model().last_source_seq || state@.venue_seq != old(
            taker,
        ).model().last_venue_seq,
        ({
            let c = old(taker).model().config;
            bid - fair - unit_fee(c.taker_fee_rate_micros as int, bid) - c.latency_haircut_micros
                < 50_000
        }),
    ensures
        evaluations@.len() == 1,
        ({
            let c = old(taker).model().config;
            let edge = ask - fair - unit_fee(c.taker_fee_rate_micros as int, ask)
                - c.latency_haircut_micros;
            let e = evaluations@[0]@;
            &&& considers(
                e,
                OrderIntentKind::Exit,
                Side::Bid,
                ask,
                edge,
                at_most(-state@.position, state@.ask_size),
            )
            &&& e.eligible <==> state@.ask_size != 0 && edge <= 10_000
        }),
{
    let c = old(taker).model().config;
    short_positions_are_held_for_their_edge(c, state@, event@, fair, bid, ask);
    let models = crate::strategy::evaluation_models(evaluations@);
    assert(models.len() == evaluations@.len());
    assert(models == DislocationTaker::evaluations(old(taker).model(), state@, event@));
    assert(models[0] == evaluations@[0]@);
}

/// The simulated venue fills at the opposite quote, never beyond what is visible there.
pub proof fn simulated_fills_are_at_the_opposite_quote(
    venue: &PaperVenue,
    intent: &OrderIntent,
    state: &MarketState,
    now_ns: u64,
    fill: Option<Fill>,
)
    requires
        call_ensures(
            <PaperVenue as ExecutionVenue>::execute,
            (venue, intent, state, now_ns),
            fill,
        ),
    ensures
        intent.side == Side::Bid ==> {
            &&& fill is Some <==> state@.best_ask is Some && state@.ask_size != 0
                && intent.limit_price@ >= state@.best_ask->0
            &&& fill matches Some(f) ==> f.price@ == state@.best_ask->0 && f.quantity == at_most(
                intent.quantity as int,
                state@.ask_size,
            ) && f.side == Side::Bid
        },
        intent.side == Side::Ask ==> {
            &&& fill is Some <==> state@.best_bid is Some && state@.bid_size != 0
                && intent.limit_price@ <= state@.best_bid->0
            &&& fill matches Some(f) ==> f.price@ == state@.best_bid->0 && f.quantity == at_most(
                intent.quantity as int,
                state@.bid_size,
            ) && f.side == Side::Ask
        },
{
    fills_are_at_the_opposite_quote(venue.terms(), intent@, state@, now_ns as int);
}

/// The service and the engine have the same defaults: the limits, the terms of the simulated
/// venue, which also are what the strategy reckons with, and the length of the histories.
pub proof fn defaults_agree(config: BackendConfig, engine: EngineConfig)
    requires
        call_ensures(<BackendConfig as Default>::default, (), config),
        call_ensures(<EngineConfig as Default>::default, (), engine),
    ensures
        config.risk == engine.risk,
        config.paper == engine.paper,
        config.decision_history == engine.decision_history,
        config.strategy.taker_fee_rate_micros == config.paper.taker_fee_rate_micros,
        engine.mode == OrderMode::Paper,
        config.risk == (RiskConfig {
            max_position: 250,
            max_notional_micros: 100_000_000,
            max_orders_per_minute: 60,
            max_drawdown_micros: 15_000_000,
            feed_stale_after_ms: 2_500,
        }),
        config.paper == (PaperConfig {
            acknowledgement_delay_ns: 2_000_000,
            taker_fee_rate_micros: 1_000,
        }),
        config.strategy == (DislocationConfig {
            latency_haircut_micros: 2_500,
            taker_fee_rate_micros: 1_000,
            order_size: 25,
        }),
        config.decision_history == 100,
{
}

} // verus!
