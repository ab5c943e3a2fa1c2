//! What the dislocation strategy decides, in prices.

use vstd::prelude::*;

use crate::fixed::{abs, quotient};
use crate::laws::account::{division_rounds_toward_zero, nearest};
use crate::laws::fits;
use crate::paper::{paper_execution, unit_fee, PaperConfig};
use crate::strategy::{
    assessment, DislocationConfig, DislocationTaker, EvaluationModel, Strategy, TakerModel,
};
use crate::types::{EnvelopeModel, MarketModel, OrderIntentKind, OrderModel, Side};

verus! {

/// The fee on a contract is the rate times the price times the price of the opposite
/// outcome, with each product of millionths rounded down to millionths.
pub proof fn fees_are_rate_times_price_times_opposite(rate: int, price: int) -> (product: int)
    requires
        0 <= rate,
        0 <= price <= 1_000_000,
    ensures
        product * 1_000_000 <= price * (1_000_000 - price) < product * 1_000_000 + 1_000_000,
        unit_fee(rate, price) * 1_000_000 <= nearest(product * rate) < unit_fee(rate, price)
            * 1_000_000 + 1_000_000,
        unit_fee(rate, price) >= 0,
{
    let x = price * (1_000_000 - price);
    assert(0 <= x <= 250_000_000_000) by (nonlinear_arith)
        requires
            x == price * (1_000_000 - price),
            0 <= price <= 1_000_000,
    ;
    division_rounds_toward_zero(x, 1_000_000);
    let product = quotient(x, 1_000_000);
    assert(0 <= product <= 250_000);
    assert(0 <= product * rate <= rate * 250_000) by (nonlinear_arith)
        requires
            0 <= product <= 250_000,
            rate >= 0,
    ;
    division_rounds_toward_zero(nearest(product * rate), 1_000_000);
    product
}

/// A price and that of its opposite outcome carry the same fee, and a rebate is the fee
/// with the sign turned. Certain outcomes carry none.
pub proof fn fees_are_the_same_for_both_outcomes(rate: int, price: int)
    requires
        0 <= price <= 1_000_000,
    ensures
        unit_fee(rate, 1_000_000 - price) == unit_fee(rate, price),
        fits(rate * 250_000) && fits(-rate * 250_000) ==> unit_fee(-rate, price) == -unit_fee(
            rate,
            price,
        ),
        unit_fee(rate, 0) == 0,
        unit_fee(rate, 1_000_000) == 0,
{
    let x = price * (1_000_000 - price);
    assert(x == (1_000_000 - price) * (1_000_000 - (1_000_000 - price))) by (nonlinear_arith)
        requires
            x == price * (1_000_000 - price),
    ;
    assert(0 <= x <= 250_000_000_000) by (nonlinear_arith)
        requires
            x == price * (1_000_000 - price),
            0 <= price <= 1_000_000,
    ;
    division_rounds_toward_zero(x, 1_000_000);
    let product = quotient(x, 1_000_000);
    assert(0 <= product <= 250_000);
    assert(product * (-rate) == -(product * rate)) by (nonlinear_arith);
    division_rounds_toward_zero(product * rate, 1_000_000);
    if fits(rate * 250_000) && fits(-rate * 250_000) {
        assert(abs(product * rate) <= abs(rate * 250_000)) by (nonlinear_arith)
            requires
                0 <= product <= 250_000,
                abs(product * rate) == product * rate || abs(product * rate) == -(product * rate),
                abs(rate * 250_000) >= rate * 250_000,
                abs(rate * 250_000) >= -(rate * 250_000),
        ;
        assert(-rate * 250_000 == -(rate * 250_000)) by (nonlinear_arith);
        assert(fits(product * rate) && fits(-(product * rate)));
    }
    assert(0int * (1_000_000 - 0) == 0 && 1_000_000int * (1_000_000 - 1_000_000) == 0);
    assert(quotient(0, 1_000_000) == 0);
    assert(0 * rate == 0) by (nonlinear_arith);
}

/// Whether an evaluation considers the given order: its kind, side, price, edge and
/// quantity.
pub open spec fn considers(
    evaluation: EvaluationModel,
    kind: OrderIntentKind,
    side: Side,
    price: int,
    edge: int,
    quantity: int,
) -> bool {
    evaluation.intent matches Some(order) && order.kind == kind && order.side == side
        && order.limit_price == price && order.expected_edge_micros == edge && order.quantity
        == quantity
}

/// The smaller of a wish and what is visible.
pub open spec fn at_most(wish: int, visible: int) -> int {
    if wish < visible {
        wish
    } else {
        visible
    }
}

/// A long position is added to at the ask while fair value exceeds the ask by five percent
/// after fee and haircut. Otherwise it is considered for sale at the bid, and sold when fair
/// value exceeds the bid by no more than one percent after fee and haircut.
pub proof fn long_positions_are_held_for_their_edge(
    config: DislocationConfig,
    state: MarketModel,
    event: EnvelopeModel,
    fair: int,
    bid: int,
    ask: int,
)
    requires
        state.position > 0,
        state.fair_value == Some(fair),
        state.best_bid == Some(bid),
        state.best_ask == Some(ask),
    ensures
        ({
            let e = assessment(config, state, event);
            let costs_at_ask = unit_fee(config.taker_fee_rate_micros as int, ask)
                + config.latency_haircut_micros;
            let costs_at_bid = unit_fee(config.taker_fee_rate_micros as int, bid)
                + config.latency_haircut_micros;
            if fair - ask - costs_at_ask >= 50_000 {
                &&& considers(
                    e,
                    OrderIntentKind::Entry,
                    Side::Bid,
                    ask,
                    fair - ask - costs_at_ask,
                    at_most(config.order_size as int, state.ask_size),
                )
                &&& e.eligible <==> state.ask_size != 0 && at_most(
                    config.order_size as int,
                    state.ask_size,
                ) != 0
            } else {
                &&& considers(
                    e,
                    OrderIntentKind::Exit,
                    Side::Ask,
                    bid,
                    fair - bid - costs_at_bid,
                    at_most(state.position, state.bid_size),
                )
                &&& e.eligible <==> state.bid_size != 0 && fair - bid - costs_at_bid <= 10_000
            }
        }),
{
}

/// A short position is added to at the bid while the bid exceeds fair value by five percent
/// after fee and haircut. Otherwise it is considered for buying back at the ask, and bought
/// back when the ask exceeds fair value by no more than one percent after fee and haircut.
pub proof fn short_positions_are_held_for_their_edge(
    config: DislocationConfig,
    state: MarketModel,
    event: EnvelopeModel,
    fair: int,
    bid: int,
    ask: int,
)
    requires
        state.position < 0,
        state.fair_value == Some(fair),
        state.best_bid == Some(bid),
        state.best_ask == Some(ask),
    ensures
        ({
            let e = assessment(config, state, event);
            let costs_at_ask = unit_fee(config.taker_fee_rate_micros as int, ask)
                + config.latency_haircut_micros;
            let costs_at_bid = unit_fee(config.taker_fee_rate_micros as int, bid)
                + config.latency_haircut_micros;
            if bid - fair - costs_at_bid >= 50_000 {
                &&& considers(
                    e,
                    OrderIntentKind::Entry,
                    Side::Ask,
                    bid,
                    bid - fair - costs_at_bid,
                    at_most(config.order_size as int, state.bid_size),
                )
                &&& e.eligible <==> state.bid_size != 0 && at_most(
                    config.order_size as int,
                    state.bid_size,
                ) != 0
            } else {
                &&& considers(
                    e,
                    OrderIntentKind::Exit,
                    Side::Bid,
                    ask,
                    ask - fair - costs_at_ask,
                    at_most(-state.position, state.ask_size),
                )
                &&& e.eligible <==> state.ask_size != 0 && ask - fair - costs_at_ask <= 10_000
            }
        }),
{
}

/// Without a position the stronger of buying at the ask and selling at the bid is
/// considered, buying where they are equal, and entered when its edge after fee and haircut
/// is five percent or more.
pub proof fn flat_markets_are_entered_on_the_stronger_side(
    config: DislocationConfig,
    state: MarketModel,
    event: EnvelopeModel,
    fair: int,
    bid: int,
    ask: int,
)
    requires
        state.position == 0,
        state.fair_value == Some(fair),
        state.best_bid == Some(bid),
        state.best_ask == Some(ask),
    ensures
        ({
            let e = assessment(config, state, event);
            let buying = fair - ask - unit_fee(config.taker_fee_rate_micros as int, ask)
                - config.latency_haircut_micros;
            let selling = bid - fair - unit_fee(config.taker_fee_rate_micros as int, bid)
                - config.latency_haircut_micros;
            let to_buy = at_most(config.order_size as int, state.ask_size);
            let to_sell = at_most(config.order_size as int, state.bid_size);
            if selling > buying {
                &&& considers(e, OrderIntentKind::Entry, Side::Ask, bid, selling, to_sell)
                &&& e.eligible <==> state.bid_size != 0 && to_sell != 0 && selling >= 50_000
            } else {
                &&& considers(e, OrderIntentKind::Entry, Side::Bid, ask, buying, to_buy)
                &&& e.eligible <==> state.ask_size != 0 && to_buy != 0 && buying >= 50_000
            }
        }),
{
}

/// While fair value or a side of the book is unknown no order is considered. A considered
/// order is one of the market at hand, made when the event came in, and names the message
/// and the proof that fair value came with.
pub proof fn orders_name_their_origin(
    config: DislocationConfig,
    state: MarketModel,
    event: EnvelopeModel,
)
    ensures
        ({
            let e = assessment(config, state, event);
            &&& e.intent is None <==> state.fair_value is None || state.best_bid is None
                || state.best_ask is None
            &&& e.intent is None ==> !e.eligible
            &&& e.intent matches Some(order) ==> {
                &&& order.market == state.market
                &&& order.created_time_ns == event.received_time_ns
                &&& order.source_message_id == state.last_message_id
                &&& order.source_proof_ts == state.last_proof_ts
            }
        }),
{
}

/// The market seen from the opposite outcome: what is bid for it is what is left of one
/// after the ask for the other, and the position has the opposite sign.
pub open spec fn seen_from_the_opposite(state: MarketModel) -> MarketModel {
    MarketModel {
        fair_value: match state.fair_value {
            Some(fair) => Some(1_000_000 - fair),
            None => None,
        },
        best_bid: match state.best_ask {
            Some(ask) => Some(1_000_000 - ask),
            None => None,
        },
        best_ask: match state.best_bid {
            Some(bid) => Some(1_000_000 - bid),
            None => None,
        },
        bid_size: state.ask_size,
        ask_size: state.bid_size,
        position: -state.position,
        ..state
    }
}

/// The two outcomes of a market are treated alike: seen from the opposite outcome, the same
/// order is considered with the sides exchanged and the price turned, for the same edge and
/// the same number of contracts, and it is submitted in the same cases. Where buying and
/// selling are equally good for a flat market, buying is preferred from both.
pub proof fn both_outcomes_are_treated_alike(
    config: DislocationConfig,
    state: MarketModel,
    event: EnvelopeModel,
    fair: int,
    bid: int,
    ask: int,
)
    requires
        state.fair_value == Some(fair),
        state.best_bid == Some(bid),
        state.best_ask == Some(ask),
        0 <= fair <= 1_000_000,
        0 <= bid <= 1_000_000,
        0 <= ask <= 1_000_000,
        state.position == 0 ==> fair - ask - unit_fee(config.taker_fee_rate_micros as int, ask)
            != bid - fair - unit_fee(config.taker_fee_rate_micros as int, bid),
    ensures
        ({
            let one = assessment(config, state, event);
            let other = assessment(config, seen_from_the_opposite(state), event);
            &&& one.intent is Some && other.intent is Some
            &&& one.eligible == other.eligible
            &&& one.intent->0.kind == other.intent->0.kind
            &&& one.intent->0.side != other.intent->0.side
            &&& one.intent->0.limit_price == 1_000_000 - other.intent->0.limit_price
            &&& one.intent->0.expected_edge_micros == other.intent->0.expected_edge_micros
            &&& one.intent->0.quantity == other.intent->0.quantity
        }),
{
    fees_are_the_same_for_both_outcomes(config.taker_fee_rate_micros as int, ask);
    fees_are_the_same_for_both_outcomes(config.taker_fee_rate_micros as int, bid);
}

/// The edge of an exit falls as the market reverts: for a long with fair value, for a short
/// against it, by as much as fair value moves.
pub proof fn exit_edges_move_with_fair_value(
    config: DislocationConfig,
    a: MarketModel,
    b: MarketModel,
    event: EnvelopeModel,
    rise: int,
)
    requires
        a.fair_value is Some && a.best_bid is Some && a.best_ask is Some,
        b == (MarketModel { fair_value: Some(a.fair_value->0 + rise), ..a }),
        assessment(config, a, event).intent->0.kind == OrderIntentKind::Exit,
        assessment(config, b, event).intent->0.kind == OrderIntentKind::Exit,
    ensures
        a.position != 0,
        a.position > 0 ==> assessment(config, b, event).intent->0.expected_edge_micros
            == assessment(config, a, event).intent->0.expected_edge_micros + rise,
        a.position < 0 ==> assessment(config, b, event).intent->0.expected_edge_micros
            == assessment(config, a, event).intent->0.expected_edge_micros - rise,
{
}

/// An event is evaluated once: a fair value or a book is, unless neither feed's sequence
/// number has moved since the last evaluation, and nothing else is. After it both numbers
/// are those of the market.
pub proof fn news_is_evaluated_once(
    taker: TakerModel,
    state: MarketModel,
    event: EnvelopeModel,
    later: EnvelopeModel,
)
    ensures
        ({
            let evaluated = DislocationTaker::evaluations(taker, state, event);
            let after = DislocationTaker::advanced(taker, state, event);
            &&& evaluated.len() <= 1
            &&& evaluated.len() == 1 <==> (event.event is FairValue || event.event is Book) && (
            state.source_seq != taker.last_source_seq || state.venue_seq != taker.last_venue_seq)
            &&& evaluated.len() == 1 ==> {
                &&& evaluated[0] == assessment(taker.config, state, event)
                &&& after == (TakerModel {
                    config: taker.config,
                    last_source_seq: state.source_seq,
                    last_venue_seq: state.venue_seq,
                })
                &&& DislocationTaker::evaluations(after, state, later).len() == 0
            }
            &&& evaluated.len() == 0 ==> after == taker
        }),
{
}

/// A fill on the simulated venue is at the ask for a purchase and at the bid for a sale, for
/// the smaller of what was ordered and what is visible there. There is one exactly when that
/// price is known, contracts are visible there, and the limit reaches it: not below the ask,
/// not above the bid. The fee is that on one contract for each, and the acknowledgement
/// comes after the delay.
pub proof fn fills_are_at_the_opposite_quote(
    config: PaperConfig,
    order: OrderModel,
    state: MarketModel,
    now: int,
)
    ensures
        ({
            let fill = paper_execution(config, order, state, now);
            &&& order.side == Side::Bid ==> {
                &&& fill is Some <==> state.best_ask is Some && state.ask_size != 0
                    && order.limit_price >= state.best_ask->0
                &&& fill is Some ==> fill->0.price == state.best_ask->0 && fill->0.quantity
                    == at_most(order.quantity, state.ask_size)
            }
            &&& order.side == Side::Ask ==> {
                &&& fill is Some <==> state.best_bid is Some && state.bid_size != 0
                    && order.limit_price <= state.best_bid->0
                &&& fill is Some ==> fill->0.price == state.best_bid->0 && fill->0.quantity
                    == at_most(order.quantity, state.bid_size)
            }
            &&& fill is Some ==> {
                let per_contract = unit_fee(config.taker_fee_rate_micros as int, fill->0.price);
                &&& fill->0.order_id == order.id
                &&& fill->0.market == order.market
                &&& fill->0.side == order.side
                &&& 0 <= fill->0.quantity <= i64::MAX ==> fill->0.fee_micros == nearest(
                    per_contract * fill->0.quantity,
                )
                &&& 0 <= now + config.acknowledgement_delay_ns <= u64::MAX
                    ==> fill->0.acknowledged_time_ns == now + config.acknowledgement_delay_ns
                &&& now + config.acknowledgement_delay_ns > u64::MAX
                    ==> fill->0.acknowledged_time_ns == u64::MAX
            }
        }),
{
}

} // verus!
