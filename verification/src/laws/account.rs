//! What fills do to the account, in contracts and millionths.

use vstd::prelude::*;

use crate::account::{
    average, entry_room, settled, share, sized, tracked_active, tracked_history, trade_of,
    ActiveModel,
};
use crate::clock::time_of_ns;
use crate::fixed::{abs, as_signed, quotient, sat, usat};
use crate::laws::{fits, lemma_share_is_part};
use crate::risk::RiskConfig;
use crate::strategy::EvaluationModel;
use crate::types::{
    FillModel, LifecycleModel, MarketModel, OrderIntentKind, OrderModel, PositionStatus, Side,
    TradeAction,
};

verus! {

/// Division toward zero gives the largest number in size whose product with the divisor
/// does not exceed the dividend in size, with the sign of the exact quotient.
pub proof fn division_rounds_toward_zero(a: int, b: int)
    requires
        b != 0,
    ensures
        a >= 0 && b > 0 ==> quotient(a, b) * b <= a < quotient(a, b) * b + b && quotient(a, b) >= 0,
        quotient(-a, b) == -quotient(a, b),
        quotient(a, -b) == -quotient(a, b),
{
    let x = abs(a);
    let y = abs(b);
    assert(x / y * y <= x < x / y * y + y) by (nonlinear_arith)
        requires
            y > 0,
            x >= 0,
    ;
    assert(x / y >= 0) by (nonlinear_arith)
        requires
            y > 0,
            x >= 0,
    ;
    if a == 0 {
        assert(0int / y == 0) by (nonlinear_arith)
            requires
                y > 0,
        ;
    }
}

/// The 64-bit integer that is nearest to an amount: the amount itself where it is one.
pub open spec fn nearest(amount: int) -> int {
    if amount > 0x7fff_ffff_ffff_ffff {
        0x7fff_ffff_ffff_ffff
    } else if amount < -0x8000_0000_0000_0000 {
        -0x8000_0000_0000_0000
    } else {
        amount
    }
}

/// Amounts within the range of 64 bits are kept, and the others are moved to the nearer
/// end of it.
pub proof fn amounts_saturate(x: int)
    ensures
        fits(x) ==> sat(x) == x,
        x > i64::MAX ==> sat(x) == i64::MAX,
        x < i64::MIN ==> sat(x) == i64::MIN,
        sat(x) == nearest(x),
        0 <= x <= u64::MAX ==> usat(x) == x,
        x < 0 ==> usat(x) == 0,
        x > u64::MAX ==> usat(x) == u64::MAX,
        0 <= x <= i64::MAX ==> as_signed(x) == x,
{
}

/// Whether `taken` is the part of `total` that falls to `part` of `whole`, rounded toward
/// zero, with a product that stops at the ends of 64 bits.
pub open spec fn falls_to(taken: int, total: int, part: int, whole: int) -> bool {
    let product = nearest(total * part);
    if total >= 0 {
        taken * whole <= product < taken * whole + whole
    } else {
        taken * whole - whole < product <= taken * whole
    }
}

proof fn lemma_share(total: int, part: int, whole: int)
    requires
        0 < part < whole <= i64::MAX,
        fits(total),
    ensures
        falls_to(share(total, part, whole), total, part, whole),
        total >= 0 ==> 0 <= share(total, part, whole) <= total,
        total <= 0 ==> total <= share(total, part, whole) <= 0,
{
    lemma_share_is_part(total, part, whole);
    let x = sat(total * part);
    if total >= 0 {
        assert(total * part >= 0) by (nonlinear_arith)
            requires
                total >= 0,
                part > 0,
        ;
        division_rounds_toward_zero(x, whole);
    } else {
        assert(total * part <= 0) by (nonlinear_arith)
            requires
                total < 0,
                part > 0,
        ;
        division_rounds_toward_zero(-x, whole);
        division_rounds_toward_zero(x, whole);
        assert(quotient(x, whole) * whole == -(quotient(-x, whole) * whole)) by (nonlinear_arith)
            requires
                quotient(-x, whole) == -quotient(x, whole),
        ;
    }
    assert(share(total, part, whole) == sat(quotient(x, whole)));
    assert(fits(quotient(x, whole))) by {
        let q = quotient(x, whole);
        assert(abs(q) <= abs(x)) by {
            assert(abs(x) / whole <= abs(x)) by (nonlinear_arith)
                requires
                    whole >= 1,
                    abs(x) >= 0,
            ;
            assert(abs(x) / whole >= 0) by (nonlinear_arith)
                requires
                    whole >= 1,
                    abs(x) >= 0,
            ;
        }
        if x >= 0 {
            assert(q >= 0);
        }
    }
}

/// An exit of some of the contracts takes the part of the entry notional and of the entry
/// fees that falls to them, and leaves the rest with the others. Its trade reports the
/// proceeds less that cost, or the cost less the proceeds for a short, less the fees of
/// entry and exit.
pub proof fn partial_exits_take_their_share(
    a: ActiveModel,
    fill: FillModel,
    order: OrderModel,
)
    requires
        order.kind == OrderIntentKind::Exit,
        0 < fill.quantity < a.remaining_quantity <= i64::MAX,
        fits(a.remaining_entry_notional_micros),
        fits(a.remaining_entry_fee_micros),
    ensures
        tracked_active(Some(a), order.kind, fill) is Some,
        ({
            let left = tracked_active(Some(a), order.kind, fill)->0;
            let cost = a.remaining_entry_notional_micros - left.remaining_entry_notional_micros;
            let entry_fee = a.remaining_entry_fee_micros - left.remaining_entry_fee_micros;
            let proceeds = nearest(fill.price * fill.quantity);
            let gross = match a.entry_side {
                Side::Bid => nearest(proceeds - cost),
                Side::Ask => nearest(cost - proceeds),
            };
            let profit = trade_of(Some(a), fill, order).realized_pnl_micros;
            &&& falls_to(
                cost,
                a.remaining_entry_notional_micros,
                fill.quantity,
                a.remaining_quantity,
            )
            &&& falls_to(
                entry_fee,
                a.remaining_entry_fee_micros,
                fill.quantity,
                a.remaining_quantity,
            )
            &&& left.remaining_quantity == a.remaining_quantity - fill.quantity
            &&& left.entry_side == a.entry_side
            &&& left.entry_time_ns == a.entry_time_ns
            &&& 0 <= a.exited_quantity + fill.quantity <= u64::MAX ==> left.exited_quantity
                == a.exited_quantity + fill.quantity
            &&& left.exit_notional_micros == nearest(a.exit_notional_micros + proceeds)
            &&& profit == nearest(nearest(gross - entry_fee) - fill.fee_micros)
            &&& left.realized_pnl_micros == nearest(a.realized_pnl_micros + profit)
        }),
{
    lemma_share(a.remaining_entry_notional_micros, fill.quantity, a.remaining_quantity);
    lemma_share(a.remaining_entry_fee_micros, fill.quantity, a.remaining_quantity);
    assert(as_signed(fill.quantity) == fill.quantity);
}

/// Where all contracts were entered at one price, each exit realises the difference
/// between its price and that price on its contracts, signed by the side of the position,
/// less its part of the entry fees and its own fee.
pub proof fn exits_realize_the_price_difference(
    a: ActiveModel,
    fill: FillModel,
    order: OrderModel,
    entry_price: int,
)
    requires
        order.kind == OrderIntentKind::Exit,
        0 < fill.quantity < a.remaining_quantity <= i64::MAX,
        0 <= entry_price <= 1_000_000,
        0 <= fill.price <= 1_000_000,
        a.remaining_entry_notional_micros == entry_price * a.remaining_quantity,
        fits(a.remaining_entry_notional_micros),
        fits(a.remaining_entry_fee_micros),
        fits(a.remaining_entry_notional_micros * fill.quantity),
        fits(a.remaining_entry_fee_micros * fill.quantity),
        fits(fill.price * fill.quantity),
    ensures
        ({
            let left = tracked_active(Some(a), order.kind, fill)->0;
            let entry_fee = a.remaining_entry_fee_micros - left.remaining_entry_fee_micros;
            let gross = match a.entry_side {
                Side::Bid => fill.quantity * (fill.price - entry_price),
                Side::Ask => fill.quantity * (entry_price - fill.price),
            };
            &&& left.remaining_entry_notional_micros == entry_price * left.remaining_quantity
            &&& fits(gross) && fits(gross - entry_fee) && fits(
                gross - entry_fee - fill.fee_micros,
            ) ==> trade_of(Some(a), fill, order).realized_pnl_micros == gross - entry_fee
                - fill.fee_micros
        }),
{
    partial_exits_take_their_share(a, fill, order);
    let left = tracked_active(Some(a), order.kind, fill)->0;
    let cost = a.remaining_entry_notional_micros - left.remaining_entry_notional_micros;
    let q = fill.quantity;
    let n = a.remaining_quantity;
    let total = a.remaining_entry_notional_micros;
    assert(total >= 0) by (nonlinear_arith)
        requires
            total == entry_price * n,
            entry_price >= 0,
            n > 0,
    ;
    assert(cost == entry_price * q) by (nonlinear_arith)
        requires
            total == entry_price * n,
            cost * n <= total * q < cost * n + n,
            n > 0,
    ;
    assert(nearest(fill.price * q) == fill.price * q);
    assert(entry_price * n - entry_price * q == entry_price * (n - q)) by (nonlinear_arith);
    assert(q * (fill.price - entry_price) == fill.price * q - entry_price * q) by (nonlinear_arith);
    assert(q * (entry_price - fill.price) == entry_price * q - fill.price * q) by (nonlinear_arith);
}

/// An exit of all contracts, or of more, takes all of the entry notional and of the entry
/// fees, and closes the position. Only the contracts that were open bring proceeds.
pub proof fn full_exits_close_the_position(
    a: ActiveModel,
    history: LifecycleModel,
    fill: FillModel,
    order: OrderModel,
)
    requires
        order.kind == OrderIntentKind::Exit,
        0 <= a.remaining_quantity <= fill.quantity,
        a.remaining_quantity <= i64::MAX,
    ensures
        tracked_active(Some(a), order.kind, fill) is None,
        tracked_history(Some(a), history, order.kind, fill).status == PositionStatus::Closed,
        ({
            let proceeds = nearest(fill.price * a.remaining_quantity);
            let gross = match a.entry_side {
                Side::Bid => nearest(proceeds - a.remaining_entry_notional_micros),
                Side::Ask => nearest(a.remaining_entry_notional_micros - proceeds),
            };
            trade_of(Some(a), fill, order).realized_pnl_micros == nearest(
                nearest(gross - a.remaining_entry_fee_micros) - fill.fee_micros,
            )
        }),
{
    assert(as_signed(a.remaining_quantity) == a.remaining_quantity);
}

/// A first entry opens a position with its contracts, its notional and its fee, and a new
/// history. It realises nothing.
pub proof fn first_entries_open_a_position(
    history: LifecycleModel,
    fill: FillModel,
    order: OrderModel,
)
    requires
        order.kind == OrderIntentKind::Entry,
        0 <= fill.quantity <= i64::MAX,
    ensures
        tracked_active(None, order.kind, fill) == Some(
            ActiveModel {
                entry_side: fill.side,
                entry_time_ns: fill.acknowledged_time_ns,
                remaining_quantity: fill.quantity,
                remaining_entry_notional_micros: nearest(fill.price * fill.quantity),
                remaining_entry_fee_micros: fill.fee_micros,
                exited_quantity: 0,
                exit_notional_micros: 0,
                realized_pnl_micros: 0,
            },
        ),
        tracked_history(None, history, order.kind, fill) == (LifecycleModel {
            status: PositionStatus::Open,
            entry_price: Some(fill.price),
            exit_price: None,
            entry_time: Some(time_of_ns(fill.acknowledged_time_ns)),
            exit_time: None,
            holding_time_ns: 0,
            realized_pnl_micros: 0,
        }),
        trade_of(None, fill, order).realized_pnl_micros == 0,
{
}

/// The average price of some contracts is their notional by contract, rounded toward zero.
/// There is none where that is not between zero and one.
pub proof fn averages_are_prices_by_contract(notional: int, contracts: int)
    requires
        0 < contracts <= i64::MAX,
        fits(notional),
    ensures
        average(notional, contracts) is Some <==> -contracts < notional < 1_000_001 * contracts,
        notional >= 0 ==> (average(notional, contracts) matches Some(price) ==> price * contracts
            <= notional < price * contracts + contracts),
        notional < 0 ==> (average(notional, contracts) matches Some(price) ==> price == 0),
{
    let q = quotient(notional, contracts);
    division_rounds_toward_zero(notional, contracts);
    division_rounds_toward_zero(-notional, contracts);
    if notional >= 0 {
        assert(q <= 1_000_000 <==> notional < 1_000_001 * contracts) by (nonlinear_arith)
            requires
                q * contracts <= notional < q * contracts + contracts,
                contracts > 0,
        ;
        assert(q <= notional) by (nonlinear_arith)
            requires
                q * contracts <= notional,
                contracts >= 1,
                q >= 0,
        ;
    } else {
        let m = quotient(-notional, contracts);
        assert(m == -q);
        assert(m == 0 <==> -notional < contracts) by (nonlinear_arith)
            requires
                m * contracts <= -notional < m * contracts + contracts,
                contracts > 0,
                m >= 0,
        ;
        assert(m <= -notional) by (nonlinear_arith)
            requires
                m * contracts <= -notional,
                contracts >= 1,
                m >= 0,
        ;
        assert(notional < 1_000_001 * contracts) by (nonlinear_arith)
            requires
                notional < 0,
                contracts > 0,
        ;
    }
}

/// A further entry adds its contracts, its notional and its fee. The entry price in the
/// history becomes the average over all open contracts; when the position was opened, and
/// what was realised, stay.
pub proof fn further_entries_average_the_price(
    a: ActiveModel,
    history: LifecycleModel,
    fill: FillModel,
    order: OrderModel,
)
    requires
        order.kind == OrderIntentKind::Entry,
        0 < fill.quantity <= i64::MAX,
        a.remaining_quantity >= 0,
        a.remaining_quantity + fill.quantity <= u64::MAX,
    ensures
        ({
            let contracts = a.remaining_quantity + fill.quantity;
            let notional = nearest(
                a.remaining_entry_notional_micros + nearest(fill.price * fill.quantity),
            );
            let now = tracked_history(Some(a), history, order.kind, fill);
            &&& tracked_active(Some(a), order.kind, fill) == Some(
                ActiveModel {
                    remaining_quantity: contracts,
                    remaining_entry_notional_micros: notional,
                    remaining_entry_fee_micros: nearest(
                        a.remaining_entry_fee_micros + fill.fee_micros,
                    ),
                    ..a
                },
            )
            &&& now == (LifecycleModel {
                status: PositionStatus::Open,
                entry_price: average(notional, contracts),
                ..history
            })
            &&& trade_of(Some(a), fill, order).realized_pnl_micros == 0
        }),
{
}

/// After an exit the history shows the average price of all exits, the time of the exit, how
/// long the position has been held by then, and what was realised. It is closed when no
/// contract is left, and as it was before otherwise.
pub proof fn exits_are_shown_in_the_history(
    a: ActiveModel,
    history: LifecycleModel,
    fill: FillModel,
    order: OrderModel,
)
    requires
        order.kind == OrderIntentKind::Exit,
        0 < fill.quantity,
        0 < a.remaining_quantity <= i64::MAX,
        a.exited_quantity >= 0,
        a.exited_quantity + a.remaining_quantity <= u64::MAX,
    ensures
        ({
            let closed = if fill.quantity < a.remaining_quantity {
                fill.quantity
            } else {
                a.remaining_quantity
            };
            let contracts = a.exited_quantity + closed;
            let notional = nearest(a.exit_notional_micros + nearest(fill.price * closed));
            let now = tracked_history(Some(a), history, order.kind, fill);
            let profit = trade_of(Some(a), fill, order).realized_pnl_micros;
            &&& now.exit_price == average(notional, contracts)
            &&& now.exit_time == Some(time_of_ns(fill.acknowledged_time_ns))
            &&& a.entry_time_ns <= fill.acknowledged_time_ns <= a.entry_time_ns + u64::MAX
                ==> now.holding_time_ns == fill.acknowledged_time_ns - a.entry_time_ns
            &&& fill.acknowledged_time_ns < a.entry_time_ns ==> now.holding_time_ns == 0
            &&& now.realized_pnl_micros == nearest(a.realized_pnl_micros + profit)
            &&& now.entry_price == history.entry_price
            &&& now.entry_time == history.entry_time
            &&& fill.quantity >= a.remaining_quantity ==> now.status == PositionStatus::Closed
            &&& fill.quantity < a.remaining_quantity ==> now.status == history.status
        }),
{
}

/// A trade tells what was bought or sold, at what price, with the order's kind and edge.
/// Without an open position an exit realises nothing and changes nothing.
pub proof fn trades_tell_the_fill(
    active: Option<ActiveModel>,
    history: LifecycleModel,
    fill: FillModel,
    order: OrderModel,
)
    ensures
        ({
            let t = trade_of(active, fill, order);
            &&& t.action == TradeAction::Buy <==> fill.side == Side::Bid
            &&& t.action == TradeAction::Sell <==> fill.side == Side::Ask
            &&& t.price == fill.price
            &&& t.quantity == fill.quantity
            &&& t.order_id == fill.order_id
            &&& t.market == fill.market
            &&& t.kind == order.kind
            &&& t.edge_micros == order.expected_edge_micros
            &&& t.timestamp == time_of_ns(fill.acknowledged_time_ns)
        }),
        order.kind == OrderIntentKind::Exit && active is None ==> {
            &&& tracked_active(active, order.kind, fill) is None
            &&& tracked_history(active, history, order.kind, fill) == history
            &&& trade_of(active, fill, order).realized_pnl_micros == 0
        },
{
}

/// What is bought joins the position, is paid for out of the cash together with the fee,
/// and is gone from the offers in the book; what is sold leaves the position, is paid into
/// the cash less the fee, and is gone from the bids. The profit is the cash together with
/// the position at fair value. Nothing else changes.
pub proof fn fills_move_position_and_cash(state: MarketModel, fill: FillModel)
    requires
        0 <= fill.quantity <= i64::MAX,
    ensures
        ({
            let now = settled(state, fill);
            let bought = fill.quantity * fill.price;
            &&& fill.side == Side::Bid ==> {
                &&& now.position == nearest(state.position + fill.quantity)
                &&& now.cash_micros == nearest(
                    nearest(state.cash_micros - nearest(bought)) - fill.fee_micros,
                )
                &&& 0 <= state.ask_size <= u64::MAX ==> now.ask_size == if state.ask_size
                    >= fill.quantity {
                    state.ask_size - fill.quantity
                } else {
                    0
                }
                &&& now.bid_size == state.bid_size
            }
            &&& fill.side == Side::Ask ==> {
                &&& now.position == nearest(state.position - fill.quantity)
                &&& now.cash_micros == nearest(
                    nearest(state.cash_micros - nearest(-bought)) - fill.fee_micros,
                )
                &&& 0 <= state.bid_size <= u64::MAX ==> now.bid_size == if state.bid_size
                    >= fill.quantity {
                    state.bid_size - fill.quantity
                } else {
                    0
                }
                &&& now.ask_size == state.ask_size
            }
            &&& now.fees_micros == nearest(state.fees_micros + fill.fee_micros)
            &&& now.fair_value matches Some(fair) ==> now.pnl_micros == nearest(
                now.cash_micros + nearest(now.position * fair),
            )
            &&& now.fair_value is None ==> now.pnl_micros == state.pnl_micros
            &&& now == (MarketModel {
                position: now.position,
                cash_micros: now.cash_micros,
                fees_micros: now.fees_micros,
                pnl_micros: now.pnl_micros,
                bid_size: now.bid_size,
                ask_size: now.ask_size,
                ..state
            })
        }),
{
    let q = fill.quantity;
    assert((-q) * fill.price == -(q * fill.price)) by (nonlinear_arith);
    assert(as_signed(q) == q);
}

/// The room for an entry is the largest number of contracts with which the position, if
/// the entry goes with it, is within the position limit and its notional at the price
/// within the notional limit.
pub proof fn room_is_what_both_limits_leave(
    config: RiskConfig,
    position: int,
    side: Side,
    price: int,
    quantity: int,
)
    requires
        config.max_position >= 0,
        config.max_notional_micros >= 0,
        price >= 0,
        quantity > 0,
    ensures
        ({
            let with = if position < 0 {
                -position + quantity
            } else {
                position + quantity
            };
            let against = (position > 0 && side == Side::Ask) || (position < 0 && side
                == Side::Bid);
            quantity <= entry_room(config, position, side, price).remaining_contracts <==> !against
                && with <= config.max_position && with * price <= config.max_notional_micros
        }),
{
    let limit = config.max_notional_micros as int;
    let with = abs(position) + quantity;
    if price > 0 {
        assert(with <= limit / price <==> with * price <= limit) by (nonlinear_arith)
            requires
                price > 0,
                limit >= 0,
        ;
    } else {
        assert(with * price == 0) by (nonlinear_arith)
            requires
                price == 0,
        ;
    }
}

/// What limits an entry is its direction, where it goes against the position, and otherwise
/// the notional, where the limit on it lets in fewer contracts than the position limit, and
/// the position limit where it does not.
pub proof fn the_tighter_limit_is_named(config: RiskConfig, position: int, side: Side, price: int)
    requires
        config.max_position >= 0,
        config.max_notional_micros >= 0,
        price >= 0,
    ensures
        ({
            let room = entry_room(config, position, side, price);
            let against = (position > 0 && side == Side::Ask) || (position < 0 && side
                == Side::Bid);
            let tight = config.max_position * price > config.max_notional_micros;
            &&& room.position_limit == config.max_position
            &&& room.notional_limit_micros == config.max_notional_micros
            &&& against ==> room.limiting_gate == "direction"@ && room.remaining_contracts == 0
            &&& !against && tight ==> room.limiting_gate == "notional"@
            &&& !against && !tight ==> room.limiting_gate == "position"@
            &&& !tight ==> room.effective_position_limit == config.max_position
            &&& tight ==> room.effective_position_limit * price <= config.max_notional_micros < (
            room.effective_position_limit + 1) * price
        }),
{
    let limit = config.max_notional_micros as int;
    let most = config.max_position as int;
    if price > 0 {
        assert(most <= limit / price <==> most * price <= limit) by (nonlinear_arith)
            requires
                price > 0,
                limit >= 0,
        ;
        assert(limit / price * price <= limit < (limit / price + 1) * price) by (nonlinear_arith)
            requires
                price > 0,
                limit >= 0,
        ;
        assert(limit / price >= 0) by (nonlinear_arith)
            requires
                price > 0,
                limit >= 0,
        ;
    } else {
        assert(most * price == 0) by (nonlinear_arith)
            requires
                price == 0,
        ;
    }
}

/// An eligible entry is sized to the smaller of what it asks for and the room for it, and
/// is no longer eligible where there is no room. Every other evaluation stays as it is.
pub proof fn entries_are_sized_to_their_room(
    config: RiskConfig,
    position: int,
    evaluation: EvaluationModel,
)
    requires
        evaluation.intent matches Some(order) ==> order.quantity >= 0,
    ensures
        ({
            let now = sized(config, position, evaluation);
            match evaluation.intent {
                Some(order) => if evaluation.eligible && order.kind == OrderIntentKind::Entry {
                    let room = entry_room(config, position, order.side, order.limit_price);
                    &&& now.intent matches Some(clipped) && clipped == (OrderModel {
                        quantity: clipped.quantity,
                        ..order
                    }) && (clipped.quantity == order.quantity || clipped.quantity
                        == room.remaining_contracts) && clipped.quantity <= order.quantity
                        && clipped.quantity <= room.remaining_contracts
                    &&& now.eligible <==> order.quantity != 0 && room.remaining_contracts != 0
                    &&& order.quantity <= room.remaining_contracts && order.quantity != 0
                        ==> now.reason == evaluation.reason
                } else {
                    now == evaluation
                },
                None => now == evaluation,
            }
        }),
{
}

} // verus!
