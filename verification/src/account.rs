//! The account: what limits leave room for, what a fill does to position, cash
//! and cost basis.

use vstd::prelude::*;
use vstd::string::StringExecFns;

use crate::clock::{datetime_from_ns, time_of_ns};
use crate::fixed::{
    abs, as_signed, greatest, least, magnitude, min_u64, quotient, sat, sat_add, sat_div, sat_mul,
    sat_sub, to_signed, usat, Price, SCALE,
};
use crate::risk::RiskConfig;
use crate::strategy::{EvaluationModel, StrategyEvaluation};
use crate::text::{decimal, push_decimal};
use crate::types::{
    clone_order, CapacityModel, Fill, FillModel, LifecycleModel, MarketModel, MarketState,
    OrderIntent, OrderIntentKind, OrderModel, PositionLifecycle, PositionStatus,
    RiskCapacitySnapshot, Side, TradeAction, TradeEvent, TradeModel,
};

verus! {

/// Whether an entry on `side` goes with the position rather than against it.
pub open spec fn same_direction(position: int, side: Side) -> bool {
    position == 0 || (position > 0 && side == Side::Bid) || (position < 0 && side == Side::Ask)
}

/// The largest position whose notional at `price` is within the limit.
pub open spec fn notional_position_limit(config: RiskConfig, price: int) -> int {
    if price == 0 {
        greatest(config.max_position as int, 0)
    } else {
        greatest(config.max_notional_micros as int, 0) / price
    }
}

/// How many contracts an entry at `price` may add: what the smaller of the
/// position limit and the notional limit leaves beside the position.
pub open spec fn entry_room(
    config: RiskConfig,
    position: int,
    side: Side,
    price: int,
) -> CapacityModel {
    let position_limit = greatest(config.max_position as int, 0);
    let by_notional = notional_position_limit(config, price);
    let effective = least(position_limit, by_notional);
    CapacityModel {
        position_limit,
        notional_limit_micros: greatest(config.max_notional_micros as int, 0),
        effective_position_limit: effective,
        remaining_contracts: if same_direction(position, side) {
            greatest(effective - abs(position), 0)
        } else {
            0
        },
        limiting_gate: if !same_direction(position, side) {
            "direction"@
        } else if by_notional < position_limit {
            "notional"@
        } else {
            "position"@
        },
    }
}

/// Computes how many contracts an entry may add.
pub fn entry_capacity(config: &RiskConfig, position: i64, side: Side, price: Price) -> (r:
    RiskCapacitySnapshot)
    ensures
        r@ == entry_room(*config, position as int, side, price@),
{
    let position_limit: i64 = if config.max_position > 0 {
        config.max_position
    } else {
        0
    };
    let notional_limit: i64 = if config.max_notional_micros > 0 {
        config.max_notional_micros
    } else {
        0
    };
    let micros: i64 = price.micros();
    let by_notional: u64 = if micros == 0 {
        position_limit as u64
    } else {
        notional_limit as u64 / micros as u64
    };
    let effective: u64 = min_u64(position_limit as u64, by_notional);
    let adds = position == 0 || (position > 0 && side == Side::Bid) || (position < 0 && side
        == Side::Ask);
    let remaining: u64 = if adds {
        effective.saturating_sub(magnitude(position))
    } else {
        0
    };
    let gate = if !adds {
        "direction"
    } else if by_notional < position_limit as u64 {
        "notional"
    } else {
        "position"
    };
    RiskCapacitySnapshot {
        position_limit,
        notional_limit_micros: notional_limit,
        effective_position_limit: effective,
        remaining_contracts: remaining,
        limiting_gate: gate.to_owned(),
    }
}

/// An evaluation with its entry clipped to what the limits leave room for.
pub open spec fn sized(
    config: RiskConfig,
    position: int,
    evaluation: EvaluationModel,
) -> EvaluationModel {
    match evaluation.intent {
        Some(order) => if evaluation.eligible && order.kind == OrderIntentKind::Entry {
            let room = entry_room(config, position, order.side, order.limit_price);
            let quantity = least(order.quantity, room.remaining_contracts);
            let intent = Some(OrderModel { quantity, ..order });
            if quantity == 0 {
                EvaluationModel {
                    intent,
                    eligible: false,
                    reason: "effective risk capacity reached at "@ + decimal(
                        room.effective_position_limit as nat,
                    ) + " contracts ("@ + room.limiting_gate + ")"@,
                }
            } else if quantity < order.quantity {
                EvaluationModel {
                    intent,
                    eligible: true,
                    reason: "entry edge reached the 5% threshold; clipped to "@ + decimal(
                        quantity as nat,
                    ) + " contracts by "@ + room.limiting_gate + " capacity"@,
                }
            } else {
                EvaluationModel { intent, ..evaluation }
            }
        } else {
            evaluation
        },
        None => evaluation,
    }
}

/// Clips the entry of an evaluation to what the limits leave room for.
pub fn size_evaluation(
    config: &RiskConfig,
    position: i64,
    evaluation: &StrategyEvaluation,
) -> (r: StrategyEvaluation)
    ensures
        r@ == sized(*config, position as int, evaluation@),
{
    let mut out = StrategyEvaluation {
        intent: clone_order(&evaluation.intent),
        eligible: evaluation.eligible,
        reason: evaluation.reason.clone(),
    };
    if !evaluation.eligible {
        return out;
    }
    let requested = match &evaluation.intent {
        Some(intent) => intent,
        None => return out,
    };
    if requested.kind != OrderIntentKind::Entry {
        return out;
    }
    let room = entry_capacity(config, position, requested.side, requested.limit_price);
    let quantity: u64 = min_u64(requested.quantity, room.remaining_contracts);
    let mut clipped = requested.clone();
    clipped.quantity = quantity;
    out.intent = Some(clipped);
    if quantity == 0 {
        out.eligible = false;
        let mut reason = "effective risk capacity reached at ".to_owned();
        push_decimal(&mut reason, room.effective_position_limit);
        reason.append(" contracts (");
        reason.append(room.limiting_gate.as_str());
        reason.append(")");
        out.reason = reason;
    } else if quantity < requested.quantity {
        let mut reason = "entry edge reached the 5% threshold; clipped to ".to_owned();
        push_decimal(&mut reason, quantity);
        reason.append(" contracts by ");
        reason.append(room.limiting_gate.as_str());
        reason.append(" capacity");
        out.reason = reason;
    }
    out
}

/// The state with the profit marked at fair value, where that is known.
pub open spec fn marked(state: MarketModel) -> MarketModel {
    match state.fair_value {
        Some(fair) => MarketModel {
            pnl_micros: sat(state.cash_micros + sat(state.position * fair)),
            ..state
        },
        None => state,
    }
}

/// Marks the profit at fair value.
pub fn mark_to_market(state: &mut MarketState)
    ensures
        final(state)@ == marked(old(state)@),
{
    if let Some(fair) = state.fair_value {
        state.pnl_micros = sat_add(state.cash_micros, sat_mul(state.position, fair.micros()));
    }
}

/// The cost basis and the exits of the open position.
#[derive(Clone, Copy, Debug)]
pub struct ActivePosition {
    pub entry_side: Side,
    pub entry_time_ns: u64,
    pub remaining_quantity: u64,
    pub remaining_entry_notional_micros: i64,
    pub remaining_entry_fee_micros: i64,
    pub exited_quantity: u64,
    pub exit_notional_micros: i64,
    pub realized_pnl_micros: i64,
}

/// The model of an open position.
pub struct ActiveModel {
    pub entry_side: Side,
    pub entry_time_ns: int,
    pub remaining_quantity: int,
    pub remaining_entry_notional_micros: int,
    pub remaining_entry_fee_micros: int,
    pub exited_quantity: int,
    pub exit_notional_micros: int,
    pub realized_pnl_micros: int,
}

impl View for ActivePosition {
    type V = ActiveModel;

    open spec fn view(&self) -> ActiveModel {
        ActiveModel {
            entry_side: self.entry_side,
            entry_time_ns: self.entry_time_ns as int,
            remaining_quantity: self.remaining_quantity as int,
            remaining_entry_notional_micros: self.remaining_entry_notional_micros as int,
            remaining_entry_fee_micros: self.remaining_entry_fee_micros as int,
            exited_quantity: self.exited_quantity as int,
            exit_notional_micros: self.exit_notional_micros as int,
            realized_pnl_micros: self.realized_pnl_micros as int,
        }
    }
}

/// The model of a position that may be open.
pub open spec fn active_option(active: Option<ActivePosition>) -> Option<ActiveModel> {
    match active {
        Some(position) => Some(position@),
        None => None,
    }
}

/// A price in millionths, if it is one.
pub open spec fn valid_price(micros: int) -> Option<int> {
    if 0 <= micros <= SCALE {
        Some(micros)
    } else {
        None
    }
}

/// The average price of `quantity` contracts that cost `notional`, rounded
/// toward zero.
pub open spec fn average(notional: int, quantity: int) -> Option<int> {
    valid_price(sat(quotient(notional, as_signed(greatest(quantity, 1)))))
}

/// The notional of a number of contracts.
pub open spec fn notional(price: int, quantity: int) -> int {
    sat(price * as_signed(quantity))
}

/// The share of `total` that falls to `part` of `whole` contracts.
pub open spec fn share(total: int, part: int, whole: int) -> int {
    if part == whole {
        total
    } else {
        sat(quotient(sat(total * as_signed(part)), as_signed(whole)))
    }
}

/// The open position after an entry fill.
pub open spec fn entered(active: Option<ActiveModel>, fill: FillModel) -> ActiveModel {
    match active {
        Some(a) => ActiveModel {
            remaining_quantity: usat(a.remaining_quantity + fill.quantity),
            remaining_entry_notional_micros: sat(
                a.remaining_entry_notional_micros + notional(fill.price, fill.quantity),
            ),
            remaining_entry_fee_micros: sat(a.remaining_entry_fee_micros + fill.fee_micros),
            ..a
        },
        None => ActiveModel {
            entry_side: fill.side,
            entry_time_ns: fill.acknowledged_time_ns,
            remaining_quantity: fill.quantity,
            remaining_entry_notional_micros: notional(fill.price, fill.quantity),
            remaining_entry_fee_micros: fill.fee_micros,
            exited_quantity: 0,
            exit_notional_micros: 0,
            realized_pnl_micros: 0,
        },
    }
}

/// The history of the position after an entry fill: an added entry moves the
/// average price, a first entry begins a new history.
pub open spec fn entry_history(
    active: Option<ActiveModel>,
    history: LifecycleModel,
    fill: FillModel,
) -> LifecycleModel {
    let now = entered(active, fill);
    match active {
        Some(_) => LifecycleModel {
            status: PositionStatus::Open,
            entry_price: average(now.remaining_entry_notional_micros, now.remaining_quantity),
            ..history
        },
        None => LifecycleModel {
            status: PositionStatus::Open,
            entry_price: Some(fill.price),
            exit_price: None,
            entry_time: Some(time_of_ns(fill.acknowledged_time_ns)),
            exit_time: None,
            holding_time_ns: 0,
            realized_pnl_micros: 0,
        },
    }
}

/// The contracts of the position that an exit fill closes.
pub open spec fn closed_quantity(a: ActiveModel, fill: FillModel) -> int {
    least(fill.quantity, a.remaining_quantity)
}

/// The profit that an exit fill realises: the difference of proceeds and cost
/// basis, less the fees of entry and exit.
pub open spec fn realized(a: ActiveModel, fill: FillModel) -> int {
    let closed = closed_quantity(a, fill);
    let proceeds = notional(fill.price, closed);
    let cost = share(a.remaining_entry_notional_micros, closed, a.remaining_quantity);
    let entry_fee = share(a.remaining_entry_fee_micros, closed, a.remaining_quantity);
    let gross = match a.entry_side {
        Side::Bid => sat(proceeds - cost),
        Side::Ask => sat(cost - proceeds),
    };
    sat(sat(gross - entry_fee) - fill.fee_micros)
}

/// The open position after an exit fill.
pub open spec fn exited(a: ActiveModel, fill: FillModel) -> ActiveModel {
    let closed = closed_quantity(a, fill);
    let cost = share(a.remaining_entry_notional_micros, closed, a.remaining_quantity);
    let entry_fee = share(a.remaining_entry_fee_micros, closed, a.remaining_quantity);
    ActiveModel {
        remaining_quantity: a.remaining_quantity - closed,
        remaining_entry_notional_micros: sat(a.remaining_entry_notional_micros - cost),
        remaining_entry_fee_micros: sat(a.remaining_entry_fee_micros - entry_fee),
        exited_quantity: usat(a.exited_quantity + closed),
        exit_notional_micros: sat(a.exit_notional_micros + notional(fill.price, closed)),
        realized_pnl_micros: sat(a.realized_pnl_micros + realized(a, fill)),
        ..a
    }
}

/// The history of the position after an exit fill.
pub open spec fn exit_history(
    a: ActiveModel,
    history: LifecycleModel,
    fill: FillModel,
) -> LifecycleModel {
    let now = exited(a, fill);
    LifecycleModel {
        status: if now.remaining_quantity == 0 {
            PositionStatus::Closed
        } else {
            history.status
        },
        exit_price: average(now.exit_notional_micros, now.exited_quantity),
        exit_time: Some(time_of_ns(fill.acknowledged_time_ns)),
        holding_time_ns: usat(fill.acknowledged_time_ns - a.entry_time_ns),
        realized_pnl_micros: now.realized_pnl_micros,
        ..history
    }
}

/// The open position after a fill of an order of the given kind.
pub open spec fn tracked_active(
    active: Option<ActiveModel>,
    kind: OrderIntentKind,
    fill: FillModel,
) -> Option<ActiveModel> {
    match (kind, active) {
        (OrderIntentKind::Entry, _) => Some(entered(active, fill)),
        (OrderIntentKind::Exit, Some(a)) => if exited(a, fill).remaining_quantity == 0 {
            None
        } else {
            Some(exited(a, fill))
        },
        (OrderIntentKind::Exit, None) => None,
    }
}

/// The history of the position after a fill of an order of the given kind.
pub open spec fn tracked_history(
    active: Option<ActiveModel>,
    history: LifecycleModel,
    kind: OrderIntentKind,
    fill: FillModel,
) -> LifecycleModel {
    match (kind, active) {
        (OrderIntentKind::Entry, _) => entry_history(active, history, fill),
        (OrderIntentKind::Exit, Some(a)) => exit_history(a, history, fill),
        (OrderIntentKind::Exit, None) => history,
    }
}

/// The profit that a fill realises: none for an entry, and none where no
/// position is open.
pub open spec fn realized_by(
    active: Option<ActiveModel>,
    kind: OrderIntentKind,
    fill: FillModel,
) -> int {
    match (kind, active) {
        (OrderIntentKind::Exit, Some(a)) => realized(a, fill),
        _ => 0,
    }
}

/// The trade that a fill of an order makes.
pub open spec fn trade_of(
    active: Option<ActiveModel>,
    fill: FillModel,
    order: OrderModel,
) -> TradeModel {
    TradeModel {
        order_id: fill.order_id,
        market: fill.market,
        kind: order.kind,
        action: match fill.side {
            Side::Bid => TradeAction::Buy,
            Side::Ask => TradeAction::Sell,
        },
        timestamp: time_of_ns(fill.acknowledged_time_ns),
        price: fill.price,
        edge_micros: order.expected_edge_micros,
        quantity: fill.quantity,
        realized_pnl_micros: realized_by(active, order.kind, fill),
    }
}

fn average_price(notional: i64, quantity: u64) -> (r: Option<Price>)
    ensures
        crate::fixed::price_option(r) == average(notional as int, quantity as int),
{
    let divisor: i64 = to_signed(
        if quantity > 1 {
            quantity
        } else {
            1
        },
    );
    match Price::from_micros(sat_div(notional, divisor)) {
        Ok(price) => Some(price),
        Err(_) => None,
    }
}

fn share_of(total: i64, part: u64, whole: u64) -> (r: i64)
    requires
        part <= whole,
    ensures
        r == share(total as int, part as int, whole as int),
{
    if part == whole {
        total
    } else {
        sat_div(sat_mul(total, to_signed(part)), to_signed(whole))
    }
}

/// Takes a fill into the cost basis and the history of the position.
pub fn track_position(
    active: &mut Option<ActivePosition>,
    history: &mut PositionLifecycle,
    fill: &Fill,
    intent: &OrderIntent,
) -> (r: TradeEvent)
    ensures
        active_option(*final(active)) == tracked_active(
            active_option(*old(active)),
            intent.kind,
            fill@,
        ),
        final(history)@ == tracked_history(
            active_option(*old(active)),
            old(history)@,
            intent.kind,
            fill@,
        ),
        r@ == trade_of(active_option(*old(active)), fill@, intent@),
{
    let timestamp = datetime_from_ns(fill.acknowledged_time_ns);
    let mut realized_pnl_micros: i64 = 0;
    match intent.kind {
        OrderIntentKind::Entry => {
            let entry_notional: i64 = sat_mul(fill.price.micros(), to_signed(fill.quantity));
            match *active {
                Some(a) => {
                    let now = ActivePosition {
                        entry_side: a.entry_side,
                        entry_time_ns: a.entry_time_ns,
                        remaining_quantity: a.remaining_quantity.saturating_add(fill.quantity),
                        remaining_entry_notional_micros: sat_add(
                            a.remaining_entry_notional_micros,
                            entry_notional,
                        ),
                        remaining_entry_fee_micros: sat_add(
                            a.remaining_entry_fee_micros,
                            fill.fee_micros,
                        ),
                        exited_quantity: a.exited_quantity,
                        exit_notional_micros: a.exit_notional_micros,
                        realized_pnl_micros: a.realized_pnl_micros,
                    };
                    history.entry_price = average_price(
                        now.remaining_entry_notional_micros,
                        now.remaining_quantity,
                    );
                    history.status = PositionStatus::Open;
                    *active = Some(now);
                },
                None => {
                    *active = Some(
                        ActivePosition {
                            entry_side: fill.side,
                            entry_time_ns: fill.acknowledged_time_ns,
                            remaining_quantity: fill.quantity,
                            remaining_entry_notional_micros: entry_notional,
                            remaining_entry_fee_micros: fill.fee_micros,
                            exited_quantity: 0,
                            exit_notional_micros: 0,
                            realized_pnl_micros: 0,
                        },
                    );
                    *history = PositionLifecycle {
                        status: PositionStatus::Open,
                        entry_price: Some(fill.price),
                        exit_price: None,
                        entry_time: Some(timestamp),
                        exit_time: None,
                        holding_time_ns: 0,
                        realized_pnl_micros: 0,
                    };
                },
            }
        },
        OrderIntentKind::Exit => {
            if let Some(a) = *active {
                let closed: u64 = min_u64(fill.quantity, a.remaining_quantity);
                let cost: i64 = share_of(
                    a.remaining_entry_notional_micros,
                    closed,
                    a.remaining_quantity,
                );
                let entry_fee: i64 = share_of(
                    a.remaining_entry_fee_micros,
                    closed,
                    a.remaining_quantity,
                );
                let proceeds: i64 = sat_mul(fill.price.micros(), to_signed(closed));
                let gross: i64 = match a.entry_side {
                    Side::Bid => sat_sub(proceeds, cost),
                    Side::Ask => sat_sub(cost, proceeds),
                };
                realized_pnl_micros = sat_sub(sat_sub(gross, entry_fee), fill.fee_micros);
                let now = ActivePosition {
                    entry_side: a.entry_side,
                    entry_time_ns: a.entry_time_ns,
                    remaining_quantity: a.remaining_quantity - closed,
                    remaining_entry_notional_micros: sat_sub(
                        a.remaining_entry_notional_micros,
                        cost,
                    ),
                    remaining_entry_fee_micros: sat_sub(a.remaining_entry_fee_micros, entry_fee),
                    exited_quantity: a.exited_quantity.saturating_add(closed),
                    exit_notional_micros: sat_add(a.exit_notional_micros, proceeds),
                    realized_pnl_micros: sat_add(a.realized_pnl_micros, realized_pnl_micros),
                };
                history.exit_price = average_price(now.exit_notional_micros, now.exited_quantity);
                history.exit_time = Some(timestamp);
                history.holding_time_ns = fill.acknowledged_time_ns.saturating_sub(a.entry_time_ns);
                history.realized_pnl_micros = now.realized_pnl_micros;
                if now.remaining_quantity == 0 {
                    history.status = PositionStatus::Closed;
                    *active = None;
                } else {
                    *active = Some(now);
                }
            }
        },
    }
    TradeEvent {
        order_id: fill.order_id,
        market: fill.market.clone(),
        kind: intent.kind,
        action: match fill.side {
            Side::Bid => TradeAction::Buy,
            Side::Ask => TradeAction::Sell,
        },
        timestamp,
        price: fill.price,
        edge_micros: intent.expected_edge_micros,
        quantity: fill.quantity,
        realized_pnl_micros,
    }
}

/// The contracts that a fill adds to the position.
pub open spec fn signed_quantity(fill: FillModel) -> int {
    match fill.side {
        Side::Bid => as_signed(fill.quantity),
        Side::Ask => -as_signed(fill.quantity),
    }
}

/// The state after a fill: the position moves, the visible depth is consumed, the
/// price and the fee are paid, and the profit is marked.
pub open spec fn settled(state: MarketModel, fill: FillModel) -> MarketModel {
    let signed = signed_quantity(fill);
    marked(
        MarketModel {
            position: sat(state.position + signed),
            ask_size: if fill.side == Side::Bid {
                usat(state.ask_size - fill.quantity)
            } else {
                state.ask_size
            },
            bid_size: if fill.side == Side::Ask {
                usat(state.bid_size - fill.quantity)
            } else {
                state.bid_size
            },
            cash_micros: sat(
                sat(state.cash_micros - sat(signed * fill.price)) - fill.fee_micros,
            ),
            fees_micros: sat(state.fees_micros + fill.fee_micros),
            ..state
        },
    )
}

/// Takes a fill into the state.
pub fn settle(state: &mut MarketState, fill: &Fill)
    requires
        fill.side == Side::Ask ==> as_signed(fill.quantity as int) != i64::MIN,
    ensures
        final(state)@ == settled(old(state)@, fill@),
{
    let quantity: i64 = to_signed(fill.quantity);
    let signed: i64 = match fill.side {
        Side::Bid => quantity,
        Side::Ask => 0 - quantity,
    };
    state.position = sat_add(state.position, signed);
    match fill.side {
        Side::Bid => {
            state.ask_size = state.ask_size.saturating_sub(fill.quantity);
        },
        Side::Ask => {
            state.bid_size = state.bid_size.saturating_sub(fill.quantity);
        },
    }
    state.cash_micros = sat_sub(
        sat_sub(state.cash_micros, sat_mul(signed, fill.price.micros())),
        fill.fee_micros,
    );
    state.fees_micros = sat_add(state.fees_micros, fill.fee_micros);
    mark_to_market(state);
}

} // verus!
