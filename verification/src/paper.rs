//! Simulated execution.

use vstd::prelude::*;

use crate::fixed::{
    as_signed, least, min_u64, quotient, sat, sat_div, sat_mul, to_signed, usat, SCALE,
};
use crate::types::{
    fill_option, Fill, FillModel, MarketModel, MarketState, OrderIntent, OrderModel, OrderMode,
    Side,
};

verus! {

/// A venue that executes orders.
pub trait ExecutionVenue {
    /// Where the venue's orders go.
    spec fn venue_mode(&self) -> OrderMode;

    /// What the venue executes of an order.
    spec fn execution(&self, order: OrderModel, state: MarketModel, now: int) -> Option<FillModel>;

    /// Where the venue's orders go.
    fn mode(&self) -> (r: OrderMode)
        ensures
            r == self.venue_mode(),
    ;

    /// Executes an order.
    fn execute(&self, intent: &OrderIntent, state: &MarketState, now_ns: u64) -> (r: Option<Fill>)
        ensures
            fill_option(r) == self.execution(intent@, state@, now_ns as int),
    ;
}

/// The terms of the simulated venue.
#[derive(Clone, Copy, Debug, PartialEq, Eq, Structural)]
pub struct PaperConfig {
    pub acknowledgement_delay_ns: u64,
    pub taker_fee_rate_micros: i64,
}

impl Default for PaperConfig {
    fn default() -> (r: Self)
        ensures
            r == (PaperConfig {
                acknowledgement_delay_ns: 2_000_000,
                taker_fee_rate_micros: 1_000,
            }),
    {
        PaperConfig { acknowledgement_delay_ns: 2_000_000, taker_fee_rate_micros: 1_000 }
    }
}

/// The fee on one contract: the rate times the price times the price of the
/// opposite outcome.
pub open spec fn unit_fee(rate: int, price: int) -> int {
    quotient(sat(quotient(price * (SCALE - price), SCALE as int) * rate), SCALE as int)
}

/// The fee on a number of contracts.
pub open spec fn fee(rate: int, price: int, quantity: int) -> int {
    sat(unit_fee(rate, price) * as_signed(quantity))
}

/// Computes the fee on one contract.
pub fn unit_fee_micros(rate: i64, price_micros: i64) -> (r: i64)
    requires
        0 <= price_micros <= SCALE,
    ensures
        r == unit_fee(rate as int, price_micros as int),
        -9_223_372_036_854 <= r <= 9_223_372_036_854,
{
    assert(0 <= price_micros * (SCALE - price_micros) <= 1_000_000_000_000) by (nonlinear_arith)
        requires
            0 <= price_micros <= 1_000_000,
            SCALE == 1_000_000,
    ;
    let spread: i64 = sat_div(sat_mul(price_micros, SCALE - price_micros), SCALE);
    sat_div(sat_mul(spread, rate), SCALE)
}

impl PaperConfig {
    /// Computes the fee on a number of contracts at a price.
    pub fn fee_micros(&self, price_micros: i64, quantity: u64) -> (r: i64)
        requires
            0 <= price_micros <= SCALE,
        ensures
            r == fee(self.taker_fee_rate_micros as int, price_micros as int, quantity as int),
    {
        sat_mul(unit_fee_micros(self.taker_fee_rate_micros, price_micros), to_signed(quantity))
    }
}

/// The price an order would trade at, and the contracts visible there.
pub open spec fn opposite_quote(state: MarketModel, side: Side) -> (Option<int>, int) {
    match side {
        Side::Bid => (state.best_ask, state.ask_size),
        Side::Ask => (state.best_bid, state.bid_size),
    }
}

/// Whether an order with the given limit trades at `price`.
pub open spec fn crosses(side: Side, limit: int, price: int) -> bool {
    match side {
        Side::Bid => limit >= price,
        Side::Ask => limit <= price,
    }
}

/// What the simulated venue executes: the visible contracts at the top of the
/// book, if the order reaches that price.
pub open spec fn paper_execution(
    config: PaperConfig,
    order: OrderModel,
    state: MarketModel,
    now: int,
) -> Option<FillModel> {
    let (quote, visible) = opposite_quote(state, order.side);
    match quote {
        None => None,
        Some(price) => if !crosses(order.side, order.limit_price, price) || visible == 0 {
            None
        } else {
            Some(
                FillModel {
                    order_id: order.id,
                    market: order.market,
                    side: order.side,
                    price,
                    quantity: least(order.quantity, visible),
                    fee_micros: fee(
                        config.taker_fee_rate_micros as int,
                        price,
                        least(order.quantity, visible),
                    ),
                    acknowledged_time_ns: usat(now + config.acknowledgement_delay_ns),
                },
            )
        },
    }
}

/// The simulated venue.
pub struct PaperVenue {
    config: PaperConfig,
}

impl PaperVenue {
    /// The terms of the venue.
    pub closed spec fn terms(&self) -> PaperConfig {
        self.config
    }

    /// A venue with the given terms.
    pub fn new(config: PaperConfig) -> (r: Self)
        ensures
            r.terms() == config,
    {
        PaperVenue { config }
    }
}

impl ExecutionVenue for PaperVenue {
    open spec fn venue_mode(&self) -> OrderMode {
        OrderMode::Paper
    }

    open spec fn execution(&self, order: OrderModel, state: MarketModel, now: int) -> Option<
        FillModel,
    > {
        paper_execution(self.terms(), order, state, now)
    }

    fn mode(&self) -> (r: OrderMode) {
        OrderMode::Paper
    }

    fn execute(&self, intent: &OrderIntent, state: &MarketState, now_ns: u64) -> (r: Option<Fill>) {
        let (quote, visible) = match intent.side {
            Side::Bid => (state.best_ask, state.ask_size),
            Side::Ask => (state.best_bid, state.bid_size),
        };
        let price = match quote {
            Some(price) => price,
            None => return None,
        };
        let limit: i64 = intent.limit_price.micros();
        let reached = match intent.side {
            Side::Bid => limit >= price.micros(),
            Side::Ask => limit <= price.micros(),
        };
        if !reached || visible == 0 {
            return None;
        }
        let quantity: u64 = min_u64(intent.quantity, visible);
        Some(
            Fill {
                order_id: intent.id,
                market: intent.market.clone(),
                side: intent.side,
                price,
                quantity,
                fee_micros: self.config.fee_micros(price.micros(), quantity),
                acknowledged_time_ns: now_ns.saturating_add(self.config.acknowledgement_delay_ns),
            },
        )
    }
}

/// A simulated fill is at the top of the book, not worse than the order's limit,
/// never beyond the visible quantity nor the order's, on the order's side and in
/// its market.
pub proof fn fills_stay_within_the_book(
    config: PaperConfig,
    order: OrderModel,
    state: MarketModel,
    now: int,
)
    ensures
        paper_execution(config, order, state, now) matches Some(fill) ==> {
            &&& opposite_quote(state, order.side).0 == Some(fill.price)
            &&& crosses(order.side, order.limit_price, fill.price)
            &&& fill.quantity <= opposite_quote(state, order.side).1
            &&& fill.quantity <= order.quantity
            &&& fill.side == order.side
            &&& fill.market == order.market
            &&& fill.order_id == order.id
        },
{
}

} // verus!
