//! The risk gates that every order passes.

use std::collections::VecDeque;

use vstd::prelude::*;

use crate::fixed::{abs, as_signed, magnitude, sat, sat_add, sat_mul, to_signed, usat};
use crate::types::{MarketModel, MarketState, OrderIntent, OrderModel, Side};

verus! {

/// The limits.
#[derive(Clone, Copy, Debug, PartialEq, Eq, Structural)]
pub struct RiskConfig {
    pub max_position: i64,
    pub max_notional_micros: i64,
    pub max_orders_per_minute: usize,
    pub max_drawdown_micros: i64,
    pub feed_stale_after_ms: u64,
}

impl Default for RiskConfig {
    fn default() -> (r: Self)
        ensures
            r == (RiskConfig {
                max_position: 250,
                max_notional_micros: 100_000_000,
                max_orders_per_minute: 60,
                max_drawdown_micros: 15_000_000,
                feed_stale_after_ms: 2_500,
            }),
    {
        RiskConfig {
            max_position: 250,
            max_notional_micros: 100_000_000,
            max_orders_per_minute: 60,
            max_drawdown_micros: 15_000_000,
            feed_stale_after_ms: 2_500,
        }
    }
}

/// The answer to an order.
#[derive(Debug, PartialEq, Eq)]
pub enum RiskDecision {
    Approved,
    Rejected { reason: String },
}

/// The model of an answer.
#[verifier::ext_equal]
pub enum VerdictModel {
    Approved,
    Rejected { reason: Seq<char> },
}

impl View for RiskDecision {
    type V = VerdictModel;

    open spec fn view(&self) -> VerdictModel {
        match self {
            RiskDecision::Approved => VerdictModel::Approved,
            RiskDecision::Rejected { reason } => VerdictModel::Rejected { reason: reason@ },
        }
    }
}

/// The length of the window in which orders are counted, in nanoseconds.
pub const ORDER_WINDOW_NS: u64 = 60_000_000_000;

/// The limits, the times of the approved orders and the kill switch.
pub struct RiskEngine {
    config: RiskConfig,
    order_times_ns: VecDeque<u64>,
    killed: bool,
}

/// The model of the risk gates.
#[verifier::ext_equal]
pub struct RiskModel {
    pub config: RiskConfig,
    pub order_times_ns: Seq<u64>,
    pub killed: bool,
}

impl View for RiskEngine {
    type V = RiskModel;

    closed spec fn view(&self) -> RiskModel {
        RiskModel {
            config: self.config,
            order_times_ns: self.order_times_ns@,
            killed: self.killed,
        }
    }
}

/// Whether one of the two feeds is older than the limit.
pub open spec fn stale(config: RiskConfig, state: MarketModel, now: int) -> bool {
    let limit = usat(config.feed_stale_after_ms * 1_000_000);
    usat(now - state.last_fair_time_ns) > limit || usat(now - state.last_book_time_ns) > limit
}

/// The change of the position if all of the order were filled.
pub open spec fn position_change(order: OrderModel) -> int {
    match order.side {
        Side::Bid => as_signed(order.quantity),
        Side::Ask => -as_signed(order.quantity),
    }
}

/// The position if all of the order were filled.
pub open spec fn resulting_position(state: MarketModel, order: OrderModel) -> int {
    sat(state.position + position_change(order))
}

/// The notional of that position at the order's limit.
pub open spec fn resulting_notional(state: MarketModel, order: OrderModel) -> int {
    sat(order.limit_price * abs(resulting_position(state, order)))
}

/// The first gate that turns the order away, the order rate left out.
pub open spec fn closed_gate(
    risk: RiskModel,
    order: OrderModel,
    state: MarketModel,
    now: int,
) -> Option<Seq<char>> {
    if risk.killed {
        Some("kill switch active"@)
    } else if state.suspended || state.danger {
        Some("market safety circuit active"@)
    } else if stale(risk.config, state, now) {
        Some("feed is stale"@)
    } else if state.pnl_micros < -risk.config.max_drawdown_micros {
        Some("drawdown limit exceeded"@)
    } else if abs(resulting_position(state, order)) > risk.config.max_position {
        Some("position limit exceeded"@)
    } else if resulting_notional(state, order) > risk.config.max_notional_micros {
        Some("total notional limit exceeded"@)
    } else {
        None
    }
}

/// `times` without the ones at its front that are before `cutoff`.
pub open spec fn recent(times: Seq<u64>, cutoff: int) -> Seq<u64>
    decreases times.len(),
{
    if times.len() > 0 && times[0] < cutoff {
        recent(times.drop_first(), cutoff)
    } else {
        times
    }
}

/// The approved orders that still count at `now`.
pub open spec fn counted(risk: RiskModel, now: int) -> Seq<u64> {
    recent(risk.order_times_ns, usat(now - ORDER_WINDOW_NS))
}

/// The answer to an order.
pub open spec fn verdict(
    risk: RiskModel,
    order: OrderModel,
    state: MarketModel,
    now: int,
) -> VerdictModel {
    match closed_gate(risk, order, state, now) {
        Some(reason) => VerdictModel::Rejected { reason },
        None => if counted(risk, now).len() >= risk.config.max_orders_per_minute {
            VerdictModel::Rejected { reason: "order rate exceeded"@ }
        } else {
            VerdictModel::Approved
        },
    }
}

/// The risk gates after an order was answered.
pub open spec fn after_verdict(
    risk: RiskModel,
    order: OrderModel,
    state: MarketModel,
    now: int,
) -> RiskModel {
    if closed_gate(risk, order, state, now) is Some {
        risk
    } else if counted(risk, now).len() >= risk.config.max_orders_per_minute {
        RiskModel { order_times_ns: counted(risk, now), ..risk }
    } else {
        RiskModel { order_times_ns: counted(risk, now).push(now as u64), ..risk }
    }
}

/// Whether the gates that an order reaches can be computed: the negated drawdown
/// limit, the signed quantity and the size of the resulting position exist as
/// 64-bit integers.
pub open spec fn computable(
    risk: RiskModel,
    order: OrderModel,
    state: MarketModel,
    now: int,
) -> bool {
    !risk.killed && !state.suspended && !state.danger && !stale(risk.config, state, now) ==> {
        &&& risk.config.max_drawdown_micros != i64::MIN
        &&& state.pnl_micros >= -risk.config.max_drawdown_micros ==> {
            &&& order.side == Side::Ask ==> as_signed(order.quantity) != i64::MIN
            &&& resulting_position(state, order) != i64::MIN
        }
    }
}

impl RiskEngine {
    /// Gates with the given limits, with no order counted and the kill switch
    /// clear.
    pub fn new(config: RiskConfig) -> (r: Self)
        ensures
            r@ == (RiskModel { config, order_times_ns: Seq::empty(), killed: false }),
    {
        let r = RiskEngine { config, order_times_ns: VecDeque::new(), killed: false };
        assert(r@.order_times_ns =~= Seq::<u64>::empty());
        r
    }

    /// Sets or clears the kill switch.
    pub fn set_killed(&mut self, killed: bool)
        ensures
            final(self)@ == (RiskModel { killed, ..old(self)@ }),
    {
        self.killed = killed;
    }

    /// Answers an order.
    pub fn evaluate(&mut self, intent: &OrderIntent, state: &MarketState, now_ns: u64) -> (r:
        RiskDecision)
        requires
            computable(old(self)@, intent@, state@, now_ns as int),
        ensures
            r@ == verdict(old(self)@, intent@, state@, now_ns as int),
            final(self)@ == after_verdict(old(self)@, intent@, state@, now_ns as int),
    {
        if self.killed {
            return rejected("kill switch active");
        }
        if state.suspended || state.danger {
            return rejected("market safety circuit active");
        }
        let stale_ns: u64 = match self.config.feed_stale_after_ms.checked_mul(1_000_000) {
            Some(ns) => ns,
            None => u64::MAX,
        };
        if now_ns.saturating_sub(state.last_fair_time_ns) > stale_ns || now_ns.saturating_sub(
            state.last_book_time_ns,
        ) > stale_ns {
            return rejected("feed is stale");
        }
        if state.pnl_micros < 0 - self.config.max_drawdown_micros {
            return rejected("drawdown limit exceeded");
        }
        let quantity: i64 = to_signed(intent.quantity);
        let delta: i64 = match intent.side {
            Side::Bid => quantity,
            Side::Ask => 0 - quantity,
        };
        let resulting: i64 = sat_add(state.position, delta);
        let size: i64 = magnitude(resulting) as i64;
        if size > self.config.max_position {
            return rejected("position limit exceeded");
        }
        let notional: i64 = sat_mul(intent.limit_price.micros(), size);
        if notional > self.config.max_notional_micros {
            return rejected("total notional limit exceeded");
        }
        let cutoff: u64 = now_ns.saturating_sub(ORDER_WINDOW_NS);
        let ghost before = self@;
        assert(closed_gate(before, intent@, state@, now_ns as int) is None);
        while self.order_times_ns.len() > 0 && self.order_times_ns[0] < cutoff
            invariant
                self.config == before.config,
                self.killed == before.killed,
                recent(self.order_times_ns@, cutoff as int) == recent(
                    before.order_times_ns,
                    cutoff as int,
                ),
            decreases self.order_times_ns@.len(),
        {
            let _ = self.order_times_ns.pop_front();
        }
        assert(self.order_times_ns@ == counted(before, now_ns as int));
        if self.order_times_ns.len() >= self.config.max_orders_per_minute {
            return rejected("order rate exceeded");
        }
        self.order_times_ns.push_back(now_ns);
        RiskDecision::Approved
    }
}

fn rejected(reason: &str) -> (r: RiskDecision)
    ensures
        r@ == (VerdictModel::Rejected { reason: reason@ }),
{
    RiskDecision::Rejected { reason: reason.to_owned() }
}

/// An approved order keeps every limit: the kill switch is clear, the market is
/// neither suspended nor in danger, both feeds are fresh, the drawdown is within
/// its limit, the resulting position and its notional are within theirs, and the
/// order is counted among at most `max_orders_per_minute`.
pub proof fn approval_keeps_every_limit(
    risk: RiskModel,
    order: OrderModel,
    state: MarketModel,
    now: int,
)
    requires
        verdict(risk, order, state, now) is Approved,
    ensures
        !risk.killed,
        !state.suspended && !state.danger,
        !stale(risk.config, state, now),
        state.pnl_micros >= -risk.config.max_drawdown_micros,
        abs(resulting_position(state, order)) <= risk.config.max_position,
        resulting_notional(state, order) <= risk.config.max_notional_micros,
        after_verdict(risk, order, state, now).order_times_ns.len()
            <= risk.config.max_orders_per_minute,
        after_verdict(risk, order, state, now).order_times_ns.last() == now as u64,
{
}

/// An order that would breach the position limit is never approved.
pub proof fn position_breach_is_rejected(
    risk: RiskModel,
    order: OrderModel,
    state: MarketModel,
    now: int,
)
    requires
        abs(resulting_position(state, order)) > risk.config.max_position,
    ensures
        verdict(risk, order, state, now) is Rejected,
{
}

/// Killed gates approve nothing and count nothing.
pub proof fn killed_gates_reject(
    risk: RiskModel,
    order: OrderModel,
    state: MarketModel,
    now: int,
)
    requires
        risk.killed,
    ensures
        verdict(risk, order, state, now) == (VerdictModel::Rejected {
            reason: "kill switch active"@,
        }),
        after_verdict(risk, order, state, now) == risk,
{
}

} // verus!
