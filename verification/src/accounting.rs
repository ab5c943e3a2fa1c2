//! Accounting: what the fills of a run, and those of one position, add up to.

use vstd::prelude::*;

use crate::account::{marked, settled, tracked_active, tracked_history, trade_of, ActiveModel};
use crate::engine::{
    advised, decided_all, event_evaluations, event_outputs, output_for, outputs_for, traded,
    EngineModel, OutputModel,
};
use crate::fixed::as_signed;
use crate::laws::{
    after_events, contracts, cost_basis, fills_move_the_cost_basis, fits, run_outputs,
    settles_exactly, tracks_exactly,
};
use crate::strategy::{EvaluationModel, Strategy};
use crate::types::{
    outdated, EnvelopeModel, FillModel, LifecycleModel, MarketModel, OrderIntentKind, OrderModel,
    PositionStatus, Side, Stamp,
};

verus! {

/// The fills among some outputs.
pub open spec fn fills_in(outputs: Seq<OutputModel>) -> Seq<FillModel>
    decreases outputs.len(),
{
    if outputs.len() == 0 {
        Seq::empty()
    } else {
        match outputs.last().fill {
            Some(fill) => fills_in(outputs.drop_last()).push(fill),
            None => fills_in(outputs.drop_last()),
        }
    }
}

/// The contracts that some fills add to the position: those bought less those sold.
pub open spec fn contracts_in(fills: Seq<FillModel>) -> int
    decreases fills.len(),
{
    if fills.len() == 0 {
        0
    } else {
        contracts_in(fills.drop_last()) + contracts(fills.last())
    }
}

/// What some fills cost, without fees: what was paid less what was received.
pub open spec fn cost_of(fills: Seq<FillModel>) -> int
    decreases fills.len(),
{
    if fills.len() == 0 {
        0
    } else {
        cost_of(fills.drop_last()) + contracts(fills.last()) * fills.last().price
    }
}

/// The fees on some fills.
pub open spec fn fees_on(fills: Seq<FillModel>) -> int
    decreases fills.len(),
{
    if fills.len() == 0 {
        0
    } else {
        fees_on(fills.drop_last()) + fills.last().fee_micros
    }
}

/// The position, the cash and the fees of an account.
pub struct AccountModel {
    pub position: int,
    pub cash_micros: int,
    pub fees_micros: int,
}

/// The account in a market.
pub open spec fn account_in(state: MarketModel) -> AccountModel {
    AccountModel {
        position: state.position,
        cash_micros: state.cash_micros,
        fees_micros: state.fees_micros,
    }
}

/// An account with some fills added up.
pub open spec fn account_with(account: AccountModel, fills: Seq<FillModel>) -> AccountModel {
    AccountModel {
        position: account.position + contracts_in(fills),
        cash_micros: account.cash_micros - cost_of(fills) - fees_on(fills),
        fees_micros: account.fees_micros + fees_on(fills),
    }
}

/// Whether one fill after the other is added up exactly, in 64-bit integers.
pub open spec fn add_up_exactly(account: AccountModel, fills: Seq<FillModel>) -> bool
    decreases fills.len(),
{
    fills.len() > 0 ==> {
        let before = account_with(account, fills.drop_last());
        &&& add_up_exactly(account, fills.drop_last())
        &&& settles_exactly(
            before.position,
            before.cash_micros,
            before.fees_micros,
            fills.last(),
        )
    }
}

proof fn lemma_sums_add_up(a: Seq<FillModel>, b: Seq<FillModel>)
    ensures
        contracts_in(a + b) == contracts_in(a) + contracts_in(b),
        cost_of(a + b) == cost_of(a) + cost_of(b),
        fees_on(a + b) == fees_on(a) + fees_on(b),
    decreases b.len(),
{
    if b.len() == 0 {
        assert(a + b =~= a);
    } else {
        assert((a + b).drop_last() =~= a + b.drop_last());
        lemma_sums_add_up(a, b.drop_last());
    }
}

proof fn lemma_exact_parts(account: AccountModel, a: Seq<FillModel>, b: Seq<FillModel>)
    requires
        add_up_exactly(account, a + b),
    ensures
        add_up_exactly(account, a),
        add_up_exactly(account_with(account, a), b),
        account_with(account, a + b) == account_with(account_with(account, a), b),
    decreases b.len(),
{
    lemma_sums_add_up(a, b);
    if b.len() == 0 {
        assert(a + b =~= a);
    } else {
        assert((a + b).drop_last() =~= a + b.drop_last());
        lemma_exact_parts(account, a, b.drop_last());
    }
}

proof fn lemma_fills_add_up(a: Seq<OutputModel>, b: Seq<OutputModel>)
    ensures
        fills_in(a + b) == fills_in(a) + fills_in(b),
    decreases b.len(),
{
    if b.len() == 0 {
        assert(a + b =~= a);
        assert(fills_in(a) + fills_in(b) =~= fills_in(a));
    } else {
        assert((a + b).drop_last() =~= a + b.drop_last());
        lemma_fills_add_up(a, b.drop_last());
        assert(fills_in(a + b) =~= fills_in(a) + fills_in(b));
    }
}

proof fn lemma_settled_exactly(state: MarketModel, fill: FillModel)
    requires
        settles_exactly(state.position, state.cash_micros, state.fees_micros, fill),
    ensures
        account_in(settled(state, fill)) == account_with(account_in(state), seq![fill]),
        marked(settled(state, fill)) == settled(state, fill),
{
    let one = seq![fill];
    assert(one.drop_last() =~= Seq::<FillModel>::empty());
    assert(contracts_in(one.drop_last()) == 0);
    assert(cost_of(one.drop_last()) == 0);
    assert(fees_on(one.drop_last()) == 0);
    assert(as_signed(fill.quantity) == fill.quantity);
}

/// What one output does to the account: it adds its fill, if it has one.
proof fn lemma_output_accounts<M>(
    e: EngineModel<M>,
    evaluation: EvaluationModel,
    event: EnvelopeModel,
    stamp: Stamp,
)
    ensures
        ({
            let after = traded(e.config, e.trading, evaluation, event.received_time_ns).0;
            let made = output_for(e, evaluation, event, stamp);
            &&& marked(e.trading.state) == e.trading.state ==> marked(after.state) == after.state
            &&& match made.fill {
                Some(fill) => after.state == settled(e.trading.state, fill),
                None => after.state == e.trading.state,
            }
        }),
{
}

proof fn lemma_decisions_account<M>(
    e: EngineModel<M>,
    evaluations: Seq<EvaluationModel>,
    event: EnvelopeModel,
    stamps: Seq<Stamp>,
)
    ensures
        ({
            let after = decided_all(e, evaluations, event, stamps).trading.state;
            let fills = fills_in(outputs_for(e, evaluations, event, stamps));
            &&& marked(e.trading.state) == e.trading.state ==> marked(after) == after
            &&& add_up_exactly(account_in(e.trading.state), fills) ==> account_in(after)
                == account_with(account_in(e.trading.state), fills)
        }),
    decreases evaluations.len(),
{
    let account = account_in(e.trading.state);
    let outputs = outputs_for(e, evaluations, event, stamps);
    if evaluations.len() == 0 {
        assert(fills_in(outputs) =~= Seq::<FillModel>::empty());
    } else {
        let rest = evaluations.drop_last();
        lemma_decisions_account(e, rest, event, stamps.drop_last());
        let before = decided_all(e, rest, event, stamps.drop_last());
        lemma_output_accounts(before, evaluations.last(), event, stamps.last());
        let earlier = outputs_for(e, rest, event, stamps.drop_last());
        assert(outputs.drop_last() =~= earlier);
        let fills = fills_in(outputs);
        if add_up_exactly(account, fills) {
            match outputs.last().fill {
                Some(fill) => {
                    assert(fills.drop_last() =~= fills_in(earlier));
                    assert(fills =~= fills_in(earlier) + seq![fill]);
                    lemma_exact_parts(account, fills_in(earlier), seq![fill]);
                    lemma_settled_exactly(before.trading.state, fill);
                },
                None => {},
            }
        }
    }
}

/// The account and the profit over a run. Position, cash and fees change by exactly
/// what its fills add up to: the contracts bought less those sold, what was paid less
/// what was received together with the fees, and the fees; it is so wherever the
/// fills are added up exactly. And the profit is always the cash together with the
/// position at fair value, once a fair value is known.
pub proof fn runs_account_for_their_fills<S: Strategy>(
    e: EngineModel<S::Model>,
    events: Seq<EnvelopeModel>,
    stamps: Seq<Seq<Stamp>>,
)
    requires
        marked(e.trading.state) == e.trading.state,
    ensures
        ({
            let before = e.trading.state;
            let after = after_events::<S>(e, events, stamps).trading.state;
            let fills = fills_in(run_outputs::<S>(e, events, stamps));
            &&& add_up_exactly(account_in(before), fills) ==> {
                &&& after.position == before.position + contracts_in(fills)
                &&& after.cash_micros == before.cash_micros - cost_of(fills) - fees_on(fills)
                &&& after.fees_micros == before.fees_micros + fees_on(fills)
            }
            &&& marked(after) == after
            &&& after.fair_value matches Some(fair) ==> fits(after.position * fair) && fits(
                after.cash_micros + after.position * fair,
            ) ==> after.pnl_micros == after.cash_micros + after.position * fair
        }),
    decreases events.len(),
{
    let account = account_in(e.trading.state);
    let outputs = run_outputs::<S>(e, events, stamps);
    if events.len() == 0 {
        assert(fills_in(outputs) =~= Seq::<FillModel>::empty());
    } else {
        let rest = events.drop_last();
        runs_account_for_their_fills::<S>(e, rest, stamps.drop_last());
        let p = after_events::<S>(e, rest, stamps.drop_last());
        let event = events.last();
        let earlier = run_outputs::<S>(e, rest, stamps.drop_last());
        let made = event_outputs::<S>(p, event, stamps.last());
        lemma_fills_add_up(earlier, made);
        if add_up_exactly(account, fills_in(outputs)) {
            lemma_exact_parts(account, fills_in(earlier), fills_in(made));
        }
        if outdated(p.trading.state, event.event) {
            assert(fills_in(made) =~= Seq::<FillModel>::empty());
        } else {
            lemma_decisions_account(
                advised::<S>(p, event),
                event_evaluations::<S>(p, event),
                event,
                stamps.last(),
            );
        }
    }
}

/// A fill of an order.
pub struct StepModel {
    pub order: OrderModel,
    pub fill: FillModel,
}

/// The open position after some fills that began flat.
pub open spec fn held_after(steps: Seq<StepModel>) -> Option<ActiveModel>
    decreases steps.len(),
{
    if steps.len() == 0 {
        None
    } else {
        tracked_active(
            held_after(steps.drop_last()),
            steps.last().order.kind,
            steps.last().fill,
        )
    }
}

/// The history of the position after some fills that began flat.
pub open spec fn history_after(history: LifecycleModel, steps: Seq<StepModel>) -> LifecycleModel
    decreases steps.len(),
{
    if steps.len() == 0 {
        history
    } else {
        tracked_history(
            held_after(steps.drop_last()),
            history_after(history, steps.drop_last()),
            steps.last().order.kind,
            steps.last().fill,
        )
    }
}

/// The profit that the trades of some fills report, all together.
pub open spec fn reported(steps: Seq<StepModel>) -> int
    decreases steps.len(),
{
    if steps.len() == 0 {
        0
    } else {
        reported(steps.drop_last()) + trade_of(
            held_after(steps.drop_last()),
            steps.last().fill,
            steps.last().order,
        ).realized_pnl_micros
    }
}

/// The contracts of the fills of a kind.
pub open spec fn quantity_of(steps: Seq<StepModel>, kind: OrderIntentKind) -> int
    decreases steps.len(),
{
    if steps.len() == 0 {
        0
    } else {
        quantity_of(steps.drop_last(), kind) + if steps.last().order.kind == kind {
            steps.last().fill.quantity
        } else {
            0
        }
    }
}

/// The notional of the fills of a kind.
pub open spec fn notional_of(steps: Seq<StepModel>, kind: OrderIntentKind) -> int
    decreases steps.len(),
{
    if steps.len() == 0 {
        0
    } else {
        notional_of(steps.drop_last(), kind) + if steps.last().order.kind == kind {
            steps.last().fill.price * steps.last().fill.quantity
        } else {
            0
        }
    }
}

/// The fees on all fills.
pub open spec fn fees_of(steps: Seq<StepModel>) -> int
    decreases steps.len(),
{
    if steps.len() == 0 {
        0
    } else {
        fees_of(steps.drop_last()) + steps.last().fill.fee_micros
    }
}

/// The contracts that are open after some fills.
pub open spec fn open_after(steps: Seq<StepModel>) -> int {
    quantity_of(steps, OrderIntentKind::Entry) - quantity_of(steps, OrderIntentKind::Exit)
}

/// Whether some fills are those of one position on `side`: entries on that side and
/// exits on the other, in any turn, none of them empty, no exit larger than what is
/// open, and something open before each fill but the first.
pub open spec fn one_position(side: Side, steps: Seq<StepModel>) -> bool
    decreases steps.len(),
{
    steps.len() > 0 ==> {
        let rest = steps.drop_last();
        let fill = steps.last().fill;
        &&& one_position(side, rest)
        &&& rest.len() > 0 ==> open_after(rest) > 0
        &&& fill.quantity > 0
        &&& match steps.last().order.kind {
            OrderIntentKind::Entry => fill.side == side,
            OrderIntentKind::Exit => fill.side != side && fill.quantity <= open_after(rest),
        }
    }
}

/// Whether every fill is taken into the cost basis exactly, in 64-bit integers.
pub open spec fn tracked_exactly(steps: Seq<StepModel>) -> bool
    decreases steps.len(),
{
    steps.len() > 0 ==> {
        &&& tracked_exactly(steps.drop_last())
        &&& tracks_exactly(
            held_after(steps.drop_last()),
            steps.last().order.kind,
            steps.last().fill,
        )
    }
}

/// One for a position that was bought, and minus one for one that was sold.
pub open spec fn direction(side: Side) -> int {
    match side {
        Side::Bid => 1,
        Side::Ask => -1,
    }
}

/// The profit of the fills of a position on `side`, if all of it is closed: the
/// signed difference of exit and entry notional, less all fees.
pub open spec fn profit_of(side: Side, steps: Seq<StepModel>) -> int {
    direction(side) * (notional_of(steps, OrderIntentKind::Exit) - notional_of(
        steps,
        OrderIntentKind::Entry,
    )) - fees_of(steps)
}

/// The life of one position, from the first entry to the fill that closes it. What is
/// open is held, on the side of the entries, and the history shows it as open; when
/// all of it is closed nothing is held, and the history shows it as closed. At each
/// point the history's realised profit is the sum of what the trades reported, of
/// which entries report none. And when all of it is closed, that sum is exactly the
/// signed difference of exit and entry notional, less all fees of entries and exits:
/// nothing is lost to rounding. It is so wherever the amounts are computed exactly.
pub proof fn positions_realize_their_profit(
    side: Side,
    history: LifecycleModel,
    steps: Seq<StepModel>,
)
    requires
        steps.len() > 0,
        one_position(side, steps),
        tracked_exactly(steps),
    ensures
        ({
            let now = history_after(history, steps);
            &&& open_after(steps) >= 0
            &&& open_after(steps) > 0 ==> {
                &&& held_after(steps) is Some
                &&& held_after(steps)->0.remaining_quantity == open_after(steps)
                &&& held_after(steps)->0.entry_side == side
                &&& held_after(steps)->0.realized_pnl_micros == reported(steps)
                &&& now.status == PositionStatus::Open
            }
            &&& open_after(steps) == 0 ==> {
                &&& held_after(steps) is None
                &&& now.status == PositionStatus::Closed
                &&& reported(steps) == profit_of(side, steps)
            }
            &&& now.realized_pnl_micros == reported(steps)
            &&& cost_basis(held_after(steps)) == reported(steps) - profit_of(side, steps)
            &&& steps.last().order.kind == OrderIntentKind::Entry ==> trade_of(
                held_after(steps.drop_last()),
                steps.last().fill,
                steps.last().order,
            ).realized_pnl_micros == 0
        }),
    decreases steps.len(),
{
    let rest = steps.drop_last();
    let fill = steps.last().fill;
    let kind = steps.last().order.kind;
    let held = held_after(rest);
    if rest.len() > 0 {
        positions_realize_their_profit(side, history, rest);
    } else {
        assert(held is None);
        assert(quantity_of(rest, OrderIntentKind::Entry) == 0);
        assert(quantity_of(rest, OrderIntentKind::Exit) == 0);
        assert(notional_of(rest, OrderIntentKind::Entry) == 0);
        assert(notional_of(rest, OrderIntentKind::Exit) == 0);
        assert(fees_of(rest) == 0 && reported(rest) == 0);
    }
    fills_move_the_cost_basis(held, kind, fill);
    assert(open_after(steps) == open_after(rest) + if kind == OrderIntentKind::Entry {
        fill.quantity
    } else {
        -fill.quantity
    });
    let worth = fill.price * fill.quantity;
    assert(fill.quantity * fill.price == worth) by (nonlinear_arith)
        requires
            worth == fill.price * fill.quantity,
    ;
    assert((-fill.quantity) * fill.price == -worth) by (nonlinear_arith)
        requires
            worth == fill.price * fill.quantity,
    ;
    assert(as_signed(fill.quantity) == fill.quantity);
}

} // verus!
