//! The strategy: trade a dislocation between fair value and order book.

use vstd::prelude::*;
use vstd::string::StringExecFns;
use vstd::utf8::encode_utf8;

use crate::fixed::{abs, greatest, least, magnitude, min_u64, quotient, sat, Price, SCALE};
use crate::ids::{digest_id, id_of, little_endian, push_little_endian};
use crate::paper::{unit_fee, unit_fee_micros};
use crate::text::{clone_text, decimal_signed, push_decimal_signed};
use crate::types::{
    order_option, EnvelopeModel, EventEnvelope, MarketEvent, MarketModel, MarketState, OrderIntent,
    OrderIntentKind, OrderModel, Side,
};

verus! {

/// The edge from which an entry pays, in millionths: five percent.
pub const ENTRY_EDGE_THRESHOLD_MICROS: i64 = 50_000;

/// The edge down to which a position is held, in millionths: one percent.
pub const EXIT_EDGE_THRESHOLD_MICROS: i64 = 10_000;

/// What a strategy made of an event.
#[derive(Debug)]
pub struct StrategyEvaluation {
    /// The candidate order, even if it was not eligible to submit.
    pub intent: Option<OrderIntent>,
    pub eligible: bool,
    pub reason: String,
}

/// The model of an evaluation.
#[verifier::ext_equal]
pub struct EvaluationModel {
    pub intent: Option<OrderModel>,
    pub eligible: bool,
    pub reason: Seq<char>,
}

impl View for StrategyEvaluation {
    type V = EvaluationModel;

    open spec fn view(&self) -> EvaluationModel {
        EvaluationModel {
            intent: order_option(self.intent),
            eligible: self.eligible,
            reason: self.reason@,
        }
    }
}

/// The models of some evaluations.
pub open spec fn evaluation_models(s: Seq<StrategyEvaluation>) -> Seq<EvaluationModel> {
    Seq::new(s.len(), |i: int| s[i]@)
}

/// A rule that turns market events into order candidates. It is a function of
/// its own state, the market and the event.
pub trait Strategy {
    /// The model of the strategy's state.
    type Model;

    /// The state of the strategy.
    spec fn model(&self) -> Self::Model;

    /// Whether the strategy can evaluate every event.
    spec fn ready(model: Self::Model) -> bool;

    /// The evaluations of an event.
    spec fn evaluations(model: Self::Model, state: MarketModel, event: EnvelopeModel) -> Seq<
        EvaluationModel,
    >;

    /// The state of the strategy after an event.
    spec fn advanced(model: Self::Model, state: MarketModel, event: EnvelopeModel) -> Self::Model;

    /// The name of the strategy.
    fn name(&self) -> &'static str;

    /// Evaluates an event in a market.
    fn on_event(&mut self, state: &MarketState, event: &EventEnvelope) -> (r: Vec<
        StrategyEvaluation,
    >)
        requires
            Self::ready(old(self).model()),
        ensures
            evaluation_models(r@) == Self::evaluations(old(self).model(), state@, event@),
            final(self).model() == Self::advanced(old(self).model(), state@, event@),
            Self::ready(final(self).model()),
    ;
}

/// The settings of the dislocation strategy.
#[derive(Clone, Copy, Debug, PartialEq, Eq, Structural)]
pub struct DislocationConfig {
    pub latency_haircut_micros: i64,
    pub taker_fee_rate_micros: i64,
    pub order_size: u64,
}

impl Default for DislocationConfig {
    fn default() -> (r: Self)
        ensures
            r == (DislocationConfig {
                latency_haircut_micros: 2_500,
                taker_fee_rate_micros: 1_000,
                order_size: 25,
            }),
    {
        DislocationConfig {
            latency_haircut_micros: 2_500,
            taker_fee_rate_micros: 1_000,
            order_size: 25,
        }
    }
}

/// Whether the edge after costs is a 64-bit integer for all prices. The fee on a
/// contract is largest in size at a price of one half.
pub open spec fn costs_fit(config: DislocationConfig) -> bool {
    let largest_fee = unit_fee(config.taker_fee_rate_micros as int, SCALE / 2);
    &&& i64::MIN <= -SCALE - greatest(largest_fee, 0) - config.latency_haircut_micros
    &&& SCALE - least(largest_fee, 0) - config.latency_haircut_micros <= i64::MAX
}

impl DislocationConfig {
    /// Whether the edge after costs is a 64-bit integer for all prices.
    pub fn fits(&self) -> (r: bool)
        ensures
            r == costs_fit(*self),
    {
        let largest_fee: i64 = unit_fee_micros(self.taker_fee_rate_micros, SCALE / 2);
        let above: i64 = if largest_fee > 0 {
            largest_fee
        } else {
            0
        };
        let below: i64 = if largest_fee < 0 {
            largest_fee
        } else {
            0
        };
        let haircut: i128 = self.latency_haircut_micros as i128;
        i64::MIN as i128 <= -(SCALE as i128) - above as i128 - haircut && SCALE as i128
            - below as i128 - haircut <= i64::MAX as i128
    }
}

/// The edge that is left of a gross edge after the fee at `price` and the
/// latency haircut.
pub open spec fn net_edge(config: DislocationConfig, gross: int, price: int) -> int {
    gross - unit_fee(config.taker_fee_rate_micros as int, price) - config.latency_haircut_micros
}

/// The edge of buying at the ask.
pub open spec fn buy_edge(config: DislocationConfig, fair: int, ask: int) -> int {
    net_edge(config, fair - ask, ask)
}

/// The edge of selling at the bid.
pub open spec fn sell_edge(config: DislocationConfig, fair: int, bid: int) -> int {
    net_edge(config, bid - fair, bid)
}

/// The edge that remains in a long position that could be sold at the bid.
pub open spec fn long_edge(config: DislocationConfig, fair: int, bid: int) -> int {
    net_edge(config, fair - bid, bid)
}

/// The edge that remains in a short position that could be bought back at the
/// ask.
pub open spec fn short_edge(config: DislocationConfig, fair: int, ask: int) -> int {
    net_edge(config, ask - fair, ask)
}

/// The order that the strategy considers.
pub struct CandidateModel {
    pub kind: OrderIntentKind,
    pub side: Side,
    pub price: int,
    pub edge: int,
    pub visible: int,
    pub quantity: int,
}

/// An entry on the given side at the top of the book.
pub open spec fn entry(
    config: DislocationConfig,
    side: Side,
    price: int,
    edge: int,
    visible: int,
) -> CandidateModel {
    CandidateModel {
        kind: OrderIntentKind::Entry,
        side,
        price,
        edge,
        visible,
        quantity: least(config.order_size as int, visible),
    }
}

/// The exit of a position at the top of the book.
pub open spec fn exit(
    side: Side,
    price: int,
    edge: int,
    visible: int,
    position: int,
) -> CandidateModel {
    CandidateModel {
        kind: OrderIntentKind::Exit,
        side,
        price,
        edge,
        visible,
        quantity: least(abs(position), visible),
    }
}

/// The order to consider: an open position is added to while its own side has
/// the entry edge, and else considered for exit; a flat one is entered on the
/// stronger side.
pub open spec fn candidate(
    config: DislocationConfig,
    state: MarketModel,
    fair: int,
    bid: int,
    ask: int,
) -> CandidateModel {
    let buy = buy_edge(config, fair, ask);
    let sell = sell_edge(config, fair, bid);
    if state.position > 0 {
        if buy >= ENTRY_EDGE_THRESHOLD_MICROS {
            entry(config, Side::Bid, ask, buy, state.ask_size)
        } else {
            exit(Side::Ask, bid, long_edge(config, fair, bid), state.bid_size, state.position)
        }
    } else if state.position < 0 {
        if sell >= ENTRY_EDGE_THRESHOLD_MICROS {
            entry(config, Side::Ask, bid, sell, state.bid_size)
        } else {
            exit(Side::Bid, ask, short_edge(config, fair, ask), state.ask_size, state.position)
        }
    } else if buy >= sell {
        entry(config, Side::Bid, ask, buy, state.ask_size)
    } else {
        entry(config, Side::Ask, bid, sell, state.bid_size)
    }
}

/// The number that stands for a kind in an order's identifier.
pub open spec fn kind_byte(kind: OrderIntentKind) -> u8 {
    match kind {
        OrderIntentKind::Entry => 0,
        OrderIntentKind::Exit => 1,
    }
}

/// The number that stands for a side in an order's identifier.
pub open spec fn side_byte(side: Side) -> u8 {
    match side {
        Side::Bid => 0,
        Side::Ask => 1,
    }
}

/// What an order's identifier is the digest of: the market, the sequence numbers
/// of the two feeds, the kind and the side.
pub open spec fn order_key(
    market: Seq<char>,
    source_seq: int,
    venue_seq: int,
    kind: OrderIntentKind,
    side: Side,
) -> Seq<u8> {
    encode_utf8(market) + little_endian(source_seq as nat, 8) + little_endian(venue_seq as nat, 8)
        + seq![kind_byte(kind), side_byte(side)]
}

/// The order of a candidate.
pub open spec fn candidate_order(
    state: MarketModel,
    event: EnvelopeModel,
    c: CandidateModel,
) -> OrderModel {
    OrderModel {
        id: digest_id(order_key(state.market, state.source_seq, state.venue_seq, c.kind, c.side)),
        market: state.market,
        kind: c.kind,
        side: c.side,
        limit_price: c.price,
        quantity: c.quantity,
        expected_edge_micros: c.edge,
        created_time_ns: event.received_time_ns,
        source_message_id: state.last_message_id,
        source_proof_ts: state.last_proof_ts,
    }
}

/// Whether a candidate is to be submitted: there is something to trade, and an
/// entry has the entry edge or an exit no more than the exit edge.
pub open spec fn qualifies(c: CandidateModel) -> bool {
    c.visible != 0 && c.quantity != 0 && match c.kind {
        OrderIntentKind::Entry => c.edge >= ENTRY_EDGE_THRESHOLD_MICROS,
        OrderIntentKind::Exit => c.edge <= EXIT_EDGE_THRESHOLD_MICROS,
    }
}

/// Why a candidate is to be submitted, or not.
pub open spec fn candidate_reason(c: CandidateModel) -> Seq<char> {
    if c.visible == 0 || c.quantity == 0 {
        "no visible liquidity at the executable price"@
    } else {
        match c.kind {
            OrderIntentKind::Entry => if c.edge >= ENTRY_EDGE_THRESHOLD_MICROS {
                "entry edge reached the 5% threshold"@
            } else {
                "net edge "@ + decimal_signed(c.edge) + " micros is below entry threshold "@
                    + decimal_signed(ENTRY_EDGE_THRESHOLD_MICROS as int) + " micros"@
            },
            OrderIntentKind::Exit => if c.edge <= EXIT_EDGE_THRESHOLD_MICROS {
                "edge mean-reverted to the 1% exit threshold"@
            } else {
                "position remains open while edge "@ + decimal_signed(c.edge)
                    + " micros is above exit threshold "@ + decimal_signed(
                    EXIT_EDGE_THRESHOLD_MICROS as int,
                ) + " micros"@
            },
        }
    }
}

/// The evaluation of a market whose prices are known as far as they are.
pub open spec fn assessment(
    config: DislocationConfig,
    state: MarketModel,
    event: EnvelopeModel,
) -> EvaluationModel {
    match (state.fair_value, state.best_bid, state.best_ask) {
        (Some(fair), Some(bid), Some(ask)) => {
            let c = candidate(config, state, fair, bid, ask);
            EvaluationModel {
                intent: Some(candidate_order(state, event, c)),
                eligible: qualifies(c),
                reason: candidate_reason(c),
            }
        },
        _ => EvaluationModel {
            intent: None,
            eligible: false,
            reason: "waiting for both fair value and order book"@,
        },
    }
}

/// The dislocation strategy.
pub struct DislocationTaker {
    config: DislocationConfig,
    last_source_seq: u64,
    last_venue_seq: u64,
}

/// The model of the dislocation strategy.
pub struct TakerModel {
    pub config: DislocationConfig,
    pub last_source_seq: int,
    pub last_venue_seq: int,
}

/// Whether an event calls for an evaluation: a fair value or a book that moved a
/// sequence number.
pub open spec fn is_news(taker: TakerModel, state: MarketModel, event: EnvelopeModel) -> bool {
    (event.event is FairValue || event.event is Book) && !(state.source_seq
        == taker.last_source_seq && state.venue_seq == taker.last_venue_seq)
}

impl DislocationTaker {
    /// A strategy with the given settings that has seen nothing.
    pub fn new(config: DislocationConfig) -> (r: Self)
        ensures
            r.model() == (TakerModel { config, last_source_seq: 0, last_venue_seq: 0 }),
    {
        DislocationTaker { config, last_source_seq: 0, last_venue_seq: 0 }
    }

    fn edge_after_costs(&self, gross_edge: i64, price_micros: i64) -> (r: i64)
        requires
            costs_fit(self.config),
            -SCALE <= gross_edge <= SCALE,
            0 <= price_micros <= SCALE,
        ensures
            r == net_edge(self.config, gross_edge as int, price_micros as int),
    {
        let fee: i64 = unit_fee_micros(self.config.taker_fee_rate_micros, price_micros);
        proof {
            lemma_fee_largest_at_half(
                self.config.taker_fee_rate_micros as int,
                price_micros as int,
            );
        }
        (gross_edge as i128 - fee as i128 - self.config.latency_haircut_micros as i128) as i64
    }

    /// Finds the order to consider.
    fn find_candidate(&self, state: &MarketState, fair: Price, bid: Price, ask: Price) -> (r:
        Candidate)
        requires
            costs_fit(self.config),
        ensures
            r@ == candidate(self.config, state@, fair@, bid@, ask@),
    {
        let f: i64 = fair.micros();
        let b: i64 = bid.micros();
        let a: i64 = ask.micros();
        let order_size: u64 = self.config.order_size;
        if state.position > 0 {
            let entry_edge: i64 = self.edge_after_costs(fair - ask, a);
            if entry_edge >= ENTRY_EDGE_THRESHOLD_MICROS {
                Candidate {
                    kind: OrderIntentKind::Entry,
                    side: Side::Bid,
                    price: ask,
                    edge: entry_edge,
                    visible: state.ask_size,
                    quantity: min_u64(order_size, state.ask_size),
                }
            } else {
                Candidate {
                    kind: OrderIntentKind::Exit,
                    side: Side::Ask,
                    price: bid,
                    edge: self.edge_after_costs(fair - bid, b),
                    visible: state.bid_size,
                    quantity: min_u64(magnitude(state.position), state.bid_size),
                }
            }
        } else if state.position < 0 {
            let entry_edge: i64 = self.edge_after_costs(bid - fair, b);
            if entry_edge >= ENTRY_EDGE_THRESHOLD_MICROS {
                Candidate {
                    kind: OrderIntentKind::Entry,
                    side: Side::Ask,
                    price: bid,
                    edge: entry_edge,
                    visible: state.bid_size,
                    quantity: min_u64(order_size, state.bid_size),
                }
            } else {
                Candidate {
                    kind: OrderIntentKind::Exit,
                    side: Side::Bid,
                    price: ask,
                    edge: self.edge_after_costs(ask - fair, a),
                    visible: state.ask_size,
                    quantity: min_u64(magnitude(state.position), state.ask_size),
                }
            }
        } else {
            let buy: i64 = self.edge_after_costs(fair - ask, a);
            let sell: i64 = self.edge_after_costs(bid - fair, b);
            if buy >= sell {
                Candidate {
                    kind: OrderIntentKind::Entry,
                    side: Side::Bid,
                    price: ask,
                    edge: buy,
                    visible: state.ask_size,
                    quantity: min_u64(order_size, state.ask_size),
                }
            } else {
                Candidate {
                    kind: OrderIntentKind::Entry,
                    side: Side::Ask,
                    price: bid,
                    edge: sell,
                    visible: state.bid_size,
                    quantity: min_u64(order_size, state.bid_size),
                }
            }
        }
    }
}

struct Candidate {
    kind: OrderIntentKind,
    side: Side,
    price: Price,
    edge: i64,
    visible: u64,
    quantity: u64,
}

impl View for Candidate {
    type V = CandidateModel;

    closed spec fn view(&self) -> CandidateModel {
        CandidateModel {
            kind: self.kind,
            side: self.side,
            price: self.price@,
            edge: self.edge as int,
            visible: self.visible as int,
            quantity: self.quantity as int,
        }
    }
}

impl Candidate {
    fn qualifies(&self) -> (r: bool)
        ensures
            r == qualifies(self@),
    {
        self.visible != 0 && self.quantity != 0 && match self.kind {
            OrderIntentKind::Entry => self.edge >= ENTRY_EDGE_THRESHOLD_MICROS,
            OrderIntentKind::Exit => self.edge <= EXIT_EDGE_THRESHOLD_MICROS,
        }
    }

    fn reason(&self) -> (r: String)
        ensures
            r@ == candidate_reason(self@),
    {
        if self.visible == 0 || self.quantity == 0 {
            return "no visible liquidity at the executable price".to_owned();
        }
        match self.kind {
            OrderIntentKind::Entry => if self.edge >= ENTRY_EDGE_THRESHOLD_MICROS {
                "entry edge reached the 5% threshold".to_owned()
            } else {
                threshold_text(
                    "net edge ",
                    self.edge,
                    " micros is below entry threshold ",
                    ENTRY_EDGE_THRESHOLD_MICROS,
                )
            },
            OrderIntentKind::Exit => if self.edge <= EXIT_EDGE_THRESHOLD_MICROS {
                "edge mean-reverted to the 1% exit threshold".to_owned()
            } else {
                threshold_text(
                    "position remains open while edge ",
                    self.edge,
                    " micros is above exit threshold ",
                    EXIT_EDGE_THRESHOLD_MICROS,
                )
            },
        }
    }
}

fn threshold_text(before: &str, edge: i64, between: &str, threshold: i64) -> (r: String)
    ensures
        r@ == before@ + decimal_signed(edge as int) + between@ + decimal_signed(threshold as int)
            + " micros"@,
{
    let mut out = before.to_owned();
    push_decimal_signed(&mut out, edge);
    out.append(between);
    push_decimal_signed(&mut out, threshold);
    out.append(" micros");
    out
}

impl Strategy for DislocationTaker {
    type Model = TakerModel;

    closed spec fn model(&self) -> TakerModel {
        TakerModel {
            config: self.config,
            last_source_seq: self.last_source_seq as int,
            last_venue_seq: self.last_venue_seq as int,
        }
    }

    open spec fn ready(model: TakerModel) -> bool {
        costs_fit(model.config)
    }

    open spec fn evaluations(model: TakerModel, state: MarketModel, event: EnvelopeModel) -> Seq<
        EvaluationModel,
    > {
        if is_news(model, state, event) {
            seq![assessment(model.config, state, event)]
        } else {
            Seq::empty()
        }
    }

    open spec fn advanced(
        model: TakerModel,
        state: MarketModel,
        event: EnvelopeModel,
    ) -> TakerModel {
        if is_news(model, state, event) {
            TakerModel {
                last_source_seq: state.source_seq,
                last_venue_seq: state.venue_seq,
                ..model
            }
        } else {
            model
        }
    }

    fn name(&self) -> (r: &'static str)
        ensures
            r@ == "dislocation_taker"@,
    {
        "dislocation_taker"
    }

    fn on_event(&mut self, state: &MarketState, event: &EventEnvelope) -> (r: Vec<
        StrategyEvaluation,
    >) {
        let mut out: Vec<StrategyEvaluation> = Vec::new();
        let relevant = match &event.event {
            MarketEvent::FairValue { .. } | MarketEvent::Book { .. } => true,
            _ => false,
        };
        if !relevant || (state.source_seq == self.last_source_seq && state.venue_seq
            == self.last_venue_seq) {
            assert(evaluation_models(out@) =~= Seq::<EvaluationModel>::empty());
            return out;
        }
        self.last_source_seq = state.source_seq;
        self.last_venue_seq = state.venue_seq;
        let evaluation = match (state.fair_value, state.best_bid, state.best_ask) {
            (Some(fair), Some(bid), Some(ask)) => {
                let c = self.find_candidate(state, fair, bid, ask);
                let intent = OrderIntent {
                    id: deterministic_order_id(state, c.kind, c.side),
                    market: state.market.clone(),
                    kind: c.kind,
                    side: c.side,
                    limit_price: c.price,
                    quantity: c.quantity,
                    expected_edge_micros: c.edge,
                    created_time_ns: event.received_time_ns,
                    source_message_id: clone_text(&state.last_message_id),
                    source_proof_ts: state.last_proof_ts,
                };
                StrategyEvaluation {
                    intent: Some(intent),
                    eligible: c.qualifies(),
                    reason: c.reason(),
                }
            },
            _ => StrategyEvaluation {
                intent: None,
                eligible: false,
                reason: "waiting for both fair value and order book".to_owned(),
            },
        };
        assert(evaluation@ == assessment(old(self).config, state@, event@));
        out.push(evaluation);
        assert(evaluation_models(out@) =~= seq![assessment(old(self).config, state@, event@)]);
        out
    }
}

/// The identifier of an order, which depends on what it was decided from alone.
fn deterministic_order_id(state: &MarketState, kind: OrderIntentKind, side: Side) -> (r: u128)
    ensures
        r == digest_id(
            order_key(state@.market, state@.source_seq, state@.venue_seq, kind, side),
        ),
{
    let mut key: Vec<u8> = Vec::new();
    let name = state.market.as_str().as_bytes();
    let mut i: usize = 0;
    while i < name.len()
        invariant
            i <= name@.len(),
            key@ == name@.take(i as int),
        decreases name@.len() - i,
    {
        key.push(name[i]);
        i = i + 1;
        assert(name@.take(i as int) =~= name@.take(i - 1).push(name@[i - 1]));
    }
    assert(name@.take(i as int) =~= encode_utf8(state.market@));
    push_little_endian(&mut key, state.source_seq);
    push_little_endian(&mut key, state.venue_seq);
    key.push(
        match kind {
            OrderIntentKind::Entry => 0,
            OrderIntentKind::Exit => 1,
        },
    );
    key.push(
        match side {
            Side::Bid => 0,
            Side::Ask => 1,
        },
    );
    assert(key@ =~= order_key(state@.market, state@.source_seq, state@.venue_seq, kind, side));
    id_of(&key)
}

proof fn lemma_fee_largest_at_half(rate: int, price: int)
    requires
        i64::MIN <= rate <= i64::MAX,
        0 <= price <= SCALE,
    ensures
        ({
            let largest = unit_fee(rate, SCALE / 2);
            least(largest, 0) <= unit_fee(rate, price) <= greatest(largest, 0)
        }),
{
    assert(0 <= price * (1_000_000 - price) <= 250_000_000_000) by (nonlinear_arith)
        requires
            0 <= price <= 1_000_000,
    ;
    let spread = price * (1_000_000 - price) / 1_000_000;
    assert(0 <= spread <= 250_000);
    let half: int = SCALE / 2;
    assert(half * (SCALE - half) == 250_000_000_000) by (nonlinear_arith)
        requires
            half == 500_000,
            SCALE == 1_000_000,
    ;
    assert(quotient(250_000_000_000, 1_000_000) == 250_000) by {
        assert(250_000_000_000int / 1_000_000 == 250_000);
    }
    assert(quotient(price * (SCALE - price), SCALE as int) == spread);
    let x = sat(spread * rate);
    let top = sat(250_000 * rate);
    assert(unit_fee(rate, price) == quotient(x, SCALE as int));
    assert(unit_fee(rate, half) == quotient(top, SCALE as int));
    if rate >= 0 {
        assert(0 <= spread * rate <= 250_000 * rate) by (nonlinear_arith)
            requires
                0 <= spread <= 250_000,
                rate >= 0,
        ;
        assert(0 <= x <= top);
    } else {
        assert(0 >= spread * rate >= 250_000 * rate) by (nonlinear_arith)
            requires
                0 <= spread <= 250_000,
                rate < 0,
        ;
        assert(0 >= x >= top);
    }
}

} // verus!
