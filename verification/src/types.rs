//! The data that runs through the engine, and its mathematical model.
//!
//! Each type that holds text or prices has a model: the same fields with text as
//! a sequence of characters and quantities as mathematical integers. `value@` is
//! the model of `value`.

use vstd::prelude::*;

use crate::clock::Timestamp;
use crate::fixed::{price_option, Price};
use crate::ids::random_id;
use crate::text::{clone_text, text_option};

verus! {

/// The name of a market.
pub type MarketId = String;

/// The side of an order.
#[derive(Clone, Copy, Debug, PartialEq, Eq, Structural)]
pub enum Side {
    Bid,
    Ask,
}

/// Where orders go.
#[derive(Clone, Copy, Debug, PartialEq, Eq, Structural)]
pub enum OrderMode {
    Paper,
    Live,
}

/// The state of a feed.
#[derive(Clone, Copy, Debug, PartialEq, Eq, Structural)]
pub enum FeedStatus {
    Connecting,
    Live,
    Stale,
    Disconnected,
}

/// Whether an order opens or closes a position.
#[derive(Clone, Copy, Debug, PartialEq, Eq, Structural)]
pub enum OrderIntentKind {
    Entry,
    Exit,
}

/// What a trade did.
#[derive(Clone, Copy, Debug, PartialEq, Eq, Structural)]
pub enum TradeAction {
    Buy,
    Sell,
}

/// Whether a position is held.
#[derive(Clone, Copy, Debug, PartialEq, Eq, Structural)]
pub enum PositionStatus {
    Open,
    Closed,
}

/// A normalised market event.
#[derive(Debug, PartialEq)]
pub enum MarketEvent {
    FairValue {
        market: MarketId,
        probability: Price,
        source_seq: u64,
        message_id: Option<String>,
        proof_ts: Option<i64>,
    },
    Book { market: MarketId, bid: Price, bid_size: u64, ask: Price, ask_size: u64, venue_seq: u64 },
    Score {
        market: MarketId,
        phase: String,
        home: u16,
        away: u16,
        danger: bool,
        suspended: bool,
    },
    Feed { feed: String, status: FeedStatus, sequence_gap: bool },
    Timer,
}

/// The model of a market event.
#[verifier::ext_equal]
pub enum EventModel {
    FairValue {
        market: Seq<char>,
        probability: int,
        source_seq: int,
        message_id: Option<Seq<char>>,
        proof_ts: Option<i64>,
    },
    Book { market: Seq<char>, bid: int, bid_size: int, ask: int, ask_size: int, venue_seq: int },
    Score {
        market: Seq<char>,
        phase: Seq<char>,
        home: u16,
        away: u16,
        danger: bool,
        suspended: bool,
    },
    Feed { feed: Seq<char>, status: FeedStatus, sequence_gap: bool },
    Timer,
}

impl View for MarketEvent {
    type V = EventModel;

    open spec fn view(&self) -> EventModel {
        match self {
            MarketEvent::FairValue { market, probability, source_seq, message_id, proof_ts } =>
            EventModel::FairValue {
                market: market@,
                probability: probability@,
                source_seq: *source_seq as int,
                message_id: text_option(*message_id),
                proof_ts: *proof_ts,
            },
            MarketEvent::Book { market, bid, bid_size, ask, ask_size, venue_seq } =>
            EventModel::Book {
                market: market@,
                bid: bid@,
                bid_size: *bid_size as int,
                ask: ask@,
                ask_size: *ask_size as int,
                venue_seq: *venue_seq as int,
            },
            MarketEvent::Score { market, phase, home, away, danger, suspended } =>
            EventModel::Score {
                market: market@,
                phase: phase@,
                home: *home,
                away: *away,
                danger: *danger,
                suspended: *suspended,
            },
            MarketEvent::Feed { feed, status, sequence_gap } => EventModel::Feed {
                feed: feed@,
                status: *status,
                sequence_gap: *sequence_gap,
            },
            MarketEvent::Timer => EventModel::Timer,
        }
    }
}

impl Clone for MarketEvent {
    fn clone(&self) -> (r: Self)
        ensures
            r@ == self@,
    {
        match self {
            MarketEvent::FairValue { market, probability, source_seq, message_id, proof_ts } =>
            MarketEvent::FairValue {
                market: market.clone(),
                probability: *probability,
                source_seq: *source_seq,
                message_id: clone_text(message_id),
                proof_ts: *proof_ts,
            },
            MarketEvent::Book { market, bid, bid_size, ask, ask_size, venue_seq } =>
            MarketEvent::Book {
                market: market.clone(),
                bid: *bid,
                bid_size: *bid_size,
                ask: *ask,
                ask_size: *ask_size,
                venue_seq: *venue_seq,
            },
            MarketEvent::Score { market, phase, home, away, danger, suspended } =>
            MarketEvent::Score {
                market: market.clone(),
                phase: phase.clone(),
                home: *home,
                away: *away,
                danger: *danger,
                suspended: *suspended,
            },
            MarketEvent::Feed { feed, status, sequence_gap } => MarketEvent::Feed {
                feed: feed.clone(),
                status: *status,
                sequence_gap: *sequence_gap,
            },
            MarketEvent::Timer => MarketEvent::Timer,
        }
    }
}

/// A market event with its identity and times.
#[derive(Debug, PartialEq)]
pub struct EventEnvelope {
    pub id: u128,
    pub source_time_ns: Option<u64>,
    pub received_time_ns: u64,
    pub event: MarketEvent,
}

/// The model of an event envelope.
#[verifier::ext_equal]
pub struct EnvelopeModel {
    pub id: int,
    pub source_time_ns: Option<u64>,
    pub received_time_ns: int,
    pub event: EventModel,
}

impl View for EventEnvelope {
    type V = EnvelopeModel;

    open spec fn view(&self) -> EnvelopeModel {
        EnvelopeModel {
            id: self.id as int,
            source_time_ns: self.source_time_ns,
            received_time_ns: self.received_time_ns as int,
            event: self.event@,
        }
    }
}

impl Clone for EventEnvelope {
    fn clone(&self) -> (r: Self)
        ensures
            r@ == self@,
    {
        EventEnvelope {
            id: self.id,
            source_time_ns: self.source_time_ns,
            received_time_ns: self.received_time_ns,
            event: self.event.clone(),
        }
    }
}

impl EventEnvelope {
    /// Wraps an event that was received at the given time. The identifier is
    /// random, so nothing is claimed of it.
    pub fn new(received_time_ns: u64, event: MarketEvent) -> (r: Self)
        ensures
            r.source_time_ns is None,
            r.received_time_ns == received_time_ns,
            r.event == event,
    {
        EventEnvelope { id: random_id(), source_time_ns: None, received_time_ns, event }
    }
}

/// An order that a strategy wants to send.
#[derive(Debug, PartialEq, Eq)]
pub struct OrderIntent {
    pub id: u128,
    pub market: MarketId,
    pub kind: OrderIntentKind,
    pub side: Side,
    pub limit_price: Price,
    pub quantity: u64,
    pub expected_edge_micros: i64,
    pub created_time_ns: u64,
    pub source_message_id: Option<String>,
    pub source_proof_ts: Option<i64>,
}

/// The model of an order.
#[verifier::ext_equal]
pub struct OrderModel {
    pub id: int,
    pub market: Seq<char>,
    pub kind: OrderIntentKind,
    pub side: Side,
    pub limit_price: int,
    pub quantity: int,
    pub expected_edge_micros: int,
    pub created_time_ns: int,
    pub source_message_id: Option<Seq<char>>,
    pub source_proof_ts: Option<i64>,
}

impl View for OrderIntent {
    type V = OrderModel;

    open spec fn view(&self) -> OrderModel {
        OrderModel {
            id: self.id as int,
            market: self.market@,
            kind: self.kind,
            side: self.side,
            limit_price: self.limit_price@,
            quantity: self.quantity as int,
            expected_edge_micros: self.expected_edge_micros as int,
            created_time_ns: self.created_time_ns as int,
            source_message_id: text_option(self.source_message_id),
            source_proof_ts: self.source_proof_ts,
        }
    }
}

impl Clone for OrderIntent {
    fn clone(&self) -> (r: Self)
        ensures
            r@ == self@,
    {
        OrderIntent {
            id: self.id,
            market: self.market.clone(),
            kind: self.kind,
            side: self.side,
            limit_price: self.limit_price,
            quantity: self.quantity,
            expected_edge_micros: self.expected_edge_micros,
            created_time_ns: self.created_time_ns,
            source_message_id: clone_text(&self.source_message_id),
            source_proof_ts: self.source_proof_ts,
        }
    }
}

/// The model of an optional order.
pub open spec fn order_option(order: Option<OrderIntent>) -> Option<OrderModel> {
    match order {
        Some(intent) => Some(intent@),
        None => None,
    }
}

/// What a venue executed.
#[derive(Debug, PartialEq, Eq)]
pub struct Fill {
    pub order_id: u128,
    pub market: MarketId,
    pub side: Side,
    pub price: Price,
    pub quantity: u64,
    pub fee_micros: i64,
    pub acknowledged_time_ns: u64,
}

/// The model of a fill.
#[verifier::ext_equal]
pub struct FillModel {
    pub order_id: int,
    pub market: Seq<char>,
    pub side: Side,
    pub price: int,
    pub quantity: int,
    pub fee_micros: int,
    pub acknowledged_time_ns: int,
}

impl View for Fill {
    type V = FillModel;

    open spec fn view(&self) -> FillModel {
        FillModel {
            order_id: self.order_id as int,
            market: self.market@,
            side: self.side,
            price: self.price@,
            quantity: self.quantity as int,
            fee_micros: self.fee_micros as int,
            acknowledged_time_ns: self.acknowledged_time_ns as int,
        }
    }
}

impl Clone for Fill {
    fn clone(&self) -> (r: Self)
        ensures
            r@ == self@,
    {
        Fill {
            order_id: self.order_id,
            market: self.market.clone(),
            side: self.side,
            price: self.price,
            quantity: self.quantity,
            fee_micros: self.fee_micros,
            acknowledged_time_ns: self.acknowledged_time_ns,
        }
    }
}

/// The model of an optional fill.
pub open spec fn fill_option(fill: Option<Fill>) -> Option<FillModel> {
    match fill {
        Some(fill) => Some(fill@),
        None => None,
    }
}

/// A fill with what it meant for the position.
#[derive(Debug, PartialEq, Eq)]
pub struct TradeEvent {
    pub order_id: u128,
    pub market: MarketId,
    pub kind: OrderIntentKind,
    pub action: TradeAction,
    pub timestamp: Timestamp,
    pub price: Price,
    pub edge_micros: i64,
    pub quantity: u64,
    pub realized_pnl_micros: i64,
}

/// The model of a trade.
#[verifier::ext_equal]
pub struct TradeModel {
    pub order_id: int,
    pub market: Seq<char>,
    pub kind: OrderIntentKind,
    pub action: TradeAction,
    pub timestamp: Timestamp,
    pub price: int,
    pub edge_micros: int,
    pub quantity: int,
    pub realized_pnl_micros: int,
}

impl View for TradeEvent {
    type V = TradeModel;

    open spec fn view(&self) -> TradeModel {
        TradeModel {
            order_id: self.order_id as int,
            market: self.market@,
            kind: self.kind,
            action: self.action,
            timestamp: self.timestamp,
            price: self.price@,
            edge_micros: self.edge_micros as int,
            quantity: self.quantity as int,
            realized_pnl_micros: self.realized_pnl_micros as int,
        }
    }
}

impl Clone for TradeEvent {
    fn clone(&self) -> (r: Self)
        ensures
            r@ == self@,
    {
        TradeEvent {
            order_id: self.order_id,
            market: self.market.clone(),
            kind: self.kind,
            action: self.action,
            timestamp: self.timestamp,
            price: self.price,
            edge_micros: self.edge_micros,
            quantity: self.quantity,
            realized_pnl_micros: self.realized_pnl_micros,
        }
    }
}

/// The model of an optional trade.
pub open spec fn trade_option(trade: Option<TradeEvent>) -> Option<TradeModel> {
    match trade {
        Some(trade) => Some(trade@),
        None => None,
    }
}

/// The history of the current or last position.
#[derive(Clone, Copy, Debug, PartialEq, Eq)]
pub struct PositionLifecycle {
    pub status: PositionStatus,
    pub entry_price: Option<Price>,
    pub exit_price: Option<Price>,
    pub entry_time: Option<Timestamp>,
    pub exit_time: Option<Timestamp>,
    pub holding_time_ns: u64,
    pub realized_pnl_micros: i64,
}

/// The model of a position's history.
pub struct LifecycleModel {
    pub status: PositionStatus,
    pub entry_price: Option<int>,
    pub exit_price: Option<int>,
    pub entry_time: Option<Timestamp>,
    pub exit_time: Option<Timestamp>,
    pub holding_time_ns: int,
    pub realized_pnl_micros: int,
}

impl View for PositionLifecycle {
    type V = LifecycleModel;

    open spec fn view(&self) -> LifecycleModel {
        LifecycleModel {
            status: self.status,
            entry_price: price_option(self.entry_price),
            exit_price: price_option(self.exit_price),
            entry_time: self.entry_time,
            exit_time: self.exit_time,
            holding_time_ns: self.holding_time_ns as int,
            realized_pnl_micros: self.realized_pnl_micros as int,
        }
    }
}

/// The history before any position.
pub open spec fn no_position() -> LifecycleModel {
    LifecycleModel {
        status: PositionStatus::Closed,
        entry_price: None,
        exit_price: None,
        entry_time: None,
        exit_time: None,
        holding_time_ns: 0,
        realized_pnl_micros: 0,
    }
}

impl Default for PositionLifecycle {
    fn default() -> (r: Self)
        ensures
            r@ == no_position(),
    {
        PositionLifecycle {
            status: PositionStatus::Closed,
            entry_price: None,
            exit_price: None,
            entry_time: None,
            exit_time: None,
            holding_time_ns: 0,
            realized_pnl_micros: 0,
        }
    }
}

/// What the latest order candidate needs in funds.
#[derive(Debug, PartialEq, Eq)]
pub struct NextOrderRequirement {
    pub side: Side,
    pub quantity: u64,
    pub price: Price,
    pub collateral_micros: i64,
    pub fee_micros: i64,
    pub required_funds_micros: i64,
    pub decision_status: String,
}

/// The model of a funds requirement.
#[verifier::ext_equal]
pub struct RequirementModel {
    pub side: Side,
    pub quantity: int,
    pub price: int,
    pub collateral_micros: int,
    pub fee_micros: int,
    pub required_funds_micros: int,
    pub decision_status: Seq<char>,
}

impl View for NextOrderRequirement {
    type V = RequirementModel;

    open spec fn view(&self) -> RequirementModel {
        RequirementModel {
            side: self.side,
            quantity: self.quantity as int,
            price: self.price@,
            collateral_micros: self.collateral_micros as int,
            fee_micros: self.fee_micros as int,
            required_funds_micros: self.required_funds_micros as int,
            decision_status: self.decision_status@,
        }
    }
}

/// The model of an optional funds requirement.
pub open spec fn requirement_option(value: Option<NextOrderRequirement>) -> Option<
    RequirementModel,
> {
    match value {
        Some(requirement) => Some(requirement@),
        None => None,
    }
}

/// How many more contracts the limits allow.
#[derive(Debug, PartialEq, Eq)]
pub struct RiskCapacitySnapshot {
    pub position_limit: i64,
    pub notional_limit_micros: i64,
    pub effective_position_limit: u64,
    pub remaining_contracts: u64,
    pub limiting_gate: String,
}

/// The model of a capacity.
#[verifier::ext_equal]
pub struct CapacityModel {
    pub position_limit: int,
    pub notional_limit_micros: int,
    pub effective_position_limit: int,
    pub remaining_contracts: int,
    pub limiting_gate: Seq<char>,
}

impl View for RiskCapacitySnapshot {
    type V = CapacityModel;

    open spec fn view(&self) -> CapacityModel {
        CapacityModel {
            position_limit: self.position_limit as int,
            notional_limit_micros: self.notional_limit_micros as int,
            effective_position_limit: self.effective_position_limit as int,
            remaining_contracts: self.remaining_contracts as int,
            limiting_gate: self.limiting_gate@,
        }
    }
}

impl Default for RiskCapacitySnapshot {
    fn default() -> (r: Self)
        ensures
            r@ == (CapacityModel {
                position_limit: 0,
                notional_limit_micros: 0,
                effective_position_limit: 0,
                remaining_contracts: 0,
                limiting_gate: Seq::empty(),
            }),
    {
        let gate = String::new();
        assert(gate@ =~= Seq::<char>::empty());
        RiskCapacitySnapshot {
            position_limit: 0,
            notional_limit_micros: 0,
            effective_position_limit: 0,
            remaining_contracts: 0,
            limiting_gate: gate,
        }
    }
}

/// What is known of a market and of the account in it.
#[derive(Debug, PartialEq)]
pub struct MarketState {
    pub market: MarketId,
    pub fair_value: Option<Price>,
    pub best_bid: Option<Price>,
    pub best_ask: Option<Price>,
    pub bid_size: u64,
    pub ask_size: u64,
    pub position: i64,
    pub cash_micros: i64,
    pub fees_micros: i64,
    pub pnl_micros: i64,
    pub phase: String,
    pub score_home: u16,
    pub score_away: u16,
    pub danger: bool,
    pub suspended: bool,
    pub last_fair_time_ns: u64,
    pub last_book_time_ns: u64,
    pub source_seq: u64,
    pub venue_seq: u64,
    pub last_message_id: Option<String>,
    pub last_proof_ts: Option<i64>,
}

/// The model of a market state.
#[verifier::ext_equal]
pub struct MarketModel {
    pub market: Seq<char>,
    pub fair_value: Option<int>,
    pub best_bid: Option<int>,
    pub best_ask: Option<int>,
    pub bid_size: int,
    pub ask_size: int,
    pub position: int,
    pub cash_micros: int,
    pub fees_micros: int,
    pub pnl_micros: int,
    pub phase: Seq<char>,
    pub score_home: u16,
    pub score_away: u16,
    pub danger: bool,
    pub suspended: bool,
    pub last_fair_time_ns: int,
    pub last_book_time_ns: int,
    pub source_seq: int,
    pub venue_seq: int,
    pub last_message_id: Option<Seq<char>>,
    pub last_proof_ts: Option<i64>,
}

impl View for MarketState {
    type V = MarketModel;

    open spec fn view(&self) -> MarketModel {
        MarketModel {
            market: self.market@,
            fair_value: price_option(self.fair_value),
            best_bid: price_option(self.best_bid),
            best_ask: price_option(self.best_ask),
            bid_size: self.bid_size as int,
            ask_size: self.ask_size as int,
            position: self.position as int,
            cash_micros: self.cash_micros as int,
            fees_micros: self.fees_micros as int,
            pnl_micros: self.pnl_micros as int,
            phase: self.phase@,
            score_home: self.score_home,
            score_away: self.score_away,
            danger: self.danger,
            suspended: self.suspended,
            last_fair_time_ns: self.last_fair_time_ns as int,
            last_book_time_ns: self.last_book_time_ns as int,
            source_seq: self.source_seq as int,
            venue_seq: self.venue_seq as int,
            last_message_id: text_option(self.last_message_id),
            last_proof_ts: self.last_proof_ts,
        }
    }
}

impl Clone for MarketState {
    fn clone(&self) -> (r: Self)
        ensures
            r@ == self@,
    {
        MarketState {
            market: self.market.clone(),
            fair_value: self.fair_value,
            best_bid: self.best_bid,
            best_ask: self.best_ask,
            bid_size: self.bid_size,
            ask_size: self.ask_size,
            position: self.position,
            cash_micros: self.cash_micros,
            fees_micros: self.fees_micros,
            pnl_micros: self.pnl_micros,
            phase: self.phase.clone(),
            score_home: self.score_home,
            score_away: self.score_away,
            danger: self.danger,
            suspended: self.suspended,
            last_fair_time_ns: self.last_fair_time_ns,
            last_book_time_ns: self.last_book_time_ns,
            source_seq: self.source_seq,
            venue_seq: self.venue_seq,
            last_message_id: clone_text(&self.last_message_id),
            last_proof_ts: self.last_proof_ts,
        }
    }
}

/// The state of a market of which nothing is known.
pub open spec fn unknown_market() -> MarketModel {
    MarketModel {
        market: Seq::empty(),
        fair_value: None,
        best_bid: None,
        best_ask: None,
        bid_size: 0,
        ask_size: 0,
        position: 0,
        cash_micros: 0,
        fees_micros: 0,
        pnl_micros: 0,
        phase: Seq::empty(),
        score_home: 0,
        score_away: 0,
        danger: false,
        suspended: false,
        last_fair_time_ns: 0,
        last_book_time_ns: 0,
        source_seq: 0,
        venue_seq: 0,
        last_message_id: None,
        last_proof_ts: None,
    }
}

impl Default for MarketState {
    fn default() -> (r: Self)
        ensures
            r@ == unknown_market(),
    {
        let r = MarketState {
            market: String::new(),
            fair_value: None,
            best_bid: None,
            best_ask: None,
            bid_size: 0,
            ask_size: 0,
            position: 0,
            cash_micros: 0,
            fees_micros: 0,
            pnl_micros: 0,
            phase: String::new(),
            score_home: 0,
            score_away: 0,
            danger: false,
            suspended: false,
            last_fair_time_ns: 0,
            last_book_time_ns: 0,
            source_seq: 0,
            venue_seq: 0,
            last_message_id: None,
            last_proof_ts: None,
        };
        assert(r@.market =~= Seq::<char>::empty());
        assert(r@.phase =~= Seq::<char>::empty());
        r
    }
}

/// Whether an event is older than what the state already holds: a fair value or
/// a book whose sequence number does not exceed the last one.
pub open spec fn outdated(state: MarketModel, event: EventModel) -> bool {
    match event {
        EventModel::FairValue { source_seq, .. } => state.source_seq > 0 && source_seq
            <= state.source_seq,
        EventModel::Book { venue_seq, .. } => state.venue_seq > 0 && venue_seq <= state.venue_seq,
        _ => false,
    }
}

/// The state after an event that is not outdated.
pub open spec fn updated(state: MarketModel, envelope: EnvelopeModel) -> MarketModel {
    match envelope.event {
        EventModel::FairValue { market, probability, source_seq, message_id, proof_ts } =>
        MarketModel {
            market,
            fair_value: Some(probability),
            source_seq,
            last_message_id: message_id,
            last_proof_ts: proof_ts,
            last_fair_time_ns: envelope.received_time_ns,
            ..state
        },
        EventModel::Book { market, bid, bid_size, ask, ask_size, venue_seq } => MarketModel {
            market,
            best_bid: Some(bid),
            best_ask: Some(ask),
            bid_size,
            ask_size,
            venue_seq,
            last_book_time_ns: envelope.received_time_ns,
            ..state
        },
        EventModel::Score { market, phase, home, away, danger, suspended } => MarketModel {
            market,
            phase,
            score_home: home,
            score_away: away,
            danger,
            suspended,
            ..state
        },
        _ => state,
    }
}

impl MarketState {
    /// Takes an event into the state, unless it is outdated.
    pub fn apply(&mut self, envelope: &EventEnvelope) -> (r: bool)
        ensures
            r == !outdated(old(self)@, envelope@.event),
            final(self)@ == if r {
                updated(old(self)@, envelope@)
            } else {
                old(self)@
            },
    {
        match &envelope.event {
            MarketEvent::FairValue { market, probability, source_seq, message_id, proof_ts } => {
                if self.source_seq > 0 && *source_seq <= self.source_seq {
                    return false;
                }
                self.market = market.clone();
                self.fair_value = Some(*probability);
                self.source_seq = *source_seq;
                self.last_message_id = clone_text(message_id);
                self.last_proof_ts = *proof_ts;
                self.last_fair_time_ns = envelope.received_time_ns;
            },
            MarketEvent::Book { market, bid, bid_size, ask, ask_size, venue_seq } => {
                if self.venue_seq > 0 && *venue_seq <= self.venue_seq {
                    return false;
                }
                self.market = market.clone();
                self.best_bid = Some(*bid);
                self.best_ask = Some(*ask);
                self.bid_size = *bid_size;
                self.ask_size = *ask_size;
                self.venue_seq = *venue_seq;
                self.last_book_time_ns = envelope.received_time_ns;
            },
            MarketEvent::Score { market, phase, home, away, danger, suspended } => {
                self.market = market.clone();
                self.phase = phase.clone();
                self.score_home = *home;
                self.score_away = *away;
                self.danger = *danger;
                self.suspended = *suspended;
            },
            MarketEvent::Feed { .. } | MarketEvent::Timer => {},
        }
        true
    }
}

/// After an event is applied, the same event is outdated: a second delivery of a
/// fair value or a book changes nothing. A sequence number of zero is left out,
/// since it stands for a feed that has not begun to count.
pub proof fn redelivery_is_outdated(state: MarketModel, envelope: EnvelopeModel)
    requires
        match envelope.event {
            EventModel::FairValue { source_seq, .. } => source_seq > 0,
            EventModel::Book { venue_seq, .. } => venue_seq > 0,
            _ => false,
        },
        !outdated(state, envelope.event),
    ensures
        outdated(updated(state, envelope), envelope.event),
{
}

/// Applying an event leaves the account as it is: position, cash and fees change
/// only through fills.
pub proof fn events_leave_the_account(state: MarketModel, envelope: EnvelopeModel)
    ensures
        updated(state, envelope).position == state.position,
        updated(state, envelope).cash_micros == state.cash_micros,
        updated(state, envelope).fees_micros == state.fees_micros,
        updated(state, envelope).pnl_micros == state.pnl_micros,
{
}

/// The record of one decision of the engine.
#[derive(Debug, PartialEq)]
pub struct DecisionRecord {
    pub id: u128,
    pub at: Timestamp,
    pub event_id: u128,
    pub market: MarketId,
    pub action: String,
    pub reason: String,
    pub intent: Option<OrderIntent>,
    pub compute_latency_ns: u64,
}

/// What a decision record holds by chance: its random identifier and the time
/// that the decision took.
pub struct Stamp {
    pub id: int,
    pub compute_latency_ns: int,
}

/// The model of a decision record.
#[verifier::ext_equal]
pub struct DecisionModel {
    pub stamp: Stamp,
    pub at: Timestamp,
    pub event_id: int,
    pub market: Seq<char>,
    pub action: Seq<char>,
    pub reason: Seq<char>,
    pub intent: Option<OrderModel>,
}

impl View for DecisionRecord {
    type V = DecisionModel;

    open spec fn view(&self) -> DecisionModel {
        DecisionModel {
            stamp: Stamp {
                id: self.id as int,
                compute_latency_ns: self.compute_latency_ns as int,
            },
            at: self.at,
            event_id: self.event_id as int,
            market: self.market@,
            action: self.action@,
            reason: self.reason@,
            intent: order_option(self.intent),
        }
    }
}

/// A copy of an optional order.
pub(crate) fn clone_order(order: &Option<OrderIntent>) -> (r: Option<OrderIntent>)
    ensures
        order_option(r) == order_option(*order),
{
    match order {
        Some(intent) => Some(intent.clone()),
        None => None,
    }
}

impl Clone for DecisionRecord {
    fn clone(&self) -> (r: Self)
        ensures
            r@ == self@,
    {
        DecisionRecord {
            id: self.id,
            at: self.at,
            event_id: self.event_id,
            market: self.market.clone(),
            action: self.action.clone(),
            reason: self.reason.clone(),
            intent: clone_order(&self.intent),
            compute_latency_ns: self.compute_latency_ns,
        }
    }
}

} // verus!
