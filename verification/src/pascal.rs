//! Pascal: the order book and the market catalogue.
//!
//! The service hands over the texts that it received. Here they are read, the
//! price levels are kept, and the top of the book becomes an event.

use std::collections::BTreeMap;

use vstd::prelude::*;
use vstd::string::StringExecFns;

use crate::encoding::{json_quote, json_quoted};
use crate::fixed::{price_written, Price, SCALE};
use crate::json::{
    field, items_of, json_models, json_option, json_read, parse_json, text_of, unsigned_of,
    JsonModel, JsonValue,
};
use crate::text::{
    count_before, from_chars, lemma_length_before, length_before, matches_at, parse_u64, same_text,
    slice_of, stands_at, to_chars, u64_written,
};
use crate::txline::{collect_texts, or_empty, texts, texts_in};
use crate::types::{EventEnvelope, EventModel, MarketEvent};

verus! {

/// Where Pascal is, and which book to follow.
#[derive(Debug)]
pub struct PascalConfig {
    pub ws_url: String,
    pub symbol: String,
    pub market: String,
}

impl Clone for PascalConfig {
    fn clone(&self) -> (r: Self)
        ensures
            r.ws_url@ == self.ws_url@,
            r.symbol@ == self.symbol@,
            r.market@ == self.market@,
    {
        PascalConfig {
            ws_url: self.ws_url.clone(),
            symbol: self.symbol.clone(),
            market: self.market.clone(),
        }
    }
}

/// A market of the catalogue.
#[derive(Debug)]
pub struct PascalMarket {
    pub symbol: String,
    pub event_description: String,
    pub market_description: String,
    pub market_period: String,
    pub expected_event_start_time_ms: Option<u64>,
    pub tags: Vec<String>,
}

/// The model of a market.
#[verifier::ext_equal]
pub struct PascalMarketModel {
    pub symbol: Seq<char>,
    pub event_description: Seq<char>,
    pub market_description: Seq<char>,
    pub market_period: Seq<char>,
    pub expected_event_start_time_ms: Option<u64>,
    pub tags: Seq<Seq<char>>,
}

impl View for PascalMarket {
    type V = PascalMarketModel;

    open spec fn view(&self) -> PascalMarketModel {
        PascalMarketModel {
            symbol: self.symbol@,
            event_description: self.event_description@,
            market_description: self.market_description@,
            market_period: self.market_period@,
            expected_event_start_time_ms: self.expected_event_start_time_ms,
            tags: texts(self.tags@),
        }
    }
}

/// Why something that Pascal sent, or its address, cannot be used.
#[derive(Debug, PartialEq, Eq)]
pub enum PascalFault {
    NotJson,
    Subscription { message: String },
    MissingData,
    NotAWebSocket,
    MissingHost,
    MissingMarkets,
}

/// The model of a fault.
#[verifier::ext_equal]
pub enum PascalFaultModel {
    NotJson,
    Subscription { message: Seq<char> },
    MissingData,
    NotAWebSocket,
    MissingHost,
    MissingMarkets,
}

impl View for PascalFault {
    type V = PascalFaultModel;

    open spec fn view(&self) -> PascalFaultModel {
        match self {
            PascalFault::NotJson => PascalFaultModel::NotJson,
            PascalFault::Subscription { message } => PascalFaultModel::Subscription {
                message: message@,
            },
            PascalFault::MissingData => PascalFaultModel::MissingData,
            PascalFault::NotAWebSocket => PascalFaultModel::NotAWebSocket,
            PascalFault::MissingHost => PascalFaultModel::MissingHost,
            PascalFault::MissingMarkets => PascalFaultModel::MissingMarkets,
        }
    }
}

/// The message shown to an operator.
pub open spec fn pascal_fault_text(fault: PascalFaultModel) -> Seq<char> {
    match fault {
        PascalFaultModel::NotJson => "invalid Pascal JSON"@,
        PascalFaultModel::Subscription { message } => "Pascal subscription failed: "@ + message,
        PascalFaultModel::MissingData => "Pascal book message missing data"@,
        PascalFaultModel::NotAWebSocket => "Pascal websocket URL must use ws:// or wss://"@,
        PascalFaultModel::MissingHost => "Pascal websocket URL is missing a host"@,
        PascalFaultModel::MissingMarkets => "Pascal market response missing data array"@,
    }
}

impl PascalFault {
    /// The message shown to an operator.
    pub fn message(&self) -> (r: String)
        ensures
            r@ == pascal_fault_text(self@),
    {
        match self {
            PascalFault::NotJson => "invalid Pascal JSON".to_owned(),
            PascalFault::Subscription { message } => {
                let mut out = "Pascal subscription failed: ".to_owned();
                out.append(message.as_str());
                out
            },
            PascalFault::MissingData => "Pascal book message missing data".to_owned(),
            PascalFault::NotAWebSocket =>
            "Pascal websocket URL must use ws:// or wss://".to_owned(),
            PascalFault::MissingHost => "Pascal websocket URL is missing a host".to_owned(),
            PascalFault::MissingMarkets => "Pascal market response missing data array".to_owned(),
        }
    }
}

/// One side of the book: the visible contracts at each price in millionths.
pub struct PriceLevels {
    levels: BTreeMap<i64, u64>,
}

impl View for PriceLevels {
    type V = Map<i64, u64>;

    closed spec fn view(&self) -> Map<i64, u64> {
        self.levels@
    }
}

/// Whether `price` is the highest price of a side.
pub open spec fn is_highest(levels: Map<i64, u64>, price: i64) -> bool {
    levels.contains_key(price) && forall|other: i64| #[trigger]
        levels.contains_key(other) ==> other <= price
}

/// Whether `price` is the lowest price of a side.
pub open spec fn is_lowest(levels: Map<i64, u64>, price: i64) -> bool {
    levels.contains_key(price) && forall|other: i64| #[trigger]
        levels.contains_key(other) ==> price <= other
}

/// Whether a side has no level.
pub open spec fn no_levels(levels: Map<i64, u64>) -> bool {
    forall|price: i64| !levels.contains_key(price)
}

/// The highest price of a side and the contracts there.
pub open spec fn highest(levels: Map<i64, u64>) -> Option<(int, int)> {
    if no_levels(levels) {
        None
    } else {
        let price = choose|price: i64| is_highest(levels, price);
        Some((price as int, levels[price] as int))
    }
}

/// The lowest price of a side and the contracts there.
pub open spec fn lowest(levels: Map<i64, u64>) -> Option<(int, int)> {
    if no_levels(levels) {
        None
    } else {
        let price = choose|price: i64| is_lowest(levels, price);
        Some((price as int, levels[price] as int))
    }
}

/// Calls `BTreeMap::last_key_value`: the largest key with its value, nothing for
/// an empty map.
#[verifier::external_body]
fn last_level(levels: &BTreeMap<i64, u64>) -> (r: Option<(i64, u64)>)
    ensures
        match r {
            Some((price, size)) => is_highest(levels@, price) && levels@[price] == size,
            None => no_levels(levels@),
        },
{
    levels.last_key_value().map(|(price, size)| (*price, *size))
}

/// Calls `BTreeMap::first_key_value`: the smallest key with its value, nothing
/// for an empty map.
#[verifier::external_body]
fn first_level(levels: &BTreeMap<i64, u64>) -> (r: Option<(i64, u64)>)
    ensures
        match r {
            Some((price, size)) => is_lowest(levels@, price) && levels@[price] == size,
            None => no_levels(levels@),
        },
{
    levels.first_key_value().map(|(price, size)| (*price, *size))
}

/// The model of a price with a number of contracts.
pub open spec fn level_option(level: Option<(Price, u64)>) -> Option<(int, int)> {
    match level {
        Some((price, size)) => Some((price@, size as int)),
        None => None,
    }
}

impl PriceLevels {
    #[verifier::type_invariant]
    spec fn prices_in_range(self) -> bool {
        forall|price: i64| #[trigger] self.levels@.contains_key(price) ==> 0 <= price <= SCALE
    }

    /// A side without levels.
    pub fn new() -> (r: Self)
        ensures
            r@ == Map::<i64, u64>::empty(),
    {
        PriceLevels { levels: BTreeMap::new() }
    }

    /// Removes all levels.
    pub fn clear(&mut self)
        ensures
            final(self)@ == Map::<i64, u64>::empty(),
    {
        self.levels = BTreeMap::new();
    }

    /// Whether there is no level.
    pub fn is_empty(&self) -> (r: bool)
        ensures
            r == no_levels(self@),
    {
        match first_level(&self.levels) {
            Some(_) => false,
            None => true,
        }
    }

    /// Sets the contracts at a price. None removes the level.
    pub fn set(&mut self, price: Price, size: u64)
        ensures
            final(self)@ == if size == 0 {
                old(self)@.remove(price@ as i64)
            } else {
                old(self)@.insert(price@ as i64, size)
            },
    {
        broadcast use vstd::std_specs::btree::group_btree_axioms;

        proof {
            use_type_invariant(&*self);
        }
        let micros: i64 = price.micros();
        let mut levels: BTreeMap<i64, u64> = BTreeMap::new();
        core::mem::swap(&mut levels, &mut self.levels);
        if size == 0 {
            let _ = levels.remove(&micros);
        } else {
            let _ = levels.insert(micros, size);
        }
        self.levels = levels;
    }

    /// The highest price and the contracts there.
    pub fn last_key_value(&self) -> (r: Option<(Price, u64)>)
        ensures
            level_option(r) == highest(self@),
    {
        proof {
            use_type_invariant(self);
        }
        match last_level(&self.levels) {
            Some((price, size)) => {
                proof {
                    let chosen = choose|p: i64| is_highest(self.levels@, p);
                    assert(is_highest(self.levels@, price));
                    assert(chosen == price);
                }
                match Price::from_micros(price) {
                    Ok(price) => Some((price, size)),
                    Err(_) => None,
                }
            },
            None => None,
        }
    }

    /// The lowest price and the contracts there.
    pub fn first_key_value(&self) -> (r: Option<(Price, u64)>)
        ensures
            level_option(r) == lowest(self@),
    {
        proof {
            use_type_invariant(self);
        }
        match first_level(&self.levels) {
            Some((price, size)) => {
                proof {
                    let chosen = choose|p: i64| is_lowest(self.levels@, p);
                    assert(is_lowest(self.levels@, price));
                    assert(chosen == price);
                }
                match Price::from_micros(price) {
                    Ok(price) => Some((price, size)),
                    Err(_) => None,
                }
            },
            None => None,
        }
    }
}

/// The level that a value describes: an array of a price and a number of
/// contracts, both as text.
pub open spec fn level_in(value: JsonModel) -> Option<(int, int)> {
    match items_of(value) {
        None => None,
        Some(items) => if items.len() < 2 {
            None
        } else {
            match (text_of(items[0]), text_of(items[1])) {
                (Some(price), Some(size)) => match (price_written(price), u64_written(size)) {
                    (Ok(p), Some(n)) => Some((p, n)),
                    _ => None,
                },
                _ => None,
            }
        },
    }
}

/// A side of the book after one level: none removes it, another number sets it.
/// What is no level changes nothing.
pub open spec fn level_applied(levels: Map<i64, u64>, value: JsonModel) -> Map<i64, u64> {
    match level_in(value) {
        Some((price, size)) => if size == 0 {
            levels.remove(price as i64)
        } else {
            levels.insert(price as i64, size as u64)
        },
        None => levels,
    }
}

/// A side of the book after some levels.
pub open spec fn levels_applied(levels: Map<i64, u64>, items: Seq<JsonModel>) -> Map<i64, u64>
    decreases items.len(),
{
    if items.len() == 0 {
        levels
    } else {
        level_applied(levels_applied(levels, items.drop_last()), items.last())
    }
}

/// A side of the book after the levels in a value that may be there.
pub open spec fn side_applied(levels: Map<i64, u64>, value: Option<JsonModel>) -> Map<i64, u64> {
    match value {
        Some(list) => match items_of(list) {
            Some(items) => levels_applied(levels, items),
            None => levels,
        },
        None => levels,
    }
}

fn read_level(value: &JsonValue) -> (r: Option<(Price, u64)>)
    ensures
        level_option(r) == level_in(value@),
{
    let items = match value.as_array() {
        Some(items) => items,
        None => return None,
    };
    assert(json_models(items@).len() == items@.len());
    if items.len() < 2 {
        return None;
    }
    assert(json_models(items@)[0] == items@[0]@);
    assert(json_models(items@)[1] == items@[1]@);
    let price = match items[0].as_str() {
        Some(text) => match Price::from_decimal(text.as_str()) {
            Ok(price) => price,
            Err(_) => return None,
        },
        None => return None,
    };
    match items[1].as_str() {
        Some(text) => match parse_u64(&to_chars(text.as_str())) {
            Some(size) => Some((price, size)),
            None => None,
        },
        None => None,
    }
}

/// Takes the levels in a value into a side of the book.
pub fn apply_levels(book: &mut PriceLevels, value: Option<&JsonValue>)
    ensures
        final(book)@ == side_applied(old(book)@, json_option(value)),
{
    let list = match value {
        Some(list) => list,
        None => return ,
    };
    let items = match list.as_array() {
        Some(items) => items,
        None => return ,
    };
    let ghost models = json_models(items@);
    let mut i: usize = 0;
    assert(models.take(0) =~= Seq::<JsonModel>::empty());
    while i < items.len()
        invariant
            i <= items@.len(),
            models == json_models(items@),
            book@ == levels_applied(old(book)@, models.take(i as int)),
        decreases items@.len() - i,
    {
        assert(models.take(i + 1).drop_last() =~= models.take(i as int));
        assert(models.take(i + 1).last() == items@[i as int]@);
        if let Some((price, size)) = read_level(&items[i]) {
            book.set(price, size);
        }
        i = i + 1;
    }
    assert(models.take(i as int) =~= models);
}

/// The text of a field.
pub open spec fn field_text(value: JsonModel, key: Seq<char>) -> Option<Seq<char>> {
    match field(value, key) {
        Some(hit) => text_of(hit),
        None => None,
    }
}

/// The unsigned integer of a field.
pub open spec fn field_unsigned(value: JsonModel, key: Seq<char>) -> Option<int> {
    match field(value, key) {
        Some(hit) => unsigned_of(hit),
        None => None,
    }
}

fn get_text<'a>(value: &'a JsonValue, key: &str) -> (r: Option<&'a String>)
    ensures
        match r {
            Some(s) => field_text(value@, key@) == Some(s@),
            None => field_text(value@, key@) is None,
        },
{
    match value.get(key) {
        Some(hit) => hit.as_str(),
        None => None,
    }
}

fn text_is(value: &JsonValue, key: &str, expected: &str) -> (r: bool)
    ensures
        r == (field_text(value@, key@) == Some(expected@)),
{
    match get_text(value, key) {
        Some(s) => same_text(s.as_str(), expected),
        None => false,
    }
}

/// Reads the unsigned integer of a field.
fn get_unsigned(value: &JsonValue, key: &str) -> (r: Option<u64>)
    ensures
        match r {
            Some(n) => field_unsigned(value@, key@) == Some(n as int),
            None => field_unsigned(value@, key@) is None,
        },
{
    match value.get(key) {
        Some(hit) => hit.unsigned(),
        None => None,
    }
}

/// Both sides of a book.
pub struct PascalBook {
    pub bids: PriceLevels,
    pub asks: PriceLevels,
}

/// The model of a book.
#[verifier::ext_equal]
pub struct BookModel {
    pub bids: Map<i64, u64>,
    pub asks: Map<i64, u64>,
}

impl View for PascalBook {
    type V = BookModel;

    open spec fn view(&self) -> BookModel {
        BookModel { bids: self.bids@, asks: self.asks@ }
    }
}

impl PascalBook {
    /// A book without levels.
    pub fn new() -> (r: Self)
        ensures
            r@ == (BookModel { bids: Map::empty(), asks: Map::empty() }),
    {
        PascalBook { bids: PriceLevels::new(), asks: PriceLevels::new() }
    }
}

/// What came of a message.
#[derive(Debug)]
pub enum BookStep {
    /// The message is not about the book, or a side of the book is empty.
    Ignored,
    /// The message has no sequence number.
    Dropped,
    Event(EventEnvelope),
}

/// The model of what came of a message.
#[verifier::ext_equal]
pub enum BookStepModel {
    Ignored,
    Dropped,
    Event { event: EventModel },
    Fault { fault: PascalFaultModel },
}

/// Whether a result is the given one, with its event received at the given time.
pub open spec fn is_step(
    result: Result<BookStep, PascalFault>,
    expected: BookStepModel,
    received_time_ns: u64,
) -> bool {
    match (result, expected) {
        (Ok(BookStep::Ignored), BookStepModel::Ignored) => true,
        (Ok(BookStep::Dropped), BookStepModel::Dropped) => true,
        (Ok(BookStep::Event(envelope)), BookStepModel::Event { event }) => {
            &&& envelope.source_time_ns is None
            &&& envelope.received_time_ns == received_time_ns
            &&& envelope.event@ == event
        },
        (Err(a), BookStepModel::Fault { fault }) => a@ == fault,
        _ => false,
    }
}

/// The message of a failed subscription.
pub open spec fn subscription_error(payload: JsonModel) -> Seq<char> {
    let message = match field(payload, "data"@) {
        Some(data) => field_text(data, "message"@),
        None => None,
    };
    match message {
        Some(s) => s,
        None => "unknown Pascal subscription error"@,
    }
}

/// Whether a payload is about the book of the symbol.
pub open spec fn about_book(payload: JsonModel, symbol: Seq<char>) -> bool {
    field_text(payload, "channel"@) == Some("book"@) && field_text(payload, "symbol"@) == Some(
        symbol,
    )
}

/// The book after a payload: a snapshot replaces it, anything else updates it.
pub open spec fn book_after(book: BookModel, payload: JsonModel, symbol: Seq<char>) -> BookModel {
    if field_text(payload, "type"@) == Some("error"@) || !about_book(payload, symbol) {
        book
    } else {
        match field(payload, "data"@) {
            None => book,
            Some(data) => {
                let start = if field_text(payload, "type"@) == Some("snapshot"@) {
                    BookModel { bids: Map::empty(), asks: Map::empty() }
                } else {
                    book
                };
                BookModel {
                    bids: side_applied(start.bids, field(data, "bids"@)),
                    asks: side_applied(start.asks, field(data, "asks"@)),
                }
            },
        }
    }
}

/// What comes of a payload: the top of the book, if both sides have one and the
/// payload has a sequence number.
pub open spec fn book_step(
    book: BookModel,
    payload: JsonModel,
    symbol: Seq<char>,
    market: Seq<char>,
) -> BookStepModel {
    if field_text(payload, "type"@) == Some("error"@) {
        BookStepModel::Fault {
            fault: PascalFaultModel::Subscription { message: subscription_error(payload) },
        }
    } else if !about_book(payload, symbol) {
        BookStepModel::Ignored
    } else if field(payload, "data"@) is None {
        BookStepModel::Fault { fault: PascalFaultModel::MissingData }
    } else {
        let after = book_after(book, payload, symbol);
        match (highest(after.bids), lowest(after.asks)) {
            (Some((bid, bid_size)), Some((ask, ask_size))) => match field_unsigned(
                payload,
                "seq"@,
            ) {
                Some(venue_seq) => BookStepModel::Event {
                    event: EventModel::Book { market, bid, bid_size, ask, ask_size, venue_seq },
                },
                None => BookStepModel::Dropped,
            },
            _ => BookStepModel::Ignored,
        }
    }
}

/// Keeps a book and makes events of its top.
pub struct PascalBookAdapter {
    config: PascalConfig,
}

impl PascalBookAdapter {
    /// Which book to follow.
    pub closed spec fn settings(&self) -> PascalConfig {
        self.config
    }

    /// An adapter with the given settings.
    pub fn new(config: PascalConfig) -> (r: Self)
        ensures
            r.settings() == config,
    {
        PascalBookAdapter { config }
    }

    /// The message that subscribes to the book.
    pub fn subscription(&self) -> (r: String)
        ensures
            r@ == subscription_text(self.settings().symbol@),
    {
        subscription_message(self.config.symbol.as_str())
    }

    /// Takes a message into the book. The identifier of an event is random.
    pub fn on_message(&self, book: &mut PascalBook, text: &str, received_time_ns: u64) -> (r:
        Result<BookStep, PascalFault>)
        ensures
            match json_read(text@) {
                None => r is Err && r->Err_0@ == PascalFaultModel::NotJson && final(book)@ == old(
                    book,
                )@,
                Some(payload) => {
                    &&& is_step(
                        r,
                        book_step(
                            old(book)@,
                            payload,
                            self.settings().symbol@,
                            self.settings().market@,
                        ),
                        received_time_ns,
                    )
                    &&& final(book)@ == book_after(
                        old(book)@,
                        payload,
                        self.settings().symbol@,
                    )
                },
            },
    {
        match parse_json(text) {
            Some(payload) => self.on_payload(book, &payload, received_time_ns),
            None => Err(PascalFault::NotJson),
        }
    }

    /// Takes a payload into the book. The identifier of an event is random.
    pub fn on_payload(&self, book: &mut PascalBook, payload: &JsonValue, received_time_ns: u64)
        -> (r: Result<BookStep, PascalFault>)
        ensures
            is_step(
                r,
                book_step(
                    old(book)@,
                    payload@,
                    self.settings().symbol@,
                    self.settings().market@,
                ),
                received_time_ns,
            ),
            final(book)@ == book_after(old(book)@, payload@, self.settings().symbol@),
    {
        if text_is(payload, "type", "error") {
            let message = match payload.get("data") {
                Some(data) => get_text(data, "message"),
                None => None,
            };
            return Err(
                PascalFault::Subscription {
                    message: match message {
                        Some(s) => s.clone(),
                        None => "unknown Pascal subscription error".to_owned(),
                    },
                },
            );
        }
        if !text_is(payload, "channel", "book") || !text_is(
            payload,
            "symbol",
            self.config.symbol.as_str(),
        ) {
            return Ok(BookStep::Ignored);
        }
        let data = match payload.get("data") {
            Some(data) => data,
            None => return Err(PascalFault::MissingData),
        };
        if text_is(payload, "type", "snapshot") {
            book.bids.clear();
            book.asks.clear();
        }
        apply_levels(&mut book.bids, data.get("bids"));
        apply_levels(&mut book.asks, data.get("asks"));
        let (bid, bid_size) = match book.bids.last_key_value() {
            Some(level) => level,
            None => return Ok(BookStep::Ignored),
        };
        let (ask, ask_size) = match book.asks.first_key_value() {
            Some(level) => level,
            None => return Ok(BookStep::Ignored),
        };
        let venue_seq: u64 = match get_unsigned(payload, "seq") {
            Some(seq) => seq,
            None => return Ok(BookStep::Dropped),
        };
        Ok(
            BookStep::Event(
                EventEnvelope::new(
                    received_time_ns,
                    MarketEvent::Book {
                        market: self.config.market.clone(),
                        bid,
                        bid_size,
                        ask,
                        ask_size,
                        venue_seq,
                    },
                ),
            ),
        )
    }
}

/// The message that subscribes to the book of a symbol.
pub open spec fn subscription_text(symbol: Seq<char>) -> Seq<char> {
    "{\"channels\":[{\"channel\":\"book\",\"symbol\":"@ + json_quoted(symbol)
        + "}],\"type\":\"subscribe\"}"@
}

/// Writes the message that subscribes to the book of a symbol.
pub fn subscription_message(symbol: &str) -> (r: String)
    ensures
        r@ == subscription_text(symbol@),
{
    let mut out = "{\"channels\":[{\"channel\":\"book\",\"symbol\":".to_owned();
    out.append(json_quote(symbol).as_str());
    out.append("}],\"type\":\"subscribe\"}");
    out
}

/// The scheme and the rest of the address of a web socket.
pub open spec fn socket_address(url: Seq<char>) -> Option<(Seq<char>, Seq<char>)> {
    if stands_at(url, seq!['w', 's', 's', ':', '/', '/'], 0) {
        Some(("https"@, url.skip(6)))
    } else if stands_at(url, seq!['w', 's', ':', '/', '/'], 0) {
        Some(("http"@, url.skip(5)))
    } else {
        None
    }
}

/// The address of the read API that belongs to a web socket: the same host, with
/// the scheme of a request.
pub open spec fn read_address(url: Seq<char>) -> Result<Seq<char>, PascalFaultModel> {
    match socket_address(url) {
        None => Err(PascalFaultModel::NotAWebSocket),
        Some((scheme, rest)) => {
            let host = rest.take(length_before(rest, '/'));
            if host.len() == 0 {
                Err(PascalFaultModel::MissingHost)
            } else {
                Ok(scheme + "://"@ + host)
            }
        },
    }
}

/// Finds the address of the read API that belongs to a web socket.
pub fn read_base_url(ws_url: &str) -> (r: Result<String, PascalFault>)
    ensures
        match r {
            Ok(address) => read_address(ws_url@) == Ok::<Seq<char>, PascalFaultModel>(address@),
            Err(fault) => read_address(ws_url@) == Err::<Seq<char>, PascalFaultModel>(fault@),
        },
{
    let chars = to_chars(ws_url);
    let secure: [char; 6] = ['w', 's', 's', ':', '/', '/'];
    let plain: [char; 5] = ['w', 's', ':', '/', '/'];
    assert(secure@ =~= seq!['w', 's', 's', ':', '/', '/']);
    assert(plain@ =~= seq!['w', 's', ':', '/', '/']);
    let (scheme, rest) = if matches_at(&chars, &secure, 0) {
        let rest = slice_of(&chars, 6, chars.len());
        assert(rest@ =~= ws_url@.skip(6));
        ("https", rest)
    } else if matches_at(&chars, &plain, 0) {
        let rest = slice_of(&chars, 5, chars.len());
        assert(rest@ =~= ws_url@.skip(5));
        ("http", rest)
    } else {
        return Err(PascalFault::NotAWebSocket);
    };
    let length: usize = count_before(&rest, '/');
    proof {
        lemma_length_before(rest@, '/');
    }
    let host = slice_of(&rest, 0, length);
    assert(host@ =~= rest@.take(length as int));
    if host.len() == 0 {
        return Err(PascalFault::MissingHost);
    }
    let mut out = scheme.to_owned();
    out.append("://");
    out.append(from_chars(&host).as_str());
    Ok(out)
}

/// The market that a value describes, if it names symbol and event.
pub open spec fn market_in(value: JsonModel) -> Option<PascalMarketModel> {
    match field(value, "display_attributes"@) {
        None => None,
        Some(attributes) => match (
            field_text(value, "symbol"@),
            field_text(attributes, "event_description"@),
        ) {
            (Some(symbol), Some(event_description)) => Some(
                PascalMarketModel {
                    symbol,
                    event_description,
                    market_description: or_empty(field_text(attributes, "market_description"@)),
                    market_period: or_empty(
                        match field(attributes, "game_page"@) {
                            Some(page) => field_text(page, "section_description"@),
                            None => None,
                        },
                    ),
                    expected_event_start_time_ms: match field_unsigned(
                        attributes,
                        "expected_event_start_time_ms"@,
                    ) {
                        Some(n) => Some(n as u64),
                        None => None,
                    },
                    tags: match field(attributes, "tags"@) {
                        Some(list) => match items_of(list) {
                            Some(items) => texts_in(items),
                            None => Seq::empty(),
                        },
                        None => Seq::empty(),
                    },
                },
            ),
            _ => None,
        },
    }
}

fn copied_or_empty(text: Option<&String>) -> (r: String)
    ensures
        r@ == or_empty(
            match text {
                Some(s) => Some(s@),
                None => None,
            },
        ),
{
    match text {
        Some(s) => s.clone(),
        None => {
            let empty = String::new();
            assert(empty@ =~= Seq::<char>::empty());
            empty
        },
    }
}

/// Reads a market of the catalogue.
pub fn parse_market(value: &JsonValue) -> (r: Option<PascalMarket>)
    ensures
        match r {
            Some(market) => market_in(value@) == Some(market@),
            None => market_in(value@) is None,
        },
{
    let attributes = match value.get("display_attributes") {
        Some(attributes) => attributes,
        None => return None,
    };
    let symbol = match get_text(value, "symbol") {
        Some(s) => s.clone(),
        None => return None,
    };
    let event_description = match get_text(attributes, "event_description") {
        Some(s) => s.clone(),
        None => return None,
    };
    let period = match attributes.get("game_page") {
        Some(page) => get_text(page, "section_description"),
        None => None,
    };
    let listed = match attributes.get("tags") {
        Some(list) => list.as_array(),
        None => None,
    };
    let tags = match listed {
        Some(items) => collect_texts(items),
        None => {
            let none: Vec<String> = Vec::new();
            assert(texts(none@) =~= Seq::<Seq<char>>::empty());
            none
        },
    };
    Some(
        PascalMarket {
            symbol,
            event_description,
            market_description: copied_or_empty(get_text(attributes, "market_description")),
            market_period: copied_or_empty(period),
            expected_event_start_time_ms: get_unsigned(attributes, "expected_event_start_time_ms"),
            tags,
        },
    )
}

/// The markets among some values.
pub open spec fn markets_in(items: Seq<JsonModel>) -> Seq<PascalMarketModel>
    decreases items.len(),
{
    if items.len() == 0 {
        Seq::empty()
    } else {
        match market_in(items.last()) {
            Some(market) => markets_in(items.drop_last()).push(market),
            None => markets_in(items.drop_last()),
        }
    }
}

/// The models of some markets.
pub open spec fn market_models(s: Seq<PascalMarket>) -> Seq<PascalMarketModel> {
    Seq::new(s.len(), |i: int| s[i]@)
}

/// The list of markets in an answer of the catalogue.
pub open spec fn listed_markets(payload: JsonModel) -> Option<Seq<JsonModel>> {
    match field(payload, "data"@) {
        Some(list) => items_of(list),
        None => None,
    }
}

/// Reads the markets of an answer of the catalogue that was parsed. What is no
/// market is passed over.
pub fn collect_markets(payload: &JsonValue) -> (r: Result<Vec<PascalMarket>, PascalFault>)
    ensures
        match listed_markets(payload@) {
            Some(items) => r is Ok && market_models(r->Ok_0@) == markets_in(items),
            None => r is Err && r->Err_0@ == PascalFaultModel::MissingMarkets,
        },
{
    let listed = match payload.get("data") {
        Some(list) => list.as_array(),
        None => None,
    };
    let items = match listed {
        Some(items) => items,
        None => return Err(PascalFault::MissingMarkets),
    };
    let ghost models = json_models(items@);
    let mut out: Vec<PascalMarket> = Vec::new();
    let mut i: usize = 0;
    assert(models.take(0) =~= Seq::<JsonModel>::empty());
    assert(market_models(out@) =~= Seq::<PascalMarketModel>::empty());
    while i < items.len()
        invariant
            i <= items@.len(),
            models == json_models(items@),
            market_models(out@) == markets_in(models.take(i as int)),
        decreases items@.len() - i,
    {
        let ghost before = out@;
        assert(models.take(i + 1).drop_last() =~= models.take(i as int));
        assert(models.take(i + 1).last() == items@[i as int]@);
        if let Some(market) = parse_market(&items[i]) {
            out.push(market);
            assert(market_models(out@) =~= market_models(before).push(market@));
        }
        i = i + 1;
    }
    assert(models.take(i as int) =~= models);
    Ok(out)
}

/// Reads an answer of the catalogue.
pub fn read_markets(text: &str) -> (r: Result<Vec<PascalMarket>, PascalFault>)
    ensures
        match json_read(text@) {
            None => r is Err && r->Err_0@ == PascalFaultModel::NotJson,
            Some(payload) => match listed_markets(payload) {
                Some(items) => r is Ok && market_models(r->Ok_0@) == markets_in(items),
                None => r is Err && r->Err_0@ == PascalFaultModel::MissingMarkets,
            },
        },
{
    match parse_json(text) {
        Some(payload) => collect_markets(&payload),
        None => Err(PascalFault::NotJson),
    }
}

/// A snapshot of the book forgets what was there before.
pub proof fn snapshots_forget_the_past(
    a: BookModel,
    b: BookModel,
    payload: JsonModel,
    symbol: Seq<char>,
)
    requires
        field_text(payload, "type"@) == Some("snapshot"@),
        about_book(payload, symbol),
        field(payload, "data"@) is Some,
    ensures
        book_after(a, payload, symbol) == book_after(b, payload, symbol),
{
    reveal_strlit("snapshot");
    reveal_strlit("error");
    assert("snapshot"@.len() != "error"@.len());
}

/// Whether every level of a side has contracts.
pub open spec fn no_empty_levels(levels: Map<i64, u64>) -> bool {
    forall|price: i64| #[trigger] levels.contains_key(price) ==> levels[price] > 0
}

/// Levels without contracts never stay in the book.
pub proof fn empty_levels_are_removed(levels: Map<i64, u64>, items: Seq<JsonModel>)
    requires
        no_empty_levels(levels),
    ensures
        no_empty_levels(levels_applied(levels, items)),
    decreases items.len(),
{
    if items.len() > 0 {
        empty_levels_are_removed(levels, items.drop_last());
        lemma_level_size(items.last());
    }
}

proof fn lemma_level_size(value: JsonModel)
    ensures
        level_in(value) matches Some((price, size)) ==> 0 <= size <= u64::MAX,
{
    if level_in(value) is Some {
        let size = text_of(items_of(value)->0[1])->0;
        assert(u64_written(size) is Some);
    }
}

} // verus!
