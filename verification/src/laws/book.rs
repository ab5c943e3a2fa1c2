//! What the messages of Pascal make of the book.

use vstd::prelude::*;

use crate::fixed::{price_written, PriceError};
use crate::json::{field, field_from, JsonModel};
use crate::pascal::{
    book_after, book_step, is_highest, is_lowest, level_in, levels_applied, listed_markets,
    market_in, markets_in, BookModel, BookStepModel, PascalFaultModel,
};
use crate::text::u64_written;
use crate::txline::texts_in;
use crate::types::EventModel;

verus! {

/// Whether a field of a payload is the given word.
pub open spec fn says(payload: JsonModel, key: Seq<char>, word: Seq<char>) -> bool {
    field(payload, key) == Some(JsonModel::Text(word))
}

/// A level is written as an array that begins with a price and a number of contracts, both
/// as text. Nothing else is a level.
pub proof fn levels_are_price_and_size(value: JsonModel, price: int, size: int)
    ensures
        level_in(value) == Some((price, size)) <==> (value matches JsonModel::Array(items)
            && items.len() >= 2 && (items[0] matches JsonModel::Text(written) && price_written(
            written,
        ) == Ok::<int, PriceError>(price)) && (items[1] matches JsonModel::Text(written)
            && u64_written(written) == Some(size))),
        level_in(value) == Some((price, size)) ==> 0 <= price <= 1_000_000 && 0 <= size
            <= u64::MAX,
{
}

/// Whether a value is a level at the given price.
pub open spec fn is_level_at(value: JsonModel, price: i64) -> bool {
    level_in(value) matches Some((at, _)) && at == price
}

/// Whether item `k` is the last level at the given price.
pub open spec fn last_level_at(items: Seq<JsonModel>, price: i64, k: int) -> bool {
    &&& 0 <= k < items.len()
    &&& is_level_at(items[k], price)
    &&& forall|j: int| k < j < items.len() ==> !is_level_at(#[trigger] items[j], price)
}

/// Whether no item is a level at the given price.
pub open spec fn no_level_at(items: Seq<JsonModel>, price: i64) -> bool {
    forall|j: int| 0 <= j < items.len() ==> !is_level_at(#[trigger] items[j], price)
}

/// The items of a list that may be there.
pub open spec fn listed(list: Option<JsonModel>) -> Seq<JsonModel> {
    match list {
        Some(JsonModel::Array(items)) => items,
        _ => Seq::empty(),
    }
}

/// Whether a side of the book came from another by some levels: at a price that they name
/// it holds the contracts of the last of them, and no level where that is none; at any
/// other price it holds what the other held.
pub open spec fn updated_by(
    now: Map<i64, u64>,
    before: Map<i64, u64>,
    items: Seq<JsonModel>,
) -> bool {
    &&& forall|price: i64, k: int| #[trigger]
        last_level_at(items, price, k) ==> {
            let (_, size) = level_in(items[k])->0;
            &&& now.contains_key(price) <==> size != 0
            &&& size != 0 ==> now[price] == size
        }
    &&& forall|price: i64| #[trigger]
        no_level_at(items, price) ==> {
            &&& now.contains_key(price) <==> before.contains_key(price)
            &&& before.contains_key(price) ==> now[price] == before[price]
        }
}

proof fn lemma_updated_by(before: Map<i64, u64>, items: Seq<JsonModel>)
    ensures
        updated_by(levels_applied(before, items), before, items),
    decreases items.len(),
{
    let now = levels_applied(before, items);
    if items.len() > 0 {
        let rest = items.drop_last();
        let n = items.len() - 1;
        lemma_updated_by(before, rest);
        let earlier = levels_applied(before, rest);
        assert(items[n] == items.last());
        match level_in(items.last()) {
            Some((at, size)) => {
                levels_are_price_and_size(items.last(), at, size);
            },
            None => {},
        }
        assert forall|price: i64, k: int| #[trigger] last_level_at(items, price, k) implies {
            let (_, size) = level_in(items[k])->0;
            &&& now.contains_key(price) <==> size != 0
            &&& size != 0 ==> now[price] == size
        } by {
            if k < n {
                assert(!is_level_at(items[n], price));
                assert(last_level_at(rest, price, k)) by {
                    assert(rest[k] == items[k]);
                    assert forall|j: int| k < j < rest.len() implies !is_level_at(
                        #[trigger] rest[j],
                        price,
                    ) by {
                        assert(rest[j] == items[j]);
                    }
                }
            }
        }
        assert forall|price: i64| #[trigger] no_level_at(items, price) implies {
            &&& now.contains_key(price) <==> before.contains_key(price)
            &&& before.contains_key(price) ==> now[price] == before[price]
        } by {
            assert(!is_level_at(items[n], price));
            assert(no_level_at(rest, price)) by {
                assert forall|j: int| 0 <= j < rest.len() implies !is_level_at(
                    #[trigger] rest[j],
                    price,
                ) by {
                    assert(rest[j] == items[j]);
                }
            }
        }
    }
}

/// A message about the book with data updates both sides by the levels that it lists for
/// them, bids and asks alike: what the book held before is kept for the other prices, or
/// forgotten where the message is a snapshot.
pub proof fn messages_update_both_sides(
    before: BookModel,
    payload: JsonModel,
    symbol: Seq<char>,
    data: JsonModel,
)
    requires
        says(payload, "channel"@, "book"@),
        says(payload, "symbol"@, symbol),
        !says(payload, "type"@, "error"@),
        field(payload, "data"@) == Some(data),
    ensures
        ({
            let now = book_after(before, payload, symbol);
            let fresh = says(payload, "type"@, "snapshot"@);
            let held_bids = if fresh {
                Map::empty()
            } else {
                before.bids
            };
            let held_asks = if fresh {
                Map::empty()
            } else {
                before.asks
            };
            &&& updated_by(now.bids, held_bids, listed(field(data, "bids"@)))
            &&& updated_by(now.asks, held_asks, listed(field(data, "asks"@)))
        }),
{
    let fresh = says(payload, "type"@, "snapshot"@);
    let held_bids = if fresh {
        Map::empty()
    } else {
        before.bids
    };
    let held_asks = if fresh {
        Map::empty()
    } else {
        before.asks
    };
    lemma_updated_by(held_bids, listed(field(data, "bids"@)));
    lemma_updated_by(held_asks, listed(field(data, "asks"@)));
}

/// A message that is not about the book of the symbol, that has no data or that reports an
/// error leaves the book as it is.
pub proof fn other_messages_leave_the_book(
    before: BookModel,
    payload: JsonModel,
    symbol: Seq<char>,
    market: Seq<char>,
)
    ensures
        says(payload, "type"@, "error"@) ==> {
            &&& book_after(before, payload, symbol) == before
            &&& book_step(before, payload, symbol, market) matches BookStepModel::Fault {
                fault: PascalFaultModel::Subscription { message },
            } && message == (match field(payload, "data"@) {
                Some(data) => match field(data, "message"@) {
                    Some(JsonModel::Text(reason)) => reason,
                    _ => "unknown Pascal subscription error"@,
                },
                None => "unknown Pascal subscription error"@,
            })
        },
        !says(payload, "type"@, "error"@) && (!says(payload, "channel"@, "book"@) || !says(
            payload,
            "symbol"@,
            symbol,
        )) ==> {
            &&& book_after(before, payload, symbol) == before
            &&& book_step(before, payload, symbol, market) is Ignored
        },
        !says(payload, "type"@, "error"@) && says(payload, "channel"@, "book"@) && says(
            payload,
            "symbol"@,
            symbol,
        ) && field(payload, "data"@) is None ==> {
            &&& book_after(before, payload, symbol) == before
            &&& book_step(before, payload, symbol, market) == (BookStepModel::Fault {
                fault: PascalFaultModel::MissingData,
            })
        },
{
}

/// The event of a message is the top of the book after it: the highest bid and the lowest
/// ask with the contracts there, in the market of the adapter, with the sequence number of
/// the message. Without a sequence number the message is dropped.
pub proof fn events_are_the_top_of_the_book(
    before: BookModel,
    payload: JsonModel,
    symbol: Seq<char>,
    market: Seq<char>,
    bid: i64,
    ask: i64,
)
    requires
        says(payload, "channel"@, "book"@),
        says(payload, "symbol"@, symbol),
        !says(payload, "type"@, "error"@),
        field(payload, "data"@) is Some,
        ({
            let now = book_after(before, payload, symbol);
            &&& now.bids.contains_key(bid)
            &&& forall|other: i64| #[trigger] now.bids.contains_key(other) ==> other <= bid
            &&& now.asks.contains_key(ask)
            &&& forall|other: i64| #[trigger] now.asks.contains_key(other) ==> ask <= other
        }),
    ensures
        ({
            let now = book_after(before, payload, symbol);
            let step = book_step(before, payload, symbol, market);
            match field(payload, "seq"@) {
                Some(JsonModel::Number { unsigned: Some(seq), .. }) => step
                    == (BookStepModel::Event {
                    event: EventModel::Book {
                        market,
                        bid: bid as int,
                        bid_size: now.bids[bid] as int,
                        ask: ask as int,
                        ask_size: now.asks[ask] as int,
                        venue_seq: seq as int,
                    },
                }),
                Some(JsonModel::Text(written)) => match u64_written(written) {
                    Some(seq) => step == (BookStepModel::Event {
                        event: EventModel::Book {
                            market,
                            bid: bid as int,
                            bid_size: now.bids[bid] as int,
                            ask: ask as int,
                            ask_size: now.asks[ask] as int,
                            venue_seq: seq,
                        },
                    }),
                    None => step is Dropped,
                },
                _ => step is Dropped,
            }
        }),
{
    let now = book_after(before, payload, symbol);
    assert(is_highest(now.bids, bid));
    assert(is_lowest(now.asks, ask));
    let b = choose|p: i64| is_highest(now.bids, p);
    let a = choose|p: i64| is_lowest(now.asks, p);
    assert(now.bids.contains_key(b) && now.asks.contains_key(a));
    assert(b == bid && a == ask);
}

/// A book with an empty side makes no event.
pub proof fn empty_sides_make_no_event(
    before: BookModel,
    payload: JsonModel,
    symbol: Seq<char>,
    market: Seq<char>,
)
    requires
        says(payload, "channel"@, "book"@),
        says(payload, "symbol"@, symbol),
        !says(payload, "type"@, "error"@),
        field(payload, "data"@) is Some,
        ({
            let now = book_after(before, payload, symbol);
            ||| forall|price: i64| !now.bids.contains_key(price)
            ||| forall|price: i64| !now.asks.contains_key(price)
        }),
    ensures
        book_step(before, payload, symbol, market) is Ignored,
{
}

/// The word in a field of a value that may be there, none where it is not a text.
pub open spec fn word_in(value: Option<JsonModel>, key: Seq<char>) -> Option<Seq<char>> {
    match value {
        Some(v) => match field(v, key) {
            Some(JsonModel::Text(s)) => Some(s),
            _ => None,
        },
        None => None,
    }
}

/// A market of the catalogue has a symbol and, among what is displayed of it, the
/// description of its event. Its own description and its period may be missing, and are
/// empty then; its start is what is displayed of it, and its tags are the texts among them.
pub proof fn catalogue_markets_name_symbol_and_event(value: JsonModel)
    ensures
        ({
            let made = market_in(value);
            let display = field(value, "display_attributes"@);
            let page = match display {
                Some(d) => field(d, "game_page"@),
                None => None,
            };
            &&& made is Some <==> word_in(Some(value), "symbol"@) is Some && word_in(
                display,
                "event_description"@,
            ) is Some
            &&& made matches Some(m) ==> {
                &&& m.symbol == word_in(Some(value), "symbol"@)->0
                &&& m.event_description == word_in(display, "event_description"@)->0
                &&& word_in(display, "market_description"@) matches Some(s)
                    ==> m.market_description == s
                &&& word_in(display, "market_description"@) is None ==> m.market_description.len()
                    == 0
                &&& word_in(page, "section_description"@) matches Some(s) ==> m.market_period == s
                &&& word_in(page, "section_description"@) is None ==> m.market_period.len() == 0
                &&& field(display->0, "expected_event_start_time_ms"@) matches Some(
                    JsonModel::Number { unsigned: Some(n), .. },
                ) ==> m.expected_event_start_time_ms == Some(n)
                &&& field(display->0, "expected_event_start_time_ms"@) is None
                    ==> m.expected_event_start_time_ms is None
                &&& field(display->0, "tags"@) matches Some(JsonModel::Array(items)) ==> m.tags
                    == texts_in(items)
                &&& field(display->0, "tags"@) is None ==> m.tags.len() == 0
            }
        }),
{
}

/// What is no market in the catalogue is passed over, and the others keep their order.
pub proof fn the_catalogue_passes_over_what_is_no_market(items: Seq<JsonModel>, one: JsonModel)
    ensures
        markets_in(items.push(one)) == match market_in(one) {
            Some(market) => markets_in(items).push(market),
            None => markets_in(items),
        },
        markets_in(Seq::empty()).len() == 0,
        listed_markets(JsonModel::Object(seq![("data"@, JsonModel::Array(items))])) == Some(items),
{
    assert(items.push(one).drop_last() =~= items);
    let fields = seq![("data"@, JsonModel::Array(items))];
    assert(fields[0].0 == "data"@);
    assert(field_from(fields, "data"@, 0) == Some(JsonModel::Array(items)));
}

} // verus!
