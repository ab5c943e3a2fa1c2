//! What the messages of TxLINE say.

use vstd::prelude::*;
use vstd::utf8::{decode_utf8, valid_utf8};

use crate::fixed::price_written;
use crate::journal::{blank, SelectionModel};
use crate::json::{
    field, field_from, first_of, found, found_in_fields, found_in_items, json_read, signed_of,
    text_at, text_of, unsigned_at, unsigned_of, JsonModel, JsonValue,
};
use crate::laws::texts::texts_are_split_at_the_first;
use crate::text::{trimmed, u64_written};
use crate::txline::{
    about_fixture, block_data, block_fair_value, blocks, bytes_at, crlf_crlf, fair_value_in,
    first_selected, fixture_in, fixtures_in, joined_data, lemma_separator, lf_lf, lines_of,
    message_in, odds_line_in, odds_lines_in, payload_fair_value, payload_snapshot, percentage,
    price_at, price_keys, probability_in, proof_time_in, selected, separator, texts_in, unfinished,
    FairValueModel, SseBuffer, TxLineAdapter, TxLineFault,
};
use crate::types::{EventEnvelope, EventModel};

verus! {

/// Whether bytes hold an empty line: two line feeds in a row, or two line ends of carriage
/// return and line feed.
pub open spec fn holds_empty_line(bytes: Seq<u8>) -> bool {
    ||| exists|i: int| 0 <= i && i + 1 < bytes.len() && #[trigger] bytes[i] == 10 && bytes[i + 1]
        == 10
    ||| exists|i: int|
        0 <= i && i + 3 < bytes.len() && #[trigger] bytes[i] == 13 && bytes[i + 1] == 10 && bytes[i
            + 2] == 13 && bytes[i + 3] == 10
}

/// A block ends with the first empty line, of either kind, and the next one begins right
/// behind that. What no empty line follows is not finished yet.
pub proof fn empty_lines_end_blocks(block: Seq<u8>, rest: Seq<u8>)
    requires
        !holds_empty_line(block),
        block.len() > 0 ==> block.last() != 10 && block.last() != 13,
    ensures
        blocks(block + seq![10u8, 10u8] + rest) == seq![block] + blocks(rest),
        blocks(block + seq![13u8, 10u8, 13u8, 10u8] + rest) == seq![block] + blocks(rest),
        unfinished(block + seq![10u8, 10u8] + rest) == unfinished(rest),
        unfinished(block + seq![13u8, 10u8, 13u8, 10u8] + rest) == unfinished(rest),
        blocks(block).len() == 0,
        unfinished(block) == block,
{
    lemma_block_ends(block, seq![10u8, 10u8], rest);
    lemma_block_ends(block, seq![13u8, 10u8, 13u8, 10u8], rest);
    lemma_no_separator(block);
}

proof fn lemma_no_separator(block: Seq<u8>)
    requires
        !holds_empty_line(block),
    ensures
        separator(block) is None,
{
    lemma_separator(block);
    match separator(block) {
        Some((at, len)) => {
            let s = block.subrange(at, at + len);
            assert(s[0] == block[at] && s[1] == block[at + 1]);
            if len == 4 {
                assert(s[2] == block[at + 2] && s[3] == block[at + 3]);
            }
        },
        None => {},
    }
}

proof fn lemma_block_ends(block: Seq<u8>, end: Seq<u8>, rest: Seq<u8>)
    requires
        !holds_empty_line(block),
        block.len() > 0 ==> block.last() != 10 && block.last() != 13,
        end == seq![10u8, 10u8] || end == seq![13u8, 10u8, 13u8, 10u8],
    ensures
        blocks(block + end + rest) == seq![block] + blocks(rest),
        unfinished(block + end + rest) == unfinished(rest),
{
    lemma_first_block(block, end, rest);
}

/// The data of a block are what follows `data:` on its lines, trimmed; those of several
/// lines are joined by line feeds, and other lines count for nothing.
pub proof fn data_lines_are_joined(line: Seq<char>, rest: Seq<Seq<char>>, value: Seq<char>)
    ensures
        joined_data(rest.push("data:"@ + value)) == match joined_data(rest) {
            Some(before) => Some(before + seq!['\n'] + trimmed(value)),
            None => Some(trimmed(value)),
        },
        !(line.len() >= 5 && line.take(5) == "data:"@) ==> joined_data(rest.push(line))
            == joined_data(rest),
        joined_data(Seq::empty()) is None,
{
    reveal_strlit("data:");
    let prefix = seq!['d', 'a', 't', 'a', ':'];
    assert("data:"@ =~= prefix);
    let full = "data:"@ + value;
    assert(rest.push(full).drop_last() =~= rest);
    assert(rest.push(line).drop_last() =~= rest);
    assert(full.subrange(0, 5) =~= prefix);
    assert(full.skip(5) =~= value);
    if line.len() >= 5 {
        assert(line.subrange(0, 5) =~= line.take(5));
    }
}

/// The lines of a block are what stands between its line feeds.
pub proof fn lines_stand_between_line_feeds(line: Seq<char>, rest: Seq<char>)
    requires
        forall|i: int| 0 <= i < line.len() ==> #[trigger] line[i] != '\n',
    ensures
        lines_of(line + seq!['\n'] + rest) == seq![line] + lines_of(rest),
        lines_of(line) == seq![line],
        block_data(line + seq!['\n'] + rest) == match joined_data(seq![line] + lines_of(rest)) {
            Some(data) => data,
            None => Seq::empty(),
        },
{
    texts_are_split_at_the_first(line, '\n', rest);
}

/// A field is looked for in an object itself first, and only then in what it holds, from the
/// front to the back; in an array from the front to the back.
pub proof fn fields_are_found_from_the_front(
    fields: Seq<(Seq<char>, JsonModel)>,
    items: Seq<JsonModel>,
    key: Seq<char>,
    i: int,
    value: JsonModel,
)
    ensures
        0 <= i < fields.len() && fields[i].0 == key && (forall|j: int|
            0 <= j < i ==> (#[trigger] fields[j]).0 != key) ==> found(
            JsonModel::Object(fields),
            key,
        ) == Some(fields[i].1) && field(JsonModel::Object(fields), key) == Some(fields[i].1),
        (forall|j: int| 0 <= j < fields.len() ==> (#[trigger] fields[j]).0 != key) ==> field(
            JsonModel::Object(fields),
            key,
        ) is None,
        (forall|j: int| 0 <= j < fields.len() ==> (#[trigger] fields[j]).0 != key) && 0 <= i
            < fields.len() && found(fields[i].1, key) == Some(value) && (forall|j: int|
            0 <= j < i ==> found((#[trigger] fields[j]).1, key) is None) ==> found(
            JsonModel::Object(fields),
            key,
        ) == Some(value),
        0 <= i < items.len() && found(items[i], key) == Some(value) && (forall|j: int|
            0 <= j < i ==> found(#[trigger] items[j], key) is None) ==> found(
            JsonModel::Array(items),
            key,
        ) == Some(value),
{
    lemma_field_from(fields, key, 0, i);
    lemma_found_in_fields(fields, key, 0, i);
    lemma_found_in_items(items, key, 0, i);
}

proof fn lemma_field_from(fields: Seq<(Seq<char>, JsonModel)>, key: Seq<char>, from: int, i: int)
    requires
        0 <= from,
    ensures
        from <= i < fields.len() && fields[i].0 == key && (forall|j: int|
            from <= j < i ==> (#[trigger] fields[j]).0 != key) ==> field_from(fields, key, from)
            == Some(fields[i].1),
        (forall|j: int| from <= j < fields.len() ==> (#[trigger] fields[j]).0 != key)
            ==> field_from(fields, key, from) is None,
    decreases fields.len() - from,
{
    if from < fields.len() && fields[from].0 != key {
        lemma_field_from(fields, key, from + 1, i);
    }
}

proof fn lemma_found_in_fields(
    fields: Seq<(Seq<char>, JsonModel)>,
    key: Seq<char>,
    from: int,
    i: int,
)
    requires
        0 <= from,
    ensures
        from <= i < fields.len() && found(fields[i].1, key) is Some && (forall|j: int|
            from <= j < i ==> found((#[trigger] fields[j]).1, key) is None) ==> found_in_fields(
            fields,
            key,
            from,
        ) == found(fields[i].1, key),
    decreases fields.len() - from,
{
    if from < fields.len() && found(fields[from].1, key) is None {
        lemma_found_in_fields(fields, key, from + 1, i);
    }
}

proof fn lemma_found_in_items(items: Seq<JsonModel>, key: Seq<char>, from: int, i: int)
    requires
        0 <= from,
    ensures
        from <= i < items.len() && found(items[i], key) is Some && (forall|j: int|
            from <= j < i ==> found(#[trigger] items[j], key) is None) ==> found_in_items(
            items,
            key,
            from,
        ) == found(items[i], key),
    decreases items.len() - from,
{
    if from < items.len() && found(items[from], key) is None {
        lemma_found_in_items(items, key, from + 1, i);
    }
}

/// The text of a field with two spellings: the first one's where it is a text, else the
/// second one's.
pub open spec fn either_text(value: JsonModel, first: Seq<char>, second: Seq<char>) -> Option<
    Seq<char>,
> {
    match found(value, first) {
        Some(JsonModel::Text(s)) => Some(s),
        _ => match found(value, second) {
            Some(JsonModel::Text(s)) => Some(s),
            _ => None,
        },
    }
}

/// The unsigned integer of a field with two spellings, as a number or as a text.
pub open spec fn either_unsigned(
    value: JsonModel,
    first: Seq<char>,
    second: Seq<char>,
) -> Option<int> {
    match found(value, first) {
        Some(JsonModel::Number { unsigned: Some(n), .. }) => Some(n as int),
        Some(JsonModel::Text(s)) if u64_written(s) is Some => u64_written(s),
        _ => match found(value, second) {
            Some(JsonModel::Number { unsigned: Some(n), .. }) => Some(n as int),
            Some(JsonModel::Text(s)) => u64_written(s),
            _ => None,
        },
    }
}

proof fn lemma_two_keys(value: JsonModel, a: Seq<char>, b: Seq<char>)
    ensures
        text_at(value, seq![a, b]) == either_text(value, a, b),
        unsigned_at(value, seq![a, b]) == either_unsigned(value, a, b),
{
    let keys = seq![a, b];
    assert(keys.drop_first() =~= seq![b]);
    assert(keys.drop_first().drop_first() =~= Seq::<Seq<char>>::empty());
    let texts = |hit: JsonModel| text_of(hit);
    let numbers = |hit: JsonModel| unsigned_of(hit);
    reveal_with_fuel(first_of, 3);
    assert(first_of(value, Seq::<Seq<char>>::empty(), texts) is None);
    assert(first_of(value, Seq::<Seq<char>>::empty(), numbers) is None);
    assert(first_of(value, seq![b], texts) == match found(value, b) {
        Some(hit) => texts(hit),
        None => None,
    });
    assert(first_of(value, seq![b], numbers) == match found(value, b) {
        Some(hit) => numbers(hit),
        None => None,
    });
}

/// A payload is about a selection exactly when kind, parameters and period are the same, as
/// texts, with what is missing of parameters and period taken as empty.
pub proof fn payloads_are_selected_by_three_texts(value: JsonModel, wanted: SelectionModel)
    ensures
        ({
            let parameters = either_text(value, "MarketParameters"@, "marketParameters"@);
            let period = either_text(value, "MarketPeriod"@, "marketPeriod"@);
            selected(value, wanted) <==> {
                &&& either_text(value, "SuperOddsType"@, "superOddsType"@) == Some(
                    wanted.super_odds_type,
                )
                &&& parameters == Some(wanted.market_parameters) || (parameters is None
                    && wanted.market_parameters.len() == 0)
                &&& period == Some(wanted.market_period) || (period is None
                    && wanted.market_period.len() == 0)
            }
        }),
{
    lemma_two_keys(value, "SuperOddsType"@, "superOddsType"@);
    lemma_two_keys(value, "MarketParameters"@, "marketParameters"@);
    lemma_two_keys(value, "MarketPeriod"@, "marketPeriod"@);
    if wanted.market_parameters.len() == 0 {
        assert(wanted.market_parameters =~= Seq::<char>::empty());
    }
    if wanted.market_period.len() == 0 {
        assert(wanted.market_period =~= Seq::<char>::empty());
    }
}

/// A payload with percentages gives the probability of the selected one of them. Without
/// that one it gives its first price, of which `probability` is looked for first.
pub proof fn probabilities_are_the_selected_percentage(value: JsonModel, wanted: SelectionModel)
    requires
        wanted.price_index >= 0,
    ensures
        found(value, "Pct"@) matches Some(JsonModel::Array(items)) ==> (wanted.price_index
            < items.len() ==> probability_in(value, Some(wanted))
            == match items[wanted.price_index] {
            JsonModel::Text(s) => percentage(s),
            JsonModel::Number { text, .. } => percentage(text),
            _ => None,
        }),
        !(found(value, "Pct"@) matches Some(JsonModel::Array(items)) && wanted.price_index
            < items.len()) ==> {
            let read = probability_in(value, Some(wanted));
            &&& found(value, "probability"@) matches Some(JsonModel::Text(s)) ==> (price_written(
                s,
            ) matches Ok(p) ==> read == Some(p))
            &&& found(value, "probability"@) matches Some(JsonModel::Number { text, .. }) ==> (
            price_written(text) matches Ok(p) ==> read == Some(p))
            &&& found(value, "probability"@) is None ==> {
                &&& found(value, "stablePrice"@) matches Some(JsonModel::Text(s)) ==> (
                price_written(s) matches Ok(p) ==> read == Some(p))
                &&& found(value, "stablePrice"@) is None ==> {
                    &&& found(value, "StablePrice"@) matches Some(JsonModel::Text(s)) ==> (
                    price_written(s) matches Ok(p) ==> read == Some(p))
                    &&& found(value, "StablePrice"@) is None ==> {
                        &&& found(value, "price"@) matches Some(JsonModel::Text(s)) ==> (
                        price_written(s) matches Ok(p) ==> read == Some(p))
                        &&& found(value, "price"@) is None ==> {
                            &&& found(value, "Price"@) matches Some(JsonModel::Text(s)) ==> (
                            price_written(s) matches Ok(p) ==> read == Some(p))
                            &&& found(value, "Price"@) is None ==> read is None
                        }
                    }
                }
            }
        },
{
    let keys = price_keys();
    assert(keys.drop_first() =~= seq!["stablePrice"@, "StablePrice"@, "price"@, "Price"@]);
    assert(keys.drop_first().drop_first() =~= seq!["StablePrice"@, "price"@, "Price"@]);
    assert(keys.drop_first().drop_first().drop_first() =~= seq!["price"@, "Price"@]);
    assert(keys.drop_first().drop_first().drop_first().drop_first() =~= seq!["Price"@]);
    reveal_with_fuel(price_at, 7);
}

/// A payload gives a fair value exactly when it has a probability, a message that is not
/// blank and a time that is not negative. The time is its sequence number and its proof
/// time, and in nanoseconds its source time as far as that fits.
pub proof fn fair_values_name_message_and_time(
    value: JsonModel,
    name: Seq<char>,
    wanted: SelectionModel,
)
    ensures
        ({
            let made = fair_value_in(value, name, wanted);
            &&& made is Some <==> probability_in(value, Some(wanted)) is Some && (message_in(
                value,
            ) matches Some(id) && !blank(id)) && (proof_time_in(value) matches Some(ts) && ts >= 0)
            &&& made matches Some(fair) ==> {
                let ts = proof_time_in(value)->0;
                &&& fair.event == (EventModel::FairValue {
                    market: name,
                    probability: probability_in(value, Some(wanted))->0,
                    source_seq: ts,
                    message_id: message_in(value),
                    proof_ts: Some(ts as i64),
                })
                &&& ts * 1_000_000 <= u64::MAX ==> fair.source_time_ns == Some(
                    (ts * 1_000_000) as u64,
                )
                &&& ts * 1_000_000 > u64::MAX ==> fair.source_time_ns is None
            }
        }),
{
}

/// The message of a payload is looked for under `messageId` first, the time under `ts`, and
/// the fixture under `fixtureId`.
pub proof fn payloads_name_message_time_and_fixture(value: JsonModel, id: int)
    ensures
        found(value, "messageId"@) matches Some(JsonModel::Text(s)) ==> message_in(value) == Some(
            s,
        ),
        found(value, "messageId"@) is None ==> (found(value, "MessageId"@) matches Some(
            JsonModel::Text(s),
        ) ==> message_in(value) == Some(s)),
        found(value, "messageId"@) is None && found(value, "MessageId"@) is None && found(
            value,
            "message_id"@,
        ) is None ==> message_in(value) is None,
        found(value, "ts"@) matches Some(JsonModel::Number { signed: Some(n), .. })
            ==> proof_time_in(value) == Some(n as int),
        found(value, "ts"@) is None ==> (found(value, "Ts"@) matches Some(
            JsonModel::Number { signed: Some(n), .. },
        ) ==> proof_time_in(value) == Some(n as int)),
        found(value, "ts"@) is None && found(value, "Ts"@) is None ==> proof_time_in(value) is None,
        found(value, "fixtureId"@) matches Some(JsonModel::Number { unsigned: Some(n), .. }) ==> (
        about_fixture(value, id) <==> n == id),
        found(value, "fixtureId"@) is None ==> (found(value, "FixtureId"@) matches Some(
            JsonModel::Number { unsigned: Some(n), .. },
        ) ==> (about_fixture(value, id) <==> n == id)),
        found(value, "fixtureId"@) is None && found(value, "FixtureId"@) is None && found(
            value,
            "FixtureID"@,
        ) is None && found(value, "fixture_id"@) is None ==> !about_fixture(value, id),
{
    let texts = |hit: JsonModel| text_of(hit);
    let numbers = |hit: JsonModel| unsigned_of(hit);
    let times = |hit: JsonModel| signed_of(hit);
    let m = seq!["messageId"@, "MessageId"@, "message_id"@];
    assert(m.drop_first() =~= seq!["MessageId"@, "message_id"@]);
    assert(m.drop_first().drop_first() =~= seq!["message_id"@]);
    let t = seq!["ts"@, "Ts"@];
    assert(t.drop_first() =~= seq!["Ts"@]);
    let f = seq!["fixtureId"@, "FixtureId"@, "FixtureID"@, "fixture_id"@];
    assert(f.drop_first() =~= seq!["FixtureId"@, "FixtureID"@, "fixture_id"@]);
    assert(f.drop_first().drop_first() =~= seq!["FixtureID"@, "fixture_id"@]);
    assert(f.drop_first().drop_first().drop_first() =~= seq!["fixture_id"@]);
    reveal_with_fuel(first_of, 6);
    match found(value, "messageId"@) {
        Some(hit) => {
            assert(texts(hit) == text_of(hit));
        },
        None => {},
    }
    match found(value, "MessageId"@) {
        Some(hit) => {
            assert(texts(hit) == text_of(hit));
        },
        None => {},
    }
    match found(value, "ts"@) {
        Some(hit) => {
            assert(times(hit) == signed_of(hit));
        },
        None => {},
    }
    match found(value, "Ts"@) {
        Some(hit) => {
            assert(times(hit) == signed_of(hit));
        },
        None => {},
    }
    match found(value, "fixtureId"@) {
        Some(hit) => {
            assert(numbers(hit) == unsigned_of(hit));
        },
        None => {},
    }
    match found(value, "FixtureId"@) {
        Some(hit) => {
            assert(numbers(hit) == unsigned_of(hit));
        },
        None => {},
    }
}

/// Only a payload on the fixture and the selected market gives a fair value. Of a snapshot
/// the first such line decides, and one without such a line says nothing.
pub proof fn only_the_selected_market_counts(
    payload: JsonModel,
    items: Seq<JsonModel>,
    name: Seq<char>,
    fixture: int,
    wanted: SelectionModel,
    i: int,
)
    ensures
        payload_fair_value(payload, name, fixture, wanted) == if about_fixture(payload, fixture)
            && selected(payload, wanted) {
            fair_value_in(payload, name, wanted)
        } else {
            None
        },
        0 <= i < items.len() && about_fixture(items[i], fixture) && selected(items[i], wanted) && (
        forall|j: int|
            0 <= j < i ==> !(about_fixture(#[trigger] items[j], fixture) && selected(
                items[j],
                wanted,
            ))) ==> payload_snapshot(JsonModel::Array(items), name, fixture, wanted) == Ok::<
            Option<FairValueModel>,
            TxLineFault,
        >(fair_value_in(items[i], name, wanted)),
        (forall|j: int|
            0 <= j < items.len() ==> !(about_fixture(#[trigger] items[j], fixture) && selected(
                items[j],
                wanted,
            ))) ==> payload_snapshot(JsonModel::Array(items), name, fixture, wanted) == Ok::<
            Option<FairValueModel>,
            TxLineFault,
        >(None),
{
    lemma_first_selected(items, fixture, wanted, 0, i);
}

proof fn lemma_first_selected(
    items: Seq<JsonModel>,
    fixture: int,
    wanted: SelectionModel,
    from: int,
    i: int,
)
    requires
        0 <= from,
    ensures
        from <= i < items.len() && about_fixture(items[i], fixture) && selected(items[i], wanted)
            && (forall|j: int|
            from <= j < i ==> !(about_fixture(#[trigger] items[j], fixture) && selected(
                items[j],
                wanted,
            ))) ==> first_selected(items, fixture, wanted, from) == Some(items[i]),
        (forall|j: int|
            from <= j < items.len() ==> !(about_fixture(#[trigger] items[j], fixture) && selected(
                items[j],
                wanted,
            ))) ==> first_selected(items, fixture, wanted, from) is None,
    decreases items.len() - from,
{
    if from < items.len() && !(about_fixture(items[from], fixture) && selected(
        items[from],
        wanted,
    )) {
        lemma_first_selected(items, fixture, wanted, from + 1, i);
    }
}

/// A fixture names its identifier, both participants and its start; what is at home is the
/// first participant unless it is said not to be.
pub proof fn fixtures_name_both_participants(value: JsonModel)
    ensures
        ({
            let made = fixture_in(value);
            let id = either_unsigned(value, "FixtureId"@, "fixtureId"@);
            let one = either_text(value, "Participant1"@, "participant1"@);
            let two = either_text(value, "Participant2"@, "participant2"@);
            let start = either_unsigned(value, "StartTime"@, "startTime"@);
            let state = either_unsigned(value, "GameState"@, "gameState"@);
            &&& made is Some <==> id is Some && one is Some && two is Some && start is Some
            &&& made matches Some(f) ==> {
                &&& f.fixture_id == id->0
                &&& f.participant_1 == one->0
                &&& f.participant_2 == two->0
                &&& f.start_time_ms == start->0
                &&& f.game_state is Some <==> state is Some
                &&& state matches Some(n) ==> f.game_state == Some(n as u64)
                &&& found(value, "Participant1IsHome"@) matches Some(JsonModel::Bool(b))
                    ==> f.participant_1_is_home == b
                &&& found(value, "Participant1IsHome"@) is None ==> (found(
                    value,
                    "participant1IsHome"@,
                ) matches Some(JsonModel::Bool(b)) ==> f.participant_1_is_home == b)
                &&& found(value, "Participant1IsHome"@) is None && found(
                    value,
                    "participant1IsHome"@,
                ) is None ==> f.participant_1_is_home
            }
        }),
{
    lemma_two_keys(value, "FixtureId"@, "fixtureId"@);
    lemma_two_keys(value, "Participant1"@, "participant1"@);
    lemma_two_keys(value, "Participant2"@, "participant2"@);
    lemma_two_keys(value, "StartTime"@, "startTime"@);
    lemma_two_keys(value, "GameState"@, "gameState"@);
}

/// An odds line names its kind and its prices; what is no text among these is left out, and
/// the order of the others is kept.
pub proof fn odds_lines_name_their_prices(value: JsonModel, items: Seq<JsonModel>, one: JsonModel)
    ensures
        texts_in(items.push(one)) == match one {
            JsonModel::Text(s) => texts_in(items).push(s),
            _ => texts_in(items),
        },
        texts_in(Seq::empty()).len() == 0,
        found(value, "PriceNames"@) == Some(JsonModel::Array(items)) ==> {
            let made = odds_line_in(value);
            let kind = either_text(value, "SuperOddsType"@, "superOddsType"@);
            let parameters = either_text(value, "MarketParameters"@, "marketParameters"@);
            let period = either_text(value, "MarketPeriod"@, "marketPeriod"@);
            &&& made is Some <==> kind is Some && texts_in(items).len() > 0
            &&& made matches Some(line) ==> {
                &&& line.super_odds_type == kind->0
                &&& line.price_names == texts_in(items)
                &&& parameters matches Some(p) ==> line.market_parameters == p
                &&& parameters is None ==> line.market_parameters.len() == 0
                &&& period matches Some(p) ==> line.market_period == p
                &&& period is None ==> line.market_period.len() == 0
            }
        },
{
    assert(items.push(one).drop_last() =~= items);
    lemma_two_keys(value, "SuperOddsType"@, "superOddsType"@);
    lemma_two_keys(value, "MarketParameters"@, "marketParameters"@);
    lemma_two_keys(value, "MarketPeriod"@, "marketPeriod"@);
}

/// What is no fixture or no odds line in a snapshot is passed over, and the others keep
/// their order.
pub proof fn snapshots_pass_over_what_is_none(items: Seq<JsonModel>, one: JsonModel)
    ensures
        fixtures_in(items.push(one)) == match fixture_in(one) {
            Some(fixture) => fixtures_in(items).push(fixture),
            None => fixtures_in(items),
        },
        odds_lines_in(items.push(one)) == match odds_line_in(one) {
            Some(line) => odds_lines_in(items).push(line),
            None => odds_lines_in(items),
        },
        fixtures_in(Seq::empty()).len() == 0,
        odds_lines_in(Seq::empty()).len() == 0,
{
    assert(items.push(one).drop_last() =~= items);
}

/// A payload becomes an event exactly when it is about the fixture and the selected market
/// and gives a fair value. The event is one of the adapter's market, with the probability,
/// the message and the time of the payload, received when it was received.
pub proof fn payloads_become_fair_values(
    adapter: &TxLineAdapter,
    payload: &JsonValue,
    received_time_ns: u64,
    event: Option<EventEnvelope>,
)
    requires
        call_ensures(TxLineAdapter::payload_event, (adapter, payload, received_time_ns), event),
    ensures
        ({
            let wanted = adapter.settings().selection@;
            let about = about_fixture(payload@, adapter.settings().fixture_id as int) && selected(
                payload@,
                wanted,
            );
            &&& event is Some <==> about && probability_in(payload@, Some(wanted)) is Some && (
            message_in(payload@) matches Some(id) && !blank(id)) && (proof_time_in(
                payload@,
            ) matches Some(ts) && ts >= 0)
            &&& event matches Some(e) ==> e.received_time_ns == received_time_ns && e.event@ == (
            EventModel::FairValue {
                market: adapter.settings().market@,
                probability: probability_in(payload@, Some(wanted))->0,
                source_seq: proof_time_in(payload@)->0,
                message_id: message_in(payload@),
                proof_ts: Some(proof_time_in(payload@)->0 as i64),
            })
        }),
{
    fair_values_name_message_and_time(
        payload@,
        adapter.settings().market@,
        adapter.settings().selection@,
    );
}

/// A block that is no UTF-8 is refused, one without data says nothing, and one whose data
/// are no JSON is refused.
pub proof fn blocks_are_utf8_with_json_data(
    block: Seq<u8>,
    name: Seq<char>,
    fixture: int,
    wanted: SelectionModel,
)
    ensures
        ({
            let read = block_fair_value(block, name, fixture, wanted);
            let data = block_data(decode_utf8(block));
            &&& read == Err::<Option<FairValueModel>, TxLineFault>(TxLineFault::NotUtf8)
                <==> !valid_utf8(block)
            &&& valid_utf8(block) && data.len() == 0 ==> read == Ok::<
                Option<FairValueModel>,
                TxLineFault,
            >(None)
            &&& valid_utf8(block) && data.len() > 0 && json_read(data) is None ==> read == Err::<
                Option<FairValueModel>,
                TxLineFault,
            >(TxLineFault::NotJson)
            &&& valid_utf8(block) && data.len() > 0 ==> (json_read(data) matches Some(payload)
                ==> read == Ok::<Option<FairValueModel>, TxLineFault>(
                payload_fair_value(payload, name, fixture, wanted),
            ))
        }),
{
}

/// The buffer of a stream hands out the first block in it and keeps what stands behind the
/// empty line; without an empty line it hands out nothing and keeps everything.
pub proof fn buffers_hand_out_the_first_block(
    buffer: &mut SseBuffer,
    block: Option<Vec<u8>>,
    first: Seq<u8>,
    rest: Seq<u8>,
)
    requires
        call_ensures(SseBuffer::next_block, (buffer,), block),
        !holds_empty_line(first),
        first.len() > 0 ==> first.last() != 10 && first.last() != 13,
    ensures
        old(buffer)@ == first + seq![10u8, 10u8] + rest ==> block is Some && block->0@ == first
            && final(buffer)@ == rest,
        old(buffer)@ == first + seq![13u8, 10u8, 13u8, 10u8] + rest ==> block is Some
            && block->0@ == first && final(buffer)@ == rest,
        old(buffer)@ == first ==> block is None && final(buffer)@ == first,
{
    lemma_first_block(first, seq![10u8, 10u8], rest);
    lemma_first_block(first, seq![13u8, 10u8, 13u8, 10u8], rest);
    lemma_no_separator(first);
}

proof fn lemma_first_block(block: Seq<u8>, end: Seq<u8>, rest: Seq<u8>)
    requires
        !holds_empty_line(block),
        block.len() > 0 ==> block.last() != 10 && block.last() != 13,
        end == seq![10u8, 10u8] || end == seq![13u8, 10u8, 13u8, 10u8],
    ensures
        separator(block + end + rest) == Some((block.len() as int, end.len() as int)),
        (block + end + rest).take(block.len() as int) == block,
        (block + end + rest).skip((block.len() + end.len()) as int) == rest,
{
    let all = block + end + rest;
    let n = block.len() as int;
    lemma_separator(all);
    assert(all.subrange(n, n + end.len()) =~= end);
    assert(bytes_at(all, end, n));
    assert(end == lf_lf() || end == crlf_crlf());
    match separator(all) {
        Some((at, len)) => {
            let s = all.subrange(at, at + len);
            assert(s[0] == all[at] && s[1] == all[at + 1]);
            if len == 4 {
                assert(s[2] == all[at + 2] && s[3] == all[at + 3]);
            }
            if at < n {
                assert(all[at] == block[at]);
                if at + 1 < n {
                    assert(all[at + 1] == block[at + 1]);
                }
                if len == 4 && at + 2 < n {
                    assert(all[at + 2] == block[at + 2]);
                }
                if len == 4 && at + 3 < n {
                    assert(all[at + 3] == block[at + 3]);
                }
                if at == n - 1 {
                    assert(block[at] == block.last());
                } else if len == 4 && at == n - 2 {
                    assert(block[at + 1] == block.last());
                } else if len == 4 && at == n - 3 {
                    assert(block[at + 2] == block.last());
                }
                assert(false);
            }
            if at > n {
                assert(!bytes_at(all, end, n));
            }
            assert(at == n);
            assert(all[n] == end[0]);
            assert(len == end.len());
        },
        None => {},
    }
    assert(all.take(n) =~= block);
    assert(all.skip(n + end.len()) =~= rest);
}

} // verus!
