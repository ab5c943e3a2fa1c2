//! What the functions of the library give back, by what goes into them.

use vstd::prelude::*;
use vstd::utf8::{decode_utf8, valid_utf8};

use crate::config::BackendConfig;
use crate::engine::{advised, decided_all, event_evaluations, EngineModel};
use crate::feeds::FeedStatusMap;
use crate::fixed::{Price, PriceError};
use crate::journal::{line_models, JournalLine, JournalRecord, LineModel, RecordModel};
use crate::json::{field, json_read, JsonModel, JsonValue};
use crate::laws::book::{events_are_the_top_of_the_book, says};
use crate::laws::discovery::fixtures_are_tried_while_they_are_of_interest;
use crate::laws::odds::only_the_selected_market_counts;
use crate::laws::service::{commands_are_shown, commands_do_what_they_say};
use crate::mapping::{fixture_priority, DiscoveryConfig, DiscoveryError};
use crate::order::{in_order, order_is_stable, placed};
use crate::pascal::{BookStep, PascalBook, PascalBookAdapter, PascalFault};
use crate::runtime::{
    after_market_event, event_taken, runtime_stepped, ProcessedEvent, Readiness, ReplayWorker,
    Runtime, RuntimeModel,
};
use crate::session::{
    envelope_models, feed_status_for, first_unreadable, load_replay_events, number_order,
    probe_summary, Backoff, FeedMode, ProbeSummary, ReplayCommand, ReplaySpeed, ReplayStatus,
};
use crate::strategy::{DislocationTaker, EvaluationModel};
use crate::text::decimal;
use crate::txline::{
    about_fixture, block_data, fair_value_in, fixture_models, fixtures_in, message_in,
    odds_line_models, odds_lines_in, odds_snapshot_url, probability_in, proof_time_in,
    read_fixtures, read_odds_lines, selected, FixtureModel, TxLineAdapter, TxLineFault,
    TxLineFixture, TxLineOddsLine,
};
use crate::types::{EnvelopeModel, EventEnvelope, EventModel, FeedStatus, Stamp};

verus! {

/// A price is made of every number of millionths from zero to one, and of no other.
pub proof fn prices_are_made_of_millionths(
    value: i64,
    made: Result<Price, PriceError>,
    zero: Price,
    one: Price,
)
    requires
        call_ensures(Price::from_micros, (value,), made),
        call_ensures(Price::zero, (), zero),
        call_ensures(Price::one, (), one),
    ensures
        0 <= value <= 1_000_000 ==> made is Ok && made->Ok_0@ == value,
        value < 0 || value > 1_000_000 ==> made == Err::<Price, PriceError>(
            PriceError::OutOfRange,
        ),
        zero@ == 0,
        one@ == 1_000_000,
{
}

/// The distance between two prices is the same in both directions, and nothing exactly when
/// they are the same.
pub proof fn distances_have_no_direction(a: Price, b: Price, there: i64, back: i64, rest: Price)
    requires
        call_ensures(Price::abs_diff, (a, b), there),
        call_ensures(Price::abs_diff, (b, a), back),
        call_ensures(Price::complement, (a,), rest),
    ensures
        there == back,
        there >= 0,
        there == a@ - b@ || there == b@ - a@,
        a@ + rest@ == 1_000_000,
{
}

/// A replay runs at a quarter of the recorded speed at least and at twenty times that speed
/// at most. The speeds are the doubles 0.25, 1 and 20 by their bits, which order as they do.
pub proof fn speeds_are_from_a_quarter_to_twenty(
    bits: u64,
    made: Option<ReplaySpeed>,
    normal: ReplaySpeed,
)
    requires
        call_ensures(ReplaySpeed::from_bits, (bits,), made),
        call_ensures(ReplaySpeed::normal, (), normal),
    ensures
        made is Some <==> 0x3fd0_0000_0000_0000 <= bits <= 0x4034_0000_0000_0000,
        made matches Some(speed) ==> speed@ == bits,
        normal@ == 0x3ff0_0000_0000_0000,
{
}

/// The waits of a feed begin with one second and end with half a minute, those of a
/// discovery with five seconds and a minute.
pub proof fn waits_begin_short(feed: Backoff, discovery: Backoff)
    requires
        call_ensures(Backoff::feed, (), feed),
        call_ensures(Backoff::discovery, (), discovery),
    ensures
        feed.seconds == 1 && feed.limit == 30,
        discovery.seconds == 5 && discovery.limit == 60,
{
}

/// The feeds of a live session are connecting at first, those of an inactive one are
/// disconnected. There are two of them.
pub proof fn feeds_begin_without_events(mode: FeedMode, states: FeedStatusMap, name: Seq<char>)
    requires
        call_ensures(feed_status_for, (mode,), states),
    ensures
        states@.contains_key(name) <==> name == "txline"@ || name == "pascal"@,
        mode == FeedMode::Live && states@.contains_key(name) ==> states@[name]
            == FeedStatus::Connecting,
        mode == FeedMode::Inactive && states@.contains_key(name) ==> states@[name]
            == FeedStatus::Disconnected,
{
}

/// Setting the state of a feed changes the state of that feed alone.
pub proof fn one_feed_changes_at_a_time(
    runtime: &mut Runtime,
    feed: &str,
    status: FeedStatus,
    other: Seq<char>,
)
    requires
        call_ensures(Runtime::set_feed_status, (runtime, feed, status), ()),
    ensures
        final(runtime)@.feed_status.contains_key(feed@),
        final(runtime)@.feed_status[feed@] == status,
        other != feed@ ==> (final(runtime)@.feed_status.contains_key(other) <==> old(
            runtime,
        )@.feed_status.contains_key(other)) && final(runtime)@.feed_status[other] == old(
            runtime,
        )@.feed_status[other],
        final(runtime)@.engine == old(runtime)@.engine,
        final(runtime)@.killed == old(runtime)@.killed,
        final(runtime)@.running == old(runtime)@.running,
        final(runtime)@.feed_mode == old(runtime)@.feed_mode,
        final(runtime)@.replay == old(runtime)@.replay,
{
}

/// Whether numbers ascend.
pub open spec fn ascending(s: Seq<u64>) -> bool {
    forall|i: int, j: int| 0 <= i < j < s.len() ==> s[i] <= s[j]
}

/// A summary of round-trip times gives the least, the greatest and the one in the middle of
/// the same times in ascending order.
pub proof fn summaries_give_least_middle_and_greatest(values: &Vec<u64>, summary: ProbeSummary)
    -> (sorted: Seq<u64>)
    requires
        values@.len() > 0,
        call_ensures(probe_summary, (values,), summary),
    ensures
        ascending(sorted),
        sorted.to_multiset() == values@.to_multiset(),
        sorted.len() == values@.len(),
        summary.min_us == sorted[0],
        summary.p50_us == sorted[sorted.len() as int / 2],
        summary.max_us == sorted[sorted.len() - 1],
{
    let before = number_order();
    let sorted = in_order(values@, before);
    lemma_same_items(values@, before);
    order_is_stable(values@, before, |x: u64| false);
    assert forall|i: int, j: int| 0 <= i < j < sorted.len() implies sorted[i] <= sorted[j] by {
        assert(!before(sorted[j], sorted[i]));
    }
    sorted
}

proof fn lemma_same_items<T>(s: Seq<T>, before: spec_fn(T, T) -> bool)
    ensures
        in_order(s, before).to_multiset() == s.to_multiset(),
    decreases s.len(),
{
    broadcast use vstd::seq_lib::group_to_multiset_ensures;

    if s.len() > 0 {
        lemma_same_items(s.drop_last(), before);
        lemma_placed_items(in_order(s.drop_last(), before), s.last(), before);
        assert(s.drop_last().push(s.last()) =~= s);
    }
}

proof fn lemma_placed_items<T>(s: Seq<T>, x: T, before: spec_fn(T, T) -> bool)
    ensures
        placed(s, x, before).to_multiset() == s.to_multiset().insert(x),
    decreases s.len(),
{
    broadcast use vstd::seq_lib::group_to_multiset_ensures;

    if s.len() > 0 && before(x, s.last()) {
        lemma_placed_items(s.drop_last(), x, before);
        assert(s.drop_last().push(s.last()) =~= s);
        assert(s.drop_last().to_multiset().insert(x).insert(s.last())
            =~= s.drop_last().to_multiset().insert(s.last()).insert(x));
    }
}

/// A recording is loaded unless one of its lines cannot be read; the first such line is
/// named, counted from one.
pub proof fn recordings_are_loaded_unless_a_line_is_unreadable(
    lines: &Vec<JournalLine>,
    loaded: Result<Vec<EventEnvelope>, usize>,
    number: int,
)
    requires
        call_ensures(load_replay_events, (lines,), loaded),
        1 <= number <= lines@.len(),
        line_models(lines@)[number - 1] is Unreadable,
    ensures
        loaded matches Err(first) && 1 <= first <= number && line_models(lines@)[first - 1]
            is Unreadable,
{
    lemma_unreadable(line_models(lines@), number, 0);
}

proof fn lemma_unreadable(lines: Seq<LineModel>, number: int, from: int)
    requires
        0 <= from < number <= lines.len(),
        lines[number - 1] is Unreadable,
    ensures
        first_unreadable(lines, from) matches Some(first) && from < first <= number && lines[first
            - 1] is Unreadable,
    decreases number - from,
{
    if !(lines[from] is Unreadable) {
        lemma_unreadable(lines, number, from + 1);
    }
}

/// A service begins without feeds and without an event, not killed, with its replay at the
/// start of the recording and at the recorded speed.
pub proof fn services_begin_idle(
    config: &BackendConfig,
    total_events: usize,
    journal: String,
    runtime: Runtime,
)
    requires
        call_ensures(Runtime::new, (config, total_events, journal), runtime),
    ensures
        runtime@.running && !runtime@.killed && runtime@.feed_mode == FeedMode::Inactive,
        runtime@.engine.processed_events == 0,
        runtime@.engine.config.risk == config.risk,
        runtime@.engine.config.paper == config.paper,
        runtime@.engine.config.decision_history == config.decision_history,
        runtime@.engine.strategy.config == config.strategy,
        runtime@.replay.event_index == 0,
        runtime@.replay.total_events == total_events,
        runtime@.replay.journal == journal@,
        runtime@.replay.speed == 0x3ff0_0000_0000_0000,
        total_events == 0 ==> runtime@.replay.status == ReplayStatus::Unavailable,
        total_events > 0 ==> runtime@.replay.status == ReplayStatus::Paused,
{
}

/// A reset begins a new run: its record names the run of the fresh engine, and only the
/// kill switch and the recording are what they were.
pub proof fn resets_begin_a_run(
    runtime: &mut Runtime,
    config: &BackendConfig,
    mode: FeedMode,
    record: JournalRecord,
)
    requires
        call_ensures(Runtime::reset, (runtime, config, mode), record),
    ensures
        record@ matches RecordModel::Run { run_id, .. } && run_id == final(runtime)@.engine.run_id,
        final(runtime)@.engine.processed_events == 0,
        final(runtime)@.engine.trading.state.position == 0,
        final(runtime)@.engine.trading.risk.killed == old(runtime)@.killed,
        final(runtime)@.killed == old(runtime)@.killed,
        final(runtime)@.running == old(runtime)@.running,
        final(runtime)@.feed_mode == mode,
        final(runtime)@.replay.event_index == 0,
        final(runtime)@.replay.total_events == old(runtime)@.replay.total_events,
{
}

/// A replay begins at the start of its recording, stopped and at the recorded speed, and is
/// shown so.
pub proof fn replays_begin_stopped(
    events: Vec<EventEnvelope>,
    journal: String,
    worker: &ReplayWorker,
    runtime: &mut Runtime,
)
    requires
        call_ensures(ReplayWorker::new, (events, journal), *worker),
        call_ensures(ReplayWorker::start, (worker, runtime), ()),
    ensures
        worker@.events == envelope_models(events@),
        worker@.index == 0 && !worker@.playing && worker@.target is None,
        worker@.previous_time_ns is None,
        final(runtime)@.replay.event_index == 0,
        final(runtime)@.replay.total_events == events@.len(),
        final(runtime)@.replay.journal == journal@,
        final(runtime)@.replay.speed == 0x3ff0_0000_0000_0000,
        events@.len() == 0 <==> final(runtime)@.replay.status == ReplayStatus::Unavailable,
        events@.len() > 0 ==> final(runtime)@.replay.status == ReplayStatus::Paused,
        final(runtime)@.engine == old(runtime)@.engine,
{
}

/// A command is carried out on the replay and shown by the service. A new run begins with a
/// reset, with a seek and with playing from the end, and is recorded then and only then.
pub proof fn replay_commands_are_carried_out(
    worker: &mut ReplayWorker,
    command: ReplayCommand,
    runtime: &mut Runtime,
    config: &BackendConfig,
    record: Option<JournalRecord>,
)
    requires
        0 <= old(worker)@.index <= old(worker)@.events.len(),
        old(worker)@.target is None,
        call_ensures(
            ReplayWorker::handle_replay_command,
            (worker, command, runtime, config),
            record,
        ),
    ensures
        final(worker)@.events == old(worker)@.events,
        command is Play ==> (final(worker)@.playing <==> old(worker)@.events.len() > 0),
        command is Play ==> (record is Some <==> 0 < old(worker)@.events.len() == old(
            worker,
        )@.index),
        command is Pause ==> !final(worker)@.playing && final(worker)@.index == old(worker)@.index
            && record is None && final(runtime)@.replay.status == ReplayStatus::Paused,
        command is Reset ==> !final(worker)@.playing && final(worker)@.index == 0 && record is Some,
        command matches ReplayCommand::SetSpeed(speed) ==> final(worker)@.speed == speed@
            && final(worker)@.index == old(worker)@.index && final(worker)@.playing == old(
            worker,
        )@.playing && record is None,
        command matches ReplayCommand::Seek(at) ==> !final(worker)@.playing && final(worker)@.index
            == 0 && record is Some && (0 < at <= old(worker)@.events.len() ==> final(worker)@.target
            == Some(at as int)),
        record is Some ==> final(runtime)@.engine.processed_events == 0,
        record is None ==> final(runtime)@.engine == old(runtime)@.engine,
        record matches Some(r) ==> (r@ matches RecordModel::Run { run_id, .. } && run_id
            == final(runtime)@.engine.run_id),
{
    commands_do_what_they_say(old(worker)@, command);
    commands_are_shown(old(worker)@, command);
}

/// A step replays the next event on the engine, which takes no event twice, and stands
/// behind it. Nothing of a replay is recorded again but what the engine decides.
pub proof fn replay_steps_take_the_next_event(
    worker: &mut ReplayWorker,
    runtime: &mut Runtime,
    result: Option<ProcessedEvent>,
)
    requires
        0 <= old(worker)@.index < old(worker)@.events.len(),
        call_ensures(ReplayWorker::step, (worker, runtime), result),
    ensures
        final(worker)@.index == old(worker)@.index + 1,
        final(worker)@.events == old(worker)@.events,
        ({
            let event = old(worker)@.events[old(worker)@.index];
            let ours = event.event is FairValue || event.event is Book;
            &&& result is Some <==> ours
            &&& ours ==> final(runtime)@.engine.processed_events == old(
                runtime,
            )@.engine.processed_events + 1
            &&& !ours ==> final(runtime)@.engine == old(runtime)@.engine
            &&& event.event is FairValue ==> final(runtime)@.feed_status == old(
                runtime,
            )@.feed_status.insert("txline"@, FeedStatus::Live)
            &&& event.event is Book ==> final(runtime)@.feed_status == old(
                runtime,
            )@.feed_status.insert("pascal"@, FeedStatus::Live)
        }),
        final(runtime)@.killed == old(runtime)@.killed,
{
    let event = old(worker)@.events[old(worker)@.index];
    let stamps = choose|stamps: Seq<Stamp>|
        #![trigger runtime_stepped(old(runtime)@, old(worker)@, stamps)]
        final(runtime)@ == runtime_stepped(old(runtime)@, old(worker)@, stamps) && event_taken(
            old(runtime)@,
            after_market_event(old(runtime)@, event, stamps),
            event,
            false,
            result,
            stamps,
        );
    assert(final(runtime)@ == runtime_stepped(old(runtime)@, old(worker)@, stamps));
    if event.event is FairValue || event.event is Book {
        lemma_counts_one(old(runtime)@, event, stamps);
    }
}

proof fn lemma_counts_one(rt: RuntimeModel, event: EnvelopeModel, stamps: Seq<Stamp>)
    requires
        event.event is FairValue || event.event is Book,
    ensures
        after_market_event(rt, event, stamps).engine.processed_events == rt.engine.processed_events
            + 1,
{
    lemma_deciding_counts_nothing(
        advised::<DislocationTaker>(rt.engine, event),
        event_evaluations::<DislocationTaker>(rt.engine, event),
        event,
        stamps,
    );
}

proof fn lemma_deciding_counts_nothing<M>(
    e: EngineModel<M>,
    evaluations: Seq<EvaluationModel>,
    event: EnvelopeModel,
    stamps: Seq<Stamp>,
)
    ensures
        decided_all(e, evaluations, event, stamps).processed_events == e.processed_events,
    decreases evaluations.len(),
{
    if evaluations.len() > 0 {
        lemma_deciding_counts_nothing(e, evaluations.drop_last(), event, stamps.drop_last());
    }
}

/// A service says why it is not ready.
pub proof fn readiness_is_told(readiness: &Readiness, reason: &str, ready: bool)
    requires
        call_ensures(Readiness::reason, (readiness,), reason),
        call_ensures(Readiness::is_ready, (readiness,), ready),
    ensures
        ready <==> readiness is Ready,
        ready ==> reason@ == "ready"@,
        readiness is Stopped ==> reason@ == "engine stopped"@,
        readiness is Killed ==> reason@ == "kill switch active"@,
        readiness is Inactive ==> reason@ == "live feeds inactive"@,
        readiness is FeedUnavailable ==> reason@ == "feed unavailable"@,
{
}

/// Fixtures that have begun come first, and among them, as among those to come, the nearer.
pub proof fn begun_fixtures_come_first(start: u64, now: u64, rank: (u8, u64))
    requires
        call_ensures(fixture_priority, (start, now), rank),
    ensures
        start <= now ==> rank.0 == 0 && start + rank.1 == now,
        start > now ==> rank.0 == 1 && now + rank.1 == start,
{
}

/// Of the fixtures that a discovery is given, those of interest are tried. Without any it
/// fails.
pub proof fn discoveries_try_fixtures_of_interest(
    config: &DiscoveryConfig,
    fixtures: Vec<TxLineFixture>,
    now_ms: u64,
    tried: Result<Vec<TxLineFixture>, DiscoveryError>,
    fixture: FixtureModel,
)
    requires
        call_ensures(DiscoveryConfig::resolve_fixtures, (config, fixtures, now_ms), tried),
        0 <= fixture.start_time_ms,
        fixture.start_time_ms + 21_600_000 <= u64::MAX,
    ensures
        ({
            let wanted = fixture_models(fixtures@).contains(fixture) && fixture.game_state != Some(
                6u64,
            ) && (config@.fixture_id_override matches Some(id) ==> fixture.fixture_id == id)
                && now_ms <= fixture.start_time_ms + 21_600_000;
            &&& tried matches Ok(all) ==> (fixture_models(all@).contains(fixture) <==> wanted)
            &&& tried matches Err(error) ==> error == DiscoveryError::NoFixture && !wanted
        }),
{
    fixtures_are_tried_while_they_are_of_interest(
        fixture_models(fixtures@),
        config@.fixture_id_override,
        now_ms as int,
        fixture,
    );
}

/// What a snapshot of fixtures is read as: an error where it is no JSON or no array, and
/// otherwise its fixtures.
pub proof fn snapshots_are_arrays(
    text: &str,
    fixtures: Result<Vec<TxLineFixture>, TxLineFault>,
    lines: Result<Vec<TxLineOddsLine>, TxLineFault>,
)
    requires
        call_ensures(read_fixtures, (text,), fixtures),
        call_ensures(read_odds_lines, (text,), lines),
    ensures
        json_read(text@) is None ==> (fixtures matches Err(TxLineFault::NotJson)) && (
        lines matches Err(TxLineFault::NotJson)),
        json_read(text@) matches Some(payload) ==> (!(payload is Array) ==> (fixtures matches Err(
            TxLineFault::NotAnArray,
        )) && (lines matches Err(TxLineFault::NotAnArray))),
        json_read(text@) matches Some(JsonModel::Array(items)) ==> {
            &&& fixtures is Ok && fixture_models(fixtures->Ok_0@) == fixtures_in(items)
            &&& lines is Ok && odds_line_models(lines->Ok_0@) == odds_lines_in(items)
        },
{
}

/// The odds of a fixture are asked for at its number behind the path of snapshots.
pub proof fn odds_are_asked_for_by_fixture(origin: &str, fixture_id: u64, url: String)
    requires
        call_ensures(odds_snapshot_url, (origin, fixture_id), url),
        origin@.len() > 0 ==> origin@.last() != '/',
    ensures
        url@ == origin@ + "/api/odds/snapshot/"@ + decimal(fixture_id as nat),
{
}

/// A block of the stream becomes an event exactly when its data are JSON about the fixture
/// and the selected market, and give a fair value.
pub proof fn blocks_become_fair_values(
    adapter: &TxLineAdapter,
    block: &[u8],
    received_time_ns: u64,
    result: Result<Option<EventEnvelope>, TxLineFault>,
)
    requires
        call_ensures(TxLineAdapter::block_event, (adapter, block, received_time_ns), result),
    ensures
        ({
            let data = block_data(decode_utf8(block@));
            let wanted = adapter.settings().selection@;
            &&& !valid_utf8(block@) ==> (result matches Err(TxLineFault::NotUtf8))
            &&& valid_utf8(block@) && data.len() == 0 ==> (result matches Ok(None))
            &&& valid_utf8(block@) && data.len() > 0 && json_read(data) is None
                ==> (result matches Err(TxLineFault::NotJson))
            &&& valid_utf8(block@) && data.len() > 0 ==> (json_read(data) matches Some(payload)
                ==> {
                let about = about_fixture(payload, adapter.settings().fixture_id as int)
                    && selected(payload, wanted);
                &&& result is Ok
                &&& (result matches Ok(Some(_))) <==> about && fair_value_in(
                    payload,
                    adapter.settings().market@,
                    wanted,
                ) is Some
                &&& result matches Ok(Some(e)) ==> e.received_time_ns == received_time_ns
                    && e.event@ == (EventModel::FairValue {
                    market: adapter.settings().market@,
                    probability: probability_in(payload, Some(wanted))->0,
                    source_seq: proof_time_in(payload)->0,
                    message_id: message_in(payload),
                    proof_ts: Some(proof_time_in(payload)->0 as i64),
                })
            })
        }),
{
}

/// A snapshot of odds becomes an event by the first of its lines that is about the fixture
/// and the selected market.
pub proof fn snapshots_become_fair_values(
    adapter: &TxLineAdapter,
    payload: &JsonValue,
    received_time_ns: u64,
    result: Result<Option<EventEnvelope>, TxLineFault>,
    items: Seq<JsonModel>,
    i: int,
)
    requires
        call_ensures(
            TxLineAdapter::snapshot_payload_event,
            (adapter, payload, received_time_ns),
            result,
        ),
        payload@ == JsonModel::Array(items),
        0 <= i < items.len(),
        about_fixture(items[i], adapter.settings().fixture_id as int),
        selected(items[i], adapter.settings().selection@),
        forall|j: int|
            0 <= j < i ==> !(about_fixture(
                #[trigger] items[j],
                adapter.settings().fixture_id as int,
            ) && selected(items[j], adapter.settings().selection@)),
    ensures
        ({
            let wanted = adapter.settings().selection@;
            &&& result is Ok
            &&& (result matches Ok(Some(_))) <==> fair_value_in(
                items[i],
                adapter.settings().market@,
                wanted,
            ) is Some
            &&& result matches Ok(Some(e)) ==> e.received_time_ns == received_time_ns && e.event@
                == (EventModel::FairValue {
                market: adapter.settings().market@,
                probability: probability_in(items[i], Some(wanted))->0,
                source_seq: proof_time_in(items[i])->0,
                message_id: message_in(items[i]),
                proof_ts: Some(proof_time_in(items[i])->0 as i64),
            })
        }),
{
    only_the_selected_market_counts(
        payload@,
        items,
        adapter.settings().market@,
        adapter.settings().fixture_id as int,
        adapter.settings().selection@,
        i,
    );
}

/// A message about the book becomes an event with the top of the book after it: the highest
/// bid, the lowest ask, and the contracts there.
pub proof fn book_messages_give_the_top(
    adapter: &PascalBookAdapter,
    book: &mut PascalBook,
    payload: &JsonValue,
    received_time_ns: u64,
    step: Result<BookStep, PascalFault>,
    bid: i64,
    ask: i64,
    seq: u64,
)
    requires
        call_ensures(
            PascalBookAdapter::on_payload,
            (adapter, book, payload, received_time_ns),
            step,
        ),
        says(payload@, "channel"@, "book"@),
        says(payload@, "symbol"@, adapter.settings().symbol@),
        !says(payload@, "type"@, "error"@),
        field(payload@, "data"@) is Some,
        field(payload@, "seq"@) matches Some(JsonModel::Number { unsigned: Some(n), .. }) && n
            == seq,
        final(book)@.bids.contains_key(bid),
        forall|other: i64| #[trigger] final(book)@.bids.contains_key(other) ==> other <= bid,
        final(book)@.asks.contains_key(ask),
        forall|other: i64| #[trigger] final(book)@.asks.contains_key(other) ==> ask <= other,
    ensures
        step matches Ok(BookStep::Event(e)) && e.received_time_ns == received_time_ns && e.event@
            == (EventModel::Book {
            market: adapter.settings().market@,
            bid: bid as int,
            bid_size: final(book)@.bids[bid] as int,
            ask: ask as int,
            ask_size: final(book)@.asks[ask] as int,
            venue_seq: seq as int,
        }),
{
    events_are_the_top_of_the_book(
        old(book)@,
        payload@,
        adapter.settings().symbol@,
        adapter.settings().market@,
        bid,
        ask,
    );
}

} // verus!
