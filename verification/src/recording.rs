//! Recording: what a live run leaves in the journal, and what a replay makes of
//! it.

use vstd::prelude::*;

use crate::engine::OutputModel;
use crate::journal::{
    complete_mapping, event_fault, JournalLine, JournalRecord, LineModel, MappingModel,
    MarketDataSource, RecordModel, SelectionModel, JOURNAL_SCHEMA,
};
use crate::json::JsonModel;
use crate::laws::{after_events, alike, run_outputs, runs_agree, unstamped_outputs, TakerEngine};
use crate::replay::{lemma_tally_unstamped, no_lines, scan, tally, ScanModel};
use crate::runtime::{
    after_market_event, event_record, market_event_outputs, origin_of, records_for, records_of,
    RuntimeModel,
};
use crate::strategy::DislocationTaker;
use crate::txline::fair_value_in;
use crate::types::{EnvelopeModel, EventModel, Stamp};

verus! {

/// What a replay reads of a record.
pub open spec fn line_of(record: RecordModel) -> LineModel {
    match record {
        RecordModel::Mapping { mapping, .. } => LineModel::Mapping { mapping },
        RecordModel::Event { source, event, .. } => LineModel::Event { source, event },
        _ => LineModel::Other,
    }
}

/// What a replay reads of some records.
pub open spec fn lines_of(records: Seq<RecordModel>) -> Seq<LineModel> {
    Seq::new(records.len(), |i: int| line_of(records[i]))
}

/// A record that is read back is read as what it was written for.
pub proof fn records_are_read_as_lines(record: JournalRecord)
    ensures
        JournalLine::Record(record)@ == line_of(record@),
{
}

/// The service after some events of its feeds.
pub open spec fn after_market_events(
    rt: RuntimeModel,
    events: Seq<EnvelopeModel>,
    stamps: Seq<Seq<Stamp>>,
) -> RuntimeModel
    decreases events.len(),
{
    if events.len() == 0 {
        rt
    } else {
        after_market_event(
            after_market_events(rt, events.drop_last(), stamps.drop_last()),
            events.last(),
            stamps.last(),
        )
    }
}

/// The outputs of the service for some events of its feeds.
pub open spec fn live_outputs(
    rt: RuntimeModel,
    events: Seq<EnvelopeModel>,
    stamps: Seq<Seq<Stamp>>,
) -> Seq<OutputModel>
    decreases events.len(),
{
    if events.len() == 0 {
        Seq::empty()
    } else {
        live_outputs(rt, events.drop_last(), stamps.drop_last()) + market_event_outputs(
            after_market_events(rt, events.drop_last(), stamps.drop_last()),
            events.last(),
            stamps.last(),
        )
    }
}

/// The records that the service journals for an event of a feed: the event with
/// its source, and behind it what came of it.
#[verifier::opaque]
pub open spec fn event_records(
    rt: RuntimeModel,
    event: EnvelopeModel,
    stamps: Seq<Stamp>,
) -> Seq<RecordModel> {
    event_record(event, true) + records_for(market_event_outputs(rt, event, stamps))
}

/// The records that the service journals for some events of its feeds.
pub open spec fn live_records(
    rt: RuntimeModel,
    events: Seq<EnvelopeModel>,
    stamps: Seq<Seq<Stamp>>,
) -> Seq<RecordModel>
    decreases events.len(),
{
    if events.len() == 0 {
        Seq::empty()
    } else {
        live_records(rt, events.drop_last(), stamps.drop_last()) + event_records(
            after_market_events(rt, events.drop_last(), stamps.drop_last()),
            events.last(),
            stamps.last(),
        )
    }
}

/// Whether an event comes from a feed, as an adapter makes it for a mapping.
pub open spec fn recordable(event: EventModel, mapping: MappingModel) -> bool {
    match origin_of(event) {
        Some((_, source)) => event_fault(source, event, mapping) is None,
        None => false,
    }
}

/// Every fair value that the TxLINE adapter makes for the market of a mapping can
/// be recorded: it says which message it came from and when it was proved.
pub proof fn adapted_fair_values_are_recordable(
    payload: JsonModel,
    selection: SelectionModel,
    mapping: MappingModel,
)
    requires
        fair_value_in(payload, mapping.market, selection) is Some,
    ensures
        recordable(fair_value_in(payload, mapping.market, selection)->0.event, mapping),
{
}

/// Every book of the market of a mapping can be recorded.
pub proof fn books_are_recordable(event: EventModel, mapping: MappingModel)
    requires
        event is Book,
        event->Book_market == mapping.market,
    ensures
        recordable(event, mapping),
{
}

proof fn lemma_scan_passes_over(
    lines: Seq<LineModel>,
    more: Seq<LineModel>,
    max_events: Option<u64>,
)
    requires
        forall|i: int| 0 <= i < more.len() ==> #[trigger] more[i] is Other,
    ensures
        scan(lines + more, max_events) == scan(lines, max_events),
    decreases more.len(),
{
    if more.len() == 0 {
        assert(lines + more =~= lines);
    } else {
        let rest = more.drop_last();
        assert forall|i: int| 0 <= i < rest.len() implies #[trigger] rest[i] is Other by {
            assert(rest[i] == more[i]);
        }
        lemma_scan_passes_over(lines, rest, max_events);
        assert((lines + more).drop_last() =~= lines + rest);
        assert((lines + more).last() == more[more.len() - 1]);
    }
}

proof fn lemma_outputs_are_passed_over(outputs: Seq<OutputModel>)
    ensures
        forall|i: int|
            0 <= i < lines_of(records_for(outputs)).len() ==> #[trigger] lines_of(
                records_for(outputs),
            )[i] is Other,
    decreases outputs.len(),
{
    if outputs.len() > 0 {
        lemma_outputs_are_passed_over(outputs.drop_last());
        let before = records_for(outputs.drop_last());
        let mine = records_of(outputs.last());
        assert forall|i: int| 0 <= i < (before + mine).len() implies #[trigger] lines_of(
            before + mine,
        )[i] is Other by {
            if i < before.len() {
                assert(lines_of(before)[i] is Other);
            } else {
                assert(line_of(mine[i - before.len()]) is Other);
            }
        }
    }
}

/// The head of the journal of a run: the record of the run, and the mapping.
pub open spec fn journal_head(run_id: int, mapping: MappingModel) -> Seq<RecordModel> {
    seq![
        RecordModel::Run { schema: JOURNAL_SCHEMA, run_id },
        RecordModel::Mapping { schema: JOURNAL_SCHEMA, mapping },
    ]
}

proof fn lemma_lines_add_up(a: Seq<RecordModel>, b: Seq<RecordModel>)
    ensures
        lines_of(a + b) == lines_of(a) + lines_of(b),
{
    assert(lines_of(a + b) =~= lines_of(a) + lines_of(b));
}

proof fn lemma_scan_head(run_id: int, mapping: MappingModel)
    requires
        complete_mapping(mapping),
    ensures
        scan(lines_of(journal_head(run_id, mapping)), None) == (ScanModel {
            mapping: Some(mapping),
            mappings: 1,
            ..no_lines()
        }),
{
    let lines = lines_of(journal_head(run_id, mapping));
    let first = lines.drop_last();
    assert(first.drop_last() =~= Seq::<LineModel>::empty());
    assert(scan(first.drop_last(), None) == no_lines());
    assert(first.last() is Other);
    assert(scan(first, None) == no_lines());
    assert(lines.last() == (LineModel::Mapping { mapping }));
}

proof fn lemma_scan_event(
    lines: Seq<LineModel>,
    source: MarketDataSource,
    event: EnvelopeModel,
    mapping: MappingModel,
)
    requires
        scan(lines, None).mapping == Some(mapping),
        scan(lines, None).fault is None,
        !scan(lines, None).done,
        event_fault(source, event.event, mapping) is None,
    ensures
        ({
            let before = scan(lines, None);
            let s = scan(lines.push(LineModel::Event { source, event }), None);
            &&& s.events == before.events.push(event)
            &&& s.mapping == before.mapping
            &&& s.mappings == before.mappings
            &&& s.fault is None
            &&& !s.done
            &&& s.txline_events + s.pascal_events == before.txline_events + before.pascal_events + 1
        }),
{
    let all = lines.push(LineModel::Event { source, event });
    assert(all.drop_last() =~= lines);
    assert(all.last() == (LineModel::Event { source, event }));
}

/// Whether a scan has read some events under a mapping, and found nothing wrong.
pub open spec fn has_read(
    s: ScanModel,
    mapping: MappingModel,
    events: Seq<EnvelopeModel>,
) -> bool {
    &&& s.events == events
    &&& s.mapping == Some(mapping)
    &&& s.mappings == 1
    &&& s.fault is None
    &&& !s.done
    &&& s.txline_events + s.pascal_events == events.len()
}

proof fn lemma_scan_event_records(
    earlier: Seq<RecordModel>,
    mapping: MappingModel,
    events: Seq<EnvelopeModel>,
    rt: RuntimeModel,
    event: EnvelopeModel,
    stamps: Seq<Stamp>,
)
    requires
        has_read(scan(lines_of(earlier), None), mapping, events),
        recordable(event.event, mapping),
    ensures
        has_read(
            scan(lines_of(earlier + event_records(rt, event, stamps)), None),
            mapping,
            events.push(event),
        ),
{
    reveal(event_records);
    let outputs = market_event_outputs(rt, event, stamps);
    let (_, source) = origin_of(event.event)->0;
    let line = LineModel::Event { source, event };
    let record = event_record(event, true);
    let results = records_for(outputs);
    lemma_outputs_are_passed_over(outputs);
    lemma_scan_event(lines_of(earlier), source, event, mapping);
    lemma_scan_passes_over(lines_of(earlier).push(line), lines_of(results), None);
    lemma_lines_add_up(earlier, record + results);
    lemma_lines_add_up(record, results);
    assert(lines_of(record) =~= seq![line]);
    assert(lines_of(earlier) + (seq![line] + lines_of(results)) =~= lines_of(earlier).push(line)
        + lines_of(results));
}

/// What is recorded is what is replayed: of the journal of a live run a replay
/// reads exactly the run's events, in their order, with the mapping that was
/// recorded, and finds nothing wrong with any line.
pub proof fn recorded_events_are_replayed(
    rt: RuntimeModel,
    mapping: MappingModel,
    events: Seq<EnvelopeModel>,
    stamps: Seq<Seq<Stamp>>,
    run_id: int,
)
    requires
        complete_mapping(mapping),
        forall|i: int| 0 <= i < events.len() ==> recordable(#[trigger] events[i].event, mapping),
    ensures
        has_read(
            scan(
                lines_of(journal_head(run_id, mapping) + live_records(rt, events, stamps)),
                None,
            ),
            mapping,
            events,
        ),
    decreases events.len(),
{
    let head = journal_head(run_id, mapping);
    if events.len() == 0 {
        assert(head + live_records(rt, events, stamps) =~= head);
        lemma_scan_head(run_id, mapping);
        assert(events =~= Seq::<EnvelopeModel>::empty());
    } else {
        let rest = events.drop_last();
        let before = stamps.drop_last();
        assert forall|i: int| 0 <= i < rest.len() implies recordable(
            #[trigger] rest[i].event,
            mapping,
        ) by {
            assert(rest[i] == events[i]);
        }
        recorded_events_are_replayed(rt, mapping, rest, before, run_id);
        assert(recordable(events[events.len() - 1].event, mapping));
        let earlier = head + live_records(rt, rest, before);
        let there = after_market_events(rt, rest, before);
        lemma_scan_event_records(earlier, mapping, rest, there, events.last(), stamps.last());
        assert(head + live_records(rt, events, stamps) =~= earlier + event_records(
            there,
            events.last(),
            stamps.last(),
        ));
        assert(rest.push(events.last()) =~= events);
    }
}

proof fn lemma_live_run(rt: RuntimeModel, events: Seq<EnvelopeModel>, stamps: Seq<Seq<Stamp>>)
    requires
        forall|i: int| 0 <= i < events.len() ==> origin_of(#[trigger] events[i].event) is Some,
    ensures
        after_market_events(rt, events, stamps).engine == after_events::<DislocationTaker>(
            rt.engine,
            events,
            stamps,
        ),
        live_outputs(rt, events, stamps) == run_outputs::<DislocationTaker>(
            rt.engine,
            events,
            stamps,
        ),
    decreases events.len(),
{
    if events.len() > 0 {
        let rest = events.drop_last();
        assert forall|i: int| 0 <= i < rest.len() implies origin_of(
            #[trigger] rest[i].event,
        ) is Some by {
            assert(rest[i] == events[i]);
        }
        lemma_live_run(rt, rest, stamps.drop_last());
        assert(origin_of(events[events.len() - 1].event) is Some);
    }
}

/// A replay decides what the live run decided. Replaying the journal of a live run
/// on an engine with the same settings takes the engine to where the run took it
/// and puts out the same decisions, fills and trades, so that the totals and both
/// checksums are those of the live run. What comes from chance and the clock is
/// left out.
pub proof fn replays_repeat_the_live_run(
    rt: RuntimeModel,
    mapping: MappingModel,
    events: Seq<EnvelopeModel>,
    stamps: Seq<Seq<Stamp>>,
    run_id: int,
    e: TakerEngine,
    replay_stamps: Seq<Seq<Stamp>>,
)
    requires
        complete_mapping(mapping),
        forall|i: int| 0 <= i < events.len() ==> recordable(#[trigger] events[i].event, mapping),
        alike(e, rt.engine),
    ensures
        ({
            let s = scan(
                lines_of(journal_head(run_id, mapping) + live_records(rt, events, stamps)),
                None,
            );
            let replayed = run_outputs::<DislocationTaker>(e, s.events, replay_stamps);
            let live = live_outputs(rt, events, stamps);
            &&& alike(
                after_events::<DislocationTaker>(e, s.events, replay_stamps),
                after_market_events(rt, events, stamps).engine,
            )
            &&& unstamped_outputs(replayed) == unstamped_outputs(live)
            &&& tally(replayed) == tally(live)
        }),
{
    recorded_events_are_replayed(rt, mapping, events, stamps, run_id);
    assert forall|i: int| 0 <= i < events.len() implies origin_of(
        #[trigger] events[i].event,
    ) is Some by {
        assert(recordable(events[i].event, mapping));
    }
    lemma_live_run(rt, events, stamps);
    runs_agree::<DislocationTaker>(e, rt.engine, events, replay_stamps, stamps);
    lemma_tally_unstamped(
        run_outputs::<DislocationTaker>(e, events, replay_stamps),
        live_outputs(rt, events, stamps),
    );
}

} // verus!
