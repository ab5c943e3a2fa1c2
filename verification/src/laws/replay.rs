//! What a replay makes of a journal, line by line.

use vstd::prelude::*;

use crate::journal::{
    blank, complete_mapping, event_fault, EventFault, LineModel, MappingModel, MarketDataSource,
};
use crate::order::those;
use crate::replay::{journal_fault, scan, ReplayError, ScanModel};
use crate::types::{EnvelopeModel, EventModel};

verus! {

/// Whether line `at` is the last mapping before line `i`.
pub open spec fn last_mapping(lines: Seq<LineModel>, i: int, at: int) -> bool {
    &&& 0 <= at < i
    &&& lines[at] is Mapping
    &&& forall|k: int| at < k < i ==> !((#[trigger] lines[k]) is Mapping)
}

/// Whether no mapping stands before line `i`.
pub open spec fn unmapped(lines: Seq<LineModel>, i: int) -> bool {
    forall|k: int| 0 <= k < i ==> !((#[trigger] lines[k]) is Mapping)
}

/// Whether an event is one of the mapping's market, recorded by the adapter that makes
/// such events: a fair value of TxLINE that names its message and its proof, or a book of
/// Pascal.
pub open spec fn belongs_to(
    source: MarketDataSource,
    event: EventModel,
    mapping: MappingModel,
) -> bool {
    match event {
        EventModel::FairValue { market, message_id, proof_ts, .. } => {
            &&& source == MarketDataSource::Txline
            &&& market == mapping.market
            &&& message_id matches Some(id) && !blank(id)
            &&& proof_ts is Some
        },
        EventModel::Book { market, .. } => source == MarketDataSource::Pascal && market
            == mapping.market,
        _ => false,
    }
}

/// An event is accepted for a mapping exactly when it belongs to it. What is wrong with
/// another is said by the first of these that fails: it has a market, the market is the
/// mapping's, it is of the kind that its adapter makes, it names its message and proof.
pub proof fn recorded_events_belong_to_their_mapping(
    source: MarketDataSource,
    event: EventModel,
    mapping: MappingModel,
)
    ensures
        event_fault(source, event, mapping) is None <==> belongs_to(source, event, mapping),
        event_fault(source, event, mapping) == Some(EventFault::UnsupportedEvent) <==> !(
        event is FairValue) && !(event is Book),
        event_fault(source, event, mapping) == Some(EventFault::OtherMarket) <==> (
        event matches EventModel::FairValue { market, .. } && market != mapping.market) || (
        event matches EventModel::Book { market, .. } && market != mapping.market),
        event_fault(source, event, mapping) == Some(EventFault::NotABook) <==> source
            == MarketDataSource::Pascal && (event matches EventModel::FairValue { market, .. }
            && market == mapping.market),
        event_fault(source, event, mapping) == Some(EventFault::NotAFairValue) <==> source
            == MarketDataSource::Txline && (event matches EventModel::Book { market, .. } && market
            == mapping.market),
{
}

/// A mapping is complete exactly when it has a fixture, a market, a symbol, an odds type
/// and a price name. The label, the start, the parameters, the period and the place of the
/// price may be anything.
pub proof fn mappings_need_five_fields(a: MappingModel, b: MappingModel)
    ensures
        complete_mapping(a) ==> a.fixture_id != 0 && !blank(a.market) && !blank(a.pascal_symbol)
            && !blank(a.txline_selection.super_odds_type) && !blank(a.txline_selection.price_name),
        complete_mapping(a) && b.fixture_id != 0 && !blank(b.market) && !blank(b.pascal_symbol)
            && !blank(b.txline_selection.super_odds_type) && !blank(b.txline_selection.price_name)
            ==> complete_mapping(b),
        a.fixture_id != 0 && !blank(a.market) && !blank(a.pascal_symbol) && !blank(
            a.txline_selection.super_odds_type,
        ) && !blank(a.txline_selection.price_name) ==> complete_mapping(a),
{
}

/// Whether line `i` can be replayed where it stands: a mapping is complete, an event
/// belongs to the last mapping before it.
pub open spec fn replayable_line(lines: Seq<LineModel>, i: int) -> bool {
    match lines[i] {
        LineModel::Unreadable => false,
        LineModel::Mapping { mapping } => complete_mapping(mapping),
        LineModel::Event { source, event } => exists|at: int| #[trigger]
            last_mapping(lines, i, at) && belongs_to(
                source,
                event.event,
                lines[at]->Mapping_mapping,
            ),
        LineModel::Other => true,
    }
}

/// The events of some lines, in their order.
pub open spec fn events_in(lines: Seq<LineModel>) -> Seq<EnvelopeModel> {
    those(lines, |line: LineModel| line is Event).map_values(
        |line: LineModel| line->Event_event,
    )
}

/// How many events of a source stand in some lines.
pub open spec fn count_from(lines: Seq<LineModel>, wanted: MarketDataSource) -> nat {
    those(
        lines,
        |line: LineModel| line matches LineModel::Event { source, .. } && source == wanted,
    ).len()
}

/// How many mappings stand in some lines.
pub open spec fn count_mappings(lines: Seq<LineModel>) -> nat {
    those(lines, |line: LineModel| line is Mapping).len()
}

proof fn lemma_events_in(lines: Seq<LineModel>)
    requires
        lines.len() > 0,
    ensures
        events_in(lines) == match lines.last() {
            LineModel::Event { event, .. } => events_in(lines.drop_last()).push(event),
            _ => events_in(lines.drop_last()),
        },
{
    let is_event = |line: LineModel| line is Event;
    let event_of = |line: LineModel| line->Event_event;
    let rest = those(lines.drop_last(), is_event);
    if lines.last() is Event {
        assert(rest.push(lines.last()).map_values(event_of) =~= rest.map_values(event_of).push(
            lines.last()->Event_event,
        ));
    }
}

/// What the lines come to, as long as every line can be replayed.
proof fn lemma_scan_of_replayable(lines: Seq<LineModel>)
    requires
        forall|i: int| 0 <= i < lines.len() ==> #[trigger] replayable_line(lines, i),
    ensures
        ({
            let s = scan(lines, None);
            &&& s.fault is None && !s.done
            &&& s.events == events_in(lines)
            &&& s.txline_events == count_from(lines, MarketDataSource::Txline)
            &&& s.pascal_events == count_from(lines, MarketDataSource::Pascal)
            &&& s.mappings == count_mappings(lines)
        }),
        mapping_in_force(lines),
    decreases lines.len(),
{
    if lines.len() == 0 {
        assert(events_in(lines) =~= Seq::<EnvelopeModel>::empty());
    } else {
        let rest = lines.drop_last();
        let n = lines.len() - 1;
        assert forall|i: int| 0 <= i < rest.len() implies #[trigger] replayable_line(rest, i) by {
            assert(replayable_line(lines, i));
            lemma_replayable_earlier(lines, rest, i);
        }
        lemma_scan_of_replayable(rest);
        lemma_events_in(lines);
        assert(replayable_line(lines, n));
        lemma_mapping_in_force(lines);
        if lines[n] is Event {
            let at = choose|at: int| #[trigger]
                last_mapping(lines, n, at) && belongs_to(
                    lines[n]->source,
                    lines[n]->Event_event.event,
                    lines[at]->Mapping_mapping,
                );
            assert(last_mapping(rest, n, at)) by {
                assert(rest[at] == lines[at]);
                assert forall|k: int| at < k < n implies !((#[trigger] rest[k]) is Mapping) by {
                    assert(rest[k] == lines[k]);
                }
            }
            assert(scan(rest, None).mapping == Some(lines[at]->Mapping_mapping));
            recorded_events_belong_to_their_mapping(
                lines[n]->source,
                lines[n]->Event_event.event,
                lines[at]->Mapping_mapping,
            );
        }
    }
}

proof fn lemma_replayable_earlier(lines: Seq<LineModel>, part: Seq<LineModel>, i: int)
    requires
        part.len() <= lines.len(),
        part == lines.take(part.len() as int),
        0 <= i < part.len(),
    ensures
        replayable_line(part, i) == replayable_line(lines, i),
        unmapped(part, i) == unmapped(lines, i),
        forall|at: int| #[trigger] last_mapping(part, i, at) == last_mapping(lines, i, at),
{
    assert forall|k: int| 0 <= k < part.len() implies part[k] == lines[k] by {}
    assert forall|at: int| #[trigger] last_mapping(part, i, at) == last_mapping(lines, i, at) by {
        if last_mapping(part, i, at) {
            assert forall|k: int| at < k < i implies !((#[trigger] lines[k]) is Mapping) by {
                assert(part[k] == lines[k]);
            }
        }
        if last_mapping(lines, i, at) {
            assert forall|k: int| at < k < i implies !((#[trigger] part[k]) is Mapping) by {
                assert(part[k] == lines[k]);
            }
        }
    }
    if unmapped(part, i) {
        assert forall|k: int| 0 <= k < i implies !((#[trigger] lines[k]) is Mapping) by {
            assert(part[k] == lines[k]);
        }
    }
    if unmapped(lines, i) {
        assert forall|k: int| 0 <= k < i implies !((#[trigger] part[k]) is Mapping) by {
            assert(part[k] == lines[k]);
        }
    }
    if replayable_line(part, i) && part[i] is Event {
        let at = choose|at: int| #[trigger]
            last_mapping(part, i, at) && belongs_to(
                part[i]->source,
                part[i]->Event_event.event,
                part[at]->Mapping_mapping,
            );
        assert(last_mapping(lines, i, at));
    }
    if replayable_line(lines, i) && lines[i] is Event {
        let at = choose|at: int| #[trigger]
            last_mapping(lines, i, at) && belongs_to(
                lines[i]->source,
                lines[i]->Event_event.event,
                lines[at]->Mapping_mapping,
            );
        assert(last_mapping(part, i, at));
    }
}

/// While nothing is wrong, the mapping of a scan is that of the last mapping line.
spec fn mapping_in_force(lines: Seq<LineModel>) -> bool {
    let s = scan(lines, None);
    &&& s.mapping is None ==> unmapped(lines, lines.len() as int)
    &&& unmapped(lines, lines.len() as int) ==> s.mapping is None
    &&& forall|at: int| #[trigger]
        last_mapping(lines, lines.len() as int, at) ==> s.mapping == Some(
            lines[at]->Mapping_mapping,
        )
    &&& s.mapping is Some ==> exists|at: int| #[trigger]
        last_mapping(lines, lines.len() as int, at)
}

proof fn lemma_mapping_in_force(lines: Seq<LineModel>)
    requires
        lines.len() > 0,
        mapping_in_force(lines.drop_last()),
        scan(lines.drop_last(), None).fault is None,
        !scan(lines.drop_last(), None).done,
        lines.last() matches LineModel::Mapping { mapping } ==> complete_mapping(mapping),
    ensures
        mapping_in_force(lines),
{
    let rest = lines.drop_last();
    let n = lines.len() as int;
    let s = scan(lines, None);
    assert(lines[n - 1] == lines.last());
    assert forall|k: int| 0 <= k < n - 1 implies rest[k] == lines[k] by {}
    if lines.last() is Mapping {
        assert(last_mapping(lines, n, n - 1));
        assert forall|at: int| #[trigger] last_mapping(lines, n, at) implies s.mapping == Some(
            lines[at]->Mapping_mapping,
        ) by {
            if at < n - 1 {
                assert(lines[n - 1] is Mapping);
            }
        }
        assert(!unmapped(lines, n)) by {
            assert(lines[n - 1] is Mapping);
        }
    } else {
        assert forall|at: int| #[trigger] last_mapping(lines, n, at) implies last_mapping(
            rest,
            n - 1,
            at,
        ) by {
            assert(rest[at] == lines[at]);
            assert forall|k: int| at < k < n - 1 implies !((#[trigger] rest[k]) is Mapping) by {
                assert(rest[k] == lines[k]);
            }
        }
        if unmapped(rest, n - 1) {
            assert forall|k: int| 0 <= k < n implies !((#[trigger] lines[k]) is Mapping) by {
                if k < n - 1 {
                    assert(rest[k] == lines[k]);
                }
            }
        }
        if unmapped(lines, n) {
            assert forall|k: int| 0 <= k < n - 1 implies !((#[trigger] rest[k]) is Mapping) by {
                assert(rest[k] == lines[k]);
            }
        }
        if s.mapping is Some {
            let at = choose|at: int| #[trigger] last_mapping(rest, n - 1, at);
            assert(last_mapping(lines, n, at)) by {
                assert(rest[at] == lines[at]);
                assert forall|k: int| at < k < n implies !((#[trigger] lines[k]) is Mapping) by {
                    if k < n - 1 {
                        assert(rest[k] == lines[k]);
                    }
                }
            }
        }
    }
}

proof fn lemma_scan_keeps_its_fault(lines: Seq<LineModel>, n: int)
    requires
        0 <= n <= lines.len(),
        scan(lines.take(n), None).fault is Some,
    ensures
        scan(lines, None) == scan(lines.take(n), None),
    decreases lines.len() - n,
{
    if n == lines.len() {
        assert(lines.take(n) =~= lines);
    } else {
        assert(lines.take(n + 1).drop_last() =~= lines.take(n));
        lemma_scan_keeps_its_fault(lines, n + 1);
    }
}

/// A journal is accepted exactly when each of its lines can be replayed where it stands:
/// an event answers to the last mapping before it. Its events are then those of its lines,
/// in their order, and the counts are those of its lines.
pub proof fn events_answer_to_the_last_mapping(lines: Seq<LineModel>)
    ensures
        scan(lines, None).fault is None <==> forall|i: int|
            0 <= i < lines.len() ==> #[trigger] replayable_line(lines, i),
        scan(lines, None).fault is None ==> {
            let s = scan(lines, None);
            &&& s.events == events_in(lines)
            &&& s.txline_events == count_from(lines, MarketDataSource::Txline)
            &&& s.pascal_events == count_from(lines, MarketDataSource::Pascal)
            &&& s.mappings == count_mappings(lines)
        },
{
    if forall|i: int| 0 <= i < lines.len() ==> #[trigger] replayable_line(lines, i) {
        lemma_scan_of_replayable(lines);
    } else {
        let i = lemma_first_fault(lines);
        faults_name_the_first_bad_line(lines, i);
    }
}

proof fn lemma_first_fault(lines: Seq<LineModel>) -> (first: int)
    requires
        exists|i: int| 0 <= i < lines.len() && !#[trigger] replayable_line(lines, i),
    ensures
        0 <= first < lines.len(),
        !replayable_line(lines, first),
        forall|i: int| 0 <= i < first ==> #[trigger] replayable_line(lines, i),
    decreases lines.len(),
{
    let bad = choose|i: int| 0 <= i < lines.len() && !#[trigger] replayable_line(lines, i);
    lemma_first_below(lines, bad)
}

proof fn lemma_first_below(lines: Seq<LineModel>, bad: int) -> (first: int)
    requires
        0 <= bad < lines.len(),
        !replayable_line(lines, bad),
    ensures
        0 <= first <= bad,
        !replayable_line(lines, first),
        forall|i: int| 0 <= i < first ==> #[trigger] replayable_line(lines, i),
    decreases bad,
{
    if exists|i: int| 0 <= i < bad && !#[trigger] replayable_line(lines, i) {
        let earlier = choose|i: int| 0 <= i < bad && !#[trigger] replayable_line(lines, i);
        lemma_first_below(lines, earlier)
    } else {
        bad
    }
}

/// A journal is refused for its first line that cannot be replayed, whatever stands behind
/// it. The error gives the number of that line, counted from one, and says what is wrong
/// there. What stands before the line was read as if the journal ended there.
pub proof fn faults_name_the_first_bad_line(lines: Seq<LineModel>, i: int)
    requires
        0 <= i < lines.len(),
        !replayable_line(lines, i),
        forall|j: int| 0 <= j < i ==> #[trigger] replayable_line(lines, j),
    ensures
        ({
            let s = scan(lines, None);
            let number = (i + 1) as usize;
            &&& s.events == events_in(lines.take(i))
            &&& s.fault is Some && journal_fault(s) == s.fault
            &&& match lines[i] {
                LineModel::Unreadable => s.fault == Some(ReplayError::Unreadable { line: number }),
                LineModel::Mapping { .. } => s.fault == Some(
                    ReplayError::InvalidMapping { line: number },
                ),
                LineModel::Event { source, event } => {
                    &&& unmapped(lines, i) ==> s.fault == Some(
                        ReplayError::EventBeforeMapping { line: number },
                    )
                    &&& forall|at: int| #[trigger]
                        last_mapping(lines, i, at) ==> (s.fault matches Some(
                            ReplayError::InvalidEvent { line, fault },
                        ) && line == number && Some(fault) == event_fault(
                            source,
                            event.event,
                            lines[at]->Mapping_mapping,
                        ))
                },
                LineModel::Other => false,
            }
        }),
{
    let part = lines.take(i);
    assert forall|j: int| 0 <= j < i implies #[trigger] replayable_line(part, j) by {
        assert(replayable_line(lines, j));
        lemma_replayable_earlier(lines, part, j);
    }
    lemma_scan_of_replayable(part);
    let next = lines.take(i + 1);
    assert(next.drop_last() =~= part);
    assert(next.last() == lines[i]);
    assert(part.len() == i);
    lemma_replayable_earlier(lines, next, i);
    match lines[i] {
        LineModel::Event { source, event } => {
            if unmapped(lines, i) {
                assert forall|k: int| 0 <= k < i implies !((#[trigger] part[k]) is Mapping) by {
                    assert(part[k] == lines[k]);
                }
                assert(unmapped(part, i));
            } else {
                if scan(part, None).mapping is None {
                    assert(unmapped(part, i));
                    assert forall|k: int| 0 <= k < i implies !((#[trigger] lines[k]) is Mapping) by {
                        assert(part[k] == lines[k]);
                    }
                    assert(false);
                }
                let at = choose|at: int| #[trigger] last_mapping(part, i, at);
                assert(lines[at] == part[at]);
                assert(last_mapping(lines, i, at)) by {
                    assert forall|k: int| at < k < i implies !((
                    #[trigger] lines[k]) is Mapping) by {
                        assert(part[k] == lines[k]);
                    }
                }
                recorded_events_belong_to_their_mapping(
                    source,
                    event.event,
                    lines[at]->Mapping_mapping,
                );
                assert forall|other: int| #[trigger] last_mapping(lines, i, other) implies other
                    == at by {
                    if other < at {
                        assert(lines[at] is Mapping);
                    } else if at < other {
                        assert(lines[other] is Mapping);
                    }
                }
            }
        },
        _ => {},
    }
    assert(scan(next, None).fault is Some);
    lemma_scan_keeps_its_fault(lines, i + 1);
}

/// Sessions that were appended to one file are replayed one after the other: where each
/// can be replayed alone, so can the whole, each with its own market, to the events of the
/// one and then those of the other.
pub proof fn appended_sessions_are_replayed_in_turn(a: Seq<LineModel>, b: Seq<LineModel>)
    requires
        scan(a, None).fault is None,
        scan(b, None).fault is None,
    ensures
        ({
            let first = scan(a, None);
            let second = scan(b, None);
            let whole = scan(a + b, None);
            &&& whole.fault is None
            &&& whole.events == first.events + second.events
            &&& whole.txline_events == first.txline_events + second.txline_events
            &&& whole.pascal_events == first.pascal_events + second.pascal_events
            &&& whole.mappings == first.mappings + second.mappings
            &&& second.mappings > 0 ==> whole.mapping == second.mapping
        }),
    decreases b.len(),
{
    lemma_never_done(a);
    lemma_appended(a, b);
}

proof fn lemma_never_done(lines: Seq<LineModel>)
    ensures
        !scan(lines, None).done,
        scan(lines, None).mappings >= 0,
        scan(lines, None).mapping is Some <==> scan(lines, None).mappings > 0,
    decreases lines.len(),
{
    if lines.len() > 0 {
        lemma_never_done(lines.drop_last());
    }
}

proof fn lemma_appended(a: Seq<LineModel>, b: Seq<LineModel>)
    requires
        scan(a, None).fault is None,
        scan(b, None).fault is None,
    ensures
        ({
            let first = scan(a, None);
            let second = scan(b, None);
            let whole = scan(a + b, None);
            &&& whole.fault is None && !whole.done
            &&& whole.events == first.events + second.events
            &&& whole.txline_events == first.txline_events + second.txline_events
            &&& whole.pascal_events == first.pascal_events + second.pascal_events
            &&& whole.mappings == first.mappings + second.mappings
            &&& second.mapping is Some ==> whole.mapping == second.mapping
            &&& second.mapping is Some <==> second.mappings > 0
        }),
    decreases b.len(),
{
    lemma_never_done(b);
    lemma_never_done(a);
    if b.len() == 0 {
        assert(a + b =~= a);
        assert(scan(a, None).events + scan(b, None).events =~= scan(a, None).events);
    } else {
        let rest = b.drop_last();
        lemma_never_done(rest);
        assert(scan(rest, None).fault is None);
        lemma_appended(a, rest);
        assert((a + b).drop_last() =~= a + rest);
        assert((a + b).last() == b.last());
        let first = scan(a, None);
        let second = scan(b, None);
        let whole = scan(a + b, None);
        let before = scan(rest, None);
        if b.last() is Event {
            assert(first.events + before.events.push(b.last()->Event_event) =~= (first.events
                + before.events).push(b.last()->Event_event));
        }
    }
}

/// With a limit, a journal is read up to the line of the event that reaches it, and no
/// further: what comes of it is what comes of those lines alone. At least one event is
/// read.
pub proof fn limits_end_the_replay(lines: Seq<LineModel>, limit: u64) -> (read: int)
    ensures
        0 <= read <= lines.len(),
        ({
            let s = scan(lines, Some(limit));
            let most = if limit == 0 {
                1
            } else {
                limit as int
            };
            &&& s == (ScanModel { done: s.done, ..scan(lines.take(read), None) })
            &&& s.events.len() <= most
            &&& s.done <==> s.events.len() == most
            &&& s.done ==> read > 0 && lines[read - 1] is Event
            &&& !s.done ==> read == lines.len()
        }),
    decreases lines.len(),
{
    if lines.len() == 0 {
        assert(lines.take(0) =~= lines);
        0
    } else {
        let rest = lines.drop_last();
        let read = limits_end_the_replay(rest, limit);
        lemma_never_done(rest.take(read));
        if scan(rest, Some(limit)).done {
            assert(rest.take(read) =~= lines.take(read));
            read
        } else {
            assert(rest.take(read) =~= rest);
            assert(lines.take(lines.len() as int) =~= lines);
            lines.len() as int
        }
    }
}

/// A journal whose lines are all right is refused exactly when it has no events, lacks one
/// of the two feeds, or has no mapping; the first of these is the reason.
pub proof fn journals_need_both_feeds(lines: Seq<LineModel>)
    requires
        forall|i: int| 0 <= i < lines.len() ==> #[trigger] replayable_line(lines, i),
    ensures
        ({
            let events = events_in(lines).len();
            let fair_values = count_from(lines, MarketDataSource::Txline);
            let books = count_from(lines, MarketDataSource::Pascal);
            let fault = journal_fault(scan(lines, None));
            &&& fault is None <==> fair_values > 0 && books > 0
            &&& fault == Some(ReplayError::NoEvents) <==> events == 0
            &&& fault == Some(ReplayError::MissingFeed) <==> events > 0 && (fair_values == 0
                || books == 0)
            &&& events == fair_values + books
        }),
{
    lemma_scan_of_replayable(lines);
    lemma_events_by_source(lines);
    lemma_never_done(lines);
    lemma_events_are_mapped(lines);
}

proof fn lemma_events_are_mapped(lines: Seq<LineModel>)
    ensures
        scan(lines, None).events.len() > 0 ==> scan(lines, None).mapping is Some,
    decreases lines.len(),
{
    if lines.len() > 0 {
        lemma_events_are_mapped(lines.drop_last());
    }
}

proof fn lemma_events_by_source(lines: Seq<LineModel>)
    ensures
        events_in(lines).len() == count_from(lines, MarketDataSource::Txline) + count_from(
            lines,
            MarketDataSource::Pascal,
        ),
    decreases lines.len(),
{
    if lines.len() > 0 {
        lemma_events_by_source(lines.drop_last());
        lemma_events_in(lines);
    }
}

/// The lines of some sessions, one after the other.
pub open spec fn appended(sessions: Seq<Seq<LineModel>>) -> Seq<LineModel>
    decreases sessions.len(),
{
    if sessions.len() == 0 {
        Seq::empty()
    } else {
        appended(sessions.drop_last()) + sessions.last()
    }
}

/// The events of some sessions, one after the other.
pub open spec fn events_of(sessions: Seq<Seq<LineModel>>) -> Seq<EnvelopeModel>
    decreases sessions.len(),
{
    if sessions.len() == 0 {
        Seq::empty()
    } else {
        events_of(sessions.drop_last()) + events_in(sessions.last())
    }
}

/// However many sessions were appended to one file, each with its own mapping: where each
/// can be replayed alone, the file can be replayed to the events of all of them, in their
/// order.
pub proof fn any_number_of_sessions_is_replayed(sessions: Seq<Seq<LineModel>>)
    requires
        forall|i: int|
            0 <= i < sessions.len() ==> (forall|k: int|
                0 <= k < (#[trigger] sessions[i]).len() ==> #[trigger] replayable_line(
                    sessions[i],
                    k,
                )),
    ensures
        scan(appended(sessions), None).fault is None,
        scan(appended(sessions), None).events == events_of(sessions),
    decreases sessions.len(),
{
    if sessions.len() > 0 {
        let rest = sessions.drop_last();
        let last = sessions.last();
        assert forall|i: int| 0 <= i < rest.len() implies (forall|k: int|
            0 <= k < (#[trigger] rest[i]).len() ==> #[trigger] replayable_line(rest[i], k)) by {
            assert(rest[i] == sessions[i]);
        }
        any_number_of_sessions_is_replayed(rest);
        assert(last == sessions[sessions.len() - 1]);
        lemma_scan_of_replayable(last);
        appended_sessions_are_replayed_in_turn(appended(rest), last);
    }
}

} // verus!
