//! Replay: the events of a journal through an engine.

use vstd::prelude::*;
use vstd::string::StringExecFns;
use vstd::utf8::encode_utf8;

use crate::clock::time_of_ns;
use crate::config::{engine_settings, usable, BackendConfig};
use crate::encoding::{datable, hex_bytes, order_json, to_hex, trade_json, write_order, write_trade};
use crate::engine::{
    advised, after_event, decided_all, event_evaluations, event_outputs, fresh, output_for,
    output_models, outputs_for, processable, stamps_of, Engine, EngineModel, EngineOutput,
    OutputModel,
};
use crate::fixed::{sat, sat_add};
use crate::ids::{sha256, sha256_digest};
use crate::journal::{
    complete_mapping, event_fault, line_models, mapping_option, validate_mapping,
    validate_recorded_event, EventFault, JournalLine, JournalRecord, LineModel, MappingModel,
    MarketDataSource, MarketMapping,
};
use crate::latency::{latency_summary, LatencySnapshot};
use crate::laws::{
    after_events, alike, every_event_is_processable, proper_event, run_outputs, runs_agree,
    runs_stay_sound, sound, unstamped_output, unstamped_outputs, TakerEngine,
};
use crate::strategy::{DislocationTaker, EvaluationModel, Strategy, TakerModel};
use crate::text::{decimal, push_decimal};
use crate::types::{outdated, EnvelopeModel, EventEnvelope, Stamp};

verus! {

/// Why a journal cannot be replayed.
#[derive(Clone, Copy, Debug, PartialEq, Eq, Structural)]
pub enum ReplayError {
    /// The line is no record.
    Unreadable { line: usize },
    /// The mapping lacks a required field.
    InvalidMapping { line: usize },
    /// A market event stands before the mapping that it belongs to.
    EventBeforeMapping { line: usize },
    /// The event is not one that the adapters record.
    InvalidEvent { line: usize, fault: EventFault },
    /// There is no market event.
    NoEvents,
    /// One of the two feeds is missing.
    MissingFeed,
    /// There is no mapping.
    NoMapping,
}

/// The message shown to an operator.
pub open spec fn replay_error_text(error: ReplayError) -> Seq<char> {
    match error {
        ReplayError::Unreadable { line } => "journal line "@ + decimal(line as nat)
            + " is not a journal record"@,
        ReplayError::InvalidMapping { line } => "journal line "@ + decimal(line as nat)
            + " has an invalid market mapping: required mapping fields are empty"@,
        ReplayError::EventBeforeMapping { line } => "journal line "@ + decimal(line as nat)
            + " has a market event before its recorded mapping"@,
        ReplayError::InvalidEvent { line, fault } => "journal line "@ + decimal(line as nat)
            + " is not a recorded TxLINE/Pascal event: "@ + match fault {
            EventFault::UnsupportedEvent => "recorded data source has an unsupported market event"@,
            EventFault::OtherMarket => "event market does not match the recorded mapping"@,
            EventFault::MissingProvenance => "TxLINE fair value is missing message provenance"@,
            EventFault::NotAFairValue => "TxLINE source has a non-fair-value event"@,
            EventFault::NotABook => "Pascal source has a non-order-book event"@,
        },
        ReplayError::NoEvents => "journal contains no recorded market events"@,
        ReplayError::MissingFeed =>
        "journal must contain both TxLINE fair-value and Pascal order-book events"@,
        ReplayError::NoMapping => "journal contains no recorded market mapping"@,
    }
}

impl ReplayError {
    /// The message shown to an operator.
    pub fn message(&self) -> (r: String)
        ensures
            r@ == replay_error_text(*self),
    {
        match self {
            ReplayError::Unreadable { line } => line_text(*line, " is not a journal record"),
            ReplayError::InvalidMapping { line } => line_text(
                *line,
                " has an invalid market mapping: required mapping fields are empty",
            ),
            ReplayError::EventBeforeMapping { line } => line_text(
                *line,
                " has a market event before its recorded mapping",
            ),
            ReplayError::InvalidEvent { line, fault } => {
                let mut out = line_text(*line, " is not a recorded TxLINE/Pascal event: ");
                out.append(fault.message());
                out
            },
            ReplayError::NoEvents => "journal contains no recorded market events".to_owned(),
            ReplayError::MissingFeed =>
            "journal must contain both TxLINE fair-value and Pascal order-book events".to_owned(),
            ReplayError::NoMapping => "journal contains no recorded market mapping".to_owned(),
        }
    }
}

fn line_text(line: usize, what: &str) -> (r: String)
    ensures
        r@ == "journal line "@ + decimal(line as nat) + what@,
{
    let mut out = "journal line ".to_owned();
    push_decimal(&mut out, line as u64);
    out.append(what);
    out
}

/// What the lines up to some point come to.
#[verifier::ext_equal]
pub struct ScanModel {
    pub events: Seq<EnvelopeModel>,
    pub txline_events: int,
    pub pascal_events: int,
    pub mappings: int,
    pub mapping: Option<MappingModel>,
    /// Whether the limit of events is reached.
    pub done: bool,
    /// What is wrong with the journal.
    pub fault: Option<ReplayError>,
}

/// Before the first line.
pub open spec fn no_lines() -> ScanModel {
    ScanModel {
        events: Seq::empty(),
        txline_events: 0,
        pascal_events: 0,
        mappings: 0,
        mapping: None,
        done: false,
        fault: None,
    }
}

/// What one more line comes to. A mapping holds for the events that follow it.
pub open spec fn scan_line(
    s: ScanModel,
    line_number: int,
    line: LineModel,
    max_events: Option<u64>,
) -> ScanModel {
    let line_at = line_number as usize;
    match line {
        LineModel::Unreadable => ScanModel {
            fault: Some(ReplayError::Unreadable { line: line_at }),
            ..s
        },
        LineModel::Mapping { mapping } => if complete_mapping(mapping) {
            ScanModel { mapping: Some(mapping), mappings: s.mappings + 1, ..s }
        } else {
            ScanModel { fault: Some(ReplayError::InvalidMapping { line: line_at }), ..s }
        },
        LineModel::Event { source, event } => match s.mapping {
            None => ScanModel {
                fault: Some(ReplayError::EventBeforeMapping { line: line_at }),
                ..s
            },
            Some(mapping) => match event_fault(source, event.event, mapping) {
                Some(fault) => ScanModel {
                    fault: Some(ReplayError::InvalidEvent { line: line_at, fault }),
                    ..s
                },
                None => ScanModel {
                    events: s.events.push(event),
                    txline_events: s.txline_events + if source == MarketDataSource::Txline {
                        1int
                    } else {
                        0
                    },
                    pascal_events: s.pascal_events + if source == MarketDataSource::Pascal {
                        1int
                    } else {
                        0
                    },
                    done: match max_events {
                        Some(limit) => s.events.len() + 1 >= limit,
                        None => false,
                    },
                    ..s
                },
            },
        },
        LineModel::Other => s,
    }
}

/// What some lines come to: they are read until something is wrong or the limit
/// of events is reached.
pub open spec fn scan(lines: Seq<LineModel>, max_events: Option<u64>) -> ScanModel
    decreases lines.len(),
{
    if lines.len() == 0 {
        no_lines()
    } else {
        let before = scan(lines.drop_last(), max_events);
        if before.done || before.fault is Some {
            before
        } else {
            scan_line(before, lines.len() as int, lines.last(), max_events)
        }
    }
}

/// What is wrong with a journal, if anything is.
pub open spec fn journal_fault(s: ScanModel) -> Option<ReplayError> {
    if s.fault is Some {
        s.fault
    } else if s.events.len() == 0 {
        Some(ReplayError::NoEvents)
    } else if s.txline_events == 0 || s.pascal_events == 0 {
        Some(ReplayError::MissingFeed)
    } else if s.mappings == 0 {
        Some(ReplayError::NoMapping)
    } else {
        None
    }
}

/// The summary of a replay.
#[derive(Debug)]
pub struct ReplayReport {
    pub events: u64,
    pub txline_events: u64,
    pub pascal_events: u64,
    pub mappings: u64,
    pub decisions: u64,
    pub fills: u64,
    pub trades: u64,
    pub pnl_micros: i64,
    pub realized_pnl_micros: i64,
    pub latency: LatencySnapshot,
    pub decision_checksum: String,
    pub trade_checksum: String,
}

/// The model of a report.
#[verifier::ext_equal]
pub struct ReportModel {
    pub events: int,
    pub txline_events: int,
    pub pascal_events: int,
    pub mappings: int,
    pub decisions: int,
    pub fills: int,
    pub trades: int,
    pub pnl_micros: int,
    pub realized_pnl_micros: int,
    pub latency: LatencySnapshot,
    pub decision_checksum: Seq<char>,
    pub trade_checksum: Seq<char>,
}

impl View for ReplayReport {
    type V = ReportModel;

    open spec fn view(&self) -> ReportModel {
        ReportModel {
            events: self.events as int,
            txline_events: self.txline_events as int,
            pascal_events: self.pascal_events as int,
            mappings: self.mappings as int,
            decisions: self.decisions as int,
            fills: self.fills as int,
            trades: self.trades as int,
            pnl_micros: self.pnl_micros as int,
            realized_pnl_micros: self.realized_pnl_micros as int,
            latency: self.latency,
            decision_checksum: self.decision_checksum@,
            trade_checksum: self.trade_checksum@,
        }
    }
}

/// What a replay adds up over the outputs of the engine.
#[verifier::ext_equal]
pub struct TallyModel {
    /// The decisions on an order. Waiting for a feed is none of them.
    pub decisions: int,
    pub fills: int,
    pub trades: int,
    pub realized_pnl_micros: int,
    /// The orders of all decisions in JSON, one after the other.
    pub order_bytes: Seq<u8>,
    /// All trades in JSON, one after the other.
    pub trade_bytes: Seq<u8>,
}

/// The tally of some outputs.
pub open spec fn tally(outputs: Seq<OutputModel>) -> TallyModel
    decreases outputs.len(),
{
    if outputs.len() == 0 {
        TallyModel {
            decisions: 0,
            fills: 0,
            trades: 0,
            realized_pnl_micros: 0,
            order_bytes: Seq::empty(),
            trade_bytes: Seq::empty(),
        }
    } else {
        let before = tally(outputs.drop_last());
        let o = outputs.last();
        TallyModel {
            decisions: before.decisions + if o.decision.intent is Some {
                1int
            } else {
                0
            },
            fills: before.fills + if o.fill is Some {
                1int
            } else {
                0
            },
            trades: before.trades + if o.trade is Some {
                1int
            } else {
                0
            },
            realized_pnl_micros: match o.trade {
                Some(t) => sat(before.realized_pnl_micros + t.realized_pnl_micros),
                None => before.realized_pnl_micros,
            },
            order_bytes: before.order_bytes + encode_utf8(order_json(o.decision.intent)),
            trade_bytes: match o.trade {
                Some(t) => before.trade_bytes + encode_utf8(trade_json(t)),
                None => before.trade_bytes,
            },
        }
    }
}

/// The report on a replay.
pub open spec fn report_on<M>(
    s: ScanModel,
    outputs: Seq<OutputModel>,
    e: EngineModel<M>,
) -> ReportModel {
    let t = tally(outputs);
    ReportModel {
        events: s.events.len() as int,
        txline_events: s.txline_events,
        pascal_events: s.pascal_events,
        mappings: s.mappings,
        decisions: t.decisions,
        fills: t.fills,
        trades: t.trades,
        pnl_micros: e.trading.state.pnl_micros,
        realized_pnl_micros: t.realized_pnl_micros,
        latency: latency_summary(e.samples),
        decision_checksum: hex_bytes(sha256_digest(t.order_bytes)),
        trade_checksum: hex_bytes(sha256_digest(t.trade_bytes)),
    }
}

/// Whether an engine can process some events, one after the other, and count
/// what comes of them, whatever chance puts into the records.
#[verifier::opaque]
pub open spec fn replayable<S: Strategy>(
    e: EngineModel<S::Model>,
    events: Seq<EnvelopeModel>,
) -> bool {
    forall|i: int, stamps: Seq<Seq<Stamp>>|
        0 <= i <= events.len() ==> {
            let before = #[trigger] after_events::<S>(e, events.take(i), stamps);
            &&& run_outputs::<S>(e, events.take(i), stamps).len() <= u64::MAX
            &&& i < events.len() ==> processable::<S>(before, events[i])
        }
}

/// An engine with the dislocation strategy can process the events of every
/// journal that it can count.
pub proof fn every_journal_is_replayable(e: TakerEngine, events: Seq<EnvelopeModel>)
    requires
        sound(e),
        e.processed_events + events.len() <= u64::MAX,
        forall|i: int| 0 <= i < events.len() ==> proper_event(#[trigger] events[i].event),
    ensures
        replayable::<DislocationTaker>(e, events),
{
    reveal(replayable);
    assert forall|i: int, stamps: Seq<Seq<Stamp>>| 0 <= i <= events.len() implies {
        let before = #[trigger] after_events::<DislocationTaker>(e, events.take(i), stamps);
        &&& run_outputs::<DislocationTaker>(e, events.take(i), stamps).len() <= u64::MAX
        &&& i < events.len() ==> processable::<DislocationTaker>(before, events[i])
    } by {
        let prefix = events.take(i);
        assert forall|j: int| 0 <= j < prefix.len() implies proper_event(
            #[trigger] prefix[j].event,
        ) by {
            assert(prefix[j] == events[j]);
        }
        runs_stay_sound(e, prefix, stamps);
        lemma_outputs_per_event(e, prefix, stamps);
        let before = after_events::<DislocationTaker>(e, prefix, stamps);
        if i < events.len() {
            assert(proper_event(events[i].event));
            every_event_is_processable(before, events[i]);
        }
    }
}

proof fn lemma_outputs_per_event(
    e: TakerEngine,
    events: Seq<EnvelopeModel>,
    stamps: Seq<Seq<Stamp>>,
)
    ensures
        run_outputs::<DislocationTaker>(e, events, stamps).len() <= events.len(),
    decreases events.len(),
{
    if events.len() > 0 {
        lemma_outputs_per_event(e, events.drop_last(), stamps.drop_last());
        crate::laws::one_decision_per_event(
            after_events::<DislocationTaker>(e, events.drop_last(), stamps.drop_last()),
            events.last(),
            stamps.last(),
        );
    }
}

/// What a replay adds up.
struct Tally {
    decisions: u64,
    fills: u64,
    trades: u64,
    realized_pnl_micros: i64,
    order_bytes: Vec<u8>,
    trade_bytes: Vec<u8>,
}

impl View for Tally {
    type V = TallyModel;

    closed spec fn view(&self) -> TallyModel {
        TallyModel {
            decisions: self.decisions as int,
            fills: self.fills as int,
            trades: self.trades as int,
            realized_pnl_micros: self.realized_pnl_micros as int,
            order_bytes: self.order_bytes@,
            trade_bytes: self.trade_bytes@,
        }
    }
}

fn push_text(out: &mut Vec<u8>, text: &str)
    ensures
        final(out)@ == old(out)@ + encode_utf8(text@),
{
    let bytes = text.as_bytes();
    let mut i: usize = 0;
    assert(old(out)@ + bytes@.take(0) =~= old(out)@);
    while i < bytes.len()
        invariant
            i <= bytes@.len(),
            out@ == old(out)@ + bytes@.take(i as int),
        decreases bytes@.len() - i,
    {
        out.push(bytes[i]);
        i = i + 1;
        assert(old(out)@ + bytes@.take(i as int) =~= (old(out)@ + bytes@.take(i - 1)).push(
            bytes@[i - 1],
        ));
    }
    assert(bytes@.take(bytes@.len() as int) =~= bytes@);
}

impl Tally {
    fn new() -> (r: Self)
        ensures
            r@ == tally(Seq::empty()),
    {
        let r = Tally {
            decisions: 0,
            fills: 0,
            trades: 0,
            realized_pnl_micros: 0,
            order_bytes: Vec::new(),
            trade_bytes: Vec::new(),
        };
        assert(r@ =~= tally(Seq::empty()));
        r
    }

    fn add_output(&mut self, output: &EngineOutput, Ghost(before): Ghost<Seq<OutputModel>>)
        requires
            old(self)@ == tally(before),
            before.len() < u64::MAX,
            output.trade matches Some(t) ==> datable(t.timestamp),
        ensures
            final(self)@ == tally(before.push(output@)),
    {
        proof {
            lemma_tally_counts(before);
            assert(before.push(output@).drop_last() =~= before);
        }
        if output.decision.intent.is_some() {
            self.decisions = self.decisions + 1;
        }
        if output.fill.is_some() {
            self.fills = self.fills + 1;
        }
        push_text(&mut self.order_bytes, write_order(&output.decision.intent).as_str());
        if let Some(trade) = &output.trade {
            self.trades = self.trades + 1;
            self.realized_pnl_micros = sat_add(
                self.realized_pnl_micros,
                trade.realized_pnl_micros,
            );
            push_text(&mut self.trade_bytes, write_trade(trade).as_str());
        }
        assert(self@ =~= tally(before.push(output@)));
    }
}

proof fn lemma_tally_counts(outputs: Seq<OutputModel>)
    ensures
        0 <= tally(outputs).decisions <= outputs.len(),
        0 <= tally(outputs).fills <= outputs.len(),
        0 <= tally(outputs).trades <= outputs.len(),
    decreases outputs.len(),
{
    if outputs.len() > 0 {
        lemma_tally_counts(outputs.drop_last());
    }
}

proof fn lemma_trades_are_datable<M>(
    e: EngineModel<M>,
    evaluations: Seq<EvaluationModel>,
    event: EnvelopeModel,
    stamps: Seq<Stamp>,
)
    ensures
        forall|i: int|
            0 <= i < outputs_for(e, evaluations, event, stamps).len() ==> ((#[trigger] outputs_for(
                e,
                evaluations,
                event,
                stamps,
            )[i]).trade matches Some(t) ==> datable(t.timestamp)),
    decreases evaluations.len(),
{
    if evaluations.len() > 0 {
        lemma_trades_are_datable(e, evaluations.drop_last(), event, stamps.drop_last());
        let before = decided_all(e, evaluations.drop_last(), event, stamps.drop_last());
        let output = output_for(before, evaluations.last(), event, stamps.last());
        match output.trade {
            Some(t) => {
                let fill = output.fill->0;
                assert(0 <= fill.acknowledged_time_ns <= u64::MAX);
                assert(t.timestamp == time_of_ns(fill.acknowledged_time_ns));
            },
            None => {},
        }
    }
}

proof fn lemma_scan_stops(lines: Seq<LineModel>, max_events: Option<u64>, i: int)
    requires
        0 <= i <= lines.len(),
        scan(lines.take(i), max_events).done || scan(lines.take(i), max_events).fault is Some,
    ensures
        scan(lines, max_events) == scan(lines.take(i), max_events),
    decreases lines.len() - i,
{
    if i == lines.len() {
        assert(lines.take(i) =~= lines);
    } else {
        assert(lines.take(i + 1).drop_last() =~= lines.take(i));
        lemma_scan_stops(lines, max_events, i + 1);
    }
}

proof fn lemma_scan_grows(lines: Seq<LineModel>, max_events: Option<u64>, i: int)
    requires
        0 <= i <= lines.len(),
    ensures
        ({
            let part = scan(lines.take(i), max_events).events;
            let all = scan(lines, max_events).events;
            part.len() <= all.len() && part == all.take(part.len() as int)
        }),
    decreases lines.len() - i,
{
    let part = scan(lines.take(i), max_events).events;
    if i == lines.len() {
        assert(lines.take(i) =~= lines);
        assert(part.take(part.len() as int) =~= part);
    } else {
        assert(lines.take(i + 1).drop_last() =~= lines.take(i));
        lemma_scan_grows(lines, max_events, i + 1);
        let next = scan(lines.take(i + 1), max_events).events;
        let all = scan(lines, max_events).events;
        assert(part =~= next.take(part.len() as int));
        assert(next.take(part.len() as int) =~= all.take(part.len() as int));
    }
}

proof fn lemma_scan_counts(lines: Seq<LineModel>, max_events: Option<u64>)
    ensures
        ({
            let s = scan(lines, max_events);
            &&& s.events.len() <= lines.len()
            &&& 0 <= s.txline_events <= lines.len()
            &&& 0 <= s.pascal_events <= lines.len()
            &&& 0 <= s.mappings <= lines.len()
        }),
    decreases lines.len(),
{
    if lines.len() > 0 {
        lemma_scan_counts(lines.drop_last(), max_events);
    }
}

/// The number of outputs for an event.
pub open spec fn output_count<S: Strategy>(e: EngineModel<S::Model>, event: EnvelopeModel) -> nat {
    if outdated(e.trading.state, event.event) {
        0
    } else {
        event_evaluations::<S>(e, event).len()
    }
}

proof fn lemma_output_count<M>(
    e: EngineModel<M>,
    evaluations: Seq<EvaluationModel>,
    event: EnvelopeModel,
    stamps: Seq<Stamp>,
)
    ensures
        outputs_for(e, evaluations, event, stamps).len() == evaluations.len(),
    decreases evaluations.len(),
{
    if evaluations.len() > 0 {
        lemma_output_count(e, evaluations.drop_last(), event, stamps.drop_last());
    }
}

/// Feeds one event to the engine and adds up what comes of it.
fn feed<S: Strategy>(
    engine: &mut Engine<S>,
    event: &EventEnvelope,
    totals: &mut Tally,
    Ghost(before): Ghost<Seq<OutputModel>>,
) -> (r: Ghost<Seq<Stamp>>)
    requires
        old(engine).well_formed(),
        processable::<S>(old(engine)@, event@),
        old(totals)@ == tally(before),
        before.len() + output_count::<S>(old(engine)@, event@) <= u64::MAX,
    ensures
        final(engine).well_formed(),
        final(engine)@ == after_event::<S>(old(engine)@, event@, r@),
        final(totals)@ == tally(before + event_outputs::<S>(old(engine)@, event@, r@)),
{
    let ghost start = engine@;
    let made = engine.process(event.clone());
    let ghost stamps = stamps_of(made@);
    let ghost models = output_models(made@);
    proof {
        if !outdated(start.trading.state, event@.event) {
            lemma_trades_are_datable(
                advised::<S>(start, event@),
                event_evaluations::<S>(start, event@),
                event@,
                stamps,
            );
            lemma_output_count(
                advised::<S>(start, event@),
                event_evaluations::<S>(start, event@),
                event@,
                stamps,
            );
        }
        assert(before + models.take(0) =~= before);
    }
    let mut j: usize = 0;
    while j < made.len()
        invariant
            j <= made@.len(),
            models == output_models(made@),
            before.len() + models.len() <= u64::MAX,
            totals@ == tally(before + models.take(j as int)),
            forall|q: int|
                0 <= q < models.len() ==> ((#[trigger] models[q]).trade matches Some(t) ==> datable(
                    t.timestamp,
                )),
        decreases made@.len() - j,
    {
        let ghost so_far = before + models.take(j as int);
        assert(models[j as int] == made@[j as int]@);
        totals.add_output(&made[j], Ghost(so_far));
        j = j + 1;
        assert(so_far.push(made@[j - 1]@) =~= before + models.take(j as int));
    }
    assert(models.take(j as int) =~= models);
    Ghost(stamps)
}

/// Whether a replay of a journal took the engine from `start` to `end` and gave
/// `result`, with what chance put into the records.
pub open spec fn replayed<S: Strategy>(
    start: EngineModel<S::Model>,
    end: EngineModel<S::Model>,
    s: ScanModel,
    result: Result<ReplayReport, ReplayError>,
    stamps: Seq<Seq<Stamp>>,
) -> bool {
    &&& end == after_events::<S>(start, s.events, stamps)
    &&& match journal_fault(s) {
        Some(fault) => result == Err::<ReplayReport, ReplayError>(fault),
        None => result is Ok && result->Ok_0@ == report_on(
            s,
            run_outputs::<S>(start, s.events, stamps),
            end,
        ),
    }
}

/// What the lines up to some point come to, without the events themselves.
struct Scan {
    events: u64,
    txline_events: u64,
    pascal_events: u64,
    mappings: u64,
    mapping: Option<MarketMapping>,
    done: bool,
}

impl Scan {
    spec fn is(&self, s: ScanModel) -> bool {
        &&& self.events == s.events.len()
        &&& self.txline_events == s.txline_events
        &&& self.pascal_events == s.pascal_events
        &&& self.mappings == s.mappings
        &&& mapping_option(self.mapping) == s.mapping
        &&& self.done == s.done
    }

    /// Reads a line. The result says whether it is an event to feed.
    fn read(
        &mut self,
        line_number: usize,
        line: &JournalLine,
        max_events: Option<u64>,
        Ghost(s): Ghost<ScanModel>,
    ) -> (r: Result<bool, ReplayError>)
        requires
            old(self).is(s),
            s.fault is None,
            !s.done,
            old(self).events < u64::MAX,
            old(self).txline_events < u64::MAX,
            old(self).pascal_events < u64::MAX,
            old(self).mappings < u64::MAX,
        ensures
            ({
                let next = scan_line(s, line_number as int, line@, max_events);
                match r {
                    Ok(feed) => {
                        &&& next.fault is None
                        &&& final(self).is(next)
                        &&& feed == line@ is Event
                        &&& next.events == if feed {
                            s.events.push(line@->Event_event)
                        } else {
                            s.events
                        }
                    },
                    Err(error) => next.fault == Some(error) && next.events == s.events,
                }
            }),
    {
        match line {
            JournalLine::Unreadable => Err(ReplayError::Unreadable { line: line_number }),
            JournalLine::Record(JournalRecord::Mapping { mapping, .. }) => {
                if !validate_mapping(mapping) {
                    return Err(ReplayError::InvalidMapping { line: line_number });
                }
                self.mapping = Some(mapping.clone());
                self.mappings = self.mappings + 1;
                Ok(false)
            },
            JournalLine::Record(JournalRecord::Event { source, event, .. }) => {
                match &self.mapping {
                    None => {
                        return Err(ReplayError::EventBeforeMapping { line: line_number });
                    },
                    Some(mapping) => {
                        if let Err(fault) = validate_recorded_event(*source, event, mapping) {
                            return Err(ReplayError::InvalidEvent { line: line_number, fault });
                        }
                    },
                }
                self.events = self.events + 1;
                match source {
                    MarketDataSource::Txline => {
                        self.txline_events = self.txline_events + 1;
                    },
                    MarketDataSource::Pascal => {
                        self.pascal_events = self.pascal_events + 1;
                    },
                }
                if let Some(limit) = max_events {
                    self.done = self.events >= limit;
                }
                Ok(true)
            },
            JournalLine::Record(_) => Ok(false),
        }
    }
}

proof fn lemma_next_event<S: Strategy>(
    start: EngineModel<S::Model>,
    whole: Seq<EnvelopeModel>,
    events: Seq<EnvelopeModel>,
    event: EnvelopeModel,
    stamps: Seq<Seq<Stamp>>,
)
    requires
        replayable::<S>(start, whole),
        events.len() < whole.len(),
        events.push(event) == whole.take(events.len() as int + 1),
    ensures
        ({
            let e = after_events::<S>(start, events, stamps);
            &&& processable::<S>(e, event)
            &&& run_outputs::<S>(start, events, stamps).len() + output_count::<S>(e, event)
                <= u64::MAX
        }),
{
    reveal(replayable);
    let k = events.len() as int;
    let e = after_events::<S>(start, events, stamps);
    assert(whole.take(k) =~= events) by {
        assert(events =~= events.push(event).take(k));
        assert(whole.take(k + 1).take(k) =~= whole.take(k));
    }
    assert(whole[k] == event) by {
        assert(events.push(event)[k] == event);
    }
    assert(processable::<S>(after_events::<S>(start, whole.take(k), stamps), whole[k]));
    let any = stamps.push(Seq::<Stamp>::empty());
    let next = events.push(event);
    assert(next.drop_last() =~= events);
    assert(any.drop_last() =~= stamps);
    let _ = after_events::<S>(start, whole.take(k + 1), any);
    assert(run_outputs::<S>(start, next, any) == run_outputs::<S>(start, events, stamps)
        + event_outputs::<S>(e, event, any.last()));
    if !outdated(e.trading.state, event.event) {
        lemma_output_count(
            advised::<S>(e, event),
            event_evaluations::<S>(e, event),
            event,
            any.last(),
        );
    }
}

/// Feeds the recorded events of a journal to an engine, no more than
/// `max_events` of them, and reports what came of it.
///
/// The events go through the engine up to the line at which something is wrong.
#[verifier::rlimit(50)]
#[verifier::spinoff_prover]
pub fn replay_with_limit<S: Strategy>(
    lines: &Vec<JournalLine>,
    engine: &mut Engine<S>,
    max_events: Option<u64>,
) -> (r: Result<ReplayReport, ReplayError>)
    requires
        old(engine).well_formed(),
        replayable::<S>(old(engine)@, scan(line_models(lines@), max_events).events),
    ensures
        final(engine).well_formed(),
        exists|stamps: Seq<Seq<Stamp>>| #[trigger]
            replayed::<S>(
                old(engine)@,
                final(engine)@,
                scan(line_models(lines@), max_events),
                r,
                stamps,
            ),
{
    let ghost start = engine@;
    let ghost models = line_models(lines@);
    let ghost whole = scan(models, max_events);
    let ghost mut stamps: Seq<Seq<Stamp>> = Seq::empty();
    let ghost mut seen = no_lines();
    let mut progress = Scan {
        events: 0,
        txline_events: 0,
        pascal_events: 0,
        mappings: 0,
        mapping: None,
        done: false,
    };
    let mut totals = Tally::new();
    let mut i: usize = 0;
    assert(models.take(0) =~= Seq::<LineModel>::empty());
    while i < lines.len() && !progress.done
        invariant
            engine.well_formed(),
            start == old(engine)@,
            i <= lines@.len(),
            models == line_models(lines@),
            whole == scan(models, max_events),
            replayable::<S>(start, whole.events),
            seen == scan(models.take(i as int), max_events),
            seen.fault is None,
            progress.is(seen),
            engine@ == after_events::<S>(start, seen.events, stamps),
            totals@ == tally(run_outputs::<S>(start, seen.events, stamps)),
        decreases lines@.len() - i,
    {
        let ghost next = scan(models.take(i + 1), max_events);
        proof {
            assert(models.take(i + 1).drop_last() =~= models.take(i as int));
            assert(models.take(i + 1).last() == lines@[i as int]@);
            assert(next == scan_line(seen, i + 1, lines@[i as int]@, max_events));
            lemma_scan_counts(models.take(i as int), max_events);
            lemma_scan_grows(models, max_events, i + 1);
        }
        match progress.read(i + 1, &lines[i], max_events, Ghost(seen)) {
            Err(error) => {
                proof {
                    lemma_scan_stops(models, max_events, i + 1);
                    assert(replayed::<S>(start, engine@, whole, Err(error), stamps));
                }
                return Err(error);
            },
            Ok(false) => {},
            Ok(true) => {
                if let JournalLine::Record(JournalRecord::Event { event, .. }) = &lines[i] {
                    let ghost outputs = run_outputs::<S>(start, seen.events, stamps);
                    let ghost previous = engine@;
                    proof {
                        lemma_next_event::<S>(start, whole.events, seen.events, event@, stamps);
                    }
                    let made = feed(engine, event, &mut totals, Ghost(outputs));
                    proof {
                        let now = stamps.push(made@);
                        assert(next.events.drop_last() =~= seen.events);
                        assert(now.drop_last() =~= stamps);
                        stamps = now;
                    }
                }
            },
        }
        i = i + 1;
        proof {
            seen = next;
        }
    }
    proof {
        if progress.done {
            lemma_scan_stops(models, max_events, i as int);
        } else {
            assert(models.take(i as int) =~= models);
        }
        assert(whole == seen);
        assert(whole.events.take(whole.events.len() as int) =~= whole.events);
    }
    if progress.events == 0 {
        assert(replayed::<S>(start, engine@, whole, Err(ReplayError::NoEvents), stamps));
        return Err(ReplayError::NoEvents);
    }
    if progress.txline_events == 0 || progress.pascal_events == 0 {
        assert(replayed::<S>(start, engine@, whole, Err(ReplayError::MissingFeed), stamps));
        return Err(ReplayError::MissingFeed);
    }
    if progress.mappings == 0 {
        assert(replayed::<S>(start, engine@, whole, Err(ReplayError::NoMapping), stamps));
        return Err(ReplayError::NoMapping);
    }
    let report = ReplayReport {
        events: progress.events,
        txline_events: progress.txline_events,
        pascal_events: progress.pascal_events,
        mappings: progress.mappings,
        decisions: totals.decisions,
        fills: totals.fills,
        trades: totals.trades,
        pnl_micros: engine.market_state().pnl_micros,
        realized_pnl_micros: totals.realized_pnl_micros,
        latency: engine.latency_snapshot(),
        decision_checksum: to_hex(&sha256(&totals.order_bytes)),
        trade_checksum: to_hex(&sha256(&totals.trade_bytes)),
    };
    assert(replayed::<S>(start, engine@, whole, Ok(report), stamps));
    Ok(report)
}

/// Feeds all recorded events of a journal to an engine and reports what came of
/// it.
pub fn replay<S: Strategy>(lines: &Vec<JournalLine>, engine: &mut Engine<S>) -> (r: Result<
    ReplayReport,
    ReplayError,
>)
    requires
        old(engine).well_formed(),
        replayable::<S>(old(engine)@, scan(line_models(lines@), None).events),
    ensures
        final(engine).well_formed(),
        exists|stamps: Seq<Seq<Stamp>>| #[trigger]
            replayed::<S>(
                old(engine)@,
                final(engine)@,
                scan(line_models(lines@), None),
                r,
                stamps,
            ),
{
    replay_with_limit(lines, engine, None)
}

/// The events of every journal are ones that an engine can process, and no more
/// than the journal has lines.
pub proof fn recorded_events_are_proper(lines: Seq<JournalLine>, max_events: Option<u64>)
    ensures
        scan(line_models(lines), max_events).events.len() <= lines.len(),
        forall|i: int|
            0 <= i < scan(line_models(lines), max_events).events.len() ==> proper_event(
                (#[trigger] scan(line_models(lines), max_events).events[i]).event,
            ),
    decreases lines.len(),
{
    if lines.len() > 0 {
        assert(line_models(lines).drop_last() =~= line_models(lines.drop_last()));
        recorded_events_are_proper(lines.drop_last(), max_events);
        match lines.last() {
            JournalLine::Record(JournalRecord::Event { event, .. }) => {
                assert(proper_event(event@.event));
            },
            _ => {},
        }
    }
}

/// Replays a journal through a fresh engine with some settings.
pub fn run_replay(
    lines: &Vec<JournalLine>,
    config: &BackendConfig,
    max_events: Option<u64>,
) -> (r: Result<ReplayReport, ReplayError>)
    requires
        usable(*config),
    ensures
        exists|run_id: int, end: TakerEngine, stamps: Seq<Seq<Stamp>>| #[trigger]
            replayed::<DislocationTaker>(
                fresh(
                    run_id,
                    TakerModel { config: config.strategy, last_source_seq: 0, last_venue_seq: 0 },
                    engine_settings(*config),
                ),
                end,
                scan(line_models(lines@), max_events),
                r,
                stamps,
            ),
{
    let mut engine = config.new_engine();
    proof {
        recorded_events_are_proper(lines@, max_events);
        assert(lines@.len() == lines.len());
        every_journal_is_replayable(engine@, scan(line_models(lines@), max_events).events);
    }
    replay_with_limit(lines, &mut engine, max_events)
}

/// Outputs that differ at most by chance have the same tally.
pub proof fn lemma_tally_unstamped(a: Seq<OutputModel>, b: Seq<OutputModel>)
    requires
        unstamped_outputs(a) == unstamped_outputs(b),
    ensures
        tally(a) == tally(b),
    decreases a.len(),
{
    assert(unstamped_outputs(a).len() == a.len());
    assert(unstamped_outputs(b).len() == b.len());
    if a.len() > 0 {
        let x = a.drop_last();
        let y = b.drop_last();
        assert forall|i: int| 0 <= i < x.len() implies unstamped_output(x[i])
            == unstamped_output(y[i]) by {
            assert(unstamped_outputs(a)[i] == unstamped_outputs(b)[i]);
        }
        assert(unstamped_outputs(x) =~= unstamped_outputs(y));
        lemma_tally_unstamped(x, y);
        assert(unstamped_outputs(a)[a.len() - 1] == unstamped_outputs(b)[a.len() - 1]);
        assert(unstamped_output(a.last()) == unstamped_output(b.last()));
    }
}

/// Two replays of one journal with the same settings fail alike or report the
/// same, but for the latency: the same counts, the same profit and the same two
/// checksums.
pub proof fn replays_report_the_same<S: Strategy>(
    a: EngineModel<S::Model>,
    b: EngineModel<S::Model>,
    a_end: EngineModel<S::Model>,
    b_end: EngineModel<S::Model>,
    s: ScanModel,
    first: Result<ReplayReport, ReplayError>,
    second: Result<ReplayReport, ReplayError>,
    x: Seq<Seq<Stamp>>,
    y: Seq<Seq<Stamp>>,
)
    requires
        alike(a, b),
        replayed::<S>(a, a_end, s, first, x),
        replayed::<S>(b, b_end, s, second, y),
    ensures
        alike(a_end, b_end),
        match (first, second) {
            (Ok(p), Ok(q)) => p@ == (ReportModel { latency: p.latency, ..q@ }),
            (Err(p), Err(q)) => p == q,
            _ => false,
        },
{
    runs_agree::<S>(a, b, s.events, x, y);
    lemma_tally_unstamped(
        run_outputs::<S>(a, s.events, x),
        run_outputs::<S>(b, s.events, y),
    );
}

} // verus!
