//! The records of a run.

use vstd::prelude::*;

use crate::clock::Timestamp;
use crate::text::{to_chars, trim, trimmed};
use crate::types::{
    DecisionModel, DecisionRecord, EnvelopeModel, EventEnvelope, EventModel, Fill, FillModel,
    MarketEvent, TradeEvent, TradeModel,
};

verus! {

/// The schema that records are written in.
pub const JOURNAL_SCHEMA: u16 = 2;

/// The adapter that an event came from.
#[derive(Clone, Copy, Debug, PartialEq, Eq, Structural)]
pub enum MarketDataSource {
    Txline,
    Pascal,
}

/// The outcome of a TxLINE market that a run follows.
#[derive(Debug, PartialEq, Eq)]
pub struct TxLineMarketSelection {
    pub super_odds_type: String,
    pub market_parameters: String,
    pub market_period: String,
    pub price_index: usize,
    pub price_name: String,
}

/// The model of a selection.
#[verifier::ext_equal]
pub struct SelectionModel {
    pub super_odds_type: Seq<char>,
    pub market_parameters: Seq<char>,
    pub market_period: Seq<char>,
    pub price_index: int,
    pub price_name: Seq<char>,
}

impl View for TxLineMarketSelection {
    type V = SelectionModel;

    open spec fn view(&self) -> SelectionModel {
        SelectionModel {
            super_odds_type: self.super_odds_type@,
            market_parameters: self.market_parameters@,
            market_period: self.market_period@,
            price_index: self.price_index as int,
            price_name: self.price_name@,
        }
    }
}

impl Clone for TxLineMarketSelection {
    fn clone(&self) -> (r: Self)
        ensures
            r@ == self@,
    {
        TxLineMarketSelection {
            super_odds_type: self.super_odds_type.clone(),
            market_parameters: self.market_parameters.clone(),
            market_period: self.market_period.clone(),
            price_index: self.price_index,
            price_name: self.price_name.clone(),
        }
    }
}

/// Which TxLINE outcome belongs to which Pascal symbol.
#[derive(Debug, PartialEq, Eq)]
pub struct MarketMapping {
    pub fixture_id: u64,
    pub fixture_label: String,
    pub fixture_start_time_ms: u64,
    pub market: String,
    pub pascal_symbol: String,
    pub txline_selection: TxLineMarketSelection,
}

/// The model of a mapping.
#[verifier::ext_equal]
pub struct MappingModel {
    pub fixture_id: int,
    pub fixture_label: Seq<char>,
    pub fixture_start_time_ms: int,
    pub market: Seq<char>,
    pub pascal_symbol: Seq<char>,
    pub txline_selection: SelectionModel,
}

impl View for MarketMapping {
    type V = MappingModel;

    open spec fn view(&self) -> MappingModel {
        MappingModel {
            fixture_id: self.fixture_id as int,
            fixture_label: self.fixture_label@,
            fixture_start_time_ms: self.fixture_start_time_ms as int,
            market: self.market@,
            pascal_symbol: self.pascal_symbol@,
            txline_selection: self.txline_selection@,
        }
    }
}

impl Clone for MarketMapping {
    fn clone(&self) -> (r: Self)
        ensures
            r@ == self@,
    {
        MarketMapping {
            fixture_id: self.fixture_id,
            fixture_label: self.fixture_label.clone(),
            fixture_start_time_ms: self.fixture_start_time_ms,
            market: self.market.clone(),
            pascal_symbol: self.pascal_symbol.clone(),
            txline_selection: self.txline_selection.clone(),
        }
    }
}

/// The model of a mapping that may be there.
pub open spec fn mapping_option(mapping: Option<MarketMapping>) -> Option<MappingModel> {
    match mapping {
        Some(mapping) => Some(mapping@),
        None => None,
    }
}

/// A record of the journal.
#[derive(Debug)]
pub enum JournalRecord {
    Run { schema: u16, run_id: u128, started_at: Timestamp },
    Mapping { schema: u16, mapping: MarketMapping },
    /// An event with the live adapter that produced it.
    Event { schema: u16, source: MarketDataSource, event: EventEnvelope },
    Decision { schema: u16, decision: DecisionRecord },
    Fill { schema: u16, fill: Fill },
    Trade { schema: u16, trade: TradeEvent },
    /// A validation proof, as the JSON text that was retrieved.
    Proof {
        schema: u16,
        order_id: u128,
        message_id: String,
        proof_ts: i64,
        fetched_at: Timestamp,
        proof: String,
    },
}

/// A line of the journal: a record, or a line that is none.
#[derive(Debug)]
pub enum JournalLine {
    Record(JournalRecord),
    Unreadable,
}

/// What a replay reads of a line.
#[verifier::ext_equal]
pub enum LineModel {
    Unreadable,
    Mapping { mapping: MappingModel },
    Event { source: MarketDataSource, event: EnvelopeModel },
    Other,
}

impl View for JournalLine {
    type V = LineModel;

    open spec fn view(&self) -> LineModel {
        match self {
            JournalLine::Unreadable => LineModel::Unreadable,
            JournalLine::Record(JournalRecord::Mapping { mapping, .. }) => LineModel::Mapping {
                mapping: mapping@,
            },
            JournalLine::Record(JournalRecord::Event { source, event, .. }) => LineModel::Event {
                source: *source,
                event: event@,
            },
            JournalLine::Record(_) => LineModel::Other,
        }
    }
}

/// The models of some lines.
pub open spec fn line_models(lines: Seq<JournalLine>) -> Seq<LineModel> {
    Seq::new(lines.len(), |i: int| lines[i]@)
}

/// Why a recorded event cannot be replayed.
#[derive(Clone, Copy, Debug, PartialEq, Eq, Structural)]
pub enum EventFault {
    UnsupportedEvent,
    OtherMarket,
    MissingProvenance,
    NotAFairValue,
    NotABook,
}

impl EventFault {
    /// The message shown to an operator.
    pub fn message(&self) -> (r: &'static str)
        ensures
            r@ == match *self {
                EventFault::UnsupportedEvent =>
                "recorded data source has an unsupported market event"@,
                EventFault::OtherMarket => "event market does not match the recorded mapping"@,
                EventFault::MissingProvenance =>
                "TxLINE fair value is missing message provenance"@,
                EventFault::NotAFairValue => "TxLINE source has a non-fair-value event"@,
                EventFault::NotABook => "Pascal source has a non-order-book event"@,
            },
    {
        match self {
            EventFault::UnsupportedEvent => "recorded data source has an unsupported market event",
            EventFault::OtherMarket => "event market does not match the recorded mapping",
            EventFault::MissingProvenance => "TxLINE fair value is missing message provenance",
            EventFault::NotAFairValue => "TxLINE source has a non-fair-value event",
            EventFault::NotABook => "Pascal source has a non-order-book event",
        }
    }
}

/// Whether a text holds nothing but white space.
pub open spec fn blank(text: Seq<char>) -> bool {
    trimmed(text).len() == 0
}

/// Whether a text holds nothing but white space.
pub fn is_blank(text: &str) -> (r: bool)
    ensures
        r == blank(text@),
{
    let chars = to_chars(text);
    trim(&chars).len() == 0
}

/// The market of a fair value or a book.
pub open spec fn event_market(event: EventModel) -> Option<Seq<char>> {
    match event {
        EventModel::FairValue { market, .. } => Some(market),
        EventModel::Book { market, .. } => Some(market),
        _ => None,
    }
}

/// Whether a fair value says which message it came from and when it was proved.
pub open spec fn has_provenance(event: EventModel) -> bool {
    match event {
        EventModel::FairValue { message_id: Some(id), proof_ts: Some(_), .. } => !blank(id),
        _ => false,
    }
}

/// Why an event is not one that the adapter recorded for the mapping, if it is
/// not.
pub open spec fn event_fault(
    source: MarketDataSource,
    event: EventModel,
    mapping: MappingModel,
) -> Option<EventFault> {
    match event_market(event) {
        None => Some(EventFault::UnsupportedEvent),
        Some(market) => if market != mapping.market {
            Some(EventFault::OtherMarket)
        } else {
            match source {
                MarketDataSource::Txline => if !(event is FairValue) {
                    Some(EventFault::NotAFairValue)
                } else if has_provenance(event) {
                    None
                } else {
                    Some(EventFault::MissingProvenance)
                },
                MarketDataSource::Pascal => if event is Book {
                    None
                } else {
                    Some(EventFault::NotABook)
                },
            }
        },
    }
}

/// Checks that an event is one that the adapter recorded for the mapping.
pub fn validate_recorded_event(
    source: MarketDataSource,
    event: &EventEnvelope,
    mapping: &MarketMapping,
) -> (r: Result<(), EventFault>)
    ensures
        r == match event_fault(source, event@.event, mapping@) {
            Some(fault) => Err::<(), EventFault>(fault),
            None => Ok::<(), EventFault>(()),
        },
{
    let market = match &event.event {
        MarketEvent::FairValue { market, .. } => market,
        MarketEvent::Book { market, .. } => market,
        _ => return Err(EventFault::UnsupportedEvent),
    };
    if !crate::text::same_text(market.as_str(), mapping.market.as_str()) {
        return Err(EventFault::OtherMarket);
    }
    match (source, &event.event) {
        (
            MarketDataSource::Txline,
            MarketEvent::FairValue { message_id: Some(message_id), proof_ts: Some(_), .. },
        ) => {
            if is_blank(message_id.as_str()) {
                Err(EventFault::MissingProvenance)
            } else {
                Ok(())
            }
        },
        (MarketDataSource::Txline, MarketEvent::FairValue { .. }) => {
            Err(EventFault::MissingProvenance)
        },
        (MarketDataSource::Txline, _) => Err(EventFault::NotAFairValue),
        (MarketDataSource::Pascal, MarketEvent::Book { .. }) => Ok(()),
        (MarketDataSource::Pascal, _) => Err(EventFault::NotABook),
    }
}

/// Whether a mapping names what a replay needs.
pub open spec fn complete_mapping(mapping: MappingModel) -> bool {
    &&& mapping.fixture_id != 0
    &&& !blank(mapping.market)
    &&& !blank(mapping.pascal_symbol)
    &&& !blank(mapping.txline_selection.super_odds_type)
    &&& !blank(mapping.txline_selection.price_name)
}

/// Checks that a mapping names what a replay needs.
pub fn validate_mapping(mapping: &MarketMapping) -> (r: bool)
    ensures
        r == complete_mapping(mapping@),
{
    mapping.fixture_id != 0 && !is_blank(mapping.market.as_str()) && !is_blank(
        mapping.pascal_symbol.as_str(),
    ) && !is_blank(mapping.txline_selection.super_odds_type.as_str()) && !is_blank(
        mapping.txline_selection.price_name.as_str(),
    )
}

/// The model of a record. The times at which records were made come from the
/// clock and are left out.
#[verifier::ext_equal]
pub enum RecordModel {
    Run { schema: u16, run_id: int },
    Mapping { schema: u16, mapping: MappingModel },
    Event { schema: u16, source: MarketDataSource, event: EnvelopeModel },
    Decision { schema: u16, decision: DecisionModel },
    Fill { schema: u16, fill: FillModel },
    Trade { schema: u16, trade: TradeModel },
    Proof {
        schema: u16,
        order_id: int,
        message_id: Seq<char>,
        proof_ts: i64,
        proof: Seq<char>,
    },
}

impl View for JournalRecord {
    type V = RecordModel;

    open spec fn view(&self) -> RecordModel {
        match self {
            JournalRecord::Run { schema, run_id, .. } => RecordModel::Run {
                schema: *schema,
                run_id: *run_id as int,
            },
            JournalRecord::Mapping { schema, mapping } => RecordModel::Mapping {
                schema: *schema,
                mapping: mapping@,
            },
            JournalRecord::Event { schema, source, event } => RecordModel::Event {
                schema: *schema,
                source: *source,
                event: event@,
            },
            JournalRecord::Decision { schema, decision } => RecordModel::Decision {
                schema: *schema,
                decision: decision@,
            },
            JournalRecord::Fill { schema, fill } => RecordModel::Fill {
                schema: *schema,
                fill: fill@,
            },
            JournalRecord::Trade { schema, trade } => RecordModel::Trade {
                schema: *schema,
                trade: trade@,
            },
            JournalRecord::Proof { schema, order_id, message_id, proof_ts, proof, .. } =>
            RecordModel::Proof {
                schema: *schema,
                order_id: *order_id as int,
                message_id: message_id@,
                proof_ts: *proof_ts,
                proof: proof@,
            },
        }
    }
}

/// The models of some records.
pub open spec fn record_models(records: Seq<JournalRecord>) -> Seq<RecordModel> {
    Seq::new(records.len(), |i: int| records[i]@)
}

} // verus!
