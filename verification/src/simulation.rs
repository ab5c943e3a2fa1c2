//! A scripted market for demonstrations without feeds.

use vstd::prelude::*;

use crate::fixed::{abs, Price};
use crate::types::{EventEnvelope, EventModel, MarketEvent};

verus! {

/// Whether `tick` is a multiple of `n`.
pub open spec fn every(tick: int, n: int) -> bool {
    tick % n == 0
}

/// The scripted fair value: a wave with a jump at every seventeenth tick.
pub open spec fn scripted_fair(tick: int) -> int {
    585_000 + (10 - abs(tick % 20 - 10)) * 2_000 + if every(tick, 17) {
        31_000int
    } else {
        0
    }
}

/// The scripted middle of the book.
pub open spec fn scripted_mid(tick: int) -> int {
    584_000 + (tick * 3 % 13 - 6) * 1_000
}

/// Whether a score update is scripted for a tick.
pub open spec fn scripted_score(tick: int) -> bool {
    every(tick, 12) || every(tick, 37) || every(tick, 91)
}

/// The scripted events of a tick, each with the time it is received at.
pub open spec fn scripted(tick: int, now_ns: int) -> Seq<(int, EventModel)> {
    let market = "FIFA-WC-FRA-BRA"@;
    let quotes = seq![
        (
            now_ns,
            EventModel::Book {
                market,
                bid: scripted_mid(tick) - 6_000,
                bid_size: 55 + tick % 40,
                ask: scripted_mid(tick) + 6_000,
                ask_size: 45 + tick * 7 % 50,
                venue_seq: tick,
            },
        ),
        (
            now_ns + 20_000,
            EventModel::FairValue {
                market,
                probability: scripted_fair(tick),
                source_seq: tick,
                message_id: None,
                proof_ts: None,
            },
        ),
    ];
    if scripted_score(tick) {
        quotes.push(
            (
                now_ns + 30_000,
                EventModel::Score {
                    market,
                    phase: if tick > 100 {
                        "H2"@
                    } else {
                        "H1"@
                    },
                    home: (tick / 71 % 65_536) as u16,
                    away: (tick / 113 % 65_536) as u16,
                    danger: every(tick, 37),
                    suspended: every(tick, 91),
                },
            ),
        )
    } else {
        quotes
    }
}

fn price(micros: i64) -> (r: Price)
    requires
        0 <= micros <= 1_000_000,
    ensures
        r@ == micros,
{
    match Price::from_micros(micros) {
        Ok(price) => price,
        Err(_) => Price::zero(),
    }
}

/// The scripted events of a tick. Their identifiers are random, so nothing is
/// claimed of these.
pub fn events(tick: u64, now_ns: u64) -> (r: Vec<EventEnvelope>)
    requires
        tick * 7 <= u64::MAX,
        now_ns + 20_000 <= u64::MAX,
        scripted_score(tick as int) ==> now_ns + 30_000 <= u64::MAX,
    ensures
        r@.len() == scripted(tick as int, now_ns as int).len(),
        forall|i: int|
            0 <= i < r@.len() ==> {
                &&& (#[trigger] r@[i]).source_time_ns is None
                &&& r@[i].received_time_ns == scripted(tick as int, now_ns as int)[i].0
                &&& r@[i].event@ == scripted(tick as int, now_ns as int)[i].1
            },
{
    let market = "FIFA-WC-FRA-BRA";
    let phase_of_wave: i64 = (tick % 20) as i64 - 10;
    let wave: i64 = if phase_of_wave < 0 {
        0 - phase_of_wave
    } else {
        phase_of_wave
    };
    let jump: i64 = if tick % 17 == 0 {
        31_000
    } else {
        0
    };
    let fair_micros: i64 = 585_000 + (10 - wave) * 2_000 + jump;
    let mid: i64 = 584_000 + ((tick * 3 % 13) as i64 - 6) * 1_000;
    let danger = tick % 37 == 0;
    let suspended = tick % 91 == 0;
    let mut out: Vec<EventEnvelope> = Vec::new();
    out.push(
        EventEnvelope::new(
            now_ns,
            MarketEvent::Book {
                market: market.to_owned(),
                bid: price(mid - 6_000),
                bid_size: 55 + tick % 40,
                ask: price(mid + 6_000),
                ask_size: 45 + (tick * 7) % 50,
                venue_seq: tick,
            },
        ),
    );
    out.push(
        EventEnvelope::new(
            now_ns + 20_000,
            MarketEvent::FairValue {
                market: market.to_owned(),
                probability: price(fair_micros),
                source_seq: tick,
                message_id: None,
                proof_ts: None,
            },
        ),
    );
    if tick % 12 == 0 || danger || suspended {
        let phase = if tick > 100 {
            "H2"
        } else {
            "H1"
        };
        out.push(
            EventEnvelope::new(
                now_ns + 30_000,
                MarketEvent::Score {
                    market: market.to_owned(),
                    phase: phase.to_owned(),
                    home: (tick / 71 % 65_536) as u16,
                    away: (tick / 113 % 65_536) as u16,
                    danger,
                    suspended,
                },
            ),
        );
    }
    out
}

} // verus!
