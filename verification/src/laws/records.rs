//! What is counted, written down and shown of a run.

use vstd::multiset::Multiset;
use vstd::prelude::*;
use vstd::utf8::encode_utf8;

use crate::clock::time_of_ns;
use crate::encoding::{
    hex, hex_bytes, hex_char, id_text, json_quoted, order_json, rfc3339, trade_json,
};
use crate::engine::{EngineModel, OutputModel};
use crate::ids::{big_endian, digest_id, little_endian, sha256_digest};
use crate::latency::{latency_summary, micros_of, value_at};
use crate::laws::fits;
use crate::replay::{report_on, tally, ScanModel};
use crate::simulation::{scripted, scripted_fair};
use crate::strategy::{candidate_reason, order_key, qualifies, CandidateModel};
use crate::text::{decimal, decimal_signed};
use crate::types::{EventModel, OrderIntentKind, OrderModel, Side, TradeAction, TradeModel};

verus! {

/// A replay counts an output's decision where it considers an order, its fill and its trade
/// where it has them; it adds up what the trades realised, and appends the order and the
/// trade to what the checksums are made of.
pub proof fn outputs_are_added_up(outputs: Seq<OutputModel>, o: OutputModel)
    ensures
        ({
            let before = tally(outputs);
            let after = tally(outputs.push(o));
            &&& after.decisions == before.decisions + (if o.decision.intent is Some {
                1int
            } else {
                0
            })
            &&& after.fills == before.fills + (if o.fill is Some {
                1int
            } else {
                0
            })
            &&& after.trades == before.trades + (if o.trade is Some {
                1int
            } else {
                0
            })
            &&& o.trade is None ==> after.realized_pnl_micros == before.realized_pnl_micros
                && after.trade_bytes == before.trade_bytes
            &&& o.trade matches Some(t) ==> {
                &&& fits(before.realized_pnl_micros + t.realized_pnl_micros)
                    ==> after.realized_pnl_micros == before.realized_pnl_micros
                    + t.realized_pnl_micros
                &&& after.trade_bytes == before.trade_bytes + encode_utf8(trade_json(t))
            }
            &&& after.order_bytes == before.order_bytes + encode_utf8(
                order_json(o.decision.intent),
            )
        }),
        ({
            let none = tally(Seq::empty());
            &&& none.decisions == 0 && none.fills == 0 && none.trades == 0
            &&& none.realized_pnl_micros == 0
            &&& none.order_bytes.len() == 0 && none.trade_bytes.len() == 0
        }),
{
    assert(outputs.push(o).drop_last() =~= outputs);
}

/// A report gives the counts of the journal and of the outputs, the profit of the market at
/// the end, what the trades realised, and the digests of all orders and of all trades in
/// hexadecimal.
pub proof fn reports_give_counts_and_checksums<M>(
    s: ScanModel,
    outputs: Seq<OutputModel>,
    e: EngineModel<M>,
)
    ensures
        ({
            let r = report_on(s, outputs, e);
            let t = tally(outputs);
            &&& r.events == s.events.len()
            &&& r.txline_events == s.txline_events && r.pascal_events == s.pascal_events
            &&& r.mappings == s.mappings
            &&& r.decisions == t.decisions && r.fills == t.fills && r.trades == t.trades
            &&& r.realized_pnl_micros == t.realized_pnl_micros
            &&& r.pnl_micros == e.trading.state.pnl_micros
            &&& r.latency == latency_summary(e.samples)
            &&& r.decision_checksum == hex_bytes(sha256_digest(t.order_bytes))
            &&& r.trade_checksum == hex_bytes(sha256_digest(t.trade_bytes))
        }),
{
}

/// The number that a hexadecimal digit writes.
pub open spec fn hex_value(c: char) -> int {
    if '0' <= c && c <= '9' {
        c as u32 - '0' as u32
    } else {
        c as u32 - 'a' as u32 + 10
    }
}

/// The number that hexadecimal digits write.
pub open spec fn hex_number(s: Seq<char>) -> int
    decreases s.len(),
{
    if s.len() == 0 {
        0
    } else {
        hex_number(s.drop_last()) * 16 + hex_value(s.last())
    }
}

/// Sixteen to the power of `n`.
pub open spec fn sixteen_to(n: nat) -> int
    decreases n,
{
    if n == 0 {
        1
    } else {
        16 * sixteen_to((n - 1) as nat)
    }
}

/// Hexadecimal digits write the number that they are the digits of.
pub proof fn hexadecimal_reads_back(n: nat, width: nat)
    requires
        n < sixteen_to(width),
    ensures
        hex(n, width).len() == width,
        hex_number(hex(n, width)) == n,
    decreases width,
{
    if width > 0 {
        assert(n / 16 < sixteen_to((width - 1) as nat));
        hexadecimal_reads_back(n / 16, (width - 1) as nat);
        let d = n % 16;
        let s = hex(n, width);
        assert(s.drop_last() =~= hex(n / 16, (width - 1) as nat));
        assert(s.last() == hex_char(d));
        assert(hex_value(hex_char(d)) == d);
    }
}

/// Each byte of a digest is written with two digits, in their order.
pub proof fn digests_are_written_byte_by_byte(bytes: Seq<u8>, b: u8)
    ensures
        hex_bytes(bytes.push(b)).len() == hex_bytes(bytes).len() + 2,
        hex_bytes(bytes.push(b)).take(hex_bytes(bytes).len() as int) == hex_bytes(bytes),
        hex_number(hex_bytes(bytes.push(b)).skip(hex_bytes(bytes).len() as int)) == b,
        hex_bytes(Seq::empty()).len() == 0,
{
    assert(bytes.push(b).drop_last() =~= bytes);
    assert(sixteen_to(2) == 256) by {
        reveal_with_fuel(sixteen_to, 3);
    }
    hexadecimal_reads_back(b as nat, 2);
    let all = hex_bytes(bytes.push(b));
    assert(all.take(hex_bytes(bytes).len() as int) =~= hex_bytes(bytes));
    assert(all.skip(hex_bytes(bytes).len() as int) =~= hex(b as nat, 2));
}

/// An identifier is written as its thirty-two hexadecimal digits, in groups of eight, four,
/// four, four and twelve, with a dash between them.
pub proof fn identifiers_are_written_in_groups(id: nat)
    requires
        id < sixteen_to(32),
    ensures
        ({
            let text = id_text(id);
            let digits = text.take(8) + text.subrange(9, 13) + text.subrange(14, 18)
                + text.subrange(19, 23) + text.skip(24);
            &&& text.len() == 36
            &&& text[8] == '-' && text[13] == '-' && text[18] == '-' && text[23] == '-'
            &&& hex_number(digits) == id
        }),
{
    hexadecimal_reads_back(id, 32);
    reveal_strlit("-");
    let h = hex(id, 32);
    let text = id_text(id);
    let digits = text.take(8) + text.subrange(9, 13) + text.subrange(14, 18) + text.subrange(
        19,
        23,
    ) + text.skip(24);
    assert(text.take(8) =~= h.subrange(0, 8));
    assert(text.subrange(9, 13) =~= h.subrange(8, 12));
    assert(text.subrange(14, 18) =~= h.subrange(12, 16));
    assert(text.subrange(19, 23) =~= h.subrange(16, 20));
    assert(text.skip(24) =~= h.subrange(20, 32));
    assert(digits =~= h);
}

/// A point in time is the given number of nanoseconds after the epoch.
pub proof fn times_are_nanoseconds_after_the_epoch(ns: u64)
    ensures
        time_of_ns(ns as int).seconds * 1_000_000_000 + time_of_ns(ns as int).nanos == ns,
        time_of_ns(ns as int).nanos < 1_000_000_000,
{
}

/// Latencies are shown in microseconds, rounded up.
pub proof fn latencies_are_rounded_up(nanos: int)
    requires
        nanos >= 0,
    ensures
        micros_of(nanos) * 1_000 >= nanos,
        (micros_of(nanos) - 1) * 1_000 < nanos,
{
}

/// The summary of no latencies is all zero. Otherwise it counts them and shows the median,
/// the ninety-fifth and the ninety-ninth percentile.
pub proof fn latency_summaries_show_three_percentiles(samples: Multiset<u64>)
    requires
        samples.len() <= u64::MAX,
    ensures
        ({
            let r = latency_summary(samples);
            let bounds = seq![1u64, 60_000_000u64, 3u64];
            &&& r.samples == samples.len()
            &&& samples.len() == 0 ==> r.p50_us == 0 && r.p95_us == 0 && r.p99_us == 0 && r.max_us
                == 0
            &&& samples.len() > 0 ==> {
                &&& r.p50_us == micros_of(value_at(bounds, samples, 50) as int)
                &&& r.p95_us == micros_of(value_at(bounds, samples, 95) as int)
                &&& r.p99_us == micros_of(value_at(bounds, samples, 99) as int)
            }
        }),
{
}

/// A candidate is to be submitted exactly where there are contracts to trade and the reason
/// says that a threshold was reached.
pub proof fn reasons_tell_why(c: CandidateModel)
    ensures
        c.visible == 0 || c.quantity == 0 ==> candidate_reason(c)
            == "no visible liquidity at the executable price"@ && !qualifies(c),
        c.visible != 0 && c.quantity != 0 && c.kind == OrderIntentKind::Entry && c.edge >= 50_000
            ==> candidate_reason(c) == "entry edge reached the 5% threshold"@ && qualifies(c),
        c.visible != 0 && c.quantity != 0 && c.kind == OrderIntentKind::Exit && c.edge <= 10_000
            ==> candidate_reason(c) == "edge mean-reverted to the 1% exit threshold"@ && qualifies(
            c,
        ),
        c.kind == OrderIntentKind::Entry && c.edge < 50_000 ==> !qualifies(c),
        c.kind == OrderIntentKind::Exit && c.edge > 10_000 ==> !qualifies(c),
{
}

/// Two hundred and fifty-six to the power of `n`.
pub open spec fn bytes_to(n: nat) -> int
    decreases n,
{
    if n == 0 {
        1
    } else {
        256 * bytes_to((n - 1) as nat)
    }
}

proof fn lemma_little_endian(x: nat, y: nat, count: nat)
    requires
        x < bytes_to(count),
        y < bytes_to(count),
        little_endian(x, count) == little_endian(y, count),
    ensures
        x == y,
    decreases count,
{
    if count > 0 {
        let a = little_endian(x, count);
        let b = little_endian(y, count);
        assert(a[0] == (x % 256) as u8 && b[0] == (y % 256) as u8);
        assert(x % 256 == y % 256);
        assert(a.drop_first() =~= little_endian(x / 256, (count - 1) as nat));
        assert(b.drop_first() =~= little_endian(y / 256, (count - 1) as nat));
        lemma_little_endian(x / 256, y / 256, (count - 1) as nat);
    }
}

proof fn lemma_little_endian_len(x: nat, count: nat)
    ensures
        little_endian(x, count).len() == count,
    decreases count,
{
    if count > 0 {
        lemma_little_endian_len(x / 256, (count - 1) as nat);
    }
}

/// An identifier has the first sixteen bytes of the digest, the most significant first:
/// each of its bytes is one of the digest.
pub proof fn identifiers_begin_the_digest(bytes: Seq<u8>, at: int)
    requires
        0 <= at < 16,
        sha256_digest(bytes).len() == 32,
    ensures
        digest_id(bytes) / bytes_to((15 - at) as nat) % 256 == sha256_digest(bytes)[at],
        0 <= digest_id(bytes) < bytes_to(16),
{
    lemma_big_endian(sha256_digest(bytes).take(16), at);
}

proof fn lemma_big_endian(bytes: Seq<u8>, at: int)
    requires
        0 <= at < bytes.len(),
    ensures
        big_endian(bytes) / bytes_to((bytes.len() - 1 - at) as nat) % 256 == bytes[at],
        0 <= big_endian(bytes) < bytes_to(bytes.len()),
    decreases bytes.len(),
{
    let head = bytes.drop_last();
    let h = big_endian(head);
    let last = bytes.last() as int;
    if head.len() > 0 {
        lemma_big_endian(head, 0);
    } else {
        assert(bytes_to(0) == 1);
    }
    if at == bytes.len() - 1 {
        assert(bytes_to(0) == 1);
        assert((h * 256 + last) / 1 % 256 == last) by (nonlinear_arith)
            requires
                0 <= last < 256,
        ;
    } else {
        lemma_big_endian(head, at);
        let p = bytes_to((head.len() - 1 - at) as nat);
        assert(p > 0) by {
            lemma_bytes_to((head.len() - 1 - at) as nat);
        }
        assert((h * 256 + last) / (256 * p) == h / p) by (nonlinear_arith)
            requires
                0 <= last < 256,
                p > 0,
        ;
    }
}

proof fn lemma_bytes_to(n: nat)
    ensures
        bytes_to(n) > 0,
    decreases n,
{
    if n > 0 {
        lemma_bytes_to((n - 1) as nat);
    }
}

/// The identifier of an order tells the state of the feeds, the kind and the side apart:
/// within a market, orders that differ in one of these are identified by other bytes.
pub proof fn orders_are_told_apart(
    market: Seq<char>,
    a: (u64, u64, OrderIntentKind, Side),
    b: (u64, u64, OrderIntentKind, Side),
)
    requires
        order_key(market, a.0 as int, a.1 as int, a.2, a.3) == order_key(
            market,
            b.0 as int,
            b.1 as int,
            b.2,
            b.3,
        ),
    ensures
        a == b,
{
    let x = order_key(market, a.0 as int, a.1 as int, a.2, a.3);
    let y = order_key(market, b.0 as int, b.1 as int, b.2, b.3);
    let n = encode_utf8(market).len() as int;
    lemma_little_endian_len(a.0 as nat, 8);
    lemma_little_endian_len(a.1 as nat, 8);
    lemma_little_endian_len(b.0 as nat, 8);
    lemma_little_endian_len(b.1 as nat, 8);
    assert(x.subrange(n, n + 8) =~= little_endian(a.0 as nat, 8));
    assert(y.subrange(n, n + 8) =~= little_endian(b.0 as nat, 8));
    assert(x.subrange(n + 8, n + 16) =~= little_endian(a.1 as nat, 8));
    assert(y.subrange(n + 8, n + 16) =~= little_endian(b.1 as nat, 8));
    assert(bytes_to(8) == 0x1_0000_0000_0000_0000) by {
        reveal_with_fuel(bytes_to, 9);
    }
    lemma_little_endian(a.0 as nat, b.0 as nat, 8);
    lemma_little_endian(a.1 as nat, b.1 as nat, 8);
    assert(x[n + 16] == crate::strategy::kind_byte(a.2));
    assert(y[n + 16] == crate::strategy::kind_byte(b.2));
    assert(x[n + 17] == crate::strategy::side_byte(a.3));
    assert(y[n + 17] == crate::strategy::side_byte(b.3));
}

/// The scripted fair value rises by two thousand millionths a tick for ten ticks and falls
/// back for the next ten, with a jump at every seventeenth tick. The book around its own
/// middle is twelve thousand wide.
pub proof fn scripted_markets_move_in_waves(tick: int, now_ns: int)
    requires
        tick >= 0,
    ensures
        ({
            let step = tick % 20;
            let wave = if step <= 10 {
                585_000 + step * 2_000
            } else {
                585_000 + (20 - step) * 2_000
            };
            let middle = 584_000 + ((tick * 3) % 13 - 6) * 1_000;
            let made = scripted(tick, now_ns);
            &&& tick % 17 == 0 ==> scripted_fair(tick) == wave + 31_000
            &&& tick % 17 != 0 ==> scripted_fair(tick) == wave
            &&& made.len() == if tick % 12 == 0 || tick % 37 == 0 || tick % 91 == 0 {
                3int
            } else {
                2
            }
            &&& made[0].0 == now_ns && made[1].0 == now_ns + 20_000
            &&& made[0].1 matches EventModel::Book {
                bid,
                bid_size,
                ask,
                ask_size,
                venue_seq,
                ..
            } && bid == middle - 6_000 && ask == middle + 6_000 && venue_seq == tick && bid_size
                == 55 + tick % 40 && ask_size == 45 + (tick * 7) % 50
            &&& made[1].1 matches EventModel::FairValue {
                probability,
                source_seq,
                message_id,
                proof_ts,
                ..
            } && probability == scripted_fair(tick) && source_seq == tick && message_id is None
                && proof_ts is None
            &&& made.len() == 3 ==> made[2].0 == now_ns + 30_000 && (
            made[2].1 matches EventModel::Score { danger, suspended, phase, home, away, .. } && (
            danger <==> tick % 37 == 0) && (suspended <==> tick % 91 == 0) && (tick > 100 ==> phase
                == "H2"@) && (tick <= 100 ==> phase == "H1"@) && (tick / 71 < 65_536 ==> home
                == tick / 71) && (tick / 113 < 65_536 ==> away == tick / 113))
        }),
{
}

/// A member of a JSON object.
pub open spec fn member(name: Seq<char>, value: Seq<char>) -> Seq<char> {
    "\""@ + name + "\":"@ + value
}

/// A word in JSON.
pub open spec fn word(value: Seq<char>) -> Seq<char> {
    "\""@ + value + "\""@
}

/// The text of an object with some members, without the brace that ends it.
pub open spec fn members(all: Seq<Seq<char>>) -> Seq<char>
    decreases all.len(),
{
    if all.len() <= 1 {
        "{"@ + all[0]
    } else {
        members(all.drop_last()) + ","@ + all.last()
    }
}

proof fn lemma_member(
    all: Seq<Seq<char>>,
    last: Seq<char>,
    text: Seq<char>,
    name: Seq<char>,
    value: Seq<char>,
    between: Seq<char>,
)
    requires
        all.len() > 0,
        members(all) == text + last,
        last + ","@ + "\""@ + name + "\":"@ == between,
    ensures
        members(all.push(member(name, value))) == text + between + value,
{
    let next = all.push(member(name, value));
    assert(next.drop_last() =~= all);
    let m = "\""@ + name + "\":"@;
    assert(text + last + ","@ + (m + value) =~= text + (last + ","@ + m) + value);
    assert(last + ","@ + m =~= last + ","@ + "\""@ + name + "\":"@);
}

/// The members of an order in JSON: identifier, market, kind, side, price, quantity, edge,
/// time, message and proof.
pub open spec fn order_members(o: OrderModel) -> Seq<Seq<char>> {
    seq![
        member("id"@, word(id_text(o.id as nat))),
        member("market"@, json_quoted(o.market)),
        member(
            "kind"@,
            word(
                if o.kind == OrderIntentKind::Entry {
                    "entry"@
                } else {
                    "exit"@
                },
            ),
        ),
        member(
            "side"@,
            word(
                if o.side == Side::Bid {
                    "bid"@
                } else {
                    "ask"@
                },
            ),
        ),
        member("limit_price"@, decimal_signed(o.limit_price)),
        member("quantity"@, decimal(o.quantity as nat)),
        member("expected_edge_micros"@, decimal_signed(o.expected_edge_micros)),
        member("created_time_ns"@, decimal(o.created_time_ns as nat)),
        member(
            "source_message_id"@,
            match o.source_message_id {
                Some(s) => json_quoted(s),
                None => "null"@,
            },
        ),
        member(
            "source_proof_ts"@,
            match o.source_proof_ts {
                Some(n) => decimal_signed(n as int),
                None => "null"@,
            },
        ),
    ]
}

/// An order is written in JSON with all of its members, in a fixed order. No order is
/// written as null.
pub proof fn orders_are_written_with_all_their_members(o: OrderModel)
    ensures
        order_json(None) == "null"@,
        order_json(Some(o)) == members(order_members(o)) + "}"@,
{
    let id = id_text(o.id as nat);
    let kind = if o.kind == OrderIntentKind::Entry {
        "entry"@
    } else {
        "exit"@
    };
    let side = if o.side == Side::Bid {
        "bid"@
    } else {
        "ask"@
    };
    let message = match o.source_message_id {
        Some(s) => json_quoted(s),
        None => "null"@,
    };
    let proved = match o.source_proof_ts {
        Some(n) => decimal_signed(n as int),
        None => "null"@,
    };
    reveal_strlit("{");
    reveal_strlit("\"");
    reveal_strlit("\":");
    reveal_strlit(",");
    reveal_strlit("id");
    reveal_strlit("market");
    reveal_strlit("kind");
    reveal_strlit("side");
    reveal_strlit("limit_price");
    reveal_strlit("quantity");
    reveal_strlit("expected_edge_micros");
    reveal_strlit("created_time_ns");
    reveal_strlit("source_message_id");
    reveal_strlit("source_proof_ts");
    reveal_strlit("{\"id\":\"");
    reveal_strlit("\",\"market\":");
    reveal_strlit(",\"kind\":\"");
    reveal_strlit("\",\"side\":\"");
    reveal_strlit("\",\"limit_price\":");
    reveal_strlit(",\"quantity\":");
    reveal_strlit(",\"expected_edge_micros\":");
    reveal_strlit(",\"created_time_ns\":");
    reveal_strlit(",\"source_message_id\":");
    reveal_strlit(",\"source_proof_ts\":");
    let none = Seq::<char>::empty();
    let m1 = seq![member("id"@, word(id))];
    let t1 = "{\"id\":\""@ + id;
    assert(members(m1) =~= t1 + "\""@);
    let t2 = t1 + "\",\"market\":"@ + json_quoted(o.market);
    assert("\""@ + ","@ + "\""@ + "market"@ + "\":"@ =~= "\",\"market\":"@);
    lemma_member(m1, "\""@, t1, "market"@, json_quoted(o.market), "\",\"market\":"@);
    let m2 = m1.push(member("market"@, json_quoted(o.market)));
    assert(members(m2) == t2);
    assert(t2 + none =~= t2);
    let k = ","@ + "\""@ + "kind"@ + "\":"@;
    assert(none + ","@ + "\""@ + "kind"@ + "\":"@ =~= k);
    lemma_member(m2, none, t2, "kind"@, word(kind), k);
    let m3 = m2.push(member("kind"@, word(kind)));
    let t3 = t2 + ",\"kind\":\""@ + kind;
    assert(k + "\""@ =~= ",\"kind\":\""@);
    assert(t2 + k + word(kind) =~= t2 + (k + "\""@) + kind + "\""@);
    assert(members(m3) == t3 + "\""@);
    let d = "\""@ + ","@ + "\""@ + "side"@ + "\":"@;
    lemma_member(m3, "\""@, t3, "side"@, word(side), d);
    let m4 = m3.push(member("side"@, word(side)));
    let t4 = t3 + "\",\"side\":\""@ + side;
    assert(d + "\""@ =~= "\",\"side\":\""@);
    assert(t3 + d + word(side) =~= t3 + (d + "\""@) + side + "\""@);
    assert(members(m4) == t4 + "\""@);
    let price = decimal_signed(o.limit_price);
    assert("\""@ + ","@ + "\""@ + "limit_price"@ + "\":"@ =~= "\",\"limit_price\":"@);
    lemma_member(m4, "\""@, t4, "limit_price"@, price, "\",\"limit_price\":"@);
    let m5 = m4.push(member("limit_price"@, price));
    let t5 = t4 + "\",\"limit_price\":"@ + price;
    assert(t5 + none =~= t5);
    let quantity = decimal(o.quantity as nat);
    assert(none + ","@ + "\""@ + "quantity"@ + "\":"@ =~= ",\"quantity\":"@);
    lemma_member(m5, none, t5, "quantity"@, quantity, ",\"quantity\":"@);
    let m6 = m5.push(member("quantity"@, quantity));
    let t6 = t5 + ",\"quantity\":"@ + quantity;
    assert(t6 + none =~= t6);
    let edge = decimal_signed(o.expected_edge_micros);
    assert(none + ","@ + "\""@ + "expected_edge_micros"@ + "\":"@
        =~= ",\"expected_edge_micros\":"@);
    lemma_member(m6, none, t6, "expected_edge_micros"@, edge, ",\"expected_edge_micros\":"@);
    let m7 = m6.push(member("expected_edge_micros"@, edge));
    let t7 = t6 + ",\"expected_edge_micros\":"@ + edge;
    assert(t7 + none =~= t7);
    let made = decimal(o.created_time_ns as nat);
    assert(none + ","@ + "\""@ + "created_time_ns"@ + "\":"@ =~= ",\"created_time_ns\":"@);
    lemma_member(m7, none, t7, "created_time_ns"@, made, ",\"created_time_ns\":"@);
    let m8 = m7.push(member("created_time_ns"@, made));
    let t8 = t7 + ",\"created_time_ns\":"@ + made;
    assert(t8 + none =~= t8);
    assert(none + ","@ + "\""@ + "source_message_id"@ + "\":"@ =~= ",\"source_message_id\":"@);
    lemma_member(m8, none, t8, "source_message_id"@, message, ",\"source_message_id\":"@);
    let m9 = m8.push(member("source_message_id"@, message));
    let t9 = t8 + ",\"source_message_id\":"@ + message;
    assert(t9 + none =~= t9);
    assert(none + ","@ + "\""@ + "source_proof_ts"@ + "\":"@ =~= ",\"source_proof_ts\":"@);
    lemma_member(m9, none, t9, "source_proof_ts"@, proved, ",\"source_proof_ts\":"@);
    let m10 = m9.push(member("source_proof_ts"@, proved));
    let t10 = t9 + ",\"source_proof_ts\":"@ + proved;
    assert(members(m10) == t10);
    assert(order_json(Some(o)) == t10 + "}"@);
    assert(m10 =~= order_members(o));
}

/// The members of a trade in JSON: order, market, kind, action, time, price, edge, quantity
/// and profit.
pub open spec fn trade_members(t: TradeModel) -> Seq<Seq<char>> {
    seq![
        member("order_id"@, word(id_text(t.order_id as nat))),
        member("market"@, json_quoted(t.market)),
        member(
            "kind"@,
            word(
                if t.kind == OrderIntentKind::Entry {
                    "entry"@
                } else {
                    "exit"@
                },
            ),
        ),
        member(
            "action"@,
            word(
                if t.action == TradeAction::Buy {
                    "buy"@
                } else {
                    "sell"@
                },
            ),
        ),
        member("timestamp"@, word(rfc3339(t.timestamp.seconds, t.timestamp.nanos))),
        member("price"@, decimal_signed(t.price)),
        member("edge_micros"@, decimal_signed(t.edge_micros)),
        member("quantity"@, decimal(t.quantity as nat)),
        member("realized_pnl_micros"@, decimal_signed(t.realized_pnl_micros)),
    ]
}

/// A trade is written in JSON with all of its members, in a fixed order.
pub proof fn trades_are_written_with_all_their_members(t: TradeModel)
    ensures
        trade_json(t) == members(trade_members(t)) + "}"@,
{
    let kind = if t.kind == OrderIntentKind::Entry {
        "entry"@
    } else {
        "exit"@
    };
    let action = if t.action == TradeAction::Buy {
        "buy"@
    } else {
        "sell"@
    };
    reveal_strlit(",");
    reveal_strlit(",\"edge_micros\":");
    reveal_strlit(",\"kind\":\"");
    reveal_strlit(",\"quantity\":");
    reveal_strlit(",\"realized_pnl_micros\":");
    reveal_strlit("\"");
    reveal_strlit("\",\"action\":\"");
    reveal_strlit("\",\"market\":");
    reveal_strlit("\",\"price\":");
    reveal_strlit("\",\"timestamp\":\"");
    reveal_strlit("\":");
    reveal_strlit("action");
    reveal_strlit("edge_micros");
    reveal_strlit("kind");
    reveal_strlit("market");
    reveal_strlit("order_id");
    reveal_strlit("price");
    reveal_strlit("quantity");
    reveal_strlit("realized_pnl_micros");
    reveal_strlit("timestamp");
    reveal_strlit("{");
    reveal_strlit("{\"order_id\":\"");
    let none = Seq::<char>::empty();
    let v1 = id_text(t.order_id as nat);
    let m1 = seq![member("order_id"@, word(v1))];
    let t1 = "{\"order_id\":\""@ + v1;
    assert(members(m1) =~= t1 + "\""@);
    let v2 = json_quoted(t.market);
    assert("\""@ + ","@ + "\""@ + "market"@ + "\":"@ =~= "\",\"market\":"@);
    lemma_member(m1, "\""@, t1, "market"@, v2, "\",\"market\":"@);
    let m2 = m1.push(member("market"@, v2));
    let t2 = t1 + "\",\"market\":"@ + v2;
    let v3 = kind;
    assert(t2 + none =~= t2);
    let b3 = none + ","@ + "\""@ + "kind"@ + "\":"@;
    lemma_member(m2, none, t2, "kind"@, word(v3), b3);
    let m3 = m2.push(member("kind"@, word(v3)));
    let t3 = t2 + ",\"kind\":\""@ + v3;
    assert(b3 + "\""@ =~= ",\"kind\":\""@);
    assert(t2 + b3 + word(v3) =~= t2 + (b3 + "\""@) + v3 + "\""@);
    assert(members(m3) == t3 + "\""@);
    let v4 = action;
    let b4 = "\""@ + ","@ + "\""@ + "action"@ + "\":"@;
    lemma_member(m3, "\""@, t3, "action"@, word(v4), b4);
    let m4 = m3.push(member("action"@, word(v4)));
    let t4 = t3 + "\",\"action\":\""@ + v4;
    assert(b4 + "\""@ =~= "\",\"action\":\""@);
    assert(t3 + b4 + word(v4) =~= t3 + (b4 + "\""@) + v4 + "\""@);
    assert(members(m4) == t4 + "\""@);
    let v5 = rfc3339(t.timestamp.seconds, t.timestamp.nanos);
    let b5 = "\""@ + ","@ + "\""@ + "timestamp"@ + "\":"@;
    lemma_member(m4, "\""@, t4, "timestamp"@, word(v5), b5);
    let m5 = m4.push(member("timestamp"@, word(v5)));
    let t5 = t4 + "\",\"timestamp\":\""@ + v5;
    assert(b5 + "\""@ =~= "\",\"timestamp\":\""@);
    assert(t4 + b5 + word(v5) =~= t4 + (b5 + "\""@) + v5 + "\""@);
    assert(members(m5) == t5 + "\""@);
    let v6 = decimal_signed(t.price);
    assert("\""@ + ","@ + "\""@ + "price"@ + "\":"@ =~= "\",\"price\":"@);
    lemma_member(m5, "\""@, t5, "price"@, v6, "\",\"price\":"@);
    let m6 = m5.push(member("price"@, v6));
    let t6 = t5 + "\",\"price\":"@ + v6;
    let v7 = decimal_signed(t.edge_micros);
    assert(t6 + none =~= t6);
    assert(none + ","@ + "\""@ + "edge_micros"@ + "\":"@ =~= ",\"edge_micros\":"@);
    lemma_member(m6, none, t6, "edge_micros"@, v7, ",\"edge_micros\":"@);
    let m7 = m6.push(member("edge_micros"@, v7));
    let t7 = t6 + ",\"edge_micros\":"@ + v7;
    let v8 = decimal(t.quantity as nat);
    assert(t7 + none =~= t7);
    assert(none + ","@ + "\""@ + "quantity"@ + "\":"@ =~= ",\"quantity\":"@);
    lemma_member(m7, none, t7, "quantity"@, v8, ",\"quantity\":"@);
    let m8 = m7.push(member("quantity"@, v8));
    let t8 = t7 + ",\"quantity\":"@ + v8;
    let v9 = decimal_signed(t.realized_pnl_micros);
    assert(t8 + none =~= t8);
    assert(none + ","@ + "\""@ + "realized_pnl_micros"@ + "\":"@ =~= ",\"realized_pnl_micros\":"@);
    lemma_member(m8, none, t8, "realized_pnl_micros"@, v9, ",\"realized_pnl_micros\":"@);
    let m9 = m8.push(member("realized_pnl_micros"@, v9));
    let t9 = t8 + ",\"realized_pnl_micros\":"@ + v9;
    assert(members(m9) == t9);
    assert(trade_json(t) == t9 + "}"@);
    assert(m9 =~= trade_members(t));
}

} // verus!
