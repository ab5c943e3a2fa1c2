//! The text and bytes that orders and trades are written as.
//!
//! An order is written as a JSON object without white space, its fields in the
//! order in which the type lists them.

use vstd::prelude::*;
use vstd::string::StringExecFns;

use crate::clock::Timestamp;
use crate::text::{decimal, decimal_signed, push_decimal, push_decimal_signed};
use crate::types::{
    order_option, OrderIntent, OrderIntentKind, OrderModel, Side, TradeAction, TradeEvent,
    TradeModel,
};

verus! {

/// The JSON string literal of a text: its characters in double quotes, with the
/// escapes that JSON asks for.
pub uninterp spec fn json_quoted(text: Seq<char>) -> Seq<char>;

/// Calls `serde_json::to_string` on a string slice. The literal is a function of
/// the characters alone, named `json_quoted`. Serialising a string slice does
/// not fail.
#[verifier::external_body]
pub(crate) fn json_quote(text: &str) -> (r: String)
    ensures
        r@ == json_quoted(text@),
{
    serde_json::to_string(text).unwrap()
}

/// A point in time in RFC 3339, with as many digits of a second as it needs.
pub uninterp spec fn rfc3339(seconds: i64, nanos: u32) -> Seq<char>;

/// Whether a point in time is within the years -262143 to 262142.
pub open spec fn datable(at: Timestamp) -> bool {
    -8_334_601_228_800 <= at.seconds <= 8_210_266_876_799 && at.nanos < 1_000_000_000
}

/// Calls `chrono::DateTime::to_rfc3339_opts` on the date and time of a point in
/// time. The text is a function of the seconds and nanoseconds alone, named
/// `rfc3339`.
#[verifier::external_body]
fn utc_text(at: Timestamp) -> (r: String)
    requires
        datable(at),
    ensures
        r@ == rfc3339(at.seconds, at.nanos),
{
    chrono::DateTime::from_timestamp(at.seconds, at.nanos).unwrap().to_rfc3339_opts(
        chrono::SecondsFormat::AutoSi,
        true,
    )
}

/// The lower-case hexadecimal digit of `d`.
pub open spec fn hex_char(d: nat) -> char {
    if d < 10 {
        (d + 0x30) as char
    } else {
        (d + 0x57) as char
    }
}

/// The last `width` hexadecimal digits of `n`.
pub open spec fn hex(n: nat, width: nat) -> Seq<char>
    decreases width,
{
    if width == 0 {
        Seq::empty()
    } else {
        hex(n / 16, (width - 1) as nat).push(hex_char(n % 16))
    }
}

/// The bytes in hexadecimal, two digits each.
pub open spec fn hex_bytes(bytes: Seq<u8>) -> Seq<char>
    decreases bytes.len(),
{
    if bytes.len() == 0 {
        Seq::empty()
    } else {
        hex_bytes(bytes.drop_last()) + hex(bytes.last() as nat, 2)
    }
}

/// An identifier in groups of hexadecimal digits.
pub open spec fn id_text(id: nat) -> Seq<char> {
    let digits = hex(id, 32);
    digits.subrange(0, 8) + "-"@ + digits.subrange(8, 12) + "-"@ + digits.subrange(12, 16) + "-"@
        + digits.subrange(16, 20) + "-"@ + digits.subrange(20, 32)
}

fn hex_digit(d: u8) -> (c: char)
    requires
        d < 16,
    ensures
        c == hex_char(d as nat),
{
    if d < 10 {
        (d + 0x30) as char
    } else {
        (d + 0x57) as char
    }
}

proof fn lemma_hex_len(n: nat, width: nat)
    ensures
        hex(n, width).len() == width,
    decreases width,
{
    if width > 0 {
        lemma_hex_len(n / 16, (width - 1) as nat);
    }
}

fn hex_digits(n: u128, width: usize) -> (r: Vec<char>)
    ensures
        r@ == hex(n as nat, width as nat),
    decreases width,
{
    if width == 0 {
        return Vec::new();
    }
    let mut out = hex_digits(n / 16, width - 1);
    out.push(hex_digit((n % 16) as u8));
    out
}

fn push_slice(out: &mut String, digits: &Vec<char>, from: usize, to: usize)
    requires
        from <= to <= digits@.len(),
    ensures
        final(out)@ == old(out)@ + digits@.subrange(from as int, to as int),
{
    let mut i: usize = from;
    assert(old(out)@ + digits@.subrange(from as int, from as int) =~= old(out)@);
    while i < to
        invariant
            from <= i <= to <= digits@.len(),
            out@ == old(out)@ + digits@.subrange(from as int, i as int),
        decreases to - i,
    {
        out.push(digits[i]);
        i = i + 1;
        assert(old(out)@ + digits@.subrange(from as int, i as int) =~= (old(out)@
            + digits@.subrange(from as int, i - 1)).push(digits@[i - 1]));
    }
}

/// Appends an identifier.
pub fn push_id(out: &mut String, id: u128)
    ensures
        final(out)@ == old(out)@ + id_text(id as nat),
{
    let digits = hex_digits(id, 32);
    proof {
        lemma_hex_len(id as nat, 32);
    }
    push_slice(out, &digits, 0, 8);
    out.append("-");
    push_slice(out, &digits, 8, 12);
    out.append("-");
    push_slice(out, &digits, 12, 16);
    out.append("-");
    push_slice(out, &digits, 16, 20);
    out.append("-");
    push_slice(out, &digits, 20, 32);
    assert(out@ =~= old(out)@ + id_text(id as nat));
}

/// The bytes in hexadecimal.
pub fn to_hex(bytes: &[u8]) -> (r: String)
    ensures
        r@ == hex_bytes(bytes@),
{
    let mut out = String::new();
    let mut i: usize = 0;
    assert(bytes@.take(0) =~= Seq::<u8>::empty());
    assert(out@ =~= Seq::<char>::empty());
    while i < bytes.len()
        invariant
            i <= bytes@.len(),
            out@ == hex_bytes(bytes@.take(i as int)),
        decreases bytes@.len() - i,
    {
        let ghost before = out@;
        let pair = hex_digits(bytes[i] as u128, 2);
        proof {
            lemma_hex_len(bytes@[i as int] as nat, 2);
        }
        push_slice(&mut out, &pair, 0, 2);
        i = i + 1;
        assert(bytes@.take(i as int).drop_last() =~= bytes@.take(i - 1));
        assert(pair@.subrange(0, 2) =~= pair@);
    }
    assert(bytes@.take(bytes@.len() as int) =~= bytes@);
    out
}

/// The name of a kind.
pub open spec fn kind_name(kind: OrderIntentKind) -> Seq<char> {
    match kind {
        OrderIntentKind::Entry => "entry"@,
        OrderIntentKind::Exit => "exit"@,
    }
}

/// The name of a side.
pub open spec fn side_name(side: Side) -> Seq<char> {
    match side {
        Side::Bid => "bid"@,
        Side::Ask => "ask"@,
    }
}

/// The name of an action.
pub open spec fn action_name(action: TradeAction) -> Seq<char> {
    match action {
        TradeAction::Buy => "buy"@,
        TradeAction::Sell => "sell"@,
    }
}

fn kind_word(kind: OrderIntentKind) -> (r: &'static str)
    ensures
        r@ == kind_name(kind),
{
    match kind {
        OrderIntentKind::Entry => "entry",
        OrderIntentKind::Exit => "exit",
    }
}

fn side_word(side: Side) -> (r: &'static str)
    ensures
        r@ == side_name(side),
{
    match side {
        Side::Bid => "bid",
        Side::Ask => "ask",
    }
}

fn action_word(action: TradeAction) -> (r: &'static str)
    ensures
        r@ == action_name(action),
{
    match action {
        TradeAction::Buy => "buy",
        TradeAction::Sell => "sell",
    }
}

/// A text in JSON, or null.
pub open spec fn json_text_or_null(text: Option<Seq<char>>) -> Seq<char> {
    match text {
        Some(s) => json_quoted(s),
        None => "null"@,
    }
}

/// A number in JSON, or null.
pub open spec fn json_number_or_null(n: Option<i64>) -> Seq<char> {
    match n {
        Some(n) => decimal_signed(n as int),
        None => "null"@,
    }
}

/// An order in JSON, or null.
pub open spec fn order_json(order: Option<OrderModel>) -> Seq<char> {
    match order {
        None => "null"@,
        Some(o) => "{\"id\":\""@ + id_text(o.id as nat) + "\",\"market\":"@ + json_quoted(o.market)
            + ",\"kind\":\""@ + kind_name(o.kind) + "\",\"side\":\""@ + side_name(o.side)
            + "\",\"limit_price\":"@ + decimal_signed(o.limit_price) + ",\"quantity\":"@ + decimal(
            o.quantity as nat,
        ) + ",\"expected_edge_micros\":"@ + decimal_signed(o.expected_edge_micros)
            + ",\"created_time_ns\":"@ + decimal(o.created_time_ns as nat)
            + ",\"source_message_id\":"@ + json_text_or_null(o.source_message_id)
            + ",\"source_proof_ts\":"@ + json_number_or_null(o.source_proof_ts) + "}"@,
    }
}

/// Writes an order in JSON.
pub fn write_order(order: &Option<OrderIntent>) -> (r: String)
    ensures
        r@ == order_json(order_option(*order)),
{
    let o = match order {
        Some(intent) => intent,
        None => return "null".to_owned(),
    };
    let mut out = "{\"id\":\"".to_owned();
    push_id(&mut out, o.id);
    out.append("\",\"market\":");
    out.append(json_quote(o.market.as_str()).as_str());
    out.append(",\"kind\":\"");
    out.append(kind_word(o.kind));
    out.append("\",\"side\":\"");
    out.append(side_word(o.side));
    out.append("\",\"limit_price\":");
    push_decimal_signed(&mut out, o.limit_price.micros());
    out.append(",\"quantity\":");
    push_decimal(&mut out, o.quantity);
    out.append(",\"expected_edge_micros\":");
    push_decimal_signed(&mut out, o.expected_edge_micros);
    out.append(",\"created_time_ns\":");
    push_decimal(&mut out, o.created_time_ns);
    out.append(",\"source_message_id\":");
    match &o.source_message_id {
        Some(id) => {
            out.append(json_quote(id.as_str()).as_str());
        },
        None => {
            out.append("null");
        },
    }
    out.append(",\"source_proof_ts\":");
    match o.source_proof_ts {
        Some(ts) => {
            push_decimal_signed(&mut out, ts);
        },
        None => {
            out.append("null");
        },
    }
    out.append("}");
    out
}

/// A trade in JSON.
pub open spec fn trade_json(t: TradeModel) -> Seq<char> {
    "{\"order_id\":\""@ + id_text(t.order_id as nat) + "\",\"market\":"@ + json_quoted(t.market)
        + ",\"kind\":\""@ + kind_name(t.kind) + "\",\"action\":\""@ + action_name(t.action)
        + "\",\"timestamp\":\""@ + rfc3339(t.timestamp.seconds, t.timestamp.nanos)
        + "\",\"price\":"@ + decimal_signed(t.price) + ",\"edge_micros\":"@ + decimal_signed(
        t.edge_micros,
    ) + ",\"quantity\":"@ + decimal(t.quantity as nat) + ",\"realized_pnl_micros\":"@
        + decimal_signed(t.realized_pnl_micros) + "}"@
}

/// Writes a trade in JSON.
pub fn write_trade(trade: &TradeEvent) -> (r: String)
    requires
        datable(trade.timestamp),
    ensures
        r@ == trade_json(trade@),
{
    let mut out = "{\"order_id\":\"".to_owned();
    push_id(&mut out, trade.order_id);
    out.append("\",\"market\":");
    out.append(json_quote(trade.market.as_str()).as_str());
    out.append(",\"kind\":\"");
    out.append(kind_word(trade.kind));
    out.append("\",\"action\":\"");
    out.append(action_word(trade.action));
    out.append("\",\"timestamp\":\"");
    out.append(utc_text(trade.timestamp).as_str());
    out.append("\",\"price\":");
    push_decimal_signed(&mut out, trade.price.micros());
    out.append(",\"edge_micros\":");
    push_decimal_signed(&mut out, trade.edge_micros);
    out.append(",\"quantity\":");
    push_decimal(&mut out, trade.quantity);
    out.append(",\"realized_pnl_micros\":");
    push_decimal_signed(&mut out, trade.realized_pnl_micros);
    out.append("}");
    out
}

} // verus!
