//! What the service says: metrics, subscriptions, faults and refusals.

use vstd::prelude::*;

use crate::encoding::json_quoted;
use crate::latency::latency_summary;
use crate::laws::records::{member, members, word};
use crate::pascal::{subscription_message, PascalFault};
use crate::replay::ReplayError;
use crate::runtime::{metrics_text, Runtime, RuntimeModel};
use crate::session::Refusal;
use crate::text::{decimal, decimal_signed};

verus! {

/// A metric as it is exposed: a line with its type, and a line with its value.
pub open spec fn metric(name: Seq<char>, kind: Seq<char>, value: Seq<char>) -> Seq<char> {
    "# TYPE "@ + name + " "@ + kind + "\n"@ + name + " "@ + value + "\n"@
}

/// The metrics are what the engine has counted, what it holds and whether it is killed.
pub open spec fn metrics_of(rt: RuntimeModel) -> Seq<Seq<char>> {
    seq![
        metric(
            "edgerunner_events_total"@,
            "counter"@,
            decimal(rt.engine.processed_events as nat),
        ),
        metric(
            "edgerunner_orders_rejected_total"@,
            "counter"@,
            decimal(rt.engine.trading.rejected_orders as nat),
        ),
        metric(
            "edgerunner_events_ignored_total"@,
            "counter"@,
            decimal(rt.engine.ignored_events as nat),
        ),
        metric(
            "edgerunner_decision_p99_microseconds"@,
            "gauge"@,
            decimal(latency_summary(rt.engine.samples).p99_us as nat),
        ),
        metric(
            "edgerunner_position_contracts"@,
            "gauge"@,
            decimal_signed(rt.engine.trading.state.position),
        ),
        metric(
            "edgerunner_pnl_micros"@,
            "gauge"@,
            decimal_signed(rt.engine.trading.state.pnl_micros),
        ),
        metric(
            "edgerunner_kill_switch"@,
            "gauge"@,
            if rt.killed {
                "1"@
            } else {
                "0"@
            },
        ),
    ]
}

/// Texts one behind the other.
pub open spec fn one_text(all: Seq<Seq<char>>) -> Seq<char>
    decreases all.len(),
{
    if all.len() == 0 {
        Seq::empty()
    } else {
        one_text(all.drop_last()) + all.last()
    }
}

proof fn lemma_metric(
    all: Seq<Seq<char>>,
    text: Seq<char>,
    name: Seq<char>,
    kind: Seq<char>,
    value: Seq<char>,
    between: Seq<char>,
)
    requires
        one_text(all) == text + "\n"@,
        "\n"@ + "# TYPE "@ + name + " "@ + kind + "\n"@ + name + " "@ == between,
    ensures
        one_text(all.push(metric(name, kind, value))) == text + between + value + "\n"@,
{
    let next = all.push(metric(name, kind, value));
    assert(next.drop_last() =~= all);
    let head = "# TYPE "@ + name + " "@ + kind + "\n"@ + name + " "@;
    assert("\n"@ + head =~= between);
    assert(text + "\n"@ + (head + value + "\n"@) =~= text + ("\n"@ + head) + value + "\n"@);
}

/// The metrics expose the events, the rejected orders, the ignored events, the latency, the
/// position, the profit and the kill switch, each with its type.
pub proof fn metrics_expose_the_engine(rt: RuntimeModel)
    ensures
        metrics_text(rt) == one_text(metrics_of(rt)),
{
    reveal_strlit("# TYPE ");
    reveal_strlit("\n");
    reveal_strlit(" ");
    reveal_strlit("counter");
    reveal_strlit("gauge");
    reveal_strlit("edgerunner_events_total");
    reveal_strlit("# TYPE edgerunner_events_total counter\nedgerunner_events_total ");
    reveal_strlit("edgerunner_orders_rejected_total");
    reveal_strlit("\n# TYPE edgerunner_orders_rejected_total counter\nedgerunner_orders_rejected_total ");
    reveal_strlit("edgerunner_events_ignored_total");
    reveal_strlit("\n# TYPE edgerunner_events_ignored_total counter\nedgerunner_events_ignored_total ");
    reveal_strlit("edgerunner_decision_p99_microseconds");
    reveal_strlit("\n# TYPE edgerunner_decision_p99_microseconds gauge\nedgerunner_decision_p99_microseconds ");
    reveal_strlit("edgerunner_position_contracts");
    reveal_strlit("\n# TYPE edgerunner_position_contracts gauge\nedgerunner_position_contracts ");
    reveal_strlit("edgerunner_pnl_micros");
    reveal_strlit("\n# TYPE edgerunner_pnl_micros gauge\nedgerunner_pnl_micros ");
    reveal_strlit("edgerunner_kill_switch");
    reveal_strlit("\n# TYPE edgerunner_kill_switch gauge\nedgerunner_kill_switch ");
    let counter = "counter"@;
    let gauge = "gauge"@;
    let n1 = "edgerunner_events_total"@;
    let v1 = decimal(rt.engine.processed_events as nat);
    let m1 = Seq::<Seq<char>>::empty().push(metric(n1, counter, v1));
    let b1 = "# TYPE edgerunner_events_total counter\nedgerunner_events_total "@;
    let t1 = b1 + v1;
    assert(m1.drop_last() =~= Seq::<Seq<char>>::empty());
    assert("# TYPE "@ + n1 + " "@ + counter + "\n"@ + n1 + " "@ =~= b1);
    assert(one_text(m1.drop_last()) =~= Seq::<char>::empty());
    assert(m1.last() =~= t1 + "\n"@);
    assert(one_text(m1) =~= t1 + "\n"@);
    let n2 = "edgerunner_orders_rejected_total"@;
    let v2 = decimal(rt.engine.trading.rejected_orders as nat);
    let b2 = "\n# TYPE edgerunner_orders_rejected_total counter\nedgerunner_orders_rejected_total "@;
    assert("\n"@ + "# TYPE "@ + n2 + " "@ + counter + "\n"@ + n2 + " "@ =~= b2);
    lemma_metric(m1, t1, n2, counter, v2, b2);
    let m2 = m1.push(metric(n2, counter, v2));
    let t2 = t1 + b2 + v2;
    let n3 = "edgerunner_events_ignored_total"@;
    let v3 = decimal(rt.engine.ignored_events as nat);
    let b3 = "\n# TYPE edgerunner_events_ignored_total counter\nedgerunner_events_ignored_total "@;
    assert("\n"@ + "# TYPE "@ + n3 + " "@ + counter + "\n"@ + n3 + " "@ =~= b3);
    lemma_metric(m2, t2, n3, counter, v3, b3);
    let m3 = m2.push(metric(n3, counter, v3));
    let t3 = t2 + b3 + v3;
    let n4 = "edgerunner_decision_p99_microseconds"@;
    let v4 = decimal(latency_summary(rt.engine.samples).p99_us as nat);
    let b4 = "\n# TYPE edgerunner_decision_p99_microseconds gauge\nedgerunner_decision_p99_microseconds "@;
    assert("\n"@ + "# TYPE "@ + n4 + " "@ + gauge + "\n"@ + n4 + " "@ =~= b4);
    lemma_metric(m3, t3, n4, gauge, v4, b4);
    let m4 = m3.push(metric(n4, gauge, v4));
    let t4 = t3 + b4 + v4;
    let n5 = "edgerunner_position_contracts"@;
    let v5 = decimal_signed(rt.engine.trading.state.position);
    let b5 = "\n# TYPE edgerunner_position_contracts gauge\nedgerunner_position_contracts "@;
    assert("\n"@ + "# TYPE "@ + n5 + " "@ + gauge + "\n"@ + n5 + " "@ =~= b5);
    lemma_metric(m4, t4, n5, gauge, v5, b5);
    let m5 = m4.push(metric(n5, gauge, v5));
    let t5 = t4 + b5 + v5;
    let n6 = "edgerunner_pnl_micros"@;
    let v6 = decimal_signed(rt.engine.trading.state.pnl_micros);
    let b6 = "\n# TYPE edgerunner_pnl_micros gauge\nedgerunner_pnl_micros "@;
    assert("\n"@ + "# TYPE "@ + n6 + " "@ + gauge + "\n"@ + n6 + " "@ =~= b6);
    lemma_metric(m5, t5, n6, gauge, v6, b6);
    let m6 = m5.push(metric(n6, gauge, v6));
    let t6 = t5 + b6 + v6;
    let n7 = "edgerunner_kill_switch"@;
    let v7 = if rt.killed {
        "1"@
    } else {
        "0"@
    };
    let b7 = "\n# TYPE edgerunner_kill_switch gauge\nedgerunner_kill_switch "@;
    assert("\n"@ + "# TYPE "@ + n7 + " "@ + gauge + "\n"@ + n7 + " "@ =~= b7);
    lemma_metric(m6, t6, n7, gauge, v7, b7);
    let m7 = m6.push(metric(n7, gauge, v7));
    let t7 = t6 + b7 + v7;
    assert(m7 =~= metrics_of(rt));
}

/// The metrics that the service answers with are those of its engine.
pub proof fn answered_metrics_expose_the_engine(runtime: &Runtime, text: String)
    requires
        call_ensures(Runtime::metrics, (runtime,), text),
    ensures
        text@ == one_text(metrics_of(runtime@)),
{
    metrics_expose_the_engine(runtime@);
}

/// A subscription asks for one channel, the book of the symbol.
pub proof fn subscriptions_ask_for_the_book(symbol: &str, text: String)
    requires
        call_ensures(subscription_message, (symbol,), text),
    ensures
        ({
            let channel = members(
                seq![member("channel"@, word("book"@)), member("symbol"@, json_quoted(symbol@))],
            ) + "}"@;
            text@ == members(
                seq![
                    member("channels"@, "["@ + channel + "]"@),
                    member("type"@, word("subscribe"@)),
                ],
            ) + "}"@
        }),
{
    reveal_with_fuel(members, 3);
    reveal_strlit("{\"channels\":[{\"channel\":\"book\",\"symbol\":");
    reveal_strlit("}],\"type\":\"subscribe\"}");
    reveal_strlit("channel");
    reveal_strlit("channels");
    reveal_strlit("book");
    reveal_strlit("symbol");
    reveal_strlit("type");
    reveal_strlit("subscribe");
    reveal_strlit("\"");
    reveal_strlit("\":");
    reveal_strlit("{");
    reveal_strlit("}");
    reveal_strlit("[");
    reveal_strlit("]");
    reveal_strlit(",");
    let q = json_quoted(symbol@);
    let inner = seq![member("channel"@, word("book"@)), member("symbol"@, q)];
    assert(inner.drop_last() =~= seq![inner[0]]);
    let channel = members(inner) + "}"@;
    let outer = seq![
        member("channels"@, "["@ + channel + "]"@),
        member("type"@, word("subscribe"@)),
    ];
    assert(outer.drop_last() =~= seq![outer[0]]);
    let head = "{\"channels\":[{\"channel\":\"book\",\"symbol\":"@;
    let tail = "}],\"type\":\"subscribe\"}"@;
    let before = "{"@ + "\""@ + "channels"@ + "\":"@ + "["@ + "{"@ + "\""@ + "channel"@ + "\":"@
        + "\""@ + "book"@ + "\""@ + ","@ + "\""@ + "symbol"@ + "\":"@;
    let behind = "}"@ + "]"@ + ","@ + "\""@ + "type"@ + "\":"@ + "\""@ + "subscribe"@ + "\""@
        + "}"@;
    assert(before =~= head);
    assert(behind =~= tail);
    assert(members(outer) + "}"@ =~= before + q + behind);
}

/// What an operator is told of a fault of the venue: what is missing or wrong, and of a
/// refused subscription what the venue says.
pub proof fn faults_of_the_venue_are_told(fault: &PascalFault, text: String)
    requires
        call_ensures(PascalFault::message, (fault,), text),
    ensures
        fault matches PascalFault::Subscription { message } ==> text@
            == "Pascal subscription failed: "@ + message@,
        fault is NotJson ==> text@ == "invalid Pascal JSON"@,
        fault is MissingData ==> text@ == "Pascal book message missing data"@,
        fault is NotAWebSocket ==> text@ == "Pascal websocket URL must use ws:// or wss://"@,
        fault is MissingHost ==> text@ == "Pascal websocket URL is missing a host"@,
        fault is MissingMarkets ==> text@ == "Pascal market response missing data array"@,
{
}

/// What an operator is told of a journal that cannot be replayed: the number of the line at
/// fault, where there is one, and what is wrong with it.
pub proof fn faults_of_journals_are_told(error: &ReplayError, text: String)
    requires
        call_ensures(ReplayError::message, (error,), text),
    ensures
        error matches ReplayError::Unreadable { line } ==> text@ == "journal line "@ + decimal(
            line as nat,
        ) + " is not a journal record"@,
        error matches ReplayError::InvalidMapping { line } ==> text@ == "journal line "@ + decimal(
            line as nat,
        ) + " has an invalid market mapping: required mapping fields are empty"@,
        error matches ReplayError::EventBeforeMapping { line } ==> text@ == "journal line "@
            + decimal(line as nat) + " has a market event before its recorded mapping"@,
        error matches ReplayError::InvalidEvent { line, fault } ==> {
            let said = "journal line "@ + decimal(line as nat)
                + " is not a recorded TxLINE/Pascal event: "@;
            &&& fault is UnsupportedEvent ==> text@ == said
                + "recorded data source has an unsupported market event"@
            &&& fault is OtherMarket ==> text@ == said
                + "event market does not match the recorded mapping"@
            &&& fault is MissingProvenance ==> text@ == said
                + "TxLINE fair value is missing message provenance"@
            &&& fault is NotAFairValue ==> text@ == said
                + "TxLINE source has a non-fair-value event"@
            &&& fault is NotABook ==> text@ == said
                + "Pascal source has a non-order-book event"@
        },
        error is NoEvents ==> text@ == "journal contains no recorded market events"@,
        error is NoMapping ==> text@ == "journal contains no recorded market mapping"@,
        error is MissingFeed ==> text@
            == "journal must contain both TxLINE fair-value and Pascal order-book events"@,
{
}

/// What is said with a refusal: what was wrong with the request, or why it cannot be
/// granted now.
pub proof fn refusals_are_told(refusal: &Refusal, text: &str)
    requires
        call_ensures(Refusal::message, (refusal,), text),
    ensures
        refusal is TokenRejected ==> text@ == "control token rejected"@,
        refusal is SpeedOutOfRange ==> text@ == "replay speed must be between 0.25x and 20x"@,
        refusal is NotReplaying ==> text@ == "replay controls are available only in replay mode"@,
        refusal is ReplayUnavailable ==> text@
            == "replay is unavailable for the selected journal"@,
        refusal is ReplayGone ==> text@ == "replay worker is no longer running"@,
        refusal is MainnetUnconfigured ==> text@ == "mainnet live feeds are not configured"@,
        refusal is StillDiscovering ==> text@ == "market mapping discovery is still in progress"@,
        refusal is TokenMissing ==> text@ == "live feeds require TXLINE_API_TOKEN"@,
        refusal is FeedUnavailable ==> text@ == "discovered live feed is unavailable"@,
{
}

} // verus!
