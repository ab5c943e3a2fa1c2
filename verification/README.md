# EdgeRunner

A deterministic trading engine for sports prediction markets, written in Verus.

EdgeRunner takes fair probabilities from TxLINE and an order book from Pascal,
decides with a fixed-point strategy behind inline risk gates, and executes on a
simulated venue. Everything it processes is journaled, and a journal can be
replayed through the same engine.

## Layout

- `src/` is the library. What its functions do is stated in contracts over
  mathematical models of the values they work on.
  - `text`, `fixed`, `clock`, `ids`, `encoding`, `json`, `order`, `feeds`: values.
  - `types`, `risk`, `paper`, `strategy`, `account`, `latency`, `engine`: the
    engine, from an event to decisions, fills and trades.
  - `laws`, `accounting`: what holds of the engine as a whole, and what its fills
    add up to.
  - `journal`, `replay`, `recording`: the journal, its replay, and that a replay
    repeats the live run that was recorded.
  - `txline`, `pascal`, `mapping`, `numbers`: what the feeds send, and which of their
    markets belong together.
  - `config`, `session`, `runtime`: the running service.
  - `simulation`: a scripted market.
- `tests/` runs the library on concrete values.
- `app/` is the command line and the service around the library: files, HTTP,
  websockets, timers. It makes no decision of its own.

## What is proved

- The engine never meets an event it cannot process, and after every event its
  position is within its limit and agrees with its cost basis.
- Nothing is executed that the gates did not approve, nor beyond the visible depth,
  nor while the kill switch is set.
- An order is approved exactly when every gate is open and the window of a minute
  holds fewer approvals than the limit.
- Position, cash, fees and profit are what the fills add up to, and what trades
  report as realised over the life of a position is exactly what it earned.
- Two runs over the same events differ at most in identifiers and latencies, and a
  replay of a recorded run comes to the same trades and checksums.
- How an event stream is cut into chunks does not matter.

## What is trusted

Calls into other crates stand in small functions of their own, each with a contract
that says what is relied on: SHA-256 (`sha2`), identifiers (`uuid`), dates
(`chrono`), JSON (`serde_json`), the latency histogram (`hdrhistogram`), and a few
functions of the standard library. Identifiers, latencies and the time of day come
from chance and the clock; the contracts name them and claim nothing of them.
