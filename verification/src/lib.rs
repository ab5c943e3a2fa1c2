//! EdgeRunner: a deterministic trading engine for sports prediction markets.
//!
//! Fair probabilities and an order book come in as normalised events. A
//! fixed-point strategy evaluates them, inline risk gates decide on its order
//! candidates, and a simulated venue executes what was approved. Every quantity
//! is an integer; every rule is stated as a contract over a mathematical model
//! of the value it works on.
//!
//! - `text`, `fixed`, `clock`, `ids`, `encoding`, `json`, `order`: the values
//!   that the rest is made of;
//! - `types`, `risk`, `paper`, `strategy`, `account`, `latency`, `engine`: the
//!   engine;
//! - `laws`, `accounting`: what holds of the engine as a whole and of its parts, and
//!   what its fills add up to;
//! - `journal`, `replay`, `recording`: the journal, its replay, and how the two
//!   belong together;
//! - `txline`, `pascal`, `mapping`, `numbers`: what the two feeds send, and which of
//!   their markets belong together;
//! - `config`, `feeds`, `session`, `runtime`: the running service;
//! - `simulation`: a scripted market.

pub mod account;
pub mod accounting;
pub mod clock;
pub mod config;
pub mod encoding;
pub mod engine;
pub mod feeds;
pub mod fixed;
pub mod ids;
pub mod journal;
pub mod json;
pub mod latency;
pub mod laws;
pub mod mapping;
pub mod numbers;
pub mod order;
pub mod paper;
pub mod pascal;
pub mod recording;
pub mod replay;
pub mod risk;
pub mod runtime;
pub mod session;
pub mod simulation;
pub mod strategy;
pub mod text;
pub mod txline;
pub mod types;

pub use crate::config::BackendConfig;
pub use crate::engine::{Engine, EngineConfig, EngineOutput, EngineSnapshot};
pub use crate::fixed::{Price, PriceError, SCALE};
pub use crate::journal::{
    JournalRecord, MarketDataSource, MarketMapping, TxLineMarketSelection,
};
pub use crate::latency::LatencySnapshot;
pub use crate::paper::{ExecutionVenue, PaperConfig, PaperVenue};
pub use crate::replay::{replay, replay_with_limit, ReplayReport};
pub use crate::risk::{RiskConfig, RiskDecision, RiskEngine};
pub use crate::strategy::{
    DislocationConfig, DislocationTaker, Strategy, StrategyEvaluation,
};
pub use crate::types::{
    DecisionRecord, EventEnvelope, FeedStatus, Fill, MarketEvent, MarketId, MarketState,
    NextOrderRequirement, OrderIntent, OrderIntentKind, OrderMode, PositionLifecycle,
    PositionStatus, RiskCapacitySnapshot, Side, TradeAction, TradeEvent,
};
