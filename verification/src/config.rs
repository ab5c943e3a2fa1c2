//! The settings of the service.

use vstd::prelude::*;

use crate::engine::{fresh, Engine, EngineConfig};
use crate::laws::{fresh_engine_is_sound, sound};
use crate::paper::PaperConfig;
use crate::risk::RiskConfig;
use crate::strategy::{costs_fit, DislocationConfig, DislocationTaker, TakerModel};
use crate::types::OrderMode;

verus! {

/// The settings of strategy, gates and simulated venue.
#[derive(Clone, Copy, Debug, PartialEq, Eq, Structural)]
pub struct BackendConfig {
    pub decision_history: usize,
    pub strategy: DislocationConfig,
    pub risk: RiskConfig,
    pub paper: PaperConfig,
}

impl Default for BackendConfig {
    fn default() -> (r: Self)
        ensures
            r == (BackendConfig {
                decision_history: 100,
                strategy: DislocationConfig {
                    latency_haircut_micros: 2_500,
                    taker_fee_rate_micros: 1_000,
                    order_size: 25,
                },
                risk: RiskConfig {
                    max_position: 250,
                    max_notional_micros: 100_000_000,
                    max_orders_per_minute: 60,
                    max_drawdown_micros: 15_000_000,
                    feed_stale_after_ms: 2_500,
                },
                paper: PaperConfig {
                    acknowledgement_delay_ns: 2_000_000,
                    taker_fee_rate_micros: 1_000,
                },
            }),
    {
        BackendConfig {
            decision_history: 100,
            strategy: DislocationConfig::default(),
            risk: RiskConfig::default(),
            paper: PaperConfig::default(),
        }
    }
}

/// The engine's part of the settings. Orders always go to the simulated venue.
pub open spec fn engine_settings(config: BackendConfig) -> EngineConfig {
    EngineConfig {
        mode: OrderMode::Paper,
        risk: config.risk,
        paper: config.paper,
        decision_history: config.decision_history,
    }
}

/// Whether costs and limits can be computed with in 64-bit integers.
pub open spec fn usable(config: BackendConfig) -> bool {
    costs_fit(config.strategy) && config.risk.max_drawdown_micros != i64::MIN
}

impl BackendConfig {
    /// The engine's part of the settings.
    pub fn engine(&self) -> (r: EngineConfig)
        ensures
            r == engine_settings(*self),
    {
        EngineConfig {
            mode: OrderMode::Paper,
            risk: self.risk,
            paper: self.paper,
            decision_history: self.decision_history,
        }
    }

    /// Whether costs and limits can be computed with in 64-bit integers.
    pub fn is_usable(&self) -> (r: bool)
        ensures
            r == usable(*self),
    {
        self.strategy.fits() && self.risk.max_drawdown_micros != i64::MIN
    }

    /// A fresh engine with the dislocation strategy.
    pub fn new_engine(&self) -> (r: Engine<DislocationTaker>)
        requires
            usable(*self),
        ensures
            r.well_formed(),
            r@ == fresh(
                r@.run_id,
                TakerModel { config: self.strategy, last_source_seq: 0, last_venue_seq: 0 },
                engine_settings(*self),
            ),
            sound(r@),
    {
        let r = Engine::new(DislocationTaker::new(self.strategy), self.engine());
        proof {
            fresh_engine_is_sound(
                r@.run_id,
                TakerModel { config: self.strategy, last_source_seq: 0, last_venue_seq: 0 },
                engine_settings(*self),
            );
        }
        r
    }
}

} // verus!
