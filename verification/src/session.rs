//! The operator's session: which feeds run, what a request may do, and what is
//! answered.

use vstd::prelude::*;

use crate::feeds::FeedStatusMap;
use crate::journal::{
    has_provenance, is_blank, line_models, JournalLine, JournalRecord, LineModel, MarketDataSource,
};
use crate::mapping::ResolvedLiveFeed;
use crate::order::{in_order, lemma_placed};
use crate::pascal::PascalConfig;
use crate::text::same_text;
use crate::txline::TxLineConfig;
use crate::types::{EnvelopeModel, EventEnvelope, EventModel, FeedStatus, MarketEvent};

verus! {

/// Whether the live feeds run.
#[derive(Clone, Copy, Debug, PartialEq, Eq, Structural)]
pub enum FeedMode {
    Inactive,
    Live,
}

/// The environment that the operator works in.
#[derive(Clone, Copy, Debug, PartialEq, Eq, Structural)]
pub enum Environment {
    Devnet,
    Mainnet,
}

/// Whether live or recorded events are processed.
#[derive(Clone, Copy, Debug, PartialEq, Eq, Structural)]
pub enum RunMode {
    Live,
    Replay,
}

/// Where a replay stands.
#[derive(Clone, Copy, Debug, PartialEq, Eq, Structural)]
pub enum ReplayStatus {
    Paused,
    Playing,
    Complete,
    Unavailable,
}

/// Whether a market mapping is known.
#[derive(Clone, Copy, Debug, PartialEq, Eq, Structural)]
pub enum MappingStatus {
    Unavailable,
    Discovering,
    Ready,
}

/// How orders are executed.
#[derive(Clone, Copy, Debug, PartialEq, Eq, Structural)]
pub enum ExecutionMode {
    Simulated,
}

/// The bits of one quarter as a 64-bit floating-point number.
pub const SLOWEST_SPEED_BITS: u64 = 0x3fd0_0000_0000_0000;

/// The bits of one as a 64-bit floating-point number.
pub const NORMAL_SPEED_BITS: u64 = 0x3ff0_0000_0000_0000;

/// The bits of twenty as a 64-bit floating-point number.
pub const FASTEST_SPEED_BITS: u64 = 0x4034_0000_0000_0000;

/// The speed of a replay, from a quarter to twenty times that of the recording.
///
/// It is held as the bits of a 64-bit floating-point number. For numbers that
/// are not negative the order of the bits is the order of the numbers, and the
/// bits of negative numbers, infinities and what is no number are all larger.
#[derive(Clone, Copy, Debug, PartialEq, Eq, Structural)]
pub struct ReplaySpeed {
    bits: u64,
}

/// Whether some bits are those of a speed that a replay can have.
pub open spec fn speed_allowed(bits: u64) -> bool {
    SLOWEST_SPEED_BITS <= bits <= FASTEST_SPEED_BITS
}

impl View for ReplaySpeed {
    type V = u64;

    closed spec fn view(&self) -> u64 {
        self.bits
    }
}

impl ReplaySpeed {
    #[verifier::type_invariant]
    spec fn in_range(self) -> bool {
        speed_allowed(self.bits)
    }

    /// The speed of the recording.
    pub fn normal() -> (r: Self)
        ensures
            r@ == NORMAL_SPEED_BITS,
    {
        ReplaySpeed { bits: NORMAL_SPEED_BITS }
    }

    /// The speed with the given bits, if a replay can have it.
    pub fn from_bits(bits: u64) -> (r: Option<Self>)
        ensures
            match r {
                Some(speed) => speed_allowed(bits) && speed@ == bits,
                None => !speed_allowed(bits),
            },
    {
        if SLOWEST_SPEED_BITS <= bits && bits <= FASTEST_SPEED_BITS {
            Some(ReplaySpeed { bits })
        } else {
            None
        }
    }

    /// The bits of the speed.
    pub fn to_bits(self) -> (r: u64)
        ensures
            r == self@,
            speed_allowed(r),
    {
        proof {
            use_type_invariant(&self);
        }
        self.bits
    }
}

/// The shortest pause between two replayed events, in nanoseconds.
pub const SHORTEST_PAUSE_NS: u64 = 20_000_000;

/// The longest pause between two replayed events, in nanoseconds.
pub const LONGEST_PAUSE_NS: u64 = 2_000_000_000;

/// The time between an event and the one before it, where there was one.
pub open spec fn recorded_gap(previous: Option<u64>, current: u64) -> Option<int> {
    match previous {
        None => None,
        Some(p) => Some(
            if current >= p {
                current - p
            } else {
                0
            },
        ),
    }
}

/// The time between an event and the one before it, where there was one.
pub fn replay_gap(previous_time_ns: Option<u64>, current_time_ns: u64) -> (r: Option<u64>)
    ensures
        match r {
            Some(gap) => recorded_gap(previous_time_ns, current_time_ns) == Some(gap as int),
            None => recorded_gap(previous_time_ns, current_time_ns) is None,
        },
{
    match previous_time_ns {
        None => None,
        Some(previous) => Some(current_time_ns.saturating_sub(previous)),
    }
}

/// A pause held between the shortest and the longest.
pub fn bounded_pause(scaled_ns: u64) -> (r: u64)
    ensures
        r == if scaled_ns < SHORTEST_PAUSE_NS {
            SHORTEST_PAUSE_NS
        } else if scaled_ns > LONGEST_PAUSE_NS {
            LONGEST_PAUSE_NS
        } else {
            scaled_ns
        },
{
    if scaled_ns < SHORTEST_PAUSE_NS {
        SHORTEST_PAUSE_NS
    } else if scaled_ns > LONGEST_PAUSE_NS {
        LONGEST_PAUSE_NS
    } else {
        scaled_ns
    }
}

/// What an operator asks of a replay.
#[derive(Clone, Copy, Debug, PartialEq, Eq, Structural)]
pub enum ReplayCommandRequest {
    Play,
    Pause,
    Reset,
    SetSpeed { speed_bits: u64 },
    Seek { event_index: usize },
}

/// What a replay is told.
#[derive(Clone, Copy, Debug, PartialEq, Eq, Structural)]
pub enum ReplayCommand {
    Play,
    Pause,
    Reset,
    SetSpeed(ReplaySpeed),
    Seek(usize),
}

/// Why a request is refused.
#[derive(Clone, Copy, Debug, PartialEq, Eq, Structural)]
pub enum Refusal {
    /// The control token is missing or wrong.
    TokenRejected,
    /// A replay cannot have the speed.
    SpeedOutOfRange,
    /// The session is not a replay.
    NotReplaying,
    /// There is nothing to replay.
    ReplayUnavailable,
    /// The replay has ended.
    ReplayGone,
    /// Live feeds of the main network are not configured.
    MainnetUnconfigured,
    /// The mapping is still being looked for.
    StillDiscovering,
    /// There is no API token.
    TokenMissing,
    /// The mapping that was found cannot be used.
    FeedUnavailable,
}

/// The HTTP status of a refusal.
pub open spec fn refusal_status(refusal: Refusal) -> u16 {
    match refusal {
        Refusal::TokenRejected => 401,
        Refusal::SpeedOutOfRange => 400,
        _ => 409,
    }
}

/// The text of a refusal.
pub open spec fn refusal_text(refusal: Refusal) -> Seq<char> {
    match refusal {
        Refusal::TokenRejected => "control token rejected"@,
        Refusal::SpeedOutOfRange => "replay speed must be between 0.25x and 20x"@,
        Refusal::NotReplaying => "replay controls are available only in replay mode"@,
        Refusal::ReplayUnavailable => "replay is unavailable for the selected journal"@,
        Refusal::ReplayGone => "replay worker is no longer running"@,
        Refusal::MainnetUnconfigured => "mainnet live feeds are not configured"@,
        Refusal::StillDiscovering => "market mapping discovery is still in progress"@,
        Refusal::TokenMissing => "live feeds require TXLINE_API_TOKEN"@,
        Refusal::FeedUnavailable => "discovered live feed is unavailable"@,
    }
}

impl Refusal {
    /// The HTTP status of the refusal.
    pub fn status(&self) -> (r: u16)
        ensures
            r == refusal_status(*self),
    {
        match self {
            Refusal::TokenRejected => 401,
            Refusal::SpeedOutOfRange => 400,
            _ => 409,
        }
    }

    /// The text of the refusal.
    pub fn message(&self) -> (r: &'static str)
        ensures
            r@ == refusal_text(*self),
    {
        match self {
            Refusal::TokenRejected => "control token rejected",
            Refusal::SpeedOutOfRange => "replay speed must be between 0.25x and 20x",
            Refusal::NotReplaying => "replay controls are available only in replay mode",
            Refusal::ReplayUnavailable => "replay is unavailable for the selected journal",
            Refusal::ReplayGone => "replay worker is no longer running",
            Refusal::MainnetUnconfigured => "mainnet live feeds are not configured",
            Refusal::StillDiscovering => "market mapping discovery is still in progress",
            Refusal::TokenMissing => "live feeds require TXLINE_API_TOKEN",
            Refusal::FeedUnavailable => "discovered live feed is unavailable",
        }
    }
}

/// Whether a request carries the control token.
pub fn authorized(given: Option<&str>, control_token: &str) -> (r: bool)
    ensures
        r == match given {
            Some(token) => token@ == control_token@,
            None => false,
        },
{
    match given {
        Some(token) => same_text(token, control_token),
        None => false,
    }
}

/// The control token: the configured one, or a well-known one where none is
/// configured and only this machine can connect.
pub fn resolve_control_token(is_loopback: bool, configured: Option<String>) -> (r: Option<String>)
    ensures
        match configured {
            Some(token) => r is Some && r->0@ == token@,
            None => if is_loopback {
                r is Some && r->0@ == "local-demo"@
            } else {
                r is None
            },
        },
{
    match configured {
        Some(token) => Some(token),
        None => if is_loopback {
            Some("local-demo".to_owned())
        } else {
            None
        },
    }
}

/// The command that a request asks for.
pub open spec fn command_of(request: ReplayCommandRequest, command: ReplayCommand) -> bool {
    match (request, command) {
        (ReplayCommandRequest::Play, ReplayCommand::Play) => true,
        (ReplayCommandRequest::Pause, ReplayCommand::Pause) => true,
        (ReplayCommandRequest::Reset, ReplayCommand::Reset) => true,
        (ReplayCommandRequest::SetSpeed { speed_bits }, ReplayCommand::SetSpeed(speed)) => speed@
            == speed_bits,
        (ReplayCommandRequest::Seek { event_index }, ReplayCommand::Seek(index)) => event_index
            == index,
        _ => false,
    }
}

/// Why a replay request is refused, if it is. The token is looked at first, then
/// the speed, then the session.
pub open spec fn replay_refusal(
    is_authorized: bool,
    request: ReplayCommandRequest,
    run_mode: RunMode,
    available: bool,
) -> Option<Refusal> {
    if !is_authorized {
        Some(Refusal::TokenRejected)
    } else if request matches ReplayCommandRequest::SetSpeed { speed_bits } && !speed_allowed(
        speed_bits,
    ) {
        Some(Refusal::SpeedOutOfRange)
    } else if run_mode != RunMode::Replay {
        Some(Refusal::NotReplaying)
    } else if !available {
        Some(Refusal::ReplayUnavailable)
    } else {
        None
    }
}

/// Turns a replay request into a command, or refuses it.
pub fn replay_command(
    is_authorized: bool,
    request: ReplayCommandRequest,
    run_mode: RunMode,
    available: bool,
) -> (r: Result<ReplayCommand, Refusal>)
    ensures
        match replay_refusal(is_authorized, request, run_mode, available) {
            Some(refusal) => r == Err::<ReplayCommand, Refusal>(refusal),
            None => r is Ok && command_of(request, r->Ok_0),
        },
{
    if !is_authorized {
        return Err(Refusal::TokenRejected);
    }
    let command = match request {
        ReplayCommandRequest::Play => ReplayCommand::Play,
        ReplayCommandRequest::Pause => ReplayCommand::Pause,
        ReplayCommandRequest::Reset => ReplayCommand::Reset,
        ReplayCommandRequest::SetSpeed { speed_bits } => match ReplaySpeed::from_bits(speed_bits) {
            Some(speed) => ReplayCommand::SetSpeed(speed),
            None => return Err(Refusal::SpeedOutOfRange),
        },
        ReplayCommandRequest::Seek { event_index } => ReplayCommand::Seek(event_index),
    };
    if run_mode != RunMode::Replay {
        return Err(Refusal::NotReplaying);
    }
    if !available {
        return Err(Refusal::ReplayUnavailable);
    }
    Ok(command)
}

/// The feeds that the session runs.
pub struct FeedController {
    pub mode: FeedMode,
    pub environment: Environment,
    pub run_mode: RunMode,
    pub live: Option<ResolvedLiveFeed>,
    pub discovery: MappingStatus,
    /// Whether a replay is running.
    pub replaying: bool,
}

/// What is to be started after a switch.
#[derive(Clone, Copy, Debug, PartialEq, Eq, Structural)]
pub enum StartAction {
    Nothing,
    LiveFeeds,
    Replay,
}

/// What to do about a request to switch the feeds.
#[derive(Clone, Copy, Debug, PartialEq, Eq, Structural)]
pub enum FeedSwitch {
    /// The feeds are in the wanted mode.
    Keep,
    /// The feeds are to be stopped, and started again where they are to be live.
    Switch,
}

/// The state of the feeds, as it is answered.
#[derive(Clone, Copy, Debug, PartialEq, Eq, Structural)]
pub struct FeedModeState {
    pub mode: FeedMode,
    pub live_available: bool,
    pub mapping_status: MappingStatus,
}

impl FeedController {
    /// A session on the development network without feeds.
    pub fn new(discovering: bool) -> (r: Self)
        ensures
            r == (FeedController {
                mode: FeedMode::Inactive,
                environment: Environment::Devnet,
                run_mode: RunMode::Live,
                live: None,
                discovery: if discovering {
                    MappingStatus::Discovering
                } else {
                    MappingStatus::Unavailable
                },
                replaying: false,
            }),
    {
        FeedController {
            mode: FeedMode::Inactive,
            environment: Environment::Devnet,
            run_mode: RunMode::Live,
            live: None,
            discovery: if discovering {
                MappingStatus::Discovering
            } else {
                MappingStatus::Unavailable
            },
            replaying: false,
        }
    }

    /// The state of the feeds.
    pub fn feed_mode_state(&self) -> (r: FeedModeState)
        ensures
            r == (FeedModeState {
                mode: self.mode,
                live_available: self.live is Some,
                mapping_status: self.discovery,
            }),
    {
        FeedModeState {
            mode: self.mode,
            live_available: self.live.is_some(),
            mapping_status: self.discovery,
        }
    }

    /// The state of the feeds after a switch to the given mode.
    pub fn switched_state(&self, mode: FeedMode) -> (r: FeedModeState)
        ensures
            r == (FeedModeState {
                mode,
                live_available: self.environment == Environment::Devnet && self.live is Some,
                mapping_status: self.discovery,
            }),
    {
        FeedModeState {
            mode,
            live_available: self.environment == Environment::Devnet && self.live.is_some(),
            mapping_status: self.discovery,
        }
    }

    /// Decides on a request to switch the feeds. Live feeds are refused on the main
    /// network and while no mapping is known.
    pub fn plan_feed_switch(&self, mode: FeedMode) -> (r: Result<FeedSwitch, Refusal>)
        ensures
            r == if self.mode == mode {
                Ok::<FeedSwitch, Refusal>(FeedSwitch::Keep)
            } else if mode == FeedMode::Inactive {
                Ok::<FeedSwitch, Refusal>(FeedSwitch::Switch)
            } else if self.environment == Environment::Mainnet {
                Err::<FeedSwitch, Refusal>(Refusal::MainnetUnconfigured)
            } else if self.live is Some {
                Ok::<FeedSwitch, Refusal>(FeedSwitch::Switch)
            } else {
                Err::<FeedSwitch, Refusal>(
                    match self.discovery {
                        MappingStatus::Discovering => Refusal::StillDiscovering,
                        MappingStatus::Unavailable => Refusal::TokenMissing,
                        MappingStatus::Ready => Refusal::FeedUnavailable,
                    },
                )
            },
    {
        if self.mode == mode {
            return Ok(FeedSwitch::Keep);
        }
        if mode == FeedMode::Inactive {
            return Ok(FeedSwitch::Switch);
        }
        if self.environment == Environment::Mainnet {
            return Err(Refusal::MainnetUnconfigured);
        }
        if self.live.is_some() {
            return Ok(FeedSwitch::Switch);
        }
        Err(
            match self.discovery {
                MappingStatus::Discovering => Refusal::StillDiscovering,
                MappingStatus::Unavailable => Refusal::TokenMissing,
                MappingStatus::Ready => Refusal::FeedUnavailable,
            },
        )
    }

    /// Leaves a replay for a switch of the feeds.
    pub fn begin_feed_switch(&mut self)
        ensures
            *final(self) == (FeedController {
                run_mode: RunMode::Live,
                replaying: false,
                ..*old(self)
            }),
    {
        self.run_mode = RunMode::Live;
        self.replaying = false;
    }

    /// Notes the mode that the feeds were brought into.
    pub fn finish_feed_switch(&mut self, mode: FeedMode)
        ensures
            *final(self) == (FeedController { mode, ..*old(self) }),
    {
        self.mode = mode;
    }

    /// Switches the session, and says what is to be started. Feeds stop; live
    /// feeds start again only on the development network, with a known mapping.
    pub fn begin_session(&mut self, environment: Environment, run_mode: RunMode) -> (r: StartAction)
        ensures
            *final(self) == (FeedController {
                mode: FeedMode::Inactive,
                environment,
                run_mode,
                replaying: run_mode == RunMode::Replay,
                ..*old(self)
            }),
            r == if run_mode == RunMode::Replay {
                StartAction::Replay
            } else if environment == Environment::Devnet && old(self).live is Some {
                StartAction::LiveFeeds
            } else {
                StartAction::Nothing
            },
    {
        self.environment = environment;
        self.run_mode = run_mode;
        self.mode = FeedMode::Inactive;
        self.replaying = run_mode == RunMode::Replay;
        match run_mode {
            RunMode::Replay => StartAction::Replay,
            RunMode::Live => if environment == Environment::Devnet && self.live.is_some() {
                StartAction::LiveFeeds
            } else {
                StartAction::Nothing
            },
        }
    }

    /// Whether a mapping that was found is news.
    pub fn wants_mapping(&self) -> (r: bool)
        ensures
            r == (self.live is None),
    {
        self.live.is_none()
    }

    /// Takes a mapping that was found, and says what is to be started: the live
    /// feeds, unless the session is not a live one on the development network.
    pub fn accept_mapping(&mut self, live: ResolvedLiveFeed) -> (r: StartAction)
        ensures
            *final(self) == (FeedController {
                live: Some(live),
                discovery: MappingStatus::Ready,
                ..*old(self)
            }),
            r == if old(self).environment == Environment::Devnet && old(self).run_mode
                == RunMode::Live {
                StartAction::LiveFeeds
            } else {
                StartAction::Nothing
            },
    {
        self.live = Some(live);
        self.discovery = MappingStatus::Ready;
        if self.environment == Environment::Devnet && self.run_mode == RunMode::Live {
            StartAction::LiveFeeds
        } else {
            StartAction::Nothing
        }
    }
}

/// The environment and the run mode that a request leaves the session in.
pub fn requested_session(
    current_environment: Environment,
    current_run_mode: RunMode,
    environment: Option<Environment>,
    run_mode: Option<RunMode>,
) -> (r: (Environment, RunMode))
    ensures
        r.0 == match environment {
            Some(e) => e,
            None => current_environment,
        },
        r.1 == match run_mode {
            Some(m) => m,
            None => current_run_mode,
        },
{
    (
        match environment {
            Some(e) => e,
            None => current_environment,
        },
        match run_mode {
            Some(m) => m,
            None => current_run_mode,
        },
    )
}

/// The state of the feeds in a mode: none is shown as live before it has sent
/// anything.
pub open spec fn initial_status(mode: FeedMode) -> FeedStatus {
    match mode {
        FeedMode::Inactive => FeedStatus::Disconnected,
        FeedMode::Live => FeedStatus::Connecting,
    }
}

/// The states of the two feeds in a mode.
pub open spec fn initial_statuses(mode: FeedMode) -> Map<Seq<char>, FeedStatus> {
    Map::<Seq<char>, FeedStatus>::empty().insert("txline"@, initial_status(mode)).insert(
        "pascal"@,
        initial_status(mode),
    )
}

/// The states of the two feeds in a mode.
pub fn feed_status_for(mode: FeedMode) -> (r: FeedStatusMap)
    ensures
        r@ == initial_statuses(mode),
{
    let status = match mode {
        FeedMode::Inactive => FeedStatus::Disconnected,
        FeedMode::Live => FeedStatus::Connecting,
    };
    let mut map = FeedStatusMap::new();
    map.insert("txline".to_owned(), status);
    map.insert("pascal".to_owned(), status);
    map
}

/// No feed begins as live, in either mode; inactive feeds are disconnected.
pub proof fn feeds_do_not_begin_live(mode: FeedMode, name: Seq<char>)
    requires
        initial_statuses(mode).contains_key(name),
    ensures
        initial_statuses(mode)[name] != FeedStatus::Live,
        mode == FeedMode::Inactive ==> initial_statuses(mode)[name] == FeedStatus::Disconnected,
{
}

/// The TxLINE side of a resolved feed.
pub fn txline_config(live: &ResolvedLiveFeed) -> (r: TxLineConfig)
    ensures
        r.origin@ == live@.txline_origin,
        r.api_token@ == live@.api_token,
        r.market@ == live@.mapping.market,
        r.fixture_id == live@.mapping.fixture_id,
        r.selection@ == live@.mapping.txline_selection,
{
    TxLineConfig {
        origin: live.txline_origin.clone(),
        api_token: live.api_token.clone(),
        market: live.mapping.market.clone(),
        fixture_id: live.mapping.fixture_id,
        selection: live.mapping.txline_selection.clone(),
    }
}

/// The Pascal side of a resolved feed.
pub fn pascal_config(live: &ResolvedLiveFeed) -> (r: PascalConfig)
    ensures
        r.ws_url@ == live@.pascal_ws,
        r.symbol@ == live@.mapping.pascal_symbol,
        r.market@ == live@.mapping.market,
{
    PascalConfig {
        ws_url: live.pascal_ws.clone(),
        symbol: live.mapping.pascal_symbol.clone(),
        market: live.mapping.market.clone(),
    }
}

/// How long to wait before the next attempt, in seconds. The wait doubles up to a
/// limit.
#[derive(Clone, Copy, Debug, PartialEq, Eq, Structural)]
pub struct Backoff {
    pub seconds: u64,
    pub limit: u64,
}

impl Backoff {
    /// The waits of a feed that reconnects.
    pub fn feed() -> (r: Self)
        ensures
            r == (Backoff { seconds: 1, limit: 30 }),
    {
        Backoff { seconds: 1, limit: 30 }
    }

    /// The waits of discovery.
    pub fn discovery() -> (r: Self)
        ensures
            r == (Backoff { seconds: 5, limit: 60 }),
    {
        Backoff { seconds: 5, limit: 60 }
    }

    /// The wait at hand. The next one is twice as long, within the limit.
    pub fn next(&mut self) -> (r: u64)
        requires
            old(self).seconds <= old(self).limit,
            old(self).limit <= u64::MAX / 2,
        ensures
            r == old(self).seconds,
            final(self).limit == old(self).limit,
            final(self).seconds == if old(self).seconds * 2 <= old(self).limit {
                old(self).seconds * 2
            } else {
                old(self).limit as int
            },
            final(self).seconds <= final(self).limit,
    {
        let now: u64 = self.seconds;
        let doubled: u64 = now * 2;
        self.seconds = if doubled <= self.limit {
            doubled
        } else {
            self.limit
        };
        now
    }
}

/// How long to wait before an attempt to fetch a proof, in seconds, while there
/// is one left. The first attempt is made at once.
pub open spec fn proof_wait(attempt: int) -> Option<u64> {
    if attempt == 0 {
        Some(0)
    } else if attempt == 1 {
        Some(15)
    } else if attempt == 2 {
        Some(30)
    } else if attempt == 3 {
        Some(60)
    } else if attempt == 4 {
        Some(120)
    } else if attempt == 5 {
        Some(240)
    } else {
        None
    }
}

/// How long to wait before an attempt to fetch a proof.
pub fn proof_delay(attempt: usize) -> (r: Option<u64>)
    ensures
        r == proof_wait(attempt as int),
{
    if attempt == 0 {
        Some(0)
    } else if attempt == 1 {
        Some(15)
    } else if attempt == 2 {
        Some(30)
    } else if attempt == 3 {
        Some(60)
    } else if attempt == 4 {
        Some(120)
    } else if attempt == 5 {
        Some(240)
    } else {
        None
    }
}

/// Whether a recorded event can be replayed: a fair value of TxLINE with its
/// provenance, or a book of Pascal.
pub open spec fn replays(source: MarketDataSource, event: EventModel) -> bool {
    match source {
        MarketDataSource::Txline => has_provenance(event),
        MarketDataSource::Pascal => event is Book,
    }
}

/// The events among some lines that can be replayed.
pub open spec fn replay_events(lines: Seq<LineModel>) -> Seq<EnvelopeModel>
    decreases lines.len(),
{
    if lines.len() == 0 {
        Seq::empty()
    } else {
        let before = replay_events(lines.drop_last());
        match lines.last() {
            LineModel::Event { source, event } => if replays(source, event.event) {
                before.push(event)
            } else {
                before
            },
            _ => before,
        }
    }
}

/// The models of some events.
pub open spec fn envelope_models(s: Seq<EventEnvelope>) -> Seq<EnvelopeModel> {
    Seq::new(s.len(), |i: int| s[i]@)
}

/// The number of the first line that is no record, counted from one.
pub open spec fn first_unreadable(lines: Seq<LineModel>, from: int) -> Option<int>
    decreases lines.len() - from,
{
    if from < 0 || from >= lines.len() {
        None
    } else if lines[from] is Unreadable {
        Some(from + 1)
    } else {
        first_unreadable(lines, from + 1)
    }
}

fn can_replay(source: MarketDataSource, event: &EventEnvelope) -> (r: bool)
    ensures
        r == replays(source, event@.event),
{
    match (source, &event.event) {
        (
            MarketDataSource::Txline,
            MarketEvent::FairValue { message_id: Some(message_id), proof_ts: Some(_), .. },
        ) => !is_blank(message_id.as_str()),
        (MarketDataSource::Pascal, MarketEvent::Book { .. }) => true,
        _ => false,
    }
}

/// Collects the events of a journal that can be replayed. A line that is no
/// record is an error, given by its number.
pub fn load_replay_events(lines: &Vec<JournalLine>) -> (r: Result<Vec<EventEnvelope>, usize>)
    ensures
        match first_unreadable(line_models(lines@), 0) {
            Some(number) => r is Err && r->Err_0 == number,
            None => r is Ok && envelope_models(r->Ok_0@) == replay_events(line_models(lines@)),
        },
{
    let ghost models = line_models(lines@);
    let mut events: Vec<EventEnvelope> = Vec::new();
    let mut i: usize = 0;
    assert(models.take(0) =~= Seq::<LineModel>::empty());
    assert(envelope_models(events@) =~= Seq::<EnvelopeModel>::empty());
    while i < lines.len()
        invariant
            i <= lines@.len(),
            models == line_models(lines@),
            first_unreadable(models, 0) == first_unreadable(models, i as int),
            envelope_models(events@) == replay_events(models.take(i as int)),
        decreases lines@.len() - i,
    {
        let ghost before = events@;
        proof {
            assert(models.take(i + 1).drop_last() =~= models.take(i as int));
            assert(models.take(i + 1).last() == lines@[i as int]@);
            assert(models[i as int] == lines@[i as int]@);
        }
        match &lines[i] {
            JournalLine::Unreadable => {
                return Err(i + 1);
            },
            JournalLine::Record(JournalRecord::Event { source, event, .. }) => {
                if can_replay(*source, event) {
                    events.push(event.clone());
                    assert(envelope_models(events@) =~= envelope_models(before).push(event@));
                }
            },
            JournalLine::Record(_) => {},
        }
        i = i + 1;
    }
    assert(models.take(i as int) =~= models);
    Ok(events)
}

/// A summary of round-trip times.
#[derive(Clone, Copy, Debug, PartialEq, Eq, Structural)]
pub struct ProbeSummary {
    pub p50_us: u64,
    pub min_us: u64,
    pub max_us: u64,
}

/// The order of numbers.
pub open spec fn number_order() -> spec_fn(u64, u64) -> bool {
    |a: u64, b: u64| a < b
}

/// Summarises round-trip times: the middle one, the smallest and the largest of
/// them in order.
pub fn probe_summary(values: &Vec<u64>) -> (r: ProbeSummary)
    requires
        values@.len() > 0,
    ensures
        ({
            let sorted = in_order(values@, number_order());
            &&& sorted.len() == values@.len()
            &&& r.p50_us == sorted[values@.len() as int / 2]
            &&& r.min_us == sorted[0]
            &&& r.max_us == sorted.last()
        }),
{
    let ghost before = number_order();
    let mut sorted: Vec<u64> = Vec::new();
    let mut i: usize = 0;
    assert(values@.take(0) =~= Seq::<u64>::empty());
    while i < values.len()
        invariant
            i <= values@.len(),
            before == number_order(),
            sorted@ == in_order(values@.take(i as int), before),
            sorted@.len() == i,
        decreases values@.len() - i,
    {
        let value: u64 = values[i];
        proof {
            assert(values@.take(i + 1).drop_last() =~= values@.take(i as int));
            assert(values@.take(i + 1).last() == value);
        }
        let ghost old_sorted = sorted@;
        let mut at: usize = sorted.len();
        while at > 0 && value < sorted[at - 1]
            invariant
                at <= sorted@.len(),
                before == number_order(),
                forall|j: int| at <= j < sorted@.len() ==> before(value, #[trigger] sorted@[j]),
            decreases at,
        {
            at = at - 1;
        }
        sorted.insert(at, value);
        proof {
            lemma_placed(old_sorted, value, before, at as int);
        }
        i = i + 1;
    }
    assert(values@.take(i as int) =~= values@);
    ProbeSummary {
        p50_us: sorted[sorted.len() / 2],
        min_us: sorted[0],
        max_us: sorted[sorted.len() - 1],
    }
}

} // verus!
