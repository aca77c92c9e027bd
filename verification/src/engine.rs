//! Engine lifecycle: staged construction, the protocol by which the engine is
//! brought up, and what its return codes mean.
//!
//! [`Builder`] collects the configuration and the handlers. Building splits it
//! into the parts that are handed to the engine and a [`Build`], which decides
//! step by step what is done next: each [`BuildAction`] is carried out by the
//! caller, who reports the outcome as the next [`BuildEvent`].

use crate::config;
use crate::config::{config_json, BrokerConfig, BrokerModel, DemuxConfig};
use crate::ffi::LLINGR_ABI_VERSION;
use crate::foreign;
use crate::foreign::lossy_text;
use crate::metrics;
use crate::metrics::{
    BandwidthMetrics, MessageMetrics, Metrics, MetricsHandle, MetricsModel, Mode, RealisedMetrics,
};
use crate::options;
use crate::options::Options;
use crate::pairs::Pair;
use crate::snapshot::Snapshot;
use crate::text;
use crate::text::{characters, signed_decimal_text, OptionText};
use std::time::Duration;
use vstd::prelude::*;
use vstd::string::*;

verus! {

// ---------------------------------------------------------------------------
// Errors
// ---------------------------------------------------------------------------

/// Error of an engine operation: a code and a message.
#[derive(Debug)]
pub struct LlingrError {
    message: String,
    code: i32,
}

/// What a [`LlingrError`] holds.
#[verifier::ext_equal]
pub struct ErrorModel {
    /// The error code.
    pub code: int,
    /// The message.
    pub message: Seq<char>,
}

impl View for LlingrError {
    type V = ErrorModel;

    closed spec fn view(&self) -> ErrorModel {
        ErrorModel { code: self.code as int, message: self.message@ }
    }
}

impl LlingrError {
    /// An error with the given code and message.
    pub fn new<T: OptionText>(code: i32, message: T) -> (r: Self)
        ensures
            r@ == (ErrorModel { code: code as int, message: message.text() }),
    {
        LlingrError { message: message.into_text(), code }
    }

    /// The error code.
    pub fn code(&self) -> (r: i32)
        ensures
            r == self@.code,
    {
        self.code
    }

    /// The error as text: `llingr error <code>: <message>`.
    pub fn to_string(&self) -> (r: String)
        ensures
            r@ == "llingr error "@ + text::signed_decimal(self@.code) + ": "@
                + self@.message,
    {
        let mut r = "llingr error ".to_owned();
        let code = signed_decimal_text(self.code as i128);
        r.append(code.as_str());
        r.append(": ");
        r.append(self.message.as_str());
        r
    }
}

/// The message for an engine library of another contract version.
pub open spec fn abi_mismatch_message(expected: i32, reported: i32) -> Seq<char> {
    "llingr ABI mismatch: crate expects "@ + text::signed_decimal(expected as int)
        + ", library reports "@ + text::signed_decimal(reported as int)
        + " (rebuild libllingr to match this crate)"@
}

/// The refusal of an engine library of another contract version.
pub fn abi_mismatch_error(expected: i32, reported: i32) -> (r: LlingrError)
    ensures
        r@ == (ErrorModel { code: -1, message: abi_mismatch_message(expected, reported) }),
{
    let mut message = "llingr ABI mismatch: crate expects ".to_owned();
    let e = signed_decimal_text(expected as i128);
    message.append(e.as_str());
    message.append(", library reports ");
    let g = signed_decimal_text(reported as i128);
    message.append(g.as_str());
    message.append(" (rebuild libllingr to match this crate)");
    LlingrError::new(-1, message)
}

/// The text for a code of a failed start that came without a text.
pub open spec fn init_fallback(rc: i32) -> Seq<char> {
    if rc == -1 {
        "already initialised"@
    } else if rc == -2 {
        "invalid configuration JSON"@
    } else if rc == -3 {
        "missing required config (brokers, topic, or consumer_group)"@
    } else if rc == -4 {
        "failed to create adapter or connect to broker"@
    } else if rc == -5 {
        "invalid adapter or engine option"@
    } else {
        "unknown initialisation error"@
    }
}

/// The text of a failed start: what the engine wrote, or the text for its
/// code.
pub open spec fn init_failure(rc: i32, err_buf: Seq<u8>, err_len: i32) -> Seq<char> {
    if err_len > 0 {
        foreign::lossy_utf8(err_buf.subrange(0, err_len as int))
    } else {
        init_fallback(rc)
    }
}

/// The text of a failed start. Only `err_len` bytes of the buffer are read.
pub fn init_failure_text(rc: i32, err_buf: &[u8], err_len: i32) -> (r: String)
    requires
        err_len <= err_buf@.len(),
    ensures
        r@ == init_failure(rc, err_buf@, err_len),
        err_len > 0 ==> foreign::reads_as(err_buf@.subrange(0, err_len as int), r@),
{
    if err_len > 0 {
        let written = &err_buf[0..err_len as usize];
        lossy_text(written)
    } else {
        let fallback = match rc {
            -1 => "already initialised",
            -2 => "invalid configuration JSON",
            -3 => "missing required config (brokers, topic, or consumer_group)",
            -4 => "failed to create adapter or connect to broker",
            -5 => "invalid adapter or engine option",
            _ => "unknown initialisation error",
        };
        fallback.to_owned()
    }
}

/// The message for a code that a run ended with.
pub open spec fn run_failure(rc: i32) -> Seq<char> {
    if rc == -1 {
        "engine not initialised"@
    } else if rc == -2 {
        "subscribe failed"@
    } else if rc == -3 {
        "engine panicked (recovered at FFI boundary)"@
    } else {
        "unknown runtime error"@
    }
}

/// What the code that a run ended with means.
pub fn run_result(rc: i32) -> (r: Result<(), LlingrError>)
    ensures
        match r {
            Ok(()) => rc == 0,
            Err(e) => rc != 0 && e@ == (ErrorModel { code: rc as int, message: run_failure(rc) }),
        },
{
    match rc {
        0 => Ok(()),
        -1 => Err(LlingrError::new(rc, "engine not initialised")),
        -2 => Err(LlingrError::new(rc, "subscribe failed")),
        -3 => Err(LlingrError::new(rc, "engine panicked (recovered at FFI boundary)")),
        _ => Err(LlingrError::new(rc, "unknown runtime error")),
    }
}

/// The snapshot document as the engine gave it, decoded lossily; without a
/// running engine there is none.
pub fn take_snapshot_json(document: Option<&[u8]>) -> (r: Result<String, LlingrError>)
    ensures
        match (document, r) {
            (Some(bytes), Ok(json)) => foreign::reads_as(bytes@, json@),
            (None, Err(e)) => e@ == (ErrorModel { code: -1, message: "engine not initialised"@ }),
            _ => false,
        },
{
    match document {
        None => Err(LlingrError::new(-1, "engine not initialised")),
        Some(bytes) => Ok(lossy_text(bytes)),
    }
}

// ---------------------------------------------------------------------------
// Engine handle
// ---------------------------------------------------------------------------

/// The engine handle. Only one can exist in a process. Dropping it does not
/// stop the engine.
pub struct Llingr {
    _private: (),
}

impl Llingr {
    /// A point-in-time view of the consumer's state as a typed document, from
    /// what parsing the engine's document gave; without a running engine there
    /// is no document. One that does not parse is an error.
    pub fn snapshot(&self, parsed: Option<Result<Snapshot, String>>) -> (r: Result<
        Snapshot,
        LlingrError,
    >)
        ensures
            match (parsed, r) {
                (Some(Ok(given)), Ok(snapshot)) => snapshot == given,
                (Some(Err(reason)), Err(e)) => e@ == (ErrorModel {
                    code: -2,
                    message: "snapshot document did not parse: "@ + reason@,
                }),
                (None, Err(e)) => e@ == (ErrorModel {
                    code: -1,
                    message: "engine not initialised"@,
                }),
                _ => false,
            },
    {
        match parsed {
            None => Err(LlingrError::new(-1, "engine not initialised")),
            Some(Ok(snapshot)) => Ok(snapshot),
            Some(Err(reason)) => {
                let mut message = "snapshot document did not parse: ".to_owned();
                message.append(reason.as_str());
                Err(LlingrError::new(-2, message))
            },
        }
    }

    /// A point-in-time view of the consumer's state as the engine's own JSON
    /// document.
    pub fn snapshot_json(&self, document: Option<&[u8]>) -> (r: Result<String, LlingrError>)
        ensures
            match (document, r) {
                (Some(bytes), Ok(json)) => foreign::reads_as(bytes@, json@),
                (None, Err(e)) => e@ == (ErrorModel {
                    code: -1,
                    message: "engine not initialised"@,
                }),
                _ => false,
            },
    {
        take_snapshot_json(document)
    }

    /// What a run ended with.
    pub fn run(&self, rc: i32) -> (r: Result<(), LlingrError>)
        ensures
            match r {
                Ok(()) => rc == 0,
                Err(e) => rc != 0 && e@ == (ErrorModel { code: rc as int, message: run_failure(rc) }),
            },
    {
        run_result(rc)
    }
}

// ---------------------------------------------------------------------------
// Builder
// ---------------------------------------------------------------------------

/// Staged construction of the engine: the topic and the two required handlers,
/// then brokers and consumer group, and whatever else is wanted.
pub struct Builder<P, D, S> {
    topic: String,
    broker: BrokerConfig,
    demux: DemuxConfig,
    service: Option<(String, String)>,
    bandwidth_stats_interval: Option<Duration>,
    bandwidth_flush_interval: Option<Duration>,
    metrics: Option<Metrics>,
    process: P,
    dead_letter: D,
    shutdown: Option<S>,
}

/// What a [`Builder`] holds.
pub struct BuilderModel<P, D, S> {
    /// The topic.
    pub topic: Seq<char>,
    /// Brokers, group and client options.
    pub broker: BrokerModel,
    /// The engine tunables.
    pub demux: DemuxConfig,
    /// The service name and the owning team.
    pub service: Option<Pair>,
    /// The bandwidth collection cadence.
    pub stats: Option<Duration>,
    /// How often bandwidth packets are forwarded.
    pub flush: Option<Duration>,
    /// The metrics activation.
    pub metrics: Option<MetricsModel>,
    /// The process handler.
    pub process: P,
    /// The dead-letter handler.
    pub dead_letter: D,
    /// The shutdown handler.
    pub shutdown: Option<S>,
}

/// A service identity as texts.
pub open spec fn identity_of(service: Option<(String, String)>) -> Option<Pair> {
    match service {
        None => None,
        Some(s) => Some((s.0@, s.1@)),
    }
}

/// An optional activation as its model.
pub open spec fn activation_of(metrics: Option<Metrics>) -> Option<MetricsModel> {
    match metrics {
        None => None,
        Some(m) => Some(m@),
    }
}

impl<P, D, S> View for Builder<P, D, S> {
    type V = BuilderModel<P, D, S>;

    closed spec fn view(&self) -> BuilderModel<P, D, S> {
        BuilderModel {
            topic: self.topic@,
            broker: self.broker@,
            demux: self.demux,
            service: identity_of(self.service),
            stats: self.bandwidth_stats_interval,
            flush: self.bandwidth_flush_interval,
            metrics: activation_of(self.metrics),
            process: self.process,
            dead_letter: self.dead_letter,
            shutdown: self.shutdown,
        }
    }
}

impl<P, D, S> BuilderModel<P, D, S> {
    /// The configuration document.
    pub open spec fn document(self) -> Seq<char> {
        config::config_document(
            self.topic,
            self.broker,
            self.demux,
            self.service,
            self.stats,
            self.flush,
        )
    }

    /// The plan that the engine is brought up by.
    pub open spec fn plan(self) -> PlanModel {
        PlanModel {
            deferred_error: self.broker.deferred_error,
            json: self.document(),
            metrics: self.metrics is Some,
            serves: self.metrics matches Some(m) && m is Serve,
        }
    }
}

/// `r` puts the activation `m` into effect for this consumer.
pub open spec fn realises(
    r: RealisedMetrics,
    m: MetricsModel,
    topic: Seq<char>,
    group: Seq<char>,
    service: Option<Pair>,
) -> bool {
    let (name, team) = match service {
        Some(s) => s,
        None => (Seq::<char>::empty(), Seq::<char>::empty()),
    };
    &&& r.message_sink.identity.topic@ == topic
    &&& r.message_sink.identity.consumer_group@ == group
    &&& r.message_sink.identity.service@ == name
    &&& r.message_sink.identity.team@ == team
    &&& r.bandwidth_sink.identity.service@ == name
    &&& r.bandwidth_sink.identity.team@ == team
    &&& r.series@ == metrics::message_series() + metrics::bandwidth_series()
    &&& r.mode@ == m
}

/// What building splits a [`Builder`] into.
pub struct BuildParts<P, D, S> {
    /// The steps by which the engine is brought up.
    pub build: Build,
    /// The topic, for the records that handlers see.
    pub topic: String,
    /// The process handler.
    pub process: P,
    /// The dead-letter handler.
    pub dead_letter: D,
    /// The shutdown handler.
    pub shutdown: Option<S>,
    /// The metrics to put into effect, when they are active.
    pub metrics: Option<RealisedMetrics>,
}

impl<P, D> Builder<P, D, ()> {
    /// Start with the topic and the two required handlers.
    ///
    /// The dead-letter handler is required: without one a failed message would
    /// have nowhere to go before its offset is committed.
    pub fn new(topic: &str, process: P, dead_letter: D) -> (r: Self)
        ensures
            r@.topic == topic@,
            r@.broker == (BrokerModel {
                brokers: seq![],
                consumer_group: seq![],
                kafka_config: seq![],
                deferred_error: None,
            }),
            r@.demux.is_unset(),
            r@.service is None,
            r@.stats is None,
            r@.flush is None,
            r@.metrics is None,
            r@.process == process,
            r@.dead_letter == dead_letter,
            r@.shutdown is None,
    {
        Builder {
            topic: topic.to_owned(),
            broker: BrokerConfig::new(),
            demux: DemuxConfig::new(),
            service: None,
            bandwidth_stats_interval: None,
            bandwidth_flush_interval: None,
            metrics: None,
            process,
            dead_letter,
            shutdown: None,
        }
    }
}

impl<P, D, S> Builder<P, D, S> {
    /// Broker addresses, comma-separated. Required.
    pub fn brokers(self, brokers: &str) -> (r: Self)
        ensures
            r@ == (BuilderModel {
                broker: BrokerModel { brokers: brokers@, ..self@.broker },
                ..self@
            }),
    {
        let broker = self.broker.brokers(brokers);
        Builder { broker, ..self }
    }

    /// Consumer group ID. Required.
    pub fn consumer_group(self, group: &str) -> (r: Self)
        ensures
            r@ == (BuilderModel {
                broker: BrokerModel { consumer_group: group@, ..self@.broker },
                ..self@
            }),
    {
        let broker = self.broker.consumer_group(group);
        Builder { broker, ..self }
    }

    /// Kafka client configuration. It is validated here; a failure is reported
    /// when the engine is built, and of several failures the first one.
    pub fn options(self, options: Options) -> (r: Self)
        ensures
            r@ == (BuilderModel {
                broker: BrokerModel {
                    kafka_config: self@.broker.kafka_config + options@.emitted(),
                    deferred_error: if self@.broker.deferred_error is None
                        && options@.conflicting_keys().len() > 0 {
                        Some(options::conflict_message(options@.conflicting_keys()))
                    } else {
                        self@.broker.deferred_error
                    },
                    ..self@.broker
                },
                ..self@
            }),
            options@.wf(),
    {
        let broker = self.broker.adapter_options(options.validate(), options.entries());
        Builder { broker, ..self }
    }

    /// Engine tunables.
    pub fn demux(self, config: DemuxConfig) -> (r: Self)
        ensures
            r@ == (BuilderModel { demux: config, ..self@ }),
    {
        Builder { demux: config, ..self }
    }

    /// Service identity that labels the telemetry: name and owning team.
    pub fn service(self, name: &str, team: &str) -> (r: Self)
        ensures
            r@ == (BuilderModel { service: Some((name@, team@)), ..self@ }),
    {
        Builder { service: Some((name.to_owned(), team.to_owned())), ..self }
    }

    /// Activate the Prometheus metrics, bandwidth telemetry included.
    pub fn metrics(self, metrics: Metrics) -> (r: Self)
        ensures
            r@ == (BuilderModel { metrics: Some(metrics@), ..self@ }),
    {
        Builder { metrics: Some(metrics), ..self }
    }

    /// The bandwidth collection cadence. Only meaningful with metrics.
    pub fn bandwidth_stats_interval(self, d: Duration) -> (r: Self)
        ensures
            r@ == (BuilderModel { stats: Some(d), ..self@ }),
    {
        Builder { bandwidth_stats_interval: Some(d), ..self }
    }

    /// How often buffered bandwidth packets are forwarded. Only meaningful
    /// with metrics.
    pub fn bandwidth_flush_interval(self, d: Duration) -> (r: Self)
        ensures
            r@ == (BuilderModel { flush: Some(d), ..self@ }),
    {
        Builder { bandwidth_flush_interval: Some(d), ..self }
    }

    /// Register a shutdown handler.
    pub fn shutdown<T>(self, handler: T) -> (r: Builder<P, D, T>)
        ensures
            r@ == (BuilderModel::<P, D, T> {
                topic: self@.topic,
                broker: self@.broker,
                demux: self@.demux,
                service: self@.service,
                stats: self@.stats,
                flush: self@.flush,
                metrics: self@.metrics,
                process: self@.process,
                dead_letter: self@.dead_letter,
                shutdown: Some(handler),
            }),
    {
        Builder {
            topic: self.topic,
            broker: self.broker,
            demux: self.demux,
            service: self.service,
            bandwidth_stats_interval: self.bandwidth_stats_interval,
            bandwidth_flush_interval: self.bandwidth_flush_interval,
            metrics: self.metrics,
            process: self.process,
            dead_letter: self.dead_letter,
            shutdown: Some(handler),
        }
    }

    /// Split the builder into the handlers, the metrics to put into effect and
    /// the steps by which the engine is brought up.
    pub fn build(self) -> (r: BuildParts<P, D, S>)
        ensures
            r.build@ == (BuildModel { stage: Stage::Start, plan: self@.plan() }),
            r.topic@ == self@.topic,
            r.process == self@.process,
            r.dead_letter == self@.dead_letter,
            r.shutdown == self@.shutdown,
            match (self@.metrics, r.metrics) {
                (None, None) => true,
                (Some(m), Some(realised)) => realises(
                    realised,
                    m,
                    self@.topic,
                    self@.broker.consumer_group,
                    self@.service,
                ),
                _ => false,
            },
    {
        let json = config_json(
            self.topic.as_str(),
            &self.broker,
            &self.demux,
            self.service.as_ref(),
            self.bandwidth_stats_interval,
            self.bandwidth_flush_interval,
        );
        let deferred_error = match self.broker.deferred_error() {
            None => None,
            Some(message) => Some(message.to_owned()),
        };
        let metrics = match self.metrics {
            None => None,
            Some(metrics) => {
                let group = self.broker.consumer_group_value();
                match &self.service {
                    None => {
                        proof {
                            reveal_strlit("");
                            assert(""@ =~= Seq::<char>::empty());
                        }
                        Some(metrics.realise(self.topic.as_str(), group, "", ""))
                    },
                    Some(s) => Some(
                        metrics.realise(self.topic.as_str(), group, s.0.as_str(), s.1.as_str()),
                    ),
                }
            },
        };
        let (active, serves) = match &metrics {
            None => (false, false),
            Some(realised) => (true, realised.mode.is_serve()),
        };
        BuildParts {
            build: Build { stage: Stage::Start, deferred_error, json, metrics: active, serves },
            topic: self.topic,
            process: self.process,
            dead_letter: self.dead_letter,
            shutdown: self.shutdown,
            metrics,
        }
    }
}

// ---------------------------------------------------------------------------
// Bringing the engine up
// ---------------------------------------------------------------------------

/// How far a build has come.
#[derive(Debug, Clone, Copy, PartialEq, Eq, Structural)]
pub enum Stage {
    /// Nothing has been done.
    Start,
    /// Waiting for the engine library's contract version.
    AwaitAbi,
    /// Waiting for the process-wide lock.
    AwaitLock,
    /// Waiting for the metrics to be in effect.
    AwaitMetrics,
    /// Waiting for the handler set to be published.
    AwaitPublish,
    /// Waiting for the engine to start.
    AwaitInit,
    /// The engine is up.
    Done,
    /// The build has failed.
    Failed,
}

/// What the caller reports to a build.
pub enum BuildEvent {
    /// The build begins.
    Begin,
    /// The engine library reported its contract version.
    AbiReported {
        /// The version.
        version: i32,
    },
    /// The process-wide lock is held.
    Locked {
        /// Whether an engine was already brought up in this process.
        inited: bool,
    },
    /// The metrics are in effect.
    MetricsReady,
    /// The metrics could not be put into effect.
    MetricsFailed {
        /// Why.
        text: String,
    },
    /// The handler set was swapped in.
    Published {
        /// Whether another set was in its place.
        previous: bool,
    },
    /// The engine returned from its start.
    Initialised {
        /// Its return code.
        rc: i32,
        /// The buffer for its error text.
        err_buf: Vec<u8>,
        /// How many bytes of error text it wrote.
        err_len: i32,
    },
}

/// What the caller does next.
pub enum BuildAction {
    /// Ask the engine library for its contract version.
    QueryAbi,
    /// Take the process-wide lock, and keep it until the build ends.
    TakeLock,
    /// Put the metrics into effect.
    Realise,
    /// Swap the handler set in.
    Publish,
    /// Register the callbacks and start the engine.
    Initialise {
        /// The configuration document.
        json: String,
        /// Whether the bandwidth callback is registered as well.
        bandwidth: bool,
    },
    /// Put the previous handler set back, drop the new one and with it its
    /// scrape endpoint, and fail.
    Restore {
        /// The error to report.
        error: LlingrError,
    },
    /// Take the handler set back, drop it and with it its scrape endpoint, and
    /// fail.
    Withdraw {
        /// The error to report.
        error: LlingrError,
    },
    /// Fail.
    Fail {
        /// The error to report.
        error: LlingrError,
    },
    /// Record that an engine is up, and hand out the handle.
    Finish {
        /// The handle.
        engine: Llingr,
    },
}

/// What is reported to a build, as texts and numbers.
#[verifier::ext_equal]
pub enum EventModel {
    /// The build begins.
    Begin,
    /// The engine library reported its contract version.
    AbiReported { version: i32 },
    /// The process-wide lock is held.
    Locked { inited: bool },
    /// The metrics are in effect.
    MetricsReady,
    /// The metrics could not be put into effect.
    MetricsFailed { text: Seq<char> },
    /// The handler set was swapped in.
    Published { previous: bool },
    /// The engine returned from its start.
    Initialised { rc: i32, err_buf: Seq<u8>, err_len: i32 },
}

/// What is done next, as texts and numbers.
#[verifier::ext_equal]
pub enum ActionModel {
    /// Ask for the contract version.
    QueryAbi,
    /// Take the process-wide lock.
    TakeLock,
    /// Put the metrics into effect.
    Realise,
    /// Swap the handler set in.
    Publish,
    /// Register the callbacks and start the engine.
    Initialise { json: Seq<char>, bandwidth: bool },
    /// Put the previous handler set back and fail.
    Restore { error: ErrorModel },
    /// Take the handler set back and fail.
    Withdraw { error: ErrorModel },
    /// Fail.
    Fail { error: ErrorModel },
    /// Record that an engine is up.
    Finish,
}

impl View for BuildEvent {
    type V = EventModel;

    open spec fn view(&self) -> EventModel {
        match *self {
            BuildEvent::Begin => EventModel::Begin,
            BuildEvent::AbiReported { version } => EventModel::AbiReported { version },
            BuildEvent::Locked { inited } => EventModel::Locked { inited },
            BuildEvent::MetricsReady => EventModel::MetricsReady,
            BuildEvent::MetricsFailed { text } => EventModel::MetricsFailed { text: text@ },
            BuildEvent::Published { previous } => EventModel::Published { previous },
            BuildEvent::Initialised { rc, err_buf, err_len } => EventModel::Initialised {
                rc,
                err_buf: err_buf@,
                err_len,
            },
        }
    }
}

impl View for BuildAction {
    type V = ActionModel;

    open spec fn view(&self) -> ActionModel {
        match *self {
            BuildAction::QueryAbi => ActionModel::QueryAbi,
            BuildAction::TakeLock => ActionModel::TakeLock,
            BuildAction::Realise => ActionModel::Realise,
            BuildAction::Publish => ActionModel::Publish,
            BuildAction::Initialise { json, bandwidth } => ActionModel::Initialise {
                json: json@,
                bandwidth,
            },
            BuildAction::Restore { error } => ActionModel::Restore { error: error@ },
            BuildAction::Withdraw { error } => ActionModel::Withdraw { error: error@ },
            BuildAction::Fail { error } => ActionModel::Fail { error: error@ },
            BuildAction::Finish { .. } => ActionModel::Finish,
        }
    }
}

/// The steps by which an engine is brought up.
pub struct Build {
    stage: Stage,
    deferred_error: Option<String>,
    json: String,
    metrics: bool,
    serves: bool,
}

/// What a build goes by.
#[verifier::ext_equal]
pub struct PlanModel {
    /// The first failure of the client options, if any.
    pub deferred_error: Option<Seq<char>>,
    /// The configuration document.
    pub json: Seq<char>,
    /// Whether metrics are active.
    pub metrics: bool,
    /// Whether active metrics are served from a scrape endpoint.
    pub serves: bool,
}

/// What a [`Build`] holds.
#[verifier::ext_equal]
pub struct BuildModel {
    /// How far it has come.
    pub stage: Stage,
    /// What it goes by.
    pub plan: PlanModel,
}

impl View for Build {
    type V = BuildModel;

    closed spec fn view(&self) -> BuildModel {
        BuildModel {
            stage: self.stage,
            plan: PlanModel {
                deferred_error: config::text_of(self.deferred_error),
                json: self.json@,
                metrics: self.metrics,
                serves: self.serves,
            },
        }
    }
}

/// The text holds a NUL.
pub open spec fn holds_nul(s: Seq<char>) -> bool {
    s.contains('\0')
}

/// The event is one that a build at this stage waits for.
pub open spec fn fits(stage: Stage, event: EventModel) -> bool {
    match event {
        EventModel::Begin => stage == Stage::Start,
        EventModel::AbiReported { .. } => stage == Stage::AwaitAbi,
        EventModel::Locked { .. } => stage == Stage::AwaitLock,
        EventModel::MetricsReady => stage == Stage::AwaitMetrics,
        EventModel::MetricsFailed { .. } => stage == Stage::AwaitMetrics,
        EventModel::Published { .. } => stage == Stage::AwaitPublish,
        EventModel::Initialised { err_buf, err_len, .. } => stage == Stage::AwaitInit && err_len
            <= err_buf.len(),
    }
}

/// A failure with the given code and message.
pub open spec fn failure(code: int, message: Seq<char>) -> ErrorModel {
    ErrorModel { code, message }
}

/// Where an event takes a build, and what is done next.
pub open spec fn next(plan: PlanModel, event: EventModel) -> (Stage, ActionModel) {
    match event {
        EventModel::Begin => match plan.deferred_error {
            Some(message) => (Stage::Failed, ActionModel::Fail { error: failure(-5, message) }),
            None => (Stage::AwaitAbi, ActionModel::QueryAbi),
        },
        EventModel::AbiReported { version } => if version != LLINGR_ABI_VERSION {
            (
                Stage::Failed,
                ActionModel::Fail {
                    error: failure(-1, abi_mismatch_message(LLINGR_ABI_VERSION, version)),
                },
            )
        } else {
            (Stage::AwaitLock, ActionModel::TakeLock)
        },
        EventModel::Locked { inited } => if inited {
            (
                Stage::Failed,
                ActionModel::Fail {
                    error: failure(-1, "only one llingr instance per process"@),
                },
            )
        } else if holds_nul(plan.json) {
            (
                Stage::Failed,
                ActionModel::Fail {
                    error: failure(-2, "configuration contains an interior NUL byte"@),
                },
            )
        } else if plan.metrics {
            (Stage::AwaitMetrics, ActionModel::Realise)
        } else {
            (Stage::AwaitPublish, ActionModel::Publish)
        },
        EventModel::MetricsReady => (Stage::AwaitPublish, ActionModel::Publish),
        EventModel::MetricsFailed { text } => (
            Stage::Failed,
            ActionModel::Fail { error: failure(-6, text) },
        ),
        EventModel::Published { previous } => if previous {
            (
                Stage::Failed,
                ActionModel::Restore { error: failure(-1, "handler set already published"@) },
            )
        } else {
            (
                Stage::AwaitInit,
                ActionModel::Initialise { json: plan.json, bandwidth: plan.metrics },
            )
        },
        EventModel::Initialised { rc, err_buf, err_len } => if rc != 0 {
            (
                Stage::Failed,
                ActionModel::Withdraw { error: failure(rc as int, init_failure(rc, err_buf, err_len)) },
            )
        } else {
            (Stage::Done, ActionModel::Finish)
        },
    }
}

fn has_nul(s: &str) -> (r: bool)
    ensures
        r == holds_nul(s@),
{
    let chars = characters(s);
    let mut i: usize = 0;
    while i < chars.len()
        invariant
            i <= chars.len(),
            chars@ == s@,
            forall|j: int| 0 <= j < i ==> #[trigger] s@[j] != '\0',
        decreases chars.len() - i,
    {
        if chars[i] == '\0' {
            assert(s@[i as int] == '\0');
            return true;
        }
        i = i + 1;
    }
    false
}

impl Build {
    /// Take in what was reported, and say what is done next.
    pub fn advance(&mut self, event: BuildEvent) -> (action: BuildAction)
        requires
            fits(old(self)@.stage, event@),
        ensures
            final(self)@.plan == old(self)@.plan,
            (final(self)@.stage, action@) == next(old(self)@.plan, event@),
            match (event@, action@) {
                (
                    EventModel::Initialised { err_buf, err_len, .. },
                    ActionModel::Withdraw { error },
                ) => err_len > 0 ==> foreign::reads_as(
                    err_buf.subrange(0, err_len as int),
                    error.message,
                ),
                _ => true,
            },
    {
        match event {
            BuildEvent::Begin => match &self.deferred_error {
                Some(message) => {
                    let error = LlingrError::new(-5, message);
                    self.stage = Stage::Failed;
                    BuildAction::Fail { error }
                },
                None => {
                    self.stage = Stage::AwaitAbi;
                    BuildAction::QueryAbi
                },
            },
            BuildEvent::AbiReported { version } => {
                if version != LLINGR_ABI_VERSION {
                    self.stage = Stage::Failed;
                    BuildAction::Fail { error: abi_mismatch_error(LLINGR_ABI_VERSION, version) }
                } else {
                    self.stage = Stage::AwaitLock;
                    BuildAction::TakeLock
                }
            },
            BuildEvent::Locked { inited } => {
                if inited {
                    self.stage = Stage::Failed;
                    BuildAction::Fail {
                        error: LlingrError::new(-1, "only one llingr instance per process"),
                    }
                } else if has_nul(self.json.as_str()) {
                    self.stage = Stage::Failed;
                    BuildAction::Fail {
                        error: LlingrError::new(-2, "configuration contains an interior NUL byte"),
                    }
                } else if self.metrics {
                    self.stage = Stage::AwaitMetrics;
                    BuildAction::Realise
                } else {
                    self.stage = Stage::AwaitPublish;
                    BuildAction::Publish
                }
            },
            BuildEvent::MetricsReady => {
                self.stage = Stage::AwaitPublish;
                BuildAction::Publish
            },
            BuildEvent::MetricsFailed { text } => {
                self.stage = Stage::Failed;
                BuildAction::Fail { error: LlingrError::new(-6, text) }
            },
            BuildEvent::Published { previous } => {
                if previous {
                    self.stage = Stage::Failed;
                    BuildAction::Restore {
                        error: LlingrError::new(-1, "handler set already published"),
                    }
                } else {
                    self.stage = Stage::AwaitInit;
                    BuildAction::Initialise { json: self.json.clone(), bandwidth: self.metrics }
                }
            },
            BuildEvent::Initialised { rc, err_buf, err_len } => {
                if rc != 0 {
                    let text = init_failure_text(rc, err_buf.as_slice(), err_len);
                    self.stage = Stage::Failed;
                    BuildAction::Withdraw { error: LlingrError::new(rc, text) }
                } else {
                    self.stage = Stage::Done;
                    BuildAction::Finish { engine: Llingr { _private: () } }
                }
            },
        }
    }
}

// ---------------------------------------------------------------------------
// What a build leaves behind
// ---------------------------------------------------------------------------

/// What all builds of a process share.
pub struct ProcessState {
    /// An engine was brought up.
    pub inited: bool,
    /// A handler set is published.
    pub published: bool,
    /// How many scrape endpoints are open.
    pub endpoints: nat,
}

/// The event tells the truth about the process.
pub open spec fn truthful(process: ProcessState, event: EventModel) -> bool {
    match event {
        EventModel::Locked { inited } => inited == process.inited,
        EventModel::Published { previous } => previous == process.published,
        _ => true,
    }
}

/// How many scrape endpoints a build by this plan opens.
pub open spec fn opened(plan: PlanModel) -> nat {
    if plan.metrics && plan.serves {
        1
    } else {
        0
    }
}

/// The process after an event and the action that answers it. A scrape
/// endpoint opens when the metrics come into effect, and closes with the
/// handler set that it belongs to. A set that is swapped in where none was
/// stays published until it is taken back; one that replaced another is put
/// back by the answer.
pub open spec fn outcome(plan: PlanModel, process: ProcessState, event: EventModel) -> ProcessState {
    match event {
        EventModel::MetricsReady => ProcessState {
            endpoints: process.endpoints + opened(plan),
            ..process
        },
        EventModel::Published { previous } => if previous {
            ProcessState { endpoints: (process.endpoints - opened(plan)) as nat, ..process }
        } else {
            ProcessState { published: true, ..process }
        },
        EventModel::Initialised { rc, .. } => if rc != 0 {
            ProcessState {
                published: false,
                endpoints: (process.endpoints - opened(plan)) as nat,
                ..process
            }
        } else {
            ProcessState { inited: true, ..process }
        },
        _ => process,
    }
}

/// How far a build has come after the events, and the process then.
pub open spec fn run_of(plan: PlanModel, process: ProcessState, events: Seq<EventModel>) -> (
    Stage,
    ProcessState,
)
    decreases events.len(),
{
    if events.len() == 0 {
        (Stage::Start, process)
    } else {
        let before = run_of(plan, process, events.drop_last());
        (next(plan, events.last()).0, outcome(plan, before.1, events.last()))
    }
}

/// The events are those of one build: each is waited for when it comes, and
/// tells the truth.
pub open spec fn is_run(plan: PlanModel, process: ProcessState, events: Seq<EventModel>) -> bool
    decreases events.len(),
{
    events.len() == 0 || {
        let before = run_of(plan, process, events.drop_last());
        &&& is_run(plan, process, events.drop_last())
        &&& fits(before.0, events.last())
        &&& truthful(before.1, events.last())
    }
}

proof fn run_invariant(plan: PlanModel, process: ProcessState, events: Seq<EventModel>)
    requires
        is_run(plan, process, events),
    ensures
        ({
            let (stage, now) = run_of(plan, process, events);
            match stage {
                Stage::Start | Stage::AwaitAbi | Stage::AwaitLock => now == process,
                Stage::AwaitMetrics => now == process && !process.inited,
                Stage::AwaitPublish => !process.inited && now == (ProcessState {
                    endpoints: process.endpoints + opened(plan),
                    ..process
                }),
                Stage::AwaitInit => !process.inited && !process.published && now == (ProcessState {
                    inited: false,
                    published: true,
                    endpoints: process.endpoints + opened(plan),
                }),
                Stage::Done => !process.inited && !process.published && now == (ProcessState {
                    inited: true,
                    published: true,
                    endpoints: process.endpoints + opened(plan),
                }),
                Stage::Failed => now == process,
            }
        }),
    decreases events.len(),
{
    if events.len() > 0 {
        run_invariant(plan, process, events.drop_last());
    }
}

/// A build that fails, at whatever step, leaves the process as it found it: no
/// engine, no handler set and no scrape endpoint of its own stays behind.
pub proof fn failed_build_leaves_no_trace(
    plan: PlanModel,
    process: ProcessState,
    events: Seq<EventModel>,
)
    requires
        is_run(plan, process, events),
        run_of(plan, process, events).0 == Stage::Failed,
    ensures
        run_of(plan, process, events).1 == process,
{
    run_invariant(plan, process, events);
}

/// The events of a build by this plan that goes well.
pub open spec fn good_run(plan: PlanModel) -> Seq<EventModel> {
    let locked = seq![
        EventModel::Begin,
        EventModel::AbiReported { version: LLINGR_ABI_VERSION },
        EventModel::Locked { inited: false },
    ];
    let ready = if plan.metrics {
        locked.push(EventModel::MetricsReady)
    } else {
        locked
    };
    ready.push(EventModel::Published { previous: false }).push(
        EventModel::Initialised { rc: 0, err_buf: seq![], err_len: 0 },
    )
}

proof fn run_goes_on(
    plan: PlanModel,
    process: ProcessState,
    events: Seq<EventModel>,
    event: EventModel,
)
    requires
        is_run(plan, process, events),
        fits(run_of(plan, process, events).0, event),
        truthful(run_of(plan, process, events).1, event),
    ensures
        is_run(plan, process, events.push(event)),
        run_of(plan, process, events.push(event)) == (
            next(plan, event).0,
            outcome(plan, run_of(plan, process, events).1, event),
        ),
{
    assert(events.push(event).drop_last() =~= events);
}

/// In a process without an engine or a handler set, a plan with no failure in
/// it can be brought up.
pub proof fn sound_plan_can_succeed(plan: PlanModel, process: ProcessState)
    requires
        !process.inited,
        !process.published,
        plan.deferred_error is None,
        !holds_nul(plan.json),
    ensures
        is_run(plan, process, good_run(plan)),
        run_of(plan, process, good_run(plan)).0 == Stage::Done,
{
    let begin = EventModel::Begin;
    let abi = EventModel::AbiReported { version: LLINGR_ABI_VERSION };
    let lock = EventModel::Locked { inited: false };
    let publish = EventModel::Published { previous: false };
    let init = EventModel::Initialised { rc: 0, err_buf: seq![], err_len: 0 };
    let none = Seq::<EventModel>::empty();
    run_goes_on(plan, process, none, begin);
    run_goes_on(plan, process, none.push(begin), abi);
    run_goes_on(plan, process, none.push(begin).push(abi), lock);
    let locked = none.push(begin).push(abi).push(lock);
    assert(locked =~= seq![begin, abi, lock]);
    let ready = if plan.metrics {
        run_goes_on(plan, process, locked, EventModel::MetricsReady);
        locked.push(EventModel::MetricsReady)
    } else {
        locked
    };
    run_goes_on(plan, process, ready, publish);
    run_goes_on(plan, process, ready.push(publish), init);
}

/// After a build that failed in a process without an engine or a handler set,
/// a corrected one can still succeed.
pub proof fn failed_build_can_be_tried_again(
    plan: PlanModel,
    process: ProcessState,
    events: Seq<EventModel>,
    corrected: PlanModel,
)
    requires
        !process.inited,
        !process.published,
        is_run(plan, process, events),
        run_of(plan, process, events).0 == Stage::Failed,
        corrected.deferred_error is None,
        !holds_nul(corrected.json),
    ensures
        is_run(corrected, run_of(plan, process, events).1, good_run(corrected)),
        run_of(corrected, run_of(plan, process, events).1, good_run(corrected)).0 == Stage::Done,
{
    failed_build_leaves_no_trace(plan, process, events);
    sound_plan_can_succeed(corrected, process);
}

/// A build that succeeds found no engine and no handler set, and leaves one
/// engine with its handler set published, and with its scrape endpoint open
/// where its metrics are served from one.
pub proof fn successful_build_publishes_its_handlers(
    plan: PlanModel,
    process: ProcessState,
    events: Seq<EventModel>,
)
    requires
        is_run(plan, process, events),
        run_of(plan, process, events).0 == Stage::Done,
    ensures
        !process.inited,
        !process.published,
        run_of(plan, process, events).1 == (ProcessState {
            inited: true,
            published: true,
            endpoints: process.endpoints + opened(plan),
        }),
{
    run_invariant(plan, process, events);
}

/// After one build has succeeded no other ever does.
pub proof fn one_engine_per_process(
    first: PlanModel,
    second: PlanModel,
    process: ProcessState,
    events: Seq<EventModel>,
    later: Seq<EventModel>,
)
    requires
        is_run(first, process, events),
        run_of(first, process, events).0 == Stage::Done,
        is_run(second, run_of(first, process, events).1, later),
    ensures
        run_of(second, run_of(first, process, events).1, later).0 != Stage::Done,
        run_of(second, run_of(first, process, events).1, later).1 == run_of(
            first,
            process,
            events,
        ).1,
{
    run_invariant(first, process, events);
    run_invariant(second, run_of(first, process, events).1, later);
}

/// A failure of the client options is reported at once: nothing is asked of
/// the engine library, no lock is taken and nothing is published.
pub proof fn deferred_error_comes_first(
    plan: PlanModel,
    process: ProcessState,
    events: Seq<EventModel>,
)
    requires
        plan.deferred_error is Some,
        is_run(plan, process, events),
        events.len() > 0,
    ensures
        events =~= seq![EventModel::Begin],
        next(plan, events[0]) == (
            Stage::Failed,
            ActionModel::Fail { error: failure(-5, plan.deferred_error->0) },
        ),
    decreases events.len(),
{
    let before = events.drop_last();
    if before.len() > 0 {
        deferred_error_comes_first(plan, process, before);
        assert(before.drop_last() =~= seq![]);
        assert(run_of(plan, process, before).0 == Stage::Failed);
    }
}

/// The handler set goes in before the engine starts, and the engine starts on
/// the plan's document; the bandwidth callback is registered exactly where
/// metrics are active, and then only after they are in effect.
pub proof fn metrics_come_with_bandwidth(plan: PlanModel, event: EventModel)
    ensures
        next(plan, event).1 is Initialise <==> event == (EventModel::Published { previous: false }),
        next(plan, event).1 is Initialise ==> next(plan, event).1 == (ActionModel::Initialise {
            json: plan.json,
            bandwidth: plan.metrics,
        }),
        next(plan, event).1 is Publish && plan.metrics ==> event is MetricsReady,
        next(plan, event).1 is Realise ==> plan.metrics,
{
}

/// How many steps lie behind a stage, at most.
pub open spec fn steps_behind(stage: Stage) -> nat {
    match stage {
        Stage::Start => 0,
        Stage::AwaitAbi => 1,
        Stage::AwaitLock => 2,
        Stage::AwaitMetrics => 3,
        Stage::AwaitPublish => 4,
        Stage::AwaitInit => 5,
        Stage::Done => 6,
        Stage::Failed => 6,
    }
}

/// Every event takes a build forward, and no event fits a build that has
/// ended: a build ends after at most six events.
pub proof fn builds_come_to_an_end(
    plan: PlanModel,
    process: ProcessState,
    events: Seq<EventModel>,
)
    requires
        is_run(plan, process, events),
    ensures
        events.len() <= steps_behind(run_of(plan, process, events).0) <= 6,
    decreases events.len(),
{
    if events.len() > 0 {
        builds_come_to_an_end(plan, process, events.drop_last());
    }
}

/// A build that fails always reports a code other than zero.
pub proof fn failures_have_a_code(plan: PlanModel, event: EventModel)
    ensures
        match next(plan, event).1 {
            ActionModel::Fail { error } => error.code != 0 && next(plan, event).0 == Stage::Failed,
            ActionModel::Restore { error } => error.code != 0 && next(plan, event).0
                == Stage::Failed,
            ActionModel::Withdraw { error } => error.code != 0 && next(plan, event).0
                == Stage::Failed,
            _ => next(plan, event).0 != Stage::Failed,
        },
{
}

/// Where metrics are put into effect without a server, the registry appears
/// exactly where the handle that came with them, and each of its clones,
/// looks for it, and there is no endpoint to bind.
pub proof fn registry_mode_feeds_the_handle(
    realised: RealisedMetrics,
    handle: MetricsHandle,
    topic: Seq<char>,
    group: Seq<char>,
    service: Option<Pair>,
)
    requires
        realises(realised, MetricsModel::Registry { slot: handle@ }, topic, group, service),
    ensures
        realised.mode == Mode::Registry(handle@),
{
}

/// Whatever the mode, both sinks feed one registry: each update of either goes
/// to one of the series that are registered together, and every series is
/// registered once.
pub proof fn both_sinks_feed_one_registry(
    realised: RealisedMetrics,
    activation: MetricsModel,
    topic: Seq<char>,
    group: Seq<char>,
    service: Option<Pair>,
    message: MessageMetrics,
    bandwidth: BandwidthMetrics,
)
    requires
        realises(realised, activation, topic, group, service),
    ensures
        forall|i: int|
            0 <= i < realised.message_sink.updates(message).len() ==> realised.series@.contains(
                metrics::series_of(#[trigger] realised.message_sink.updates(message)[i]),
            ),
        forall|i: int|
            0 <= i < realised.bandwidth_sink.updates(bandwidth).len()
                ==> realised.series@.contains(
                metrics::series_of(#[trigger] realised.bandwidth_sink.updates(bandwidth)[i]),
            ),
        realised.series@.no_duplicates(),
{
    let first = metrics::message_series();
    let second = metrics::bandwidth_series();
    assert forall|i: int| 0 <= i < realised.message_sink.updates(message).len() implies
        realised.series@.contains(
        metrics::series_of(#[trigger] realised.message_sink.updates(message)[i]),
    ) by {
        metrics::message_updates_suit_their_series(realised.message_sink, message, i);
        let s = metrics::series_of(realised.message_sink.updates(message)[i]);
        let k = choose|k: int| 0 <= k < first.len() && first[k] == s;
        assert(realised.series@[k] == s);
    }
    assert forall|i: int| 0 <= i < realised.bandwidth_sink.updates(bandwidth).len() implies
        realised.series@.contains(
        metrics::series_of(#[trigger] realised.bandwidth_sink.updates(bandwidth)[i]),
    ) by {
        metrics::bandwidth_updates_suit_their_series(realised.bandwidth_sink, bandwidth, i);
        let s = metrics::series_of(realised.bandwidth_sink.updates(bandwidth)[i]);
        let k = choose|k: int| 0 <= k < second.len() && second[k] == s;
        assert(realised.series@[first.len() + k] == s);
    }
}

/// Where metrics are served, putting them into effect has their endpoint to
/// bind; where that cannot be bound, the build fails with code -6 and a text
/// that names the address first.
pub proof fn unbindable_endpoint_is_reported(
    realised: RealisedMetrics,
    addr: Seq<char>,
    path: Seq<char>,
    topic: Seq<char>,
    group: Seq<char>,
    service: Option<Pair>,
    plan: PlanModel,
    reason: Seq<char>,
)
    requires
        realises(realised, MetricsModel::Serve { addr, path }, topic, group, service),
    ensures
        realised.mode matches Mode::Serve(e) && e.addr@ == addr && e.path@ == path,
        ({
            let start = metrics::bind_failure_start(addr);
            let event = EventModel::MetricsFailed { text: start + reason };
            &&& next(plan, event).0 == Stage::Failed
            &&& next(plan, event).1 matches ActionModel::Fail { error }
            &&& error.code == -6
            &&& error.message.take(start.len() as int) == start
        }),
{
    let start = metrics::bind_failure_start(addr);
    assert((start + reason).take(start.len() as int) =~= start);
}

/// In a process whose published handler set always belongs to an engine that
/// was brought up, no build ever finds another set in its place.
pub proof fn published_set_is_never_replaced(
    plan: PlanModel,
    process: ProcessState,
    events: Seq<EventModel>,
)
    requires
        process.published ==> process.inited,
        is_run(plan, process, events),
    ensures
        ({
            let now = run_of(plan, process, events).1;
            run_of(plan, process, events).0 == Stage::AwaitPublish ==> !now.published
        }),
        run_of(plan, process, events).0 == Stage::Failed || run_of(plan, process, events).0
            == Stage::Done ==> {
            let now = run_of(plan, process, events).1;
            now.published ==> now.inited
        },
{
    run_invariant(plan, process, events);
}

/// No configuration makes a document with a NUL in it, whatever texts it
/// holds.
pub proof fn document_holds_no_nul<P, D, S>(builder: BuilderModel<P, D, S>)
    ensures
        !holds_nul(builder.plan().json),
{
    config::document_has_no_control_characters(
        builder.topic,
        builder.broker,
        builder.demux,
        builder.service,
        builder.stats,
        builder.flush,
    );
    if holds_nul(builder.document()) {
        let i = choose|i: int|
            0 <= i < builder.document().len() && builder.document()[i] == '\0';
        assert(builder.document()[i] >= ' ');
    }
}

// ---------------------------------------------------------------------------
// What is reported, and how a build goes on
// ---------------------------------------------------------------------------

/// What is reported to a build is taken in as it was reported.
pub proof fn events_are_taken_as_reported(
    version: i32,
    flag: bool,
    text: String,
    rc: i32,
    err_buf: Vec<u8>,
    err_len: i32,
)
    ensures
        BuildEvent::Begin@ is Begin,
        (BuildEvent::AbiReported { version })@ == (EventModel::AbiReported { version }),
        (BuildEvent::Locked { inited: flag })@ == (EventModel::Locked { inited: flag }),
        BuildEvent::MetricsReady@ is MetricsReady,
        (BuildEvent::MetricsFailed { text })@ == (EventModel::MetricsFailed { text: text@ }),
        (BuildEvent::Published { previous: flag })@ == (EventModel::Published { previous: flag }),
        (BuildEvent::Initialised { rc, err_buf, err_len })@ == (EventModel::Initialised {
            rc,
            err_buf: err_buf@,
            err_len,
        }),
{
}

/// What is to be done is told apart, with the error that is reported and the
/// document that is handed over.
pub proof fn actions_are_told_apart(
    json: String,
    bandwidth: bool,
    error: LlingrError,
    engine: Llingr,
)
    ensures
        BuildAction::QueryAbi@ is QueryAbi,
        BuildAction::TakeLock@ is TakeLock,
        BuildAction::Realise@ is Realise,
        BuildAction::Publish@ is Publish,
        (BuildAction::Initialise { json, bandwidth })@ == (ActionModel::Initialise {
            json: json@,
            bandwidth,
        }),
        (BuildAction::Restore { error })@ == (ActionModel::Restore { error: error@ }),
        (BuildAction::Withdraw { error })@ == (ActionModel::Withdraw { error: error@ }),
        (BuildAction::Fail { error })@ == (ActionModel::Fail { error: error@ }),
        (BuildAction::Finish { engine })@ is Finish,
{
}

/// A build waits for one kind of event at a time; only the two outcomes of
/// putting the metrics into effect are waited for together.
pub proof fn one_kind_of_event_is_waited_for(stage: Stage, event: EventModel)
    ensures
        event is Begin ==> (fits(stage, event) <==> stage == Stage::Start),
        event is AbiReported ==> (fits(stage, event) <==> stage == Stage::AwaitAbi),
        event is Locked ==> (fits(stage, event) <==> stage == Stage::AwaitLock),
        event is MetricsReady ==> (fits(stage, event) <==> stage == Stage::AwaitMetrics),
        event is MetricsFailed ==> (fits(stage, event) <==> stage == Stage::AwaitMetrics),
        event is Published ==> (fits(stage, event) <==> stage == Stage::AwaitPublish),
        event matches EventModel::Initialised { err_buf, err_len, .. } ==> (fits(stage, event)
            <==> stage == Stage::AwaitInit && err_len <= err_buf.len()),
{
}

/// The action is a refusal with this code and this message.
pub open spec fn refuses(action: ActionModel, code: int, message: Seq<char>) -> bool {
    action matches ActionModel::Fail { error } && error.code == code && error.message == message
}

/// A build begins by asking for the contract version, unless the client options
/// failed: then their own message is reported, with code -5.
pub proof fn failed_options_are_reported_as_they_failed(plan: PlanModel)
    ensures
        ({
            let (stage, action) = next(plan, EventModel::Begin);
            match plan.deferred_error {
                None => stage == Stage::AwaitAbi && action is QueryAbi,
                Some(message) => stage == Stage::Failed && refuses(action, -5, message),
            }
        }),
{
}

/// Only an engine library of contract version 1 is accepted. Any other is
/// refused with code -1 and a message that names its version.
pub proof fn only_the_known_contract_is_accepted(plan: PlanModel, version: i32)
    ensures
        ({
            let (stage, action) = next(plan, EventModel::AbiReported { version });
            if version == 1 {
                stage == Stage::AwaitLock && action is TakeLock
            } else {
                stage == Stage::Failed && refuses(
                    action,
                    -1,
                    "llingr ABI mismatch: crate expects "@ + text::signed_decimal(1)
                        + ", library reports "@ + text::signed_decimal(version as int)
                        + " (rebuild libllingr to match this crate)"@,
                )
            }
        }),
{
}

/// The message for another contract version names the version that was expected
/// and the one that was reported.
pub proof fn mismatch_names_both_versions(expected: i32, reported: i32)
    ensures
        abi_mismatch_message(expected, reported) == "llingr ABI mismatch: crate expects "@
            + text::signed_decimal(expected as int) + ", library reports "@ + text::signed_decimal(
            reported as int,
        ) + " (rebuild libllingr to match this crate)"@,
        text::whole_number_in(text::signed_decimal(expected as int)) == Some(expected as int),
        text::whole_number_in(text::signed_decimal(reported as int)) == Some(reported as int),
{
    text::signed_decimal_stands_for_its_number(expected as int);
    text::signed_decimal_stands_for_its_number(reported as int);
}

/// Under the lock a second engine is refused, and so is a document with a NUL
/// in it; otherwise the metrics come next where they are active, and the
/// handler set where they are not.
pub proof fn lock_decides_how_a_build_goes_on(plan: PlanModel, inited: bool)
    ensures
        ({
            let (stage, action) = next(plan, EventModel::Locked { inited });
            let has_nul = exists|i: int| 0 <= i < plan.json.len() && #[trigger] plan.json[i] == '\0';
            if inited {
                stage == Stage::Failed && refuses(
                    action,
                    -1,
                    "only one llingr instance per process"@,
                )
            } else if has_nul {
                stage == Stage::Failed && refuses(
                    action,
                    -2,
                    "configuration contains an interior NUL byte"@,
                )
            } else if plan.metrics {
                stage == Stage::AwaitMetrics && action is Realise
            } else {
                stage == Stage::AwaitPublish && action is Publish
            }
        }),
{
    let has_nul = exists|i: int| 0 <= i < plan.json.len() && #[trigger] plan.json[i] == '\0';
    if plan.json.contains('\0') {
        let i = plan.json.index_of('\0');
        assert(plan.json[i] == '\0');
    }
    assert(holds_nul(plan.json) <==> has_nul);
}

/// Metrics that are in effect let the handler set go in; metrics that could not
/// be put into effect are reported with code -6 and the reason as it was given.
pub proof fn metrics_come_before_the_handlers(plan: PlanModel, reason: Seq<char>)
    ensures
        next(plan, EventModel::MetricsReady).0 == Stage::AwaitPublish,
        next(plan, EventModel::MetricsReady).1 is Publish,
        next(plan, EventModel::MetricsFailed { text: reason }).0 == Stage::Failed,
        refuses(next(plan, EventModel::MetricsFailed { text: reason }).1, -6, reason),
{
}

/// A handler set that took the place of another makes room for it again; one
/// that took no place lets the engine start, on the plan's own document and
/// with the bandwidth callback exactly where metrics are active.
pub proof fn published_handlers_let_the_engine_start(plan: PlanModel)
    ensures
        ({
            let (stage, action) = next(plan, EventModel::Published { previous: true });
            &&& stage == Stage::Failed
            &&& action matches ActionModel::Restore { error }
            &&& error.code == -1
            &&& error.message == "handler set already published"@
        }),
        ({
            let (stage, action) = next(plan, EventModel::Published { previous: false });
            &&& stage == Stage::AwaitInit
            &&& action matches ActionModel::Initialise { json, bandwidth }
            &&& json == plan.json
            &&& bandwidth == plan.metrics
        }),
{
}

/// The engine is up exactly when its start returned 0. Any other code is
/// reported as it is, with the bytes that the engine wrote for it or, where it
/// wrote none, with the text for the code.
pub proof fn failed_start_is_reported_with_its_code(
    plan: PlanModel,
    rc: i32,
    err_buf: Seq<u8>,
    err_len: i32,
)
    ensures
        ({
            let (stage, action) = next(plan, EventModel::Initialised { rc, err_buf, err_len });
            if rc == 0 {
                stage == Stage::Done && action is Finish
            } else {
                &&& stage == Stage::Failed
                &&& action matches ActionModel::Withdraw { error }
                &&& error.code == rc
                &&& err_len > 0 ==> error.message == foreign::lossy_utf8(
                    err_buf.subrange(0, err_len as int),
                )
                &&& err_len <= 0 ==> error.message == (match rc {
                    -1 => "already initialised"@,
                    -2 => "invalid configuration JSON"@,
                    -3 => "missing required config (brokers, topic, or consumer_group)"@,
                    -4 => "failed to create adapter or connect to broker"@,
                    -5 => "invalid adapter or engine option"@,
                    _ => "unknown initialisation error"@,
                })
            }
        }),
        err_len > 0 ==> init_failure(rc, err_buf, err_len) == foreign::lossy_utf8(
            err_buf.subrange(0, err_len as int),
        ),
        err_len <= 0 ==> init_failure(rc, err_buf, err_len) == (match rc {
            -1 => "already initialised"@,
            -2 => "invalid configuration JSON"@,
            -3 => "missing required config (brokers, topic, or consumer_group)"@,
            -4 => "failed to create adapter or connect to broker"@,
            -5 => "invalid adapter or engine option"@,
            _ => "unknown initialisation error"@,
        }),
{
}

/// A run that ended with a code is reported with the text for that code.
pub proof fn ended_run_is_reported_with_its_text(rc: i32)
    ensures
        run_failure(rc) == (match rc {
            -1 => "engine not initialised"@,
            -2 => "subscribe failed"@,
            -3 => "engine panicked (recovered at FFI boundary)"@,
            _ => "unknown runtime error"@,
        }),
{
}

/// A failure has the code and the message that it was given.
pub proof fn failures_are_reported_as_given(code: int, message: Seq<char>)
    ensures
        failure(code, message).code == code,
        failure(code, message).message == message,
{
}

/// The plan of a builder goes by what was given to the builder: the first
/// failure of its options, the document of its settings, and its metrics.
pub proof fn plan_goes_by_what_was_given<P, D, S>(builder: BuilderModel<P, D, S>)
    ensures
        builder.plan().deferred_error == builder.broker.deferred_error,
        builder.plan().json == config::config_document(
            builder.topic,
            builder.broker,
            builder.demux,
            builder.service,
            builder.stats,
            builder.flush,
        ),
        builder.plan().metrics <==> builder.metrics is Some,
        builder.plan().serves <==> builder.metrics matches Some(MetricsModel::Serve { .. }),
{
}

/// Metrics that are put into effect are labelled with the consumer's topic and
/// group and with the service and team that were given, each in its place, and
/// are exposed as they were activated.
pub proof fn realised_metrics_name_their_consumer(
    r: RealisedMetrics,
    activation: MetricsModel,
    topic: Seq<char>,
    group: Seq<char>,
    service: Option<Pair>,
)
    requires
        realises(r, activation, topic, group, service),
    ensures
        r.message_sink.identity.topic@ == topic,
        r.message_sink.identity.consumer_group@ == group,
        service matches Some((name, team)) ==> {
            &&& r.message_sink.identity.service@ == name
            &&& r.message_sink.identity.team@ == team
            &&& r.bandwidth_sink.identity.service@ == name
            &&& r.bandwidth_sink.identity.team@ == team
        },
        service is None ==> {
            &&& r.message_sink.identity.service@.len() == 0
            &&& r.message_sink.identity.team@.len() == 0
            &&& r.bandwidth_sink.identity.service@.len() == 0
            &&& r.bandwidth_sink.identity.team@.len() == 0
        },
        match activation {
            MetricsModel::Serve { addr, path } => r.mode matches Mode::Serve(e) && e.addr@ == addr
                && e.path@ == path,
            MetricsModel::Registry { slot } => r.mode == Mode::Registry(slot),
        },
{
}

/// An identity and an activation are taken as they were given.
pub proof fn optional_parts_are_taken_as_given(
    service: Option<(String, String)>,
    metrics: Option<Metrics>,
)
    ensures
        service is None <==> identity_of(service) is None,
        service matches Some(s) ==> identity_of(service) == Some((s.0@, s.1@)),
        metrics is None <==> activation_of(metrics) is None,
        metrics matches Some(m) ==> activation_of(metrics) == Some(m@),
{
}

} // verus!
