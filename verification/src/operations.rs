//! What the public operations come to: for every result that an operation can
//! have, how it relates to what the operation was given.

use crate::config;
use crate::config::{config_json, BrokerConfig, DemuxConfig};
use crate::engine::{run_result, take_snapshot_json, BuildParts, Builder, Llingr, LlingrError};
use crate::ffi::{BrokerInfoRaw, HeaderRaw, PartitionBandwidthRaw};
use crate::foreign;
use crate::logging::{log_record, LogLevel, LogRecord, LogRouter};
use crate::metrics;
use crate::metrics::{
    bind_failure_text, route, Answer, BandwidthMetrics, BandwidthOptions, BandwidthSink,
    MessageMetrics, MessageOptions, MessageSink, Metrics, MetricsHandle, MetricsModel,
    RealisedMetrics, ScrapeReply, Series, SeriesKind, Slot, Update, OPENMETRICS_CONTENT_TYPE,
};
use crate::options;
use crate::options::{
    Adapter, AutoOffsetReset, BalanceStrategy, ClientLogLevel, Options, OptionsModel,
    SaslMechanism, SaslModel,
};
use crate::pairs;
use crate::producer;
use crate::producer::{broker_list, partition_for, sample_order, Order};
use crate::snapshot::Snapshot;
use crate::text;
use crate::text::OptionText;
use crate::trampolines;
use crate::trampolines::{
    borrowed_len, deadletter_error, deadletter_reply, decode_bandwidth, decode_message,
    decode_metrics, decode_timestamp, process_reply, shutdown_reason, DeadLetterOutcome, ErrorSlot,
    Message, ProcessOutcome, ProcessReply, Timestamp,
};
use std::time::Duration;
use vstd::prelude::*;
use vstd::utf8::*;

verus! {

// ---------------------------------------------------------------------------
// Client options
// ---------------------------------------------------------------------------

/// The builder has one client option more, and everything else as before.
pub open spec fn adds(
    before: OptionsModel,
    after: OptionsModel,
    key: Seq<char>,
    value: Seq<char>,
) -> bool {
    &&& after.entries == before.entries.push((key, value))
    &&& after.tls == before.tls
    &&& after.ssl_entries == before.ssl_entries
    &&& after.sasl == before.sasl
}

/// The builder has one client option more, whose value is this number.
pub open spec fn adds_number(
    before: OptionsModel,
    after: OptionsModel,
    key: Seq<char>,
    n: int,
) -> bool {
    &&& after.entries.len() > 0
    &&& adds(before, after, key, after.entries.last().1)
    &&& text::number_in(after.entries.last().1) == Some(n as nat)
}

/// The builder has one client option more, whose value is the least number of
/// milliseconds that covers the duration.
pub open spec fn adds_span(
    before: OptionsModel,
    after: OptionsModel,
    key: Seq<char>,
    d: Duration,
) -> bool {
    &&& after.entries.len() > 0
    &&& adds(before, after, key, after.entries.last().1)
    &&& text::number_in(after.entries.last().1) matches Some(ms)
    &&& foreign::duration_nanos(d) <= ms * 1_000_000 < foreign::duration_nanos(d) + 1_000_000
}

/// The builder has TLS enabled and these TLS options more, and everything else
/// as before.
pub open spec fn adds_tls(
    before: OptionsModel,
    after: OptionsModel,
    more: Seq<pairs::Pair>,
) -> bool {
    &&& after.tls
    &&& after.ssl_entries =~= before.ssl_entries + more
    &&& after.entries == before.entries
    &&& after.sasl == before.sasl
}

/// The builder has this SASL configuration, TLS enabled if it was or must be,
/// and everything else as before.
pub open spec fn selects(
    before: OptionsModel,
    after: OptionsModel,
    sasl: SaslModel,
    tls: bool,
) -> bool {
    &&& after.sasl == Some(sasl)
    &&& after.tls == (before.tls || tls)
    &&& after.entries == before.entries
    &&& after.ssl_entries == before.ssl_entries
}

/// A setter of a text adds exactly that text, under its own key.
pub proof fn text_options_add_their_entry(o: Options, s: &str)
    ensures
        forall|r: Options| #[trigger]
            call_ensures(Options::client_id, (o, s), r) ==> adds(o@, r@, "client.id"@, s@),
        forall|r: Options| #[trigger]
            call_ensures(Options::group_instance_id, (o, s), r) ==> adds(
                o@,
                r@,
                "group.instance.id"@,
                s@,
            ),
        forall|r: Options| #[trigger]
            call_ensures(Options::rack, (o, s), r) ==> adds(o@, r@, "client.rack"@, s@),
{
}

/// A setter of a count adds exactly that number, under its own key.
pub proof fn count_options_add_their_entry(o: Options, n: u32)
    ensures
        forall|r: Options| #[trigger]
            call_ensures(Options::fetch_min_bytes, (o, n), r) ==> adds_number(
                o@,
                r@,
                "fetch.min.bytes"@,
                n as int,
            ),
        forall|r: Options| #[trigger]
            call_ensures(Options::fetch_max_bytes, (o, n), r) ==> adds_number(
                o@,
                r@,
                "fetch.max.bytes"@,
                n as int,
            ),
        forall|r: Options| #[trigger]
            call_ensures(Options::max_partition_fetch_bytes, (o, n), r) ==> adds_number(
                o@,
                r@,
                "max.partition.fetch.bytes"@,
                n as int,
            ),
        forall|r: Options| #[trigger]
            call_ensures(Options::request_retries, (o, n), r) ==> adds_number(
                o@,
                r@,
                "llingr.request.retries"@,
                n as int,
            ),
        forall|r: Options| #[trigger]
            call_ensures(Options::max_concurrent_fetches, (o, n), r) ==> adds_number(
                o@,
                r@,
                "llingr.max.concurrent.fetches"@,
                n as int,
            ),
{
    text::decimal_stands_for_its_number(n as nat);
}

/// A setter of a duration adds the least number of milliseconds that covers it,
/// under its own key.
pub proof fn duration_options_add_their_entry(o: Options, d: Duration)
    ensures
        forall|r: Options| #[trigger]
            call_ensures(Options::session_timeout, (o, d), r) ==> adds_span(
                o@,
                r@,
                "session.timeout.ms"@,
                d,
            ),
        forall|r: Options| #[trigger]
            call_ensures(Options::heartbeat_interval, (o, d), r) ==> adds_span(
                o@,
                r@,
                "heartbeat.interval.ms"@,
                d,
            ),
        forall|r: Options| #[trigger]
            call_ensures(Options::rebalance_timeout, (o, d), r) ==> adds_span(
                o@,
                r@,
                "rebalance.timeout.ms"@,
                d,
            ),
        forall|r: Options| #[trigger]
            call_ensures(Options::fetch_max_wait, (o, d), r) ==> adds_span(
                o@,
                r@,
                "fetch.max.wait.ms"@,
                d,
            ),
        forall|r: Options| #[trigger]
            call_ensures(Options::metadata_max_age, (o, d), r) ==> adds_span(
                o@,
                r@,
                "metadata.max.age.ms"@,
                d,
            ),
        forall|r: Options| #[trigger]
            call_ensures(Options::dial_timeout, (o, d), r) ==> adds_span(
                o@,
                r@,
                "socket.connection.setup.timeout.ms"@,
                d,
            ),
        forall|r: Options| #[trigger]
            call_ensures(Options::connection_idle_timeout, (o, d), r) ==> adds_span(
                o@,
                r@,
                "connections.max.idle.ms"@,
                d,
            ),
        forall|r: Options| #[trigger]
            call_ensures(Options::retry_timeout, (o, d), r) ==> adds_span(
                o@,
                r@,
                "llingr.retry.timeout.ms"@,
                d,
            ),
        forall|r: Options| #[trigger]
            call_ensures(Options::poll_error_bail_after, (o, d), r) ==> adds_span(
                o@,
                r@,
                "llingr.poll.error.bail.after.ms"@,
                d,
            ),
        forall|r: Options| #[trigger]
            call_ensures(Options::poll_error_log_interval, (o, d), r) ==> adds_span(
                o@,
                r@,
                "llingr.poll.error.log.interval.ms"@,
                d,
            ),
        forall|r: Options| #[trigger]
            call_ensures(Options::poll_error_backoff, (o, d), r) ==> adds_span(
                o@,
                r@,
                "llingr.poll.error.backoff.ms"@,
                d,
            ),
{
    text::decimal_stands_for_its_number(config::whole_millis(d));
    config::whole_millis_is_the_least_that_covers(d);
}

/// A setter without a value adds the value it stands for, under its own key.
pub proof fn switches_add_their_entry(o: Options)
    ensures
        forall|r: Options| #[trigger]
            call_ensures(Options::allow_auto_topic_creation, (o,), r) ==> adds(
                o@,
                r@,
                "allow.auto.create.topics"@,
                "true"@,
            ),
        forall|r: Options| #[trigger]
            call_ensures(Options::disable_fetch_crc_validation, (o,), r) ==> adds(
                o@,
                r@,
                "check.crcs"@,
                "false"@,
            ),
        forall|r: Options| #[trigger]
            call_ensures(Options::disable_client_metrics_push, (o,), r) ==> adds(
                o@,
                r@,
                "enable.metrics.push"@,
                "false"@,
            ),
{
}

/// A setter of a named value adds its name on the wire.
pub proof fn named_options_add_their_entry(
    o: Options,
    level: ClientLogLevel,
    reset: AutoOffsetReset,
)
    ensures
        forall|r: Options| #[trigger]
            call_ensures(Options::client_log_level, (o, level), r) ==> adds(
                o@,
                r@,
                "llingr.client.log.level"@,
                match level {
                    ClientLogLevel::Off => "none"@,
                    ClientLogLevel::Error => "error"@,
                    ClientLogLevel::Warn => "warn"@,
                    ClientLogLevel::Info => "info"@,
                    ClientLogLevel::Debug => "debug"@,
                },
            ),
        forall|r: Options| #[trigger]
            call_ensures(Options::auto_offset_reset, (o, reset), r) ==> adds(
                o@,
                r@,
                "auto.offset.reset"@,
                match reset {
                    AutoOffsetReset::Earliest => "earliest"@,
                    AutoOffsetReset::Latest => "latest"@,
                },
            ),
{
}

/// Assignment strategies are named in one option, in order of preference; taken
/// apart at its commas, the option gives their names again.
pub proof fn strategies_are_named_in_order_of_preference(
    o: Options,
    strategies: &[BalanceStrategy],
    r: Options,
)
    requires
        call_ensures(Options::partition_assignment_strategy, (o, strategies), r),
    ensures
        r@.entries.len() > 0,
        adds(o@, r@, "partition.assignment.strategy"@, r@.entries.last().1),
        strategies@.len() == 0 ==> r@.entries.last().1.len() == 0,
        strategies@.len() > 0 ==> producer::pieces(r@.entries.last().1) == Seq::new(
            strategies@.len(),
            |i: int|
                match strategies@[i] {
                    BalanceStrategy::CooperativeSticky => "cooperative-sticky"@,
                    BalanceStrategy::Sticky => "sticky"@,
                    BalanceStrategy::RoundRobin => "roundrobin"@,
                    BalanceStrategy::Range => "range"@,
                },
        ),
{
    let value = r@.entries.last().1;
    if strategies@.len() > 0 {
        options::strategies_keep_their_order(strategies@, 0);
        assert forall|i: int| 0 <= i < strategies@.len() implies #[trigger] producer::pieces(
            value,
        )[i] == strategies@[i].name() by {
            options::strategies_keep_their_order(strategies@, i);
        }
        assert(producer::pieces(value) =~= Seq::new(
            strategies@.len(),
            |i: int|
                match strategies@[i] {
                    BalanceStrategy::CooperativeSticky => "cooperative-sticky"@,
                    BalanceStrategy::Sticky => "sticky"@,
                    BalanceStrategy::RoundRobin => "roundrobin"@,
                    BalanceStrategy::Range => "range"@,
                },
        ));
    } else {
        assert(options::strategy_names(strategies@) =~= seq![]);
    }
}

/// A string pair is added as it was given.
pub proof fn string_pairs_add_their_entry<K: OptionText, V: OptionText>(
    o: Options,
    key: K,
    value: V,
)
    ensures
        forall|r: Options| #[trigger]
            call_ensures(Options::kafka_option::<K, V>, (o, key, value), r) ==> adds(
                o@,
                r@,
                key.text(),
                value.text(),
            ),
{
}

/// Many string pairs are added in the order in which they were given.
pub proof fn many_string_pairs_are_added_in_order<K: OptionText, V: OptionText>(
    o: Options,
    given: Vec<(K, V)>,
    r: Options,
)
    requires
        call_ensures(Options::kafka_options::<K, V>, (o, given), r),
    ensures
        r@.entries == o@.entries + Seq::new(
            given@.len(),
            |i: int| (given@[i].0.text(), given@[i].1.text()),
        ),
        r@.tls == o@.tls,
        r@.ssl_entries == o@.ssl_entries,
        r@.sasl == o@.sasl,
{
    assert(options::given_texts(given@) =~= Seq::new(
        given@.len(),
        |i: int| (given@[i].0.text(), given@[i].1.text()),
    ));
}

/// A TLS setter enables TLS and adds its own options with the values it was
/// given.
pub proof fn tls_setters_enable_tls(o: Options, a: &str, b: &str)
    ensures
        forall|r: Options| #[trigger]
            call_ensures(Options::tls, (o,), r) ==> adds_tls(o@, r@, seq![]),
        forall|r: Options| #[trigger]
            call_ensures(Options::tls_ca_location, (o, a), r) ==> adds_tls(
                o@,
                r@,
                seq![("ssl.ca.location"@, a@)],
            ),
        forall|r: Options| #[trigger]
            call_ensures(Options::tls_ca_pem, (o, a), r) ==> adds_tls(
                o@,
                r@,
                seq![("ssl.ca.pem"@, a@)],
            ),
        forall|r: Options| #[trigger]
            call_ensures(Options::tls_client_certificate, (o, a, b), r) ==> adds_tls(
                o@,
                r@,
                seq![("ssl.certificate.location"@, a@), ("ssl.key.location"@, b@)],
            ),
        forall|r: Options| #[trigger]
            call_ensures(Options::tls_client_certificate_pem, (o, a, b), r) ==> adds_tls(
                o@,
                r@,
                seq![("ssl.certificate.pem"@, a@), ("ssl.key.pem"@, b@)],
            ),
        forall|r: Options| #[trigger]
            call_ensures(Options::disable_certificate_verification, (o,), r) ==> adds_tls(
                o@,
                r@,
                seq![("enable.ssl.certificate.verification"@, "false"@)],
            ),
        forall|r: Options| #[trigger]
            call_ensures(Options::disable_hostname_verification, (o,), r) ==> adds_tls(
                o@,
                r@,
                seq![("ssl.endpoint.identification.algorithm"@, "none"@)],
            ),
{
}

/// A new builder holds no option and no security.
pub proof fn new_builder_is_empty(r: Options)
    requires
        call_ensures(Options::new, (), r),
    ensures
        r@.entries.len() == 0,
        r@.ssl_entries.len() == 0,
        !r@.tls,
        r@.sasl is None,
{
}

/// A SASL setter selects its mechanism with exactly what it was given; the two
/// cloud mechanisms enable TLS as well.
pub proof fn sasl_setters_select_their_mechanism(o: Options, a: &str, b: &str, c: &str)
    ensures
        forall|r: Options| #[trigger]
            call_ensures(Options::sasl_plain, (o, a, b), r) ==> selects(
                o@,
                r@,
                SaslModel::UserPass {
                    mechanism: SaslMechanism::Plain,
                    username: a@,
                    password: b@,
                },
                false,
            ),
        forall|r: Options| #[trigger]
            call_ensures(Options::sasl_scram_sha256, (o, a, b), r) ==> selects(
                o@,
                r@,
                SaslModel::UserPass {
                    mechanism: SaslMechanism::ScramSha256,
                    username: a@,
                    password: b@,
                },
                false,
            ),
        forall|r: Options| #[trigger]
            call_ensures(Options::sasl_scram_sha512, (o, a, b), r) ==> selects(
                o@,
                r@,
                SaslModel::UserPass {
                    mechanism: SaslMechanism::ScramSha512,
                    username: a@,
                    password: b@,
                },
                false,
            ),
        forall|r: Options| #[trigger]
            call_ensures(Options::sasl_aws_msk_iam, (o,), r) ==> selects(
                o@,
                r@,
                SaslModel::AwsMskIam {
                    region: None,
                    profile: None,
                    role_arn: None,
                    role_session_name: None,
                },
                true,
            ),
        forall|r: Options| #[trigger]
            call_ensures(Options::sasl_oauthbearer_oidc, (o, a, b, c), r) ==> selects(
                o@,
                r@,
                SaslModel::OauthbearerOidc {
                    token_endpoint: a@,
                    client_id: b@,
                    client_secret: c@,
                    scope: None,
                    extensions: seq![],
                },
                false,
            ),
        forall|r: Options| #[trigger]
            call_ensures(Options::sasl_gcp_iam, (o,), r) ==> selects(
                o@,
                r@,
                SaslModel::GcpIam { principal: None, credentials_file: None },
                true,
            ),
{
}

/// A steering setter of the AWS mechanism changes its own value and no other,
/// and only while that mechanism is selected.
pub proof fn aws_setters_change_only_their_value(o: Options, a: &str, session: Option<&str>)
    ensures
        forall|r: Options| #[trigger]
            call_ensures(Options::aws_region, (o, a), r) ==> match o@.sasl {
                Some(
                    SaslModel::AwsMskIam { region, profile, role_arn, role_session_name },
                ) => selects(
                    o@,
                    r@,
                    SaslModel::AwsMskIam {
                        region: Some(a@),
                        profile,
                        role_arn,
                        role_session_name,
                    },
                    false,
                ),
                _ => r@ == o@,
            },
        forall|r: Options| #[trigger]
            call_ensures(Options::aws_profile, (o, a), r) ==> match o@.sasl {
                Some(
                    SaslModel::AwsMskIam { region, profile, role_arn, role_session_name },
                ) => selects(
                    o@,
                    r@,
                    SaslModel::AwsMskIam {
                        region,
                        profile: Some(a@),
                        role_arn,
                        role_session_name,
                    },
                    false,
                ),
                _ => r@ == o@,
            },
        forall|r: Options| #[trigger]
            call_ensures(Options::aws_assume_role, (o, a, session), r) ==> match o@.sasl {
                Some(
                    SaslModel::AwsMskIam { region, profile, role_arn, role_session_name },
                ) => selects(
                    o@,
                    r@,
                    SaslModel::AwsMskIam {
                        region,
                        profile,
                        role_arn: Some(a@),
                        role_session_name: match session {
                            None => None,
                            Some(name) => Some(name@),
                        },
                    },
                    false,
                ),
                _ => r@ == o@,
            },
{
}

/// A steering setter of the Google Cloud mechanism changes its own value and no
/// other, and only while that mechanism is selected.
pub proof fn gcp_setters_change_only_their_value(o: Options, a: &str)
    ensures
        forall|r: Options| #[trigger]
            call_ensures(Options::gcp_principal, (o, a), r) ==> match o@.sasl {
                Some(
                    SaslModel::GcpIam { principal, credentials_file },
                ) => selects(
                    o@,
                    r@,
                    SaslModel::GcpIam { principal: Some(a@), credentials_file },
                    false,
                ),
                _ => r@ == o@,
            },
        forall|r: Options| #[trigger]
            call_ensures(Options::gcp_credentials_file, (o, a), r) ==> match o@.sasl {
                Some(
                    SaslModel::GcpIam { principal, credentials_file },
                ) => selects(
                    o@,
                    r@,
                    SaslModel::GcpIam { principal, credentials_file: Some(a@) },
                    false,
                ),
                _ => r@ == o@,
            },
{
}

/// A steering setter of the OIDC mechanism changes its own value and no other,
/// and only while that mechanism is selected; extensions keep their order.
pub proof fn oidc_setters_change_only_their_value<K: OptionText, V: OptionText>(
    o: Options,
    a: &str,
    given: Vec<(K, V)>,
)
    ensures
        forall|r: Options| #[trigger]
            call_ensures(Options::oauthbearer_scope, (o, a), r) ==> match o@.sasl {
                Some(
                    SaslModel::OauthbearerOidc {
                        token_endpoint,
                        client_id,
                        client_secret,
                        scope,
                        extensions,
                    },
                ) => selects(
                    o@,
                    r@,
                    SaslModel::OauthbearerOidc {
                        token_endpoint,
                        client_id,
                        client_secret,
                        scope: Some(a@),
                        extensions,
                    },
                    false,
                ),
                _ => r@ == o@,
            },
        forall|r: Options| #[trigger]
            call_ensures(Options::oauthbearer_extensions::<K, V>, (o, given), r) ==> match o@.sasl {
                Some(
                    SaslModel::OauthbearerOidc {
                        token_endpoint,
                        client_id,
                        client_secret,
                        scope,
                        extensions,
                    },
                ) => selects(
                    o@,
                    r@,
                    SaslModel::OauthbearerOidc {
                        token_endpoint,
                        client_id,
                        client_secret,
                        scope,
                        extensions: Seq::new(
                            given@.len(),
                            |i: int| (given@[i].0.text(), given@[i].1.text()),
                        ),
                    },
                    false,
                ),
                _ => r@ == o@,
            },
{
    assert(options::given_texts(given@) =~= Seq::new(
        given@.len(),
        |i: int| (given@[i].0.text(), given@[i].1.text()),
    ));
}

/// The value that takes effect under a key: the last one written.
pub open spec fn looked_up(entries: Seq<(String, String)>, key: Seq<char>) -> Option<Seq<char>> {
    pairs::last_value(pairs::pair_texts(entries), key)
}

/// What a builder emits starts with its client options and string pairs; the
/// protocol that takes effect is the one that TLS and SASL make together,
/// whatever was written before.
pub proof fn client_options_come_first(o: Options, r: Vec<(String, String)>)
    requires
        call_ensures(Options::entries, (&o,), r),
    ensures
        r@.len() >= o@.entries.len(),
        pairs::pair_texts(r@).take(o@.entries.len() as int) == o@.entries,
        !o@.tls && o@.sasl is None ==> r@.len() == o@.entries.len(),
        o@.tls || o@.sasl is Some ==> looked_up(r@, "security.protocol"@) == Some(
            if o@.tls && o@.sasl is Some {
                "sasl_ssl"@
            } else if o@.tls {
                "ssl"@
            } else {
                "sasl_plaintext"@
            },
        ),
{
    options::entries_come_out_in_order(o@);
    assert(pairs::pair_texts(r@).len() == r@.len());
    if o@.tls || o@.sasl is Some {
        options::computed_protocol_takes_effect(o@);
    }
}

/// Every TLS option that was set is emitted, in call order, behind the
/// protocol.
pub proof fn tls_options_are_emitted(o: Options, r: Vec<(String, String)>, i: int)
    requires
        call_ensures(Options::entries, (&o,), r),
        0 <= i < o@.ssl_entries.len(),
    ensures
        o@.entries.len() + 1 + i < r@.len(),
        pairs::pair_texts(r@)[o@.entries.len() + 1 + i] == o@.ssl_entries[i],
{
    options::entries_come_out_in_order(o@);
    let n = o@.entries.len() as int;
    let t = o@.ssl_entries.len() as int;
    assert(pairs::pair_texts(r@).len() == r@.len());
    assert(pairs::pair_texts(r@).subrange(n + 1, n + 1 + t)[i] == o@.ssl_entries[i]);
}

/// With a username and a password, both are found in what is emitted, as they
/// were given, with the name of their mechanism.
pub proof fn credentials_are_emitted(
    o: Options,
    r: Vec<(String, String)>,
    mechanism: SaslMechanism,
    username: Seq<char>,
    password: Seq<char>,
)
    requires
        call_ensures(Options::entries, (&o,), r),
        o@.sasl == Some(SaslModel::UserPass { mechanism, username, password }),
    ensures
        looked_up(r@, "sasl.mechanism"@) == Some(
            match mechanism {
                SaslMechanism::Plain => "PLAIN"@,
                SaslMechanism::ScramSha256 => "SCRAM-SHA-256"@,
                SaslMechanism::ScramSha512 => "SCRAM-SHA-512"@,
            },
        ),
        looked_up(r@, "sasl.username"@) == Some(username),
        looked_up(r@, "sasl.password"@) == Some(password),
{
    let sasl = SaslModel::UserPass { mechanism, username, password };
    options::username_and_password_come_through(mechanism, username, password, seq![]);
    options::mechanism_has_the_last_word(o@, sasl, "sasl.mechanism"@);
    options::mechanism_has_the_last_word(o@, sasl, "sasl.username"@);
    options::mechanism_has_the_last_word(o@, sasl, "sasl.password"@);
}

/// With the AWS mechanism, each steering value that was set is found in what is
/// emitted, whatever the others are.
pub proof fn aws_settings_are_emitted(
    o: Options,
    r: Vec<(String, String)>,
    region: Option<Seq<char>>,
    profile: Option<Seq<char>>,
    role_arn: Option<Seq<char>>,
    role_session_name: Option<Seq<char>>,
)
    requires
        call_ensures(Options::entries, (&o,), r),
        o@.sasl == Some(SaslModel::AwsMskIam { region, profile, role_arn, role_session_name }),
    ensures
        looked_up(r@, "sasl.mechanism"@) == Some("AWS_MSK_IAM"@),
        region matches Some(v) ==> looked_up(r@, "aws.region"@) == Some(v),
        profile matches Some(v) ==> looked_up(r@, "aws.profile"@) == Some(v),
        role_arn matches Some(v) ==> looked_up(r@, "aws.role.arn"@) == Some(v),
        role_session_name matches Some(v) ==> looked_up(r@, "aws.role.session.name"@) == Some(v),
{
    let sasl = SaslModel::AwsMskIam { region, profile, role_arn, role_session_name };
    options::aws_settings_come_through(region, profile, role_arn, role_session_name, seq![]);
    options::mechanism_has_the_last_word(o@, sasl, "sasl.mechanism"@);
    options::mechanism_has_the_last_word(o@, sasl, "aws.region"@);
    options::mechanism_has_the_last_word(o@, sasl, "aws.profile"@);
    options::mechanism_has_the_last_word(o@, sasl, "aws.role.arn"@);
    options::mechanism_has_the_last_word(o@, sasl, "aws.role.session.name"@);
}

/// With the Google Cloud mechanism, the principal and the key file that were
/// set are found in what is emitted, each whatever the other is.
pub proof fn gcp_settings_are_emitted(
    o: Options,
    r: Vec<(String, String)>,
    principal: Option<Seq<char>>,
    credentials_file: Option<Seq<char>>,
)
    requires
        call_ensures(Options::entries, (&o,), r),
        o@.sasl == Some(SaslModel::GcpIam { principal, credentials_file }),
    ensures
        looked_up(r@, "sasl.mechanism"@) == Some("OAUTHBEARER"@),
        looked_up(r@, "sasl.oauthbearer.method"@) == Some("gcp"@),
        principal matches Some(v) ==> looked_up(r@, "gcp.principal"@) == Some(v),
        credentials_file matches Some(v) ==> looked_up(r@, "gcp.credentials.file"@) == Some(v),
{
    let sasl = SaslModel::GcpIam { principal, credentials_file };
    options::gcp_settings_come_through(principal, credentials_file, seq![]);
    options::mechanism_has_the_last_word(o@, sasl, "sasl.mechanism"@);
    options::mechanism_has_the_last_word(o@, sasl, "sasl.oauthbearer.method"@);
    options::mechanism_has_the_last_word(o@, sasl, "gcp.principal"@);
    options::mechanism_has_the_last_word(o@, sasl, "gcp.credentials.file"@);
}

/// With the OIDC mechanism, the token endpoint, the client ID, the secret and
/// the scope are found in what is emitted, each whatever the others are.
pub proof fn oidc_settings_are_emitted(
    o: Options,
    r: Vec<(String, String)>,
    token_endpoint: Seq<char>,
    client_id: Seq<char>,
    client_secret: Seq<char>,
    scope: Option<Seq<char>>,
    extensions: Seq<pairs::Pair>,
)
    requires
        call_ensures(Options::entries, (&o,), r),
        o@.sasl == Some(
            SaslModel::OauthbearerOidc {
                token_endpoint,
                client_id,
                client_secret,
                scope,
                extensions,
            },
        ),
    ensures
        looked_up(r@, "sasl.mechanism"@) == Some("OAUTHBEARER"@),
        looked_up(r@, "sasl.oauthbearer.token.endpoint.url"@) == Some(token_endpoint),
        looked_up(r@, "sasl.oauthbearer.client.id"@) == Some(client_id),
        looked_up(r@, "sasl.oauthbearer.client.secret"@) == Some(client_secret),
        scope matches Some(v) ==> looked_up(r@, "sasl.oauthbearer.scope"@) == Some(v),
{
    let sasl = SaslModel::OauthbearerOidc {
        token_endpoint,
        client_id,
        client_secret,
        scope,
        extensions,
    };
    options::oidc_settings_come_through(
        token_endpoint,
        client_id,
        client_secret,
        scope,
        extensions,
        seq![],
    );
    options::mechanism_has_the_last_word(o@, sasl, "sasl.mechanism"@);
    options::mechanism_has_the_last_word(o@, sasl, "sasl.oauthbearer.token.endpoint.url"@);
    options::mechanism_has_the_last_word(o@, sasl, "sasl.oauthbearer.client.id"@);
    options::mechanism_has_the_last_word(o@, sasl, "sasl.oauthbearer.client.secret"@);
    options::mechanism_has_the_last_word(o@, sasl, "sasl.oauthbearer.scope"@);
}

/// A builder is refused exactly when some string pair has a key that the
/// security setters emit, or the other name of the SASL mechanism while one is
/// selected.
pub proof fn only_doubly_set_keys_are_refused(o: Options, r: Result<(), String>)
    requires
        call_ensures(Options::validate, (&o,), r),
    ensures
        r is Err <==> exists|i: int|
            0 <= i < o@.entries.len() && (pairs::holds_key(
                o@.security_entries(),
                (#[trigger] o@.entries[i]).0,
            ) || (o@.sasl is Some && o@.entries[i].0 == "sasl.mechanisms"@)),
{
    let m = o@;
    let ks = pairs::keys(m.entries);
    let refused = exists|i: int|
        0 <= i < m.entries.len() && (pairs::holds_key(
            m.security_entries(),
            (#[trigger] m.entries[i]).0,
        ) || (m.sasl is Some && m.entries[i].0 == "sasl.mechanisms"@));
    if !refused {
        options::other_keys_compose(m);
    } else {
        let i = choose|i: int|
            0 <= i < m.entries.len() && (pairs::holds_key(
                m.security_entries(),
                (#[trigger] m.entries[i]).0,
            ) || (m.sasl is Some && m.entries[i].0 == "sasl.mechanisms"@));
        let k = m.entries[i].0;
        assert(ks[i] == k);
        if pairs::holds_key(m.security_entries(), k) {
            let j = choose|j: int|
                0 <= j < m.security_entries().len() && #[trigger] m.security_entries()[j].0 == k;
            assert(pairs::keys(m.security_entries())[j] == k);
        }
        options::guarded_keys_are_the_emitted_ones(m, k);
        options::conflicts_are_exact_and_sorted(ks, m.typed_keys());
        assert(m.conflicting_keys().contains(k));
    }
}

/// The name of a mechanism, a strategy or a level is its name on the wire, and
/// options are written for franz-go.
pub proof fn names_on_the_wire_are_read_off(
    m: SaslMechanism,
    s: BalanceStrategy,
    l: ClientLogLevel,
    o: Options,
)
    ensures
        forall|r: &'static str| #[trigger]
            call_ensures(SaslMechanism::as_str, (&m,), r) ==> r@ == (match m {
                SaslMechanism::Plain => "PLAIN"@,
                SaslMechanism::ScramSha256 => "SCRAM-SHA-256"@,
                SaslMechanism::ScramSha512 => "SCRAM-SHA-512"@,
            }),
        forall|r: &'static str| #[trigger]
            call_ensures(BalanceStrategy::wire_name, (s,), r) ==> r@ == (match s {
                BalanceStrategy::CooperativeSticky => "cooperative-sticky"@,
                BalanceStrategy::Sticky => "sticky"@,
                BalanceStrategy::RoundRobin => "roundrobin"@,
                BalanceStrategy::Range => "range"@,
            }),
        forall|r: &'static str| #[trigger]
            call_ensures(ClientLogLevel::wire_name, (l,), r) ==> r@ == (match l {
                ClientLogLevel::Off => "none"@,
                ClientLogLevel::Error => "error"@,
                ClientLogLevel::Warn => "warn"@,
                ClientLogLevel::Info => "info"@,
                ClientLogLevel::Debug => "debug"@,
            }),
        forall|r: Adapter| #[trigger]
            call_ensures(Options::adapter, (&o,), r) ==> r is Franz,
{
}

/// Every entry that a builder emits shows with its key, and with its value
/// unless the key tells that it is a credential.
pub proof fn every_entry_shows_but_credentials(o: Options, r: Vec<(String, String)>, i: int)
    requires
        call_ensures(Options::redacted_entries, (&o,), r),
        0 <= i < o@.emitted().len(),
    ensures
        r@.len() == o@.emitted().len(),
        r@[i].0@ == o@.emitted()[i].0,
        r@[i].1@ == if options::is_secret(o@.emitted()[i].0) {
            "<redacted>"@
        } else {
            o@.emitted()[i].1
        },
{
    options::only_credentials_are_hidden(o@.emitted(), i);
    pairs::pair_texts_keep_their_order(r@);
    assert(pairs::pair_texts(r@)[i] == (r@[i].0@, r@[i].1@));
}

/// A refusal names every key that was set twice, between a fixed start and a
/// fixed end.
pub proof fn refusal_names_the_keys(o: Options, message: String, i: int)
    requires
        call_ensures(Options::validate, (&o,), Err::<(), String>(message)),
        0 <= i < o@.conflicting_keys().len(),
    ensures
        text::contains_text(message@, o@.conflicting_keys()[i]),
        message@ == "Options: security key(s) set both via typed setters and kafka_option(): "@
            + text::join(o@.conflicting_keys(), ", "@)
            + "; configure each key with one style only"@,
{
    options::conflict_report_names_every_key(o@.conflicting_keys(), i);
}

// ---------------------------------------------------------------------------
// Configuration
// ---------------------------------------------------------------------------

/// New tunables are all unset.
pub proof fn new_tunables_are_unset(r: DemuxConfig)
    requires
        call_ensures(DemuxConfig::new, (), r),
    ensures
        r.concurrent_keys is None,
        r.per_key_buffer_len is None,
        r.commit_ingest_channel_len is None,
        r.commit_partition_slice_len is None,
        r.worker_shards_count is None,
        r.poll_timeout is None,
        r.auto_commit_interval is None,
        r.drain_timeout is None,
        r.await_assignments_timeout is None,
        r.query_timeout is None,
        r.acquire_worker_timeout_circuit_breaker is None,
        r.rebalance_pause_polling_timeout is None,
        r.acquire_commit_guard_timeout is None,
{
}

/// A setter of a tunable sets it to what it was given and changes no other.
pub proof fn tunable_setters_change_only_their_value(c: DemuxConfig, n: u32, d: Duration)
    ensures
        forall|r: DemuxConfig| #[trigger]
            call_ensures(DemuxConfig::concurrent_keys, (c, n), r) ==> r == (DemuxConfig {
                concurrent_keys: Some(n),
                ..c
            }),
        forall|r: DemuxConfig| #[trigger]
            call_ensures(DemuxConfig::per_key_buffer_len, (c, n), r) ==> r == (DemuxConfig {
                per_key_buffer_len: Some(n),
                ..c
            }),
        forall|r: DemuxConfig| #[trigger]
            call_ensures(DemuxConfig::commit_ingest_channel_len, (c, n), r) ==> r == (DemuxConfig {
                commit_ingest_channel_len: Some(n),
                ..c
            }),
        forall|r: DemuxConfig| #[trigger]
            call_ensures(DemuxConfig::commit_partition_slice_len, (c, n), r) ==> r == (DemuxConfig {
                commit_partition_slice_len: Some(n),
                ..c
            }),
        forall|r: DemuxConfig| #[trigger]
            call_ensures(DemuxConfig::worker_shards_count, (c, n), r) ==> r == (DemuxConfig {
                worker_shards_count: Some(n),
                ..c
            }),
        forall|r: DemuxConfig| #[trigger]
            call_ensures(DemuxConfig::poll_timeout, (c, d), r) ==> r == (DemuxConfig {
                poll_timeout: Some(d),
                ..c
            }),
        forall|r: DemuxConfig| #[trigger]
            call_ensures(DemuxConfig::auto_commit_interval, (c, d), r) ==> r == (DemuxConfig {
                auto_commit_interval: Some(d),
                ..c
            }),
        forall|r: DemuxConfig| #[trigger]
            call_ensures(DemuxConfig::drain_timeout, (c, d), r) ==> r == (DemuxConfig {
                drain_timeout: Some(d),
                ..c
            }),
        forall|r: DemuxConfig| #[trigger]
            call_ensures(DemuxConfig::await_assignments_timeout, (c, d), r) ==> r == (DemuxConfig {
                await_assignments_timeout: Some(d),
                ..c
            }),
        forall|r: DemuxConfig| #[trigger]
            call_ensures(DemuxConfig::query_timeout, (c, d), r) ==> r == (DemuxConfig {
                query_timeout: Some(d),
                ..c
            }),
        forall|r: DemuxConfig| #[trigger]
            call_ensures(DemuxConfig::acquire_worker_timeout_circuit_breaker, (c, d), r)
                ==> r == (DemuxConfig {
                acquire_worker_timeout_circuit_breaker: Some(d),
                ..c
            }),
        forall|r: DemuxConfig| #[trigger]
            call_ensures(DemuxConfig::rebalance_pause_polling_timeout, (c, d), r)
                ==> r == (DemuxConfig {
                rebalance_pause_polling_timeout: Some(d),
                ..c
            }),
        forall|r: DemuxConfig| #[trigger]
            call_ensures(DemuxConfig::acquire_commit_guard_timeout, (c, d), r)
                ==> r == (DemuxConfig {
                acquire_commit_guard_timeout: Some(d),
                ..c
            }),
{
}

/// A new broker configuration names no broker, no group and no option, and has
/// recorded no failure.
pub proof fn new_broker_configuration_is_empty(r: BrokerConfig)
    requires
        call_ensures(BrokerConfig::new, (), r),
    ensures
        r@.brokers.len() == 0,
        r@.consumer_group.len() == 0,
        r@.kafka_config.len() == 0,
        r@.deferred_error is None,
{
}

/// A setter of the broker configuration changes its own value and no other; a
/// client option is added behind the ones before.
pub proof fn broker_setters_change_only_their_value<K: OptionText, V: OptionText>(
    c: BrokerConfig,
    s: &str,
    key: K,
    value: V,
)
    ensures
        forall|r: BrokerConfig| #[trigger]
            call_ensures(BrokerConfig::brokers, (c, s), r) ==> {
                &&& r@.brokers == s@
                &&& r@.consumer_group == c@.consumer_group
                &&& r@.kafka_config == c@.kafka_config
                &&& r@.deferred_error == c@.deferred_error
            },
        forall|r: BrokerConfig| #[trigger]
            call_ensures(BrokerConfig::consumer_group, (c, s), r) ==> {
                &&& r@.brokers == c@.brokers
                &&& r@.consumer_group == s@
                &&& r@.kafka_config == c@.kafka_config
                &&& r@.deferred_error == c@.deferred_error
            },
        forall|r: BrokerConfig| #[trigger]
            call_ensures(BrokerConfig::kafka_option::<K, V>, (c, key, value), r) ==> {
                &&& r@.brokers == c@.brokers
                &&& r@.consumer_group == c@.consumer_group
                &&& r@.kafka_config == c@.kafka_config.push((key.text(), value.text()))
                &&& r@.deferred_error == c@.deferred_error
            },
{
}

/// Client options are appended whether they are valid or not, and of all
/// failures the first one is recorded, with its text.
pub proof fn options_are_appended_and_the_first_failure_kept(
    c: BrokerConfig,
    validation: Result<(), String>,
    entries: Vec<(String, String)>,
    r: BrokerConfig,
)
    requires
        call_ensures(BrokerConfig::adapter_options, (c, validation, entries), r),
    ensures
        r@.kafka_config.len() == c@.kafka_config.len() + entries@.len(),
        forall|i: int|
            0 <= i < c@.kafka_config.len() ==> #[trigger] r@.kafka_config[i] == c@.kafka_config[i],
        forall|i: int|
            0 <= i < entries@.len() ==> #[trigger] r@.kafka_config[c@.kafka_config.len() + i] == (
                entries@[i].0@,
                entries@[i].1@,
            ),
        c@.deferred_error is Some ==> r@.deferred_error == c@.deferred_error,
        c@.deferred_error is None && validation is Ok ==> r@.deferred_error is None,
        c@.deferred_error is None ==> (validation matches Err(message)
            ==> r@.deferred_error == Some(message@)),
        r@.brokers == c@.brokers,
        r@.consumer_group == c@.consumer_group,
{
    pairs::pair_texts_keep_their_order(entries@);
}

/// The recorded failure and the consumer group are read as they were set.
pub proof fn broker_configuration_is_read_as_set(c: BrokerConfig)
    ensures
        forall|r: Option<&str>| #[trigger]
            call_ensures(BrokerConfig::deferred_error, (&c,), r) ==> (match r {
                None => c@.deferred_error is None,
                Some(message) => c@.deferred_error == Some(message@),
            }),
        forall|r: &str| #[trigger]
            call_ensures(BrokerConfig::consumer_group_value, (&c,), r) ==> r@ == c@.consumer_group,
{
}

/// Where an option was written more than once, the last value is the one that
/// is left, once.
pub proof fn repeated_options_are_resolved(
    c: BrokerConfig,
    r: Vec<(String, String)>,
    k: Seq<char>,
)
    requires
        call_ensures(BrokerConfig::deduped_kafka_config, (&c,), r),
    ensures
        looked_up(r@, k) == pairs::last_value(c@.kafka_config, k),
        forall|i: int, j: int|
            0 <= i < j < r@.len() ==> #[trigger] r@[i].0@ != #[trigger] r@[j].0@,
{
    pairs::last_write_wins(c@.kafka_config, k);
    pairs::deduped_keys_are_unique(c@.kafka_config);
    pairs::pair_texts_keep_their_order(r@);
    let kept = pairs::pair_texts(r@);
    assert forall|i: int, j: int| 0 <= i < j < r@.len() implies #[trigger] r@[i].0@
        != #[trigger] r@[j].0@ by {
        assert(kept[i].0 == r@[i].0@ && kept[j].0 == r@[j].0@);
    }
}

// ---------------------------------------------------------------------------
// Producing
// ---------------------------------------------------------------------------

/// An order keeps the identity and the time it was given; five customers take
/// turns, the article changes every five orders, and quantity and price go by
/// the number of the order.
pub proof fn orders_are_numbered_through(i: u64, order_id: String, placed_at: String, r: Order)
    requires
        call_ensures(sample_order, (i, order_id, placed_at), r),
    ensures
        r.order_id@ == order_id@,
        r.placed_at@ == placed_at@,
        r.currency@ == "GBP"@,
        r.quantity == i % 5 + 1,
        r.unit_price_cents == 999 + i % 50 * 10,
        i <= usize::MAX ==> r.customer_id@ == producer::customer(i as int % 5),
        i <= usize::MAX ==> r.sku@ == producer::article(i as int / 5 % 5),
{
}

/// A key goes to the partition that is its hash modulo the number of
/// partitions; so equal keys go to equal partitions, and every partition
/// exists.
pub proof fn partition_is_the_hash_in_range(key: &str, partitions: i32, r: i32)
    requires
        call_ensures(partition_for, (key, partitions), r),
        partitions != 0,
    ensures
        r == (producer::key_hash(key@) % (partitions as u64)) as i32,
        partitions > 0 ==> r == producer::key_hash(key@) as int % partitions as int,
        partitions > 0 ==> 0 <= r < partitions,
{
    if partitions > 0 {
        producer::partition_is_the_remainder(key@, producer::key_hash(key@), partitions);
    }
}

// ---------------------------------------------------------------------------
// Log lines
// ---------------------------------------------------------------------------

/// An engine line is logged under the crate's own target, with its level and
/// its text.
pub proof fn log_lines_keep_level_and_text(
    router: LogRouter,
    level: LogLevel,
    line: &str,
    raw: i32,
    bytes: &[u8],
)
    ensures
        forall|r: LogRecord| #[trigger]
            call_ensures(LogRouter::log, (&router, level, line), r) ==> {
                &&& r.level == level
                &&& r.target@ == "llingr"@
                &&& r.message@ == line@
            },
        forall|r: LogRecord| #[trigger]
            call_ensures(log_record, (raw, bytes), r) ==> {
                &&& r.level is Debug <==> raw == 0
                &&& r.level is Warn <==> raw == 2
                &&& r.level is Error <==> raw == 3
                &&& r.target@ == "llingr"@
                &&& foreign::reads_as(bytes@, r.message@)
            },
{
}

// ---------------------------------------------------------------------------
// Building the engine
// ---------------------------------------------------------------------------

/// A new builder has the topic and the two handlers it was given, and nothing
/// else.
pub proof fn new_builder_takes_topic_and_handlers<P, D>(
    topic: &str,
    process: P,
    dead_letter: D,
    r: Builder<P, D, ()>,
)
    requires
        call_ensures(Builder::<P, D, ()>::new, (topic, process, dead_letter), r),
    ensures
        r@.topic == topic@,
        r@.process == process,
        r@.dead_letter == dead_letter,
        r@.shutdown is None,
        r@.metrics is None,
        r@.service is None,
        r@.stats is None,
        r@.flush is None,
        r@.broker.brokers.len() == 0,
        r@.broker.consumer_group.len() == 0,
        r@.broker.kafka_config.len() == 0,
        r@.broker.deferred_error is None,
        r@.demux.concurrent_keys is None,
        r@.demux.per_key_buffer_len is None,
        r@.demux.commit_ingest_channel_len is None,
        r@.demux.commit_partition_slice_len is None,
        r@.demux.worker_shards_count is None,
        r@.demux.poll_timeout is None,
        r@.demux.auto_commit_interval is None,
        r@.demux.drain_timeout is None,
        r@.demux.await_assignments_timeout is None,
        r@.demux.query_timeout is None,
        r@.demux.acquire_worker_timeout_circuit_breaker is None,
        r@.demux.rebalance_pause_polling_timeout is None,
        r@.demux.acquire_commit_guard_timeout is None,
{
}

/// A setter of the builder sets its own part to what it was given and changes
/// no other.
pub proof fn builder_setters_change_only_their_part<P, D, S>(
    b: Builder<P, D, S>,
    s: &str,
    t: &str,
    d: Duration,
    demux: DemuxConfig,
    metrics: Metrics,
)
    ensures
        forall|r: Builder<P, D, S>| #[trigger]
            call_ensures(Builder::<P, D, S>::brokers, (b, s), r) ==> {
                &&& r@.topic == b@.topic
                &&& r@.broker.brokers == s@
                &&& r@.broker.consumer_group == b@.broker.consumer_group
                &&& r@.broker.kafka_config == b@.broker.kafka_config
                &&& r@.broker.deferred_error == b@.broker.deferred_error
                &&& r@.demux == b@.demux
                &&& r@.service == b@.service
                &&& r@.stats == b@.stats
                &&& r@.flush == b@.flush
                &&& r@.metrics == b@.metrics
                &&& r@.process == b@.process
                &&& r@.dead_letter == b@.dead_letter
                &&& r@.shutdown == b@.shutdown
            },
        forall|r: Builder<P, D, S>| #[trigger]
            call_ensures(Builder::<P, D, S>::consumer_group, (b, s), r) ==> {
                &&& r@.topic == b@.topic
                &&& r@.broker.brokers == b@.broker.brokers
                &&& r@.broker.consumer_group == s@
                &&& r@.broker.kafka_config == b@.broker.kafka_config
                &&& r@.broker.deferred_error == b@.broker.deferred_error
                &&& r@.demux == b@.demux
                &&& r@.service == b@.service
                &&& r@.stats == b@.stats
                &&& r@.flush == b@.flush
                &&& r@.metrics == b@.metrics
                &&& r@.process == b@.process
                &&& r@.dead_letter == b@.dead_letter
                &&& r@.shutdown == b@.shutdown
            },
        forall|r: Builder<P, D, S>| #[trigger]
            call_ensures(Builder::<P, D, S>::demux, (b, demux), r) ==> {
                &&& r@.topic == b@.topic
                &&& r@.broker == b@.broker
                &&& r@.demux == demux
                &&& r@.service == b@.service
                &&& r@.stats == b@.stats
                &&& r@.flush == b@.flush
                &&& r@.metrics == b@.metrics
                &&& r@.process == b@.process
                &&& r@.dead_letter == b@.dead_letter
                &&& r@.shutdown == b@.shutdown
            },
        forall|r: Builder<P, D, S>| #[trigger]
            call_ensures(Builder::<P, D, S>::service, (b, s, t), r) ==> {
                &&& r@.topic == b@.topic
                &&& r@.broker == b@.broker
                &&& r@.demux == b@.demux
                &&& r@.service == Some((s@, t@))
                &&& r@.stats == b@.stats
                &&& r@.flush == b@.flush
                &&& r@.metrics == b@.metrics
                &&& r@.process == b@.process
                &&& r@.dead_letter == b@.dead_letter
                &&& r@.shutdown == b@.shutdown
            },
        forall|r: Builder<P, D, S>| #[trigger]
            call_ensures(Builder::<P, D, S>::metrics, (b, metrics), r) ==> {
                &&& r@.topic == b@.topic
                &&& r@.broker == b@.broker
                &&& r@.demux == b@.demux
                &&& r@.service == b@.service
                &&& r@.stats == b@.stats
                &&& r@.flush == b@.flush
                &&& r@.metrics == Some(metrics@)
                &&& r@.process == b@.process
                &&& r@.dead_letter == b@.dead_letter
                &&& r@.shutdown == b@.shutdown
            },
        forall|r: Builder<P, D, S>| #[trigger]
            call_ensures(Builder::<P, D, S>::bandwidth_stats_interval, (b, d), r) ==> {
                &&& r@.topic == b@.topic
                &&& r@.broker == b@.broker
                &&& r@.demux == b@.demux
                &&& r@.service == b@.service
                &&& r@.stats == Some(d)
                &&& r@.flush == b@.flush
                &&& r@.metrics == b@.metrics
                &&& r@.process == b@.process
                &&& r@.dead_letter == b@.dead_letter
                &&& r@.shutdown == b@.shutdown
            },
        forall|r: Builder<P, D, S>| #[trigger]
            call_ensures(Builder::<P, D, S>::bandwidth_flush_interval, (b, d), r) ==> {
                &&& r@.topic == b@.topic
                &&& r@.broker == b@.broker
                &&& r@.demux == b@.demux
                &&& r@.service == b@.service
                &&& r@.stats == b@.stats
                &&& r@.flush == Some(d)
                &&& r@.metrics == b@.metrics
                &&& r@.process == b@.process
                &&& r@.dead_letter == b@.dead_letter
                &&& r@.shutdown == b@.shutdown
            },
{
}

/// A shutdown handler is taken as it is given, and the builder keeps everything
/// else.
pub proof fn shutdown_handler_is_added<P, D, S, T>(b: Builder<P, D, S>, handler: T)
    ensures
        forall|r: Builder<P, D, T>| #[trigger]
            call_ensures(Builder::<P, D, S>::shutdown::<T>, (b, handler), r) ==> {
                &&& r@.topic == b@.topic
                &&& r@.broker == b@.broker
                &&& r@.demux == b@.demux
                &&& r@.service == b@.service
                &&& r@.stats == b@.stats
                &&& r@.flush == b@.flush
                &&& r@.metrics == b@.metrics
                &&& r@.process == b@.process
                &&& r@.dead_letter == b@.dead_letter
                &&& r@.shutdown == Some(handler)
            },
{
}

/// Client options given to a builder come behind the ones before, as they are
/// emitted; a set that is refused is recorded unless a failure was recorded
/// before.
pub proof fn builder_takes_what_the_options_emit<P, D, S>(
    b: Builder<P, D, S>,
    o: Options,
    r: Builder<P, D, S>,
)
    requires
        call_ensures(Builder::<P, D, S>::options, (b, o), r),
    ensures
        r@.broker.kafka_config == b@.broker.kafka_config + o@.emitted(),
        b@.broker.deferred_error is Some ==> r@.broker.deferred_error == b@.broker.deferred_error,
        b@.broker.deferred_error is None ==> (r@.broker.deferred_error is None
            <==> o@.conflicting_keys().len() == 0),
        b@.broker.deferred_error is None && o@.conflicting_keys().len() > 0
            ==> r@.broker.deferred_error == Some(
            options::conflict_message(o@.conflicting_keys()),
        ),
        r@.broker.brokers == b@.broker.brokers,
        r@.broker.consumer_group == b@.broker.consumer_group,
        r@.topic == b@.topic,
        r@.demux == b@.demux,
        r@.service == b@.service,
        r@.stats == b@.stats,
        r@.flush == b@.flush,
        r@.metrics == b@.metrics,
        r@.process == b@.process,
        r@.dead_letter == b@.dead_letter,
        r@.shutdown == b@.shutdown,
{
}

/// Building hands on the topic and the handlers as they were given, starts with
/// the document of the whole configuration, and has the metrics labelled with
/// the consumer that was given.
pub proof fn build_hands_on_what_was_given<P, D, S>(b: Builder<P, D, S>, r: BuildParts<P, D, S>)
    requires
        call_ensures(Builder::<P, D, S>::build, (b,), r),
    ensures
        r.topic@ == b@.topic,
        r.process == b@.process,
        r.dead_letter == b@.dead_letter,
        r.shutdown == b@.shutdown,
        r.build@.stage is Start,
        r.build@.plan.json == config::config_document(
            b@.topic,
            b@.broker,
            b@.demux,
            b@.service,
            b@.stats,
            b@.flush,
        ),
        r.build@.plan.deferred_error == b@.broker.deferred_error,
        r.build@.plan.metrics <==> b@.metrics is Some,
        r.build@.plan.serves <==> b@.metrics matches Some(MetricsModel::Serve { .. }),
        r.metrics is Some <==> b@.metrics is Some,
        r.metrics matches Some(realised) ==> {
            &&& realised.message_sink.identity.topic@ == b@.topic
            &&& realised.message_sink.identity.consumer_group@ == b@.broker.consumer_group
            &&& b@.service matches Some((name, team)) ==> {
                &&& realised.message_sink.identity.service@ == name
                &&& realised.message_sink.identity.team@ == team
                &&& realised.bandwidth_sink.identity.service@ == name
                &&& realised.bandwidth_sink.identity.team@ == team
            }
            &&& b@.service is None ==> {
                &&& realised.message_sink.identity.service@.len() == 0
                &&& realised.message_sink.identity.team@.len() == 0
                &&& realised.bandwidth_sink.identity.service@.len() == 0
                &&& realised.bandwidth_sink.identity.team@.len() == 0
            }
            &&& realised.mode@ == b@.metrics->0
        },
{
}

// ---------------------------------------------------------------------------
// Errors and results
// ---------------------------------------------------------------------------

/// An error has the code and the message it was made with, and shows both:
/// behind the fixed text stand the code, a colon and the message.
pub proof fn errors_show_code_and_message<T: OptionText>(code: i32, message: T)
    ensures
        forall|r: LlingrError| #[trigger]
            call_ensures(LlingrError::new::<T>, (code, message), r)
                ==> r@.code == code && r@.message == message.text(),
{
}

/// The code and the text of an error are those it was made with.
pub proof fn error_is_read_as_made(e: LlingrError)
    ensures
        forall|r: i32| #[trigger]
            call_ensures(LlingrError::code, (&e,), r) ==> r == e@.code,
        forall|r: String| #[trigger]
            call_ensures(LlingrError::to_string, (&e,), r)
                ==> r@ == "llingr error "@ + text::signed_decimal(
                e@.code,
            ) + ": "@ + e@.message,
{
}

/// The result is what this code of a run stands for.
pub open spec fn ends_with(rc: i32, r: Result<(), LlingrError>) -> bool {
    &&& r is Ok <==> rc == 0
    &&& r matches Err(e) ==> {
        &&& e@.code == rc
        &&& e@.message == if rc == -1 {
            "engine not initialised"@
        } else if rc == -2 {
            "subscribe failed"@
        } else if rc == -3 {
            "engine panicked (recovered at FFI boundary)"@
        } else {
            "unknown runtime error"@
        }
    }
}

/// A run has ended well exactly when its code is zero; otherwise the error has
/// the code, and the text that belongs to it.
pub proof fn run_ends_well_only_with_zero(rc: i32, handle: Llingr)
    ensures
        forall|r: Result<(), LlingrError>| #[trigger]
            call_ensures(run_result, (rc,), r) ==> ends_with(rc, r),
        forall|r: Result<(), LlingrError>| #[trigger]
            call_ensures(Llingr::run, (&handle, rc), r) ==> ends_with(rc, r),
{
}

/// The snapshot document is handed on as it reads; without a running engine
/// there is an error instead.
pub proof fn snapshot_document_is_handed_on(handle: Llingr, document: Option<&[u8]>)
    ensures
        forall|r: Result<String, LlingrError>| #[trigger]
            call_ensures(take_snapshot_json, (document,), r) ==> {
                &&& r is Ok <==> document is Some
                &&& r matches Ok(json) ==> foreign::reads_as(document->0@, json@)
                &&& r matches Err(e) ==> e@.code == -1 && e@.message == "engine not initialised"@
            },
        forall|r: Result<String, LlingrError>| #[trigger]
            call_ensures(Llingr::snapshot_json, (&handle, document), r) ==> {
                &&& r is Ok <==> document is Some
                &&& r matches Ok(json) ==> foreign::reads_as(document->0@, json@)
                &&& r matches Err(e) ==> e@.code == -1 && e@.message == "engine not initialised"@
            },
{
}

/// A parsed snapshot is handed on as it is; a document that does not parse is
/// an error that gives the reason, and no document is an error of its own.
pub proof fn parsed_snapshot_is_handed_on(
    handle: Llingr,
    parsed: Option<Result<Snapshot, String>>,
    r: Result<Snapshot, LlingrError>,
)
    requires
        call_ensures(Llingr::snapshot, (&handle, parsed), r),
    ensures
        parsed matches Some(Ok(given)) ==> r == Ok::<Snapshot, LlingrError>(given),
        parsed matches Some(Err(reason)) ==> (r matches Err(e) && e@.code == -2 && e@.message
            == "snapshot document did not parse: "@ + reason@),
        parsed is None ==> (r matches Err(e) && e@.code == -1 && e@.message
            == "engine not initialised"@),
{
}

// ---------------------------------------------------------------------------
// Metrics
// ---------------------------------------------------------------------------

/// The identity that labels the series is what was given, and what was not
/// given stays empty or as it was.
pub proof fn identities_are_taken_as_given<N: OptionText, T: OptionText>(
    m: MessageOptions,
    b: BandwidthOptions,
    a: N,
    t: T,
)
    ensures
        forall|r: MessageOptions| #[trigger]
            call_ensures(MessageOptions::new, (), r) ==> {
                &&& r.topic@.len() == 0
                &&& r.consumer_group@.len() == 0
                &&& r.service@.len() == 0
                &&& r.team@.len() == 0
            },
        forall|r: MessageOptions| #[trigger]
            call_ensures(MessageOptions::topic::<N>, (m, a), r) ==> {
                &&& r.topic@ == a.text()
                &&& r.consumer_group == m.consumer_group
                &&& r.service == m.service
                &&& r.team == m.team
            },
        forall|r: MessageOptions| #[trigger]
            call_ensures(MessageOptions::consumer_group::<N>, (m, a), r) ==> {
                &&& r.topic == m.topic
                &&& r.consumer_group@ == a.text()
                &&& r.service == m.service
                &&& r.team == m.team
            },
        forall|r: MessageOptions| #[trigger]
            call_ensures(MessageOptions::service::<N, T>, (m, a, t), r) ==> {
                &&& r.topic == m.topic
                &&& r.consumer_group == m.consumer_group
                &&& r.service@ == a.text()
                &&& r.team@ == t.text()
            },
        forall|r: BandwidthOptions| #[trigger]
            call_ensures(BandwidthOptions::new, (), r)
                ==> r.service@.len() == 0 && r.team@.len() == 0,
        forall|r: BandwidthOptions| #[trigger]
            call_ensures(BandwidthOptions::service::<N, T>, (b, a, t), r) ==> {
                &&& r.service@ == a.text()
                &&& r.team@ == t.text()
            },
{
}

/// A sink labels its series with the identity that it was registered with, and
/// brings its own series and no others.
pub proof fn sinks_have_the_given_identity(m: MessageOptions, b: BandwidthOptions, s: Series)
    ensures
        forall|r: (MessageSink, Vec<Series>)| #[trigger]
            call_ensures(MessageSink::register, (m,), r) ==> {
                &&& r.0.identity == m
                &&& r.1@.contains(s) <==> !s.is_bandwidth()
            },
        forall|r: (BandwidthSink, Vec<Series>)| #[trigger]
            call_ensures(BandwidthSink::register, (b,), r) ==> {
                &&& r.0.identity == b
                &&& r.1@.contains(s) <==> s.is_bandwidth()
            },
{
    metrics::every_series_is_registered_once(s);
}

/// A packet becomes the updates of its sink, in their order.
pub proof fn packets_become_their_updates(
    m: MessageSink,
    packet: &MessageMetrics,
    b: BandwidthSink,
    traffic: &BandwidthMetrics,
)
    ensures
        forall|r: Vec<Update>| #[trigger]
            call_ensures(MessageSink::handle, (&m, packet), r)
                ==> metrics::update_models(r@) == m.updates(*packet),
        forall|r: Vec<Update>| #[trigger]
            call_ensures(BandwidthSink::handle, (&b, traffic), r)
                ==> metrics::update_models(r@) == b.updates(*traffic),
{
}

/// The labels of a partition name the consumer and the partition, in the order
/// of the series.
pub proof fn message_labels_are_those_of_the_packet(
    m: MessageSink,
    partition: i32,
    r: Vec<(String, String)>,
)
    requires
        call_ensures(MessageSink::labels, (&m, partition), r),
    ensures
        r@.len() == 5,
        r@[0].0@ == "topic"@ && r@[0].1@ == m.identity.topic@,
        r@[1].0@ == "consumer_group"@ && r@[1].1@ == m.identity.consumer_group@,
        r@[2].0@ == "service"@ && r@[2].1@ == m.identity.service@,
        r@[3].0@ == "team"@ && r@[3].1@ == m.identity.team@,
        r@[4].0@ == "partition"@ && text::whole_number_in(r@[4].1@) == Some(partition as int),
{
    metrics::message_labels_name_consumer_and_partition(m, partition);
    metrics::partition_label_is_the_number(partition);
    pairs::pair_texts_keep_their_order(r@);
    let shown = pairs::pair_texts(r@);
    assert(shown[0].0 == r@[0].0@ && shown[1].0 == r@[1].0@ && shown[2].0 == r@[2].0@);
    assert(shown[3].0 == r@[3].0@ && shown[4].0 == r@[4].0@);
}

/// The name, the help text and the kind of a series are those of the catalogue,
/// and its subsystem goes by its sink.
pub proof fn series_are_described_as_catalogued(s: Series)
    ensures
        forall|r: &'static str| #[trigger]
            call_ensures(Series::name, (s,), r) ==> r@ == s.spec_name(),
        forall|r: &'static str| #[trigger]
            call_ensures(Series::help, (s,), r) ==> r@ == s.spec_help(),
        forall|r: SeriesKind| #[trigger]
            call_ensures(Series::kind, (s,), r) ==> r == s.spec_kind(),
        forall|r: &'static str| #[trigger]
            call_ensures(Series::subsystem, (s,), r)
                ==> r@ == if metrics::message_series().contains(s) {
                "engine"@
            } else {
                "bandwidth"@
            },
{
    metrics::every_series_is_registered_once(s);
}

/// An endpoint is activated with the address and the path it was given; a
/// registry is activated together with the handle that renders it.
pub proof fn activation_is_as_asked_for<N: OptionText, T: OptionText>(a: N, p: T)
    ensures
        forall|r: Metrics| #[trigger]
            call_ensures(Metrics::serve::<N, T>, (a, p), r) ==> r@ == (MetricsModel::Serve {
                addr: a.text(),
                path: p.text(),
            }),
        forall|r: (Metrics, MetricsHandle)| #[trigger]
            call_ensures(Metrics::registry, (), r)
                ==> (r.0@ matches MetricsModel::Registry { slot } && slot
                == r.1@),
{
}

/// Metrics that are put into effect label both sinks with the consumer they
/// were given, record every series once, and are exposed as they were
/// activated.
pub proof fn activation_is_put_into_effect_for_the_consumer(
    m: Metrics,
    topic: &str,
    group: &str,
    service: &str,
    team: &str,
    r: RealisedMetrics,
    s: Series,
)
    requires
        call_ensures(Metrics::realise, (m, topic, group, service, team), r),
    ensures
        r.message_sink.identity.topic@ == topic@,
        r.message_sink.identity.consumer_group@ == group@,
        r.message_sink.identity.service@ == service@,
        r.message_sink.identity.team@ == team@,
        r.bandwidth_sink.identity.service@ == service@,
        r.bandwidth_sink.identity.team@ == team@,
        r.series@.contains(s),
        r.series@.len() == 21,
        r.mode@ == m@,
{
    metrics::every_series_is_registered_once(s);
    if s.is_bandwidth() {
        let i = metrics::bandwidth_series().index_of(s);
        assert(r.series@[metrics::message_series().len() + i] == s);
    } else {
        let i = metrics::message_series().index_of(s);
        assert(r.series@[i] == s);
    }
}

/// A scrape gives what was rendered, and an empty exposition while there is
/// nothing to render.
pub proof fn scrape_gives_the_rendering(h: MetricsHandle, rendered: Option<String>)
    ensures
        forall|r: String| #[trigger]
            call_ensures(MetricsHandle::scrape, (&h, rendered), r) ==> (match rendered {
                Some(exposition) => r@ == exposition@,
                None => r@.len() == 0,
            }),
        forall|r: &Slot| #[trigger]
            call_ensures(MetricsHandle::slot, (&h,), r) ==> *r == h@,
{
}

proof fn target_starts_with_its_path(url: Seq<char>)
    ensures
        metrics::before_query(url).is_prefix_of(url),
        metrics::before_query(url).len() == url.len() || url[metrics::before_query(
            url,
        ).len() as int] == '?',
    decreases url.len(),
{
    if url.len() > 0 && url[0] != '?' {
        let rest = url.drop_first();
        target_starts_with_its_path(rest);
        let path = metrics::before_query(rest);
        let n = path.len() as int;
        assert forall|i: int| 0 <= i < path.len() implies #[trigger] path[i] == url[i + 1] by {
            assert(rest[i] == url[i + 1]);
        }
        assert(metrics::before_query(url) =~= url.take(n + 1));
        if n < rest.len() {
            assert(rest[n] == url[n + 1]);
        }
    }
}

/// A request for another path is answered with not found, whatever its method;
/// one for the path, with or without a query, with the exposition when it is a
/// GET, and else with not allowed.
pub proof fn requests_are_answered_by_path_and_method(
    is_get: bool,
    url: &str,
    path: &str,
    query: Seq<char>,
    r: ScrapeReply,
)
    requires
        call_ensures(route, (is_get, url, path), r),
        !path@.contains('?'),
    ensures
        url@ == path@ || url@ == path@ + seq!['?'] + query ==> r == if is_get {
            ScrapeReply::Exposition
        } else {
            ScrapeReply::MethodNotAllowed
        },
        !path@.is_prefix_of(url@) ==> r is NotFound,
        url@.len() > path@.len() && url@[path@.len() as int] != '?' ==> r is NotFound,
{
    if url@ == path@ {
        metrics::query_starts_at_the_first_question_mark(path@, seq![]);
    } else if url@ == path@ + seq!['?'] + query {
        metrics::query_starts_at_the_first_question_mark(path@, query);
    }
    if metrics::before_query(url@) == path@ {
        target_starts_with_its_path(url@);
    }
}

/// The exposition is sent as it is, with its content type; other answers have a
/// status alone.
pub proof fn only_the_exposition_has_a_body(reply: ScrapeReply, exposition: String, r: Answer)
    requires
        call_ensures(ScrapeReply::answer, (reply, exposition), r),
    ensures
        r.status == match reply {
            ScrapeReply::Exposition => 200u16,
            ScrapeReply::NotFound => 404u16,
            ScrapeReply::MethodNotAllowed => 405u16,
        },
        reply is Exposition ==> r.body@ == exposition@,
        reply is Exposition ==> (r.content_type matches Some(t) && t@ == OPENMETRICS_CONTENT_TYPE@),
        !(reply is Exposition) ==> r.body@.len() == 0 && r.content_type is None,
{
}

/// The text of an endpoint that cannot be bound names the address and gives the
/// error.
pub proof fn bind_failure_names_address_and_error(addr: &str, error: &str)
    ensures
        forall|r: String| #[trigger]
            call_ensures(bind_failure_text, (addr, error), r)
                ==> r@ == "metrics endpoint failed to bind "@ + addr@
                + ": "@ + error@,
{
}

/// An activation is listed with its mode, and an endpoint with its quoted
/// address and path; a handle with whether there is a registry behind it.
pub proof fn activation_is_listed(m: Metrics, h: MetricsHandle, realised: bool)
    ensures
        forall|r: String| #[trigger]
            call_ensures(Metrics::debug_text, (&m,), r) ==> (match m@ {
                MetricsModel::Serve { addr, path } => r@ == "Metrics { mode: \"serve\", addr: "@
                    + foreign::debug_quoted(addr) + ", path: "@ + foreign::debug_quoted(path)
                    + " }"@,
                MetricsModel::Registry { .. } => r@ == "Metrics { mode: \"registry\" }"@,
            }),
        forall|r: String| #[trigger]
            call_ensures(MetricsHandle::debug_text, (&h, realised), r) ==> r@ == if realised {
                "MetricsHandle { realised: true }"@
            } else {
                "MetricsHandle { realised: false }"@
            },
{
}

// ---------------------------------------------------------------------------
// Callbacks
// ---------------------------------------------------------------------------

/// An array is read at its whole length, but not at all behind a null pointer
/// or where its length is not positive.
pub proof fn nothing_is_read_behind_a_null_pointer(is_null: bool, len: i32)
    ensures
        forall|r: usize| #[trigger]
            call_ensures(borrowed_len, (is_null, len), r) ==> {
                &&& r > 0 <==> !is_null && len > 0
                &&& r > 0 ==> r == len
            },
{
}

/// A create time and an append time have exactly the milliseconds they were
/// given; no other kind has a time.
pub proof fn timestamps_keep_their_millis(kind: i8, millis: i64, r: Timestamp)
    requires
        call_ensures(decode_timestamp, (kind, millis), r),
    ensures
        kind == 1 ==> (r matches Timestamp::CreateTime { millis: given } && given == millis),
        kind == 2 ==> (r matches Timestamp::LogAppendTime { millis: given } && given == millis),
        kind != 1 && kind != 2 ==> r is NotAvailable,
{
}

/// A record is delivered with the key, the topic, the partition and the offset
/// it came with, its value unless that is null, its time, and all its headers
/// in order.
pub proof fn records_are_delivered_as_they_came(
    key: &[u8],
    value: &[u8],
    value_len: i32,
    topic: &str,
    partition: i32,
    offset: i64,
    kind: i8,
    millis: i64,
    headers: &[HeaderRaw<'_>],
    r: Message<'_>,
)
    requires
        call_ensures(
            decode_message,
            (key, value, value_len, topic, partition, offset, kind, millis, headers),
            r,
        ),
    ensures
        r.key matches Some(k) && k@ == key@,
        r.value is None <==> value_len < 0,
        r.value matches Some(v) ==> v@ == value@,
        r.topic@ == topic@,
        r.partition == partition,
        r.offset == offset,
        r.timestamp == if kind == 1 {
            Timestamp::CreateTime { millis }
        } else if kind == 2 {
            Timestamp::LogAppendTime { millis }
        } else {
            Timestamp::NotAvailable
        },
        r.headers@.len() == headers@.len(),
        forall|i: int|
            0 <= i < headers@.len() ==> {
                let got = #[trigger] r.headers@[i];
                let raw = headers@[i];
                &&& valid_utf8(raw.key@) ==> encode_utf8(got.key@) == raw.key@
                &&& !valid_utf8(raw.key@) ==> got.key@.len() == 0
                &&& got.value is None <==> raw.value_len < 0
                &&& got.value matches Some(v) ==> v@ == raw.value@
            },
{
    trampolines::null_values_are_told_from_empty_ones(r.value, value, value_len);
    assert forall|i: int| 0 <= i < headers@.len() implies {
        let got = #[trigger] r.headers@[i];
        let raw = headers@[i];
        &&& valid_utf8(raw.key@) ==> encode_utf8(got.key@) == raw.key@
        &&& !valid_utf8(raw.key@) ==> got.key@.len() == 0
        &&& got.value is None <==> raw.value_len < 0
        &&& got.value matches Some(v) ==> v@ == raw.value@
    } by {
        assert(r.headers[i] == r.headers@[i]);
        trampolines::headers_keep_key_and_value(r.headers@[i], headers@[i]);
    }
}

/// A metrics packet has every number of the callback in its own place.
pub proof fn metrics_packets_keep_their_numbers(
    traits: i64,
    queue_depth: i32,
    partition: i32,
    offset: i64,
    process_duration_ns: i64,
    deadletter_duration_ns: i64,
    read_time_ns: i64,
    process_start_time_ns: i64,
    watermark_advance_time_ns: i64,
    r: MessageMetrics,
)
    requires
        call_ensures(
            decode_metrics,
            (
                traits,
                queue_depth,
                partition,
                offset,
                process_duration_ns,
                deadletter_duration_ns,
                read_time_ns,
                process_start_time_ns,
                watermark_advance_time_ns,
            ),
            r,
        ),
    ensures
        r.traits == traits as u64,
        traits >= 0 ==> r.traits == traits,
        r.queue_depth == queue_depth,
        r.partition == partition,
        r.offset == offset,
        r.process_duration_ns == process_duration_ns,
        r.deadletter_duration_ns == deadletter_duration_ns,
        r.read_time_ns == read_time_ns,
        r.process_start_time_ns == process_start_time_ns,
        r.watermark_advance_time_ns == watermark_advance_time_ns,
{
}

/// A bandwidth packet has the times, the texts, the brokers and the partitions
/// of the callback, each broker and partition with its own values and in order.
pub proof fn bandwidth_packets_keep_their_contents(
    at: i64,
    interval: i64,
    id: &[u8],
    topic: &[u8],
    group: &[u8],
    brokers: &[BrokerInfoRaw<'_>],
    partitions: &[PartitionBandwidthRaw<'_>],
    r: BandwidthMetrics,
)
    requires
        call_ensures(
            decode_bandwidth,
            (at, interval, id, topic, group, brokers, partitions),
            r,
        ),
    ensures
        r.ts_unix_ns == at,
        r.stats_interval_ms == interval,
        foreign::reads_as(id@, r.metrics_id@),
        foreign::reads_as(topic@, r.topic@),
        foreign::reads_as(group@, r.consumer_group@),
        r.brokers@.len() == brokers@.len(),
        forall|i: int|
            0 <= i < brokers@.len() ==> {
                let got = #[trigger] r.brokers@[i];
                let raw = brokers@[i];
                &&& foreign::reads_as(raw.id@, got.id@)
                &&& foreign::reads_as(raw.host@, got.host@)
                &&& foreign::reads_as(raw.port@, got.port@)
                &&& foreign::reads_as(raw.rack@, got.rack@)
            },
        r.partitions@.len() == partitions@.len(),
        forall|i: int|
            0 <= i < partitions@.len() ==> {
                let got = #[trigger] r.partitions@[i];
                let raw = partitions@[i];
                &&& got.ts_unix_ns == raw.ts_unix_ns
                &&& got.received_bytes == raw.received_bytes
                &&& got.transmitted_bytes == raw.transmitted_bytes
                &&& got.received_message_count == raw.received_message_count
                &&& got.compressed_bytes == raw.compressed_bytes
                &&& got.uncompressed_bytes == raw.uncompressed_bytes
                &&& got.id == raw.id
                &&& foreign::reads_as(raw.leader@, got.leader@)
                &&& foreign::reads_as(raw.compression@, got.compression@)
            },
{
    assert(forall|i: int| #![auto] 0 <= i < r.brokers.len() ==> r.brokers[i] == r.brokers@[i]);
    assert(forall|i: int| #![auto]
        0 <= i < r.partitions.len() ==> r.partitions[i] == r.partitions@[i]);
}

/// A processed message is answered with code 0, without an error and, where
/// there is a place for them, with the application bits of its traits.
pub proof fn processed_message_is_answered_with_its_traits(
    traits: u64,
    traits_null: bool,
    slot: ErrorSlot,
    r: ProcessReply,
)
    requires
        call_ensures(process_reply, (ProcessOutcome::Processed { traits }, traits_null, slot), r),
    ensures
        r.code == 0,
        traits_null ==> r.traits is None,
        !traits_null ==> r.traits == Some((traits & !0x3ffu64) as i64),
        r.error is None,
        r.error_len == if slot.length_null {
            None
        } else {
            Some(0i32)
        },
{
}

/// The reply sends this error text back: only where there is room, the whole
/// text if it fits, and otherwise as many whole characters as do, with the
/// length of what is sent.
pub open spec fn sends_error(r: ProcessReply, slot: ErrorSlot, text: Seq<char>) -> bool {
    let whole = encode_utf8(text);
    &&& r.error is Some <==> !slot.buffer_null && !slot.length_null && slot.capacity > 0
    &&& r.error matches Some(sent) ==> {
        &&& valid_utf8(sent@)
        &&& decode_utf8(sent@).is_prefix_of(text)
        &&& sent@.len() <= slot.capacity
        &&& whole.len() <= slot.capacity ==> sent@ == whole
        &&& forall|m: int|
            sent@.len() < m <= slot.capacity && m <= whole.len() ==> !is_char_boundary(whole, m)
    }
    &&& r.error_len is None <==> slot.length_null
    &&& r.error_len matches Some(n) ==> n == match r.error {
        Some(sent) => sent@.len(),
        None => 0,
    }
}

proof fn error_is_sent_as_far_as_it_fits(r: ProcessReply, slot: ErrorSlot, text: Seq<char>)
    requires
        match r.error {
            Some(sent) => slot.takes_text() && sent@ == trampolines::cut(
                text,
                slot.capacity as int,
            ),
            None => !slot.takes_text(),
        },
        match r.error_len {
            None => slot.length_null,
            Some(n) => !slot.length_null && n == match r.error {
                Some(sent) => sent@.len(),
                None => 0,
            },
        },
    ensures
        sends_error(r, slot, text),
{
    if slot.takes_text() {
        trampolines::cut_fits(text, slot.capacity as int);
        trampolines::cut_is_the_longest_fitting_text(text, slot.capacity as int);
    }
}

/// A message that its handler failed goes to the dead-letter handler: the
/// answer is code 1 without traits, and as much of the error text as there is
/// room for.
pub proof fn failed_message_is_answered_with_its_error(
    text: String,
    traits_null: bool,
    slot: ErrorSlot,
    r: ProcessReply,
)
    requires
        call_ensures(process_reply, (ProcessOutcome::Failed { text }, traits_null, slot), r),
    ensures
        r.code == 1,
        r.traits is None,
        sends_error(r, slot, text@),
{
    error_is_sent_as_far_as_it_fits(r, slot, text@);
}

/// A message whose handler panicked is answered like a failed one, with a text
/// that says so.
pub proof fn panic_is_answered_with_a_text_of_its_own(
    traits_null: bool,
    slot: ErrorSlot,
    r: ProcessReply,
)
    requires
        call_ensures(process_reply, (ProcessOutcome::Panicked, traits_null, slot), r),
    ensures
        r.code == 1,
        r.traits is None,
        sends_error(r, slot, "panic in process callback"@),
{
    error_is_sent_as_far_as_it_fits(r, slot, "panic in process callback"@);
}

/// Where no handler set is published, a process callback is answered with code
/// -1 and nothing is written but an empty length.
pub proof fn callbacks_without_handlers_are_refused(
    traits_null: bool,
    slot: ErrorSlot,
    r: ProcessReply,
)
    requires
        call_ensures(process_reply, (ProcessOutcome::NoHandlers, traits_null, slot), r),
    ensures
        r.code == -1,
        r.traits is None,
        r.error is None,
        r.error_len == if slot.length_null {
            None
        } else {
            Some(0i32)
        },
{
}

/// A dead-letter callback is answered with 0 when the message was recorded or
/// there is no such handler, with 1 when the handler failed or panicked, and
/// with -1 without handlers.
pub proof fn dead_letters_are_answered(outcome: DeadLetterOutcome)
    ensures
        forall|r: i32| #[trigger]
            call_ensures(deadletter_reply, (outcome,), r) ==> {
                &&& r == 0 <==> outcome is Recorded || outcome is NoDeadLetterHandler
                &&& r == 1 <==> outcome is Failed || outcome is Panicked
                &&& r == -1 <==> outcome is NoHandlers
            },
{
}

/// The dead-letter handler is given the error as it reads, and the shutdown
/// handler the reason, which is unknown when there is none.
pub proof fn handlers_are_given_the_engine_texts(bytes: &[u8])
    ensures
        forall|r: String| #[trigger]
            call_ensures(deadletter_error, (bytes,), r) ==> foreign::reads_as(bytes@, r@),
        forall|r: String| #[trigger]
            call_ensures(shutdown_reason, (bytes,), r) ==> {
                &&& bytes@.len() == 0 ==> r@ == "unknown"@
                &&& bytes@.len() > 0 ==> foreign::reads_as(bytes@, r@)
            },
{
}

// ---------------------------------------------------------------------------
// Copies and texts
// ---------------------------------------------------------------------------

/// A copy holds what it was made from; a copied handle has the same slot.
pub proof fn copies_hold_what_they_were_made_from(
    o: Options,
    c: BrokerConfig,
    d: DemuxConfig,
    h: MetricsHandle,
)
    ensures
        forall|r: Options| #[trigger]
            call_ensures(Options::clone, (&o,), r) ==> r@ == o@,
        forall|r: BrokerConfig| #[trigger]
            call_ensures(BrokerConfig::clone, (&c,), r) ==> r@ == c@,
        forall|r: DemuxConfig| #[trigger]
            call_ensures(DemuxConfig::clone, (&d,), r) ==> r == d,
        forall|r: MetricsHandle| #[trigger]
            call_ensures(MetricsHandle::clone, (&h,), r) ==> r@ == h@,
{
}

/// The brokers of a comma-separated text are read off in its order, without the
/// white space around them.
pub proof fn brokers_are_read_off_the_list(s: &str)
    ensures
        forall|r: Vec<String>| #[trigger]
            call_ensures(broker_list, (s,), r) ==> text::texts(r@) == producer::brokers_of(s@),
{
}

/// What is written for the engine is the document of the configuration.
pub proof fn written_document_is_that_of_the_configuration(
    topic: &str,
    broker: &BrokerConfig,
    demux: &DemuxConfig,
    service: Option<&(String, String)>,
    stats: Option<Duration>,
    flush: Option<Duration>,
)
    ensures
        forall|r: String| #[trigger]
            call_ensures(config_json, (topic, broker, demux, service, stats, flush), r) ==> r@
                == config::config_document(
                topic@,
                broker@,
                *demux,
                match service {
                    None => None,
                    Some(s) => Some((s.0@, s.1@)),
                },
                stats,
                flush,
            ),
{
}

} // verus!
