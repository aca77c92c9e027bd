//! The typed client options: what each setter emits, which combinations are
//! refused, and what the debug text shows.

use llingr_kafka::options::{listing_text, Adapter};
use llingr_kafka::{AutoOffsetReset, BalanceStrategy, ClientLogLevel, Options};
use std::time::Duration;

fn entry<'a>(entries: &'a [(String, String)], key: &str) -> Option<&'a str> {
    entries
        .iter()
        .find(|(k, _)| k == key)
        .map(|(_, v)| v.as_str())
}

#[test]
fn options_render_kafka_style_entries() {
    let options = Options::new()
        .auto_offset_reset(AutoOffsetReset::Earliest)
        .client_id("app-7")
        .group_instance_id("orders-0")
        .session_timeout(Duration::from_secs(30))
        .fetch_max_wait(Duration::from_millis(500))
        .fetch_min_bytes(1024);

    assert_eq!(options.adapter(), Adapter::Franz);
    let entries = options.entries();
    assert_eq!(entry(&entries, "auto.offset.reset"), Some("earliest"));
    assert_eq!(entry(&entries, "client.id"), Some("app-7"));
    assert_eq!(entry(&entries, "group.instance.id"), Some("orders-0"));
    assert_eq!(entry(&entries, "session.timeout.ms"), Some("30000"));
    assert_eq!(entry(&entries, "fetch.max.wait.ms"), Some("500"));
    assert_eq!(entry(&entries, "fetch.min.bytes"), Some("1024"));
    assert_eq!(
        entry(&entries, "security.protocol"),
        None,
        "no security requested"
    );
}

#[test]
fn validate_defaults_to_ok() {
    // Typed setters alone: the typed-vs-string ambiguity cannot
    // arise on this builder; validate() is the trait default.
    let options = Options::new()
        .tls_ca_location("/ca.pem")
        .sasl_scram_sha256("u", "p");
    assert!(options.validate().is_ok());
}

#[test]
fn options_sub_millisecond_duration_rounds_up() {
    let entries = Options::new()
        .session_timeout(Duration::from_micros(500))
        .entries();
    assert_eq!(
        entry(&entries, "session.timeout.ms"),
        Some("1"),
        "never silently zero"
    );
}

#[test]
fn security_protocol_matrix() {
    let tls_only = Options::new().tls().entries();
    assert_eq!(entry(&tls_only, "security.protocol"), Some("ssl"));

    let sasl_only = Options::new().sasl_plain("u", "p").entries();
    assert_eq!(
        entry(&sasl_only, "security.protocol"),
        Some("sasl_plaintext")
    );

    let both = Options::new()
        .tls_ca_location("/ca.pem")
        .sasl_scram_sha256("u", "p")
        .entries();
    assert_eq!(entry(&both, "security.protocol"), Some("sasl_ssl"));
    assert_eq!(entry(&both, "ssl.ca.location"), Some("/ca.pem"));
    assert_eq!(entry(&both, "sasl.mechanism"), Some("SCRAM-SHA-256"));
    assert_eq!(entry(&both, "sasl.username"), Some("u"));
    assert_eq!(entry(&both, "sasl.password"), Some("p"));
}

#[test]
fn tls_setters_emit_ssl_keys_and_imply_tls() {
    let entries = Options::new()
        .tls_client_certificate("/cert.pem", "/key.pem")
        .disable_hostname_verification()
        .entries();
    assert_eq!(entry(&entries, "security.protocol"), Some("ssl"));
    assert_eq!(
        entry(&entries, "ssl.certificate.location"),
        Some("/cert.pem")
    );
    assert_eq!(entry(&entries, "ssl.key.location"), Some("/key.pem"));
    assert_eq!(
        entry(&entries, "ssl.endpoint.identification.algorithm"),
        Some("none")
    );
}

#[test]
fn scram_512_and_verification_toggle() {
    let entries = Options::new()
        .sasl_scram_sha512("u", "p")
        .disable_certificate_verification()
        .entries();
    assert_eq!(entry(&entries, "security.protocol"), Some("sasl_ssl"));
    assert_eq!(entry(&entries, "sasl.mechanism"), Some("SCRAM-SHA-512"));
    assert_eq!(
        entry(&entries, "enable.ssl.certificate.verification"),
        Some("false")
    );
}

#[test]
fn debug_redacts_passwords() {
    let options = Options::new().sasl_plain("user", "hunter2");
    let debug = options.debug_text();
    assert!(
        !debug.contains("hunter2"),
        "password leaked into Debug: {debug}"
    );
    assert!(debug.contains("<redacted>"));
    assert!(debug.contains("user"), "username is not a secret");
}

#[test]
fn partition_assignment_strategy_emits_names_in_preference_order() {
    let options = Options::new().partition_assignment_strategy(&[
        BalanceStrategy::CooperativeSticky,
        BalanceStrategy::Sticky,
        BalanceStrategy::RoundRobin,
        BalanceStrategy::Range,
    ]);
    let entries = options.entries();
    let value = entries
        .iter()
        .find(|(k, _)| k == "partition.assignment.strategy")
        .map(|(_, v)| v.as_str());
    assert_eq!(value, Some("cooperative-sticky,sticky,roundrobin,range"));
}

#[test]
fn debug_redacts_inline_private_key_but_not_public_material() {
    let options = Options::new()
        .tls_ca_pem("PUBLIC CA PEM")
        .tls_client_certificate_pem("PUBLIC CERT PEM", "PRIVATE KEY PEM");
    let debug = options.debug_text();
    assert!(
        !debug.contains("PRIVATE KEY PEM"),
        "ssl.key.pem private key leaked into Debug: {debug}"
    );
    assert!(
        debug.contains("PUBLIC CERT PEM") && debug.contains("PUBLIC CA PEM"),
        "certificate and CA are public material and must stay visible: {debug}"
    );
}

/// Every ClientLogLevel variant emits its documented wire name under the
/// `llingr.client.log.level` key. A mis-mapped variant would silently
/// change client diagnostics verbosity.
#[test]
fn client_log_level_wire_names() {
    let cases = [
        (ClientLogLevel::Off, "none"),
        (ClientLogLevel::Error, "error"),
        (ClientLogLevel::Warn, "warn"),
        (ClientLogLevel::Info, "info"),
        (ClientLogLevel::Debug, "debug"),
    ];
    for (level, wire) in cases {
        let entries = Options::new().client_log_level(level).entries();
        assert_eq!(
            entry(&entries, "llingr.client.log.level"),
            Some(wire),
            "{level:?}"
        );
    }
}

/// Key-name correctness for the scalar setters not covered elsewhere:
/// a renamed key is caught by the bridge's curated set check only at
/// init, so pin each literal here. Also covers Latest.
#[test]
fn remaining_scalar_setters_emit_documented_keys() {
    let entries = Options::new()
        .auto_offset_reset(AutoOffsetReset::Latest)
        .heartbeat_interval(Duration::from_secs(3))
        .rebalance_timeout(Duration::from_secs(60))
        .fetch_max_bytes(52_428_800)
        .max_partition_fetch_bytes(1_048_576)
        .rack("eu-west-1a")
        .metadata_max_age(Duration::from_secs(120))
        .entries();
    assert_eq!(entry(&entries, "auto.offset.reset"), Some("latest"));
    assert_eq!(entry(&entries, "heartbeat.interval.ms"), Some("3000"));
    assert_eq!(entry(&entries, "rebalance.timeout.ms"), Some("60000"));
    assert_eq!(entry(&entries, "fetch.max.bytes"), Some("52428800"));
    assert_eq!(
        entry(&entries, "max.partition.fetch.bytes"),
        Some("1048576")
    );
    assert_eq!(entry(&entries, "client.rack"), Some("eu-west-1a"));
    assert_eq!(entry(&entries, "metadata.max.age.ms"), Some("120000"));
}

/// SASL/PLAIN's mechanism string: a typo here breaks PLAIN auth while
/// the SCRAM tests stay green.
#[test]
fn sasl_plain_emits_plain_mechanism() {
    let entries = Options::new().sasl_plain("u", "p").entries();
    assert_eq!(entry(&entries, "sasl.mechanism"), Some("PLAIN"));
    assert_eq!(entry(&entries, "sasl.username"), Some("u"));
    assert_eq!(entry(&entries, "sasl.password"), Some("p"));
}

/// Calling a disable_* setter ALONE implies TLS, because push_ssl flips
/// the tls flag: security.protocol must come out as ssl, not stay absent
/// with a dangling ssl.* property on a plaintext connection.
#[test]
fn disable_setters_alone_imply_tls() {
    let entries = Options::new().disable_certificate_verification().entries();
    assert_eq!(entry(&entries, "security.protocol"), Some("ssl"));

    let entries = Options::new().disable_hostname_verification().entries();
    assert_eq!(entry(&entries, "security.protocol"), Some("ssl"));
}

/// The PEM setters emit the documented inline keys: a key rename would
/// silently drop the CA / certificate material.
#[test]
fn pem_setters_emit_inline_keys() {
    let entries = Options::new()
        .tls_ca_pem("CA")
        .tls_client_certificate_pem("CERT", "KEY")
        .entries();
    assert_eq!(entry(&entries, "ssl.ca.pem"), Some("CA"));
    assert_eq!(entry(&entries, "ssl.certificate.pem"), Some("CERT"));
    assert_eq!(entry(&entries, "ssl.key.pem"), Some("KEY"));
}

/// Repeated sasl_* calls replace the credentials, last write wins:
/// exactly one mechanism/username/password triple is emitted, with the
/// final values.
#[test]
fn repeated_sasl_calls_last_write_wins() {
    let entries = Options::new()
        .sasl_plain("old-user", "old-pass")
        .sasl_scram_sha512("new-user", "new-pass")
        .entries();
    assert_eq!(entry(&entries, "sasl.mechanism"), Some("SCRAM-SHA-512"));
    assert_eq!(entry(&entries, "sasl.username"), Some("new-user"));
    assert_eq!(entry(&entries, "sasl.password"), Some("new-pass"));
    assert_eq!(
        entries
            .iter()
            .filter(|(k, _)| k == "sasl.mechanism")
            .count(),
        1,
        "exactly one mechanism entry"
    );
    assert!(!entries.iter().any(|(_, v)| v == "old-pass"));
}

/// Security entries are appended AFTER the base client entries, in a
/// fixed order: protocol, then ssl.*, then the sasl triple. The bridge
/// consumes them positionally-independently today, but the emitted order
/// is the crate's contract and silent reordering should not ship.
#[test]
fn security_entries_append_after_base_in_fixed_order() {
    let entries = Options::new()
        .client_id("app")
        .tls_ca_location("/ca.pem")
        .sasl_plain("u", "p")
        .entries();
    let keys: Vec<&str> = entries.iter().map(|(k, _)| k.as_str()).collect();
    let position = |key: &str| keys.iter().position(|k| *k == key).unwrap();
    assert!(position("client.id") < position("security.protocol"));
    assert!(position("security.protocol") < position("ssl.ca.location"));
    assert!(position("ssl.ca.location") < position("sasl.mechanism"));
    assert!(position("sasl.mechanism") < position("sasl.username"));
    assert!(position("sasl.username") < position("sasl.password"));
}

/// An empty strategy slice currently emits an empty value, rejected at
/// engine build time per the doc; pin that it does not panic and does
/// emit the key, so the build-time rejection stays reachable.
#[test]
fn empty_assignment_strategy_emits_empty_value() {
    let entries = Options::new().partition_assignment_strategy(&[]).entries();
    assert_eq!(entry(&entries, "partition.assignment.strategy"), Some(""));
}

// -- string escape hatch (kafka_option / kafka_options) ------------------

#[test]
fn kafka_option_records_pairs_in_call_order() {
    let entries = Options::new()
        .client_id("app")
        .kafka_option("isolation.level", "read_committed")
        .kafka_option("fetch.min.bytes", 1024)
        .entries();
    assert_eq!(entry(&entries, "isolation.level"), Some("read_committed"));
    assert_eq!(entry(&entries, "fetch.min.bytes"), Some("1024"));
    let keys: Vec<&str> = entries.iter().map(|(k, _)| k.as_str()).collect();
    let position = |key: &str| keys.iter().position(|k| *k == key).unwrap();
    assert!(
        position("client.id") < position("isolation.level"),
        "typed and string pairs interleave in call order"
    );
}

#[test]
fn kafka_options_plural_ingests_iterators() {
    let pairs = [("metadata.max.age.ms", "10000"), ("client.rack", "eu-1a")];
    let entries = Options::new().kafka_options(pairs.to_vec()).entries();
    assert_eq!(entry(&entries, "metadata.max.age.ms"), Some("10000"));
    assert_eq!(entry(&entries, "client.rack"), Some("eu-1a"));
}

/// The same security key from a typed setter AND a string pair is
/// ambiguous: validate() rejects it, naming the key.
#[test]
fn typed_and_string_security_key_conflict_is_rejected() {
    let options = Options::new()
        .sasl_scram_sha256("u", "p")
        .kafka_option("sasl.password", "other");
    let message = options.validate().expect_err("conflict must be rejected");
    assert!(message.contains("sasl.password"), "{message}");
    assert!(message.contains("kafka_option"), "{message}");
}

/// librdkafka's "sasl.mechanisms" alias conflicts with the typed SASL
/// setters exactly like the canonical spelling.
#[test]
fn sasl_mechanisms_alias_conflicts_with_typed_sasl() {
    let options = Options::new()
        .sasl_plain("u", "p")
        .kafka_option("sasl.mechanisms", "PLAIN");
    assert!(options.validate().is_err());
}

/// Security keys arriving ONLY as string pairs are the pass-through
/// model: no client-side conflict, the engine validates them as one
/// unit at initialisation.
#[test]
fn string_only_security_keys_pass_validation() {
    let options = Options::new()
        .kafka_option("security.protocol", "sasl_ssl")
        .kafka_option("sasl.mechanism", "SCRAM-SHA-256")
        .kafka_option("sasl.username", "u")
        .kafka_option("sasl.password", "p");
    assert!(options.validate().is_ok());
}

/// A string security key the typed setters did not emit composes with
/// them: tls() alone emits only security.protocol, so a string
/// hostname-verification pair is not a conflict.
#[test]
fn non_overlapping_string_security_key_composes_with_typed_tls() {
    let options = Options::new()
        .tls()
        .kafka_option("ssl.endpoint.identification.algorithm", "none");
    assert!(options.validate().is_ok());
}

/// Credentials supplied through the string escape hatch are redacted in
/// Debug exactly like typed ones.
#[test]
fn debug_redacts_string_pair_passwords() {
    let options = Options::new().kafka_option("sasl.password", "hunter2");
    let debug = options.debug_text();
    assert!(!debug.contains("hunter2"), "{debug}");
    assert!(debug.contains("<redacted>"), "{debug}");
}

// -- connection, retry, and fetch tuning ----------------------------------

/// Every setter here emits its documented key with millisecond or
/// literal values: a renamed key here would silently miss the bridge's
/// curated table and fail init, so pin each literal.
#[test]
fn audit_setters_emit_documented_keys() {
    let entries = Options::new()
        .dial_timeout(Duration::from_secs(5))
        .connection_idle_timeout(Duration::from_secs(60))
        .request_retries(10)
        .retry_timeout(Duration::from_secs(45))
        .max_concurrent_fetches(4)
        .allow_auto_topic_creation()
        .disable_fetch_crc_validation()
        .disable_client_metrics_push()
        .entries();
    assert_eq!(
        entry(&entries, "socket.connection.setup.timeout.ms"),
        Some("5000")
    );
    assert_eq!(entry(&entries, "connections.max.idle.ms"), Some("60000"));
    assert_eq!(entry(&entries, "llingr.request.retries"), Some("10"));
    assert_eq!(entry(&entries, "llingr.retry.timeout.ms"), Some("45000"));
    assert_eq!(entry(&entries, "llingr.max.concurrent.fetches"), Some("4"));
    assert_eq!(entry(&entries, "allow.auto.create.topics"), Some("true"));
    assert_eq!(entry(&entries, "check.crcs"), Some("false"));
    assert_eq!(entry(&entries, "enable.metrics.push"), Some("false"));
}

/// The poll-error resilience setters emit the llingr.* adapter keys in
/// milliseconds, including the documented zero-disables values.
#[test]
fn poll_error_setters_emit_adapter_keys() {
    let entries = Options::new()
        .poll_error_bail_after(Duration::from_secs(300))
        .poll_error_log_interval(Duration::from_secs(2))
        .poll_error_backoff(Duration::from_millis(100))
        .entries();
    assert_eq!(
        entry(&entries, "llingr.poll.error.bail.after.ms"),
        Some("300000")
    );
    assert_eq!(
        entry(&entries, "llingr.poll.error.log.interval.ms"),
        Some("2000")
    );
    assert_eq!(entry(&entries, "llingr.poll.error.backoff.ms"), Some("100"));

    let disabled = Options::new()
        .poll_error_bail_after(Duration::ZERO)
        .poll_error_backoff(Duration::ZERO)
        .entries();
    assert_eq!(
        entry(&disabled, "llingr.poll.error.bail.after.ms"),
        Some("0"),
        "zero must survive as the documented disable value"
    );
    assert_eq!(entry(&disabled, "llingr.poll.error.backoff.ms"), Some("0"));
}

// -- AWS and OIDC ---------------------------------------------------------------

#[test]
fn aws_msk_iam_forces_tls_and_emits_mechanism() {
    let entries = Options::new().sasl_aws_msk_iam().entries();
    assert_eq!(
        entry(&entries, "security.protocol"),
        Some("sasl_ssl"),
        "MSK IAM is TLS-only, so the setter must select sasl_ssl"
    );
    assert_eq!(entry(&entries, "sasl.mechanism"), Some("AWS_MSK_IAM"));
    // No static credential keys are emitted.
    assert_eq!(entry(&entries, "sasl.username"), None);
    assert_eq!(entry(&entries, "sasl.password"), None);
}

#[test]
fn aws_steering_keys_emit_when_set() {
    let entries = Options::new()
        .sasl_aws_msk_iam()
        .aws_region("eu-west-2")
        .aws_profile("prod")
        .aws_assume_role(
            "arn:aws:iam::123456789012:role/consumer",
            Some("svc-orders"),
        )
        .entries();
    assert_eq!(entry(&entries, "aws.region"), Some("eu-west-2"));
    assert_eq!(entry(&entries, "aws.profile"), Some("prod"));
    assert_eq!(
        entry(&entries, "aws.role.arn"),
        Some("arn:aws:iam::123456789012:role/consumer")
    );
    assert_eq!(entry(&entries, "aws.role.session.name"), Some("svc-orders"));
}

#[test]
fn aws_assume_role_without_session_name_emits_only_the_arn() {
    let entries = Options::new()
        .sasl_aws_msk_iam()
        .aws_assume_role("arn:aws:iam::123456789012:role/consumer", None)
        .entries();
    assert_eq!(
        entry(&entries, "aws.role.arn"),
        Some("arn:aws:iam::123456789012:role/consumer")
    );
    assert_eq!(
        entry(&entries, "aws.role.session.name"),
        None,
        "no session name means the SDK generates one"
    );
}

#[test]
fn aws_steering_setters_before_mechanism_are_inert() {
    // aws_region without a preceding sasl_aws_msk_iam has no SASL to attach
    // to, so it emits nothing.
    let entries = Options::new().aws_region("eu-west-2").entries();
    assert_eq!(entry(&entries, "aws.region"), None);
    assert_eq!(entry(&entries, "sasl.mechanism"), None);
}

#[test]
fn oauthbearer_emits_endpoint_and_credentials() {
    let entries = Options::new()
        .sasl_oauthbearer_oidc("https://idp.example/token", "client-id", "client-secret")
        .entries();
    assert_eq!(entry(&entries, "sasl.mechanism"), Some("OAUTHBEARER"));
    assert_eq!(
        entry(&entries, "sasl.oauthbearer.token.endpoint.url"),
        Some("https://idp.example/token")
    );
    assert_eq!(
        entry(&entries, "sasl.oauthbearer.client.id"),
        Some("client-id")
    );
    assert_eq!(
        entry(&entries, "sasl.oauthbearer.client.secret"),
        Some("client-secret")
    );
    // OAUTHBEARER does not force TLS: sasl_plaintext without a tls_* setter.
    assert_eq!(entry(&entries, "security.protocol"), Some("sasl_plaintext"));
}

#[test]
fn oauthbearer_with_tls_scope_and_extensions() {
    let entries = Options::new()
        .tls()
        .sasl_oauthbearer_oidc("https://idp.example/token", "id", "secret")
        .oauthbearer_scope("kafka")
        .oauthbearer_extensions(vec![
            ("logicalCluster", "lkc-1"),
            ("identityPoolId", "pool-9"),
        ])
        .entries();
    assert_eq!(entry(&entries, "security.protocol"), Some("sasl_ssl"));
    assert_eq!(entry(&entries, "sasl.oauthbearer.scope"), Some("kafka"));
    assert_eq!(
        entry(&entries, "sasl.oauthbearer.extensions"),
        Some("logicalCluster=lkc-1,identityPoolId=pool-9")
    );
}

/// The client secret must never appear in Debug; the endpoint, client id,
/// and scope are not secrets and stay visible.
#[test]
fn oauthbearer_debug_redacts_client_secret() {
    let options = Options::new().sasl_oauthbearer_oidc(
        "https://idp.example/token",
        "public-client-id",
        "s3cr3t-value",
    );
    let debug = options.debug_text();
    assert!(
        !debug.contains("s3cr3t-value"),
        "client secret leaked: {debug}"
    );
    assert!(debug.contains("<redacted>"), "{debug}");
    assert!(
        debug.contains("public-client-id"),
        "client id is not a secret"
    );
    assert!(debug.contains("idp.example"), "endpoint is not a secret");
}

/// A later mechanism setter replaces an earlier one: the AWS keys from a
/// discarded sasl_aws_msk_iam do not bleed into an OAUTHBEARER
/// configuration.
#[test]
fn last_mechanism_setter_wins() {
    let entries = Options::new()
        .sasl_aws_msk_iam()
        .aws_region("eu-west-2")
        .sasl_oauthbearer_oidc("https://idp/token", "id", "secret")
        .entries();
    assert_eq!(entry(&entries, "sasl.mechanism"), Some("OAUTHBEARER"));
    assert_eq!(
        entry(&entries, "aws.region"),
        None,
        "discarded AWS config must not emit"
    );
}

/// The typed-vs-string conflict guard covers the aws.* key family: an aws.*
/// string pair alongside the typed AWS setter of its key is rejected.
#[test]
fn aws_typed_and_string_conflict_is_rejected() {
    let options = Options::new()
        .sasl_aws_msk_iam()
        .aws_region("eu-west-2")
        .kafka_option("aws.region", "us-east-1");
    let message = options.validate().expect_err("conflict must be rejected");
    assert!(message.contains("aws.region"), "{message}");
}

#[test]
fn oauthbearer_typed_and_string_conflict_is_rejected() {
    let options = Options::new()
        .sasl_oauthbearer_oidc("https://idp/token", "id", "secret")
        .kafka_option("sasl.oauthbearer.client.id", "other");
    let message = options.validate().expect_err("conflict must be rejected");
    assert!(message.contains("sasl.oauthbearer.client.id"), "{message}");
}

// -- Google Cloud ---------------------------------------------------------------

#[test]
fn gcp_iam_forces_tls_and_emits_mechanism_and_method() {
    let entries = Options::new().sasl_gcp_iam().entries();
    assert_eq!(
        entry(&entries, "security.protocol"),
        Some("sasl_ssl"),
        "Google's managed Kafka is TLS-only, so the setter must select sasl_ssl"
    );
    assert_eq!(entry(&entries, "sasl.mechanism"), Some("OAUTHBEARER"));
    assert_eq!(entry(&entries, "sasl.oauthbearer.method"), Some("gcp"));
    // No static credentials, no OIDC keys.
    assert_eq!(entry(&entries, "sasl.username"), None);
    assert_eq!(entry(&entries, "sasl.oauthbearer.token.endpoint.url"), None);
}

#[test]
fn gcp_steering_keys_emit_when_set() {
    let entries = Options::new()
        .sasl_gcp_iam()
        .gcp_principal("svc@project.iam.gserviceaccount.com")
        .gcp_credentials_file("/secrets/sa-key.json")
        .entries();
    assert_eq!(
        entry(&entries, "gcp.principal"),
        Some("svc@project.iam.gserviceaccount.com")
    );
    assert_eq!(
        entry(&entries, "gcp.credentials.file"),
        Some("/secrets/sa-key.json")
    );
}

#[test]
fn gcp_steering_setters_before_mechanism_are_inert() {
    // gcp_principal without a preceding sasl_gcp_iam has no SASL to attach
    // to, so it emits nothing.
    let entries = Options::new()
        .gcp_principal("svc@project.iam.gserviceaccount.com")
        .entries();
    assert_eq!(entry(&entries, "gcp.principal"), None);
    assert_eq!(entry(&entries, "sasl.mechanism"), None);
}

/// A later mechanism setter replaces an earlier one: discarded GCP config
/// does not bleed into an OIDC configuration and vice versa.
#[test]
fn last_mechanism_setter_wins_across_oauthbearer_methods() {
    let entries = Options::new()
        .sasl_gcp_iam()
        .gcp_principal("svc@project.iam.gserviceaccount.com")
        .sasl_oauthbearer_oidc("https://idp/token", "id", "secret")
        .entries();
    assert_eq!(entry(&entries, "sasl.mechanism"), Some("OAUTHBEARER"));
    assert_eq!(
        entry(&entries, "sasl.oauthbearer.method"),
        None,
        "the oidc setter does not emit a method key"
    );
    assert_eq!(entry(&entries, "gcp.principal"), None);

    let reversed = Options::new()
        .sasl_oauthbearer_oidc("https://idp/token", "id", "secret")
        .sasl_gcp_iam()
        .entries();
    assert_eq!(
        reversed
            .iter()
            .filter(|(k, _)| k == "sasl.mechanism")
            .count(),
        1
    );
    assert_eq!(
        entry(&reversed, "sasl.oauthbearer.method"),
        Some("gcp"),
        "the gcp method wins after replacement"
    );
    assert_eq!(
        entry(&reversed, "sasl.oauthbearer.token.endpoint.url"),
        None
    );
}

/// The typed-vs-string conflict guard covers the gcp.* family and the method
/// key the setter emits.
#[test]
fn gcp_typed_and_string_conflicts_are_rejected() {
    let options = Options::new()
        .sasl_gcp_iam()
        .gcp_principal("svc@x.iam.gserviceaccount.com")
        .kafka_option("gcp.principal", "other@x.iam.gserviceaccount.com");
    let message = options.validate().expect_err("conflict must be rejected");
    assert!(message.contains("gcp.principal"), "{message}");

    let method_clash = Options::new()
        .sasl_gcp_iam()
        .kafka_option("sasl.oauthbearer.method", "oidc");
    let message = method_clash
        .validate()
        .expect_err("method conflict must be rejected");
    assert!(message.contains("sasl.oauthbearer.method"), "{message}");
}

/// No GCP option is a secret: the principal is an email and the file value
/// is a path, so Debug shows it all. The guard is that no spurious
/// redaction hides operational config.
#[test]
fn gcp_debug_shows_steering_keys() {
    let options = Options::new()
        .sasl_gcp_iam()
        .gcp_principal("svc@project.iam.gserviceaccount.com")
        .gcp_credentials_file("/secrets/sa-key.json");
    let debug = options.debug_text();
    assert!(
        debug.contains("svc@project.iam.gserviceaccount.com"),
        "{debug}"
    );
    assert!(debug.contains("/secrets/sa-key.json"), "{debug}");
}

// -- laws on values -------------------------------------------------------------

/// Every entry of a fully secured builder, in order.
#[test]
fn emitted_entries_are_exact() {
    let entries = Options::new()
        .rack("r")
        .sasl_oauthbearer_oidc("https://idp/token", "id", "secret")
        .tls_ca_location("/ca.pem")
        .oauthbearer_extensions(vec![("a", "1"), ("b", "2")])
        .kafka_option("x", -5i64)
        .entries();
    let expected = [
        ("client.rack", "r"),
        ("x", "-5"),
        ("security.protocol", "sasl_ssl"),
        ("ssl.ca.location", "/ca.pem"),
        ("sasl.mechanism", "OAUTHBEARER"),
        ("sasl.oauthbearer.token.endpoint.url", "https://idp/token"),
        ("sasl.oauthbearer.client.id", "id"),
        ("sasl.oauthbearer.client.secret", "secret"),
        ("sasl.oauthbearer.extensions", "a=1,b=2"),
    ];
    let got: Vec<(&str, &str)> = entries
        .iter()
        .map(|(k, v)| (k.as_str(), v.as_str()))
        .collect();
    assert_eq!(got, expected.to_vec());
}

/// The refusal names every conflicting key once, in alphabetical order.
#[test]
fn conflict_message_lists_the_keys_in_order() {
    let options = Options::new()
        .sasl_plain("u", "p")
        .kafka_option("sasl.username", "x")
        .kafka_option("sasl.password", "y")
        .kafka_option("sasl.username", "z")
        .kafka_option("client.id", "fine");
    let message = options.validate().expect_err("conflict must be rejected");
    let password = message.find("sasl.password").expect("named");
    let username = message.find("sasl.username").expect("named");
    assert!(password < username, "{message}");
    assert_eq!(message.matches("sasl.username").count(), 1, "{message}");
    assert!(!message.contains("client.id"), "{message}");
}

/// A steering setter of another mechanism changes nothing.
#[test]
fn steering_setters_of_other_mechanisms_change_nothing() {
    let plain = Options::new().sasl_plain("u", "p").entries();
    let steered = Options::new()
        .sasl_plain("u", "p")
        .aws_region("r")
        .aws_profile("p")
        .aws_assume_role("arn", Some("s"))
        .oauthbearer_scope("s")
        .oauthbearer_extensions(vec![("a", "b")])
        .gcp_principal("x")
        .gcp_credentials_file("f")
        .entries();
    assert_eq!(plain, steered);
}

/// The debug text quotes keys and values and hides credentials alone.
#[test]
fn debug_text_is_exact() {
    let options = Options::new().client_id("a\"b").sasl_plain("u", "hunter2");
    assert_eq!(
        options.debug_text(),
        "Options { entries: [(\"client.id\", \"a\\\"b\"), \
         (\"security.protocol\", \"sasl_plaintext\"), (\"sasl.mechanism\", \"PLAIN\"), \
         (\"sasl.username\", \"u\"), (\"sasl.password\", \"<redacted>\")] }"
    );
    assert_eq!(Options::new().debug_text(), "Options { entries: [] }");
}

/// A copy emits what its source emits.
#[test]
fn clones_emit_the_same_entries() {
    let options = Options::new()
        .tls()
        .sasl_gcp_iam()
        .gcp_principal("p")
        .fetch_min_bytes(7);
    assert_eq!(options.clone().entries(), options.entries());
    assert_eq!(Options::default().entries(), Vec::new());
}

/// The keys that the security setters claim, with the spelling that stands for
/// one of them.
#[test]
fn claimed_keys_cover_the_emitted_ones() {
    let options = Options::new().tls_ca_location("/ca.pem").sasl_plain("u", "p");
    let claimed = options.typed_security_keys();
    for key in [
        "security.protocol",
        "ssl.ca.location",
        "sasl.mechanism",
        "sasl.mechanisms",
        "sasl.username",
        "sasl.password",
    ] {
        assert!(claimed.iter().any(|k| k == key), "{key} is claimed");
    }
    assert!(Options::new().client_id("x").typed_security_keys().is_empty());
}

/// A string pair composes with a typed mechanism where no typed setter emits
/// its key; once one does, or under the mechanism's other name, it conflicts.
#[test]
fn keys_that_no_setter_emits_compose() {
    let oidc = || Options::new().sasl_oauthbearer_oidc("https://idp/token", "id", "secret");
    assert!(oidc()
        .kafka_option("sasl.oauthbearer.scope", "read")
        .kafka_option("sasl.oauthbearer.extensions", "a=b")
        .validate()
        .is_ok());
    assert!(oidc()
        .oauthbearer_scope("read")
        .kafka_option("sasl.oauthbearer.scope", "write")
        .validate()
        .is_err());
    assert!(oidc()
        .oauthbearer_extensions(vec![("a", "b")])
        .kafka_option("sasl.oauthbearer.extensions", "c=d")
        .validate()
        .is_err());
    assert!(oidc()
        .kafka_option("sasl.mechanisms", "PLAIN")
        .validate()
        .is_err());

    let aws = || Options::new().sasl_aws_msk_iam();
    assert!(aws().kafka_option("aws.region", "eu-west-1").validate().is_ok());
    assert!(aws()
        .aws_region("eu-west-2")
        .kafka_option("aws.region", "eu-west-1")
        .validate()
        .is_err());

    let gcp = || Options::new().sasl_gcp_iam();
    assert!(gcp().kafka_option("gcp.principal", "p").validate().is_ok());
    assert!(gcp()
        .kafka_option("sasl.oauthbearer.method", "oidc")
        .validate()
        .is_err());
}

/// Numbers of every width, characters and truth values stand for their text.
#[test]
fn option_values_of_every_kind() {
    let entries = Options::new()
        .kafka_option("a", 7u8)
        .kafka_option("b", -8i8)
        .kafka_option("c", i16::MIN)
        .kafka_option("d", i128::MIN)
        .kafka_option("e", i128::MAX)
        .kafka_option("f", -9isize)
        .kafka_option("g", 'ß')
        .kafka_option('h', u128::MAX)
        .kafka_option("i", i64::MIN)
        .kafka_option("j", true)
        .kafka_option(Box::<str>::from("k"), "v".to_string().into_boxed_str())
        .entries();
    for (key, value) in [
        ("a", "7"),
        ("b", "-8"),
        ("c", "-32768"),
        ("d", "-170141183460469231731687303715884105728"),
        ("e", "170141183460469231731687303715884105727"),
        ("f", "-9"),
        ("g", "ß"),
        ("h", "340282366920938463463374607431768211455"),
        ("i", "-9223372036854775808"),
        ("j", "true"),
        ("k", "v"),
    ] {
        assert_eq!(entry(&entries, key), Some(value));
    }
}

/// The computed protocol stands behind every string pair, so it has the last
/// word; an accepted string pair keeps its own value.
#[test]
fn last_entry_of_a_key_is_the_one_that_counts() {
    let last = |entries: &[(String, String)], key: &str| {
        entries
            .iter()
            .rev()
            .find(|(k, _)| k == key)
            .map(|(_, v)| v.clone())
    };
    let refused = Options::new()
        .kafka_option("security.protocol", "plaintext")
        .tls();
    assert!(refused.validate().is_err());
    assert_eq!(
        last(&refused.entries(), "security.protocol").as_deref(),
        Some("ssl")
    );
    let accepted = Options::new()
        .tls()
        .kafka_option("ssl.ca.location", "/a.pem")
        .kafka_option("ssl.ca.location", "/b.pem");
    assert!(accepted.validate().is_ok());
    assert_eq!(
        last(&accepted.entries(), "ssl.ca.location").as_deref(),
        Some("/b.pem")
    );
}

/// Credentials are replaced in every spelling, and nothing else is.
#[test]
fn redacted_entries_are_exact() {
    let redacted = Options::new()
        .client_id("app")
        .kafka_option("my.secret.thing", "x")
        .kafka_option("password", "y")
        .tls_client_certificate_pem("CERT", "KEY")
        .redacted_entries();
    let got: Vec<(&str, &str)> = redacted
        .iter()
        .map(|(k, v)| (k.as_str(), v.as_str()))
        .collect();
    assert_eq!(
        got,
        vec![
            ("client.id", "app"),
            ("my.secret.thing", "<redacted>"),
            ("password", "<redacted>"),
            ("security.protocol", "ssl"),
            ("ssl.certificate.pem", "CERT"),
            ("ssl.key.pem", "<redacted>"),
        ]
    );
}

#[test]
fn listing_is_exact() {
    assert_eq!(listing_text(&Vec::new()), "Options { entries: [] }");
    let pairs = vec![
        ("\"a\"".to_string(), "\"1\"".to_string()),
        ("\"b\"".to_string(), "\"2\"".to_string()),
    ];
    assert_eq!(
        listing_text(&pairs),
        "Options { entries: [(\"a\", \"1\"), (\"b\", \"2\")] }"
    );
}
