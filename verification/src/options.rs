//! Typed Kafka client options ([`Options`]).
//!
//! Every setter emits a Kafka client option as a key/value pair; the security
//! setters are collected apart and emitted together, behind the others, with
//! the protocol that follows from them. Anything the setters do not cover can
//! be written as a string pair, but not a security key that a setter emits as
//! well.

use crate::config;
use crate::foreign;
use crate::foreign::{offset_reset_name, quoted};
use crate::pairs;
use crate::pairs::{clone_pairs, extend_pairs, push_pair, Pair};
use crate::producer;
use crate::text;
use crate::text::{
    comes_before, decimal_text, holds_text, join_text, push_text, same_text, OptionText,
};
use std::time::Duration;
use vstd::prelude::*;
use vstd::string::*;

verus! {

// ---------------------------------------------------------------------------
// Values of single options
// ---------------------------------------------------------------------------

/// The broker client that options are written for.
#[derive(Debug, Clone, Copy, PartialEq, Eq)]
pub enum Adapter {
    /// franz-go.
    Franz,
    /// confluent-kafka-go.
    Kafka,
}

/// How the consumer starts when no committed offset exists for a partition.
#[derive(Debug, Clone, Copy, PartialEq, Eq)]
pub enum AutoOffsetReset {
    /// Start from the oldest available offset.
    Earliest,
    /// Start from the next offset produced.
    Latest,
}

/// SASL mechanism that authenticates with a username and a password.
#[derive(Debug, Clone, Copy, PartialEq, Eq)]
pub enum SaslMechanism {
    /// PLAIN.
    Plain,
    /// SCRAM-SHA-256.
    ScramSha256,
    /// SCRAM-SHA-512.
    ScramSha512,
}

impl SaslMechanism {
    /// The mechanism's name on the wire.
    pub open spec fn name(self) -> Seq<char> {
        match self {
            SaslMechanism::Plain => "PLAIN"@,
            SaslMechanism::ScramSha256 => "SCRAM-SHA-256"@,
            SaslMechanism::ScramSha512 => "SCRAM-SHA-512"@,
        }
    }

    /// The mechanism's name on the wire.
    pub fn as_str(&self) -> (r: &'static str)
        ensures
            r@ == self.name(),
    {
        match self {
            SaslMechanism::Plain => "PLAIN",
            SaslMechanism::ScramSha256 => "SCRAM-SHA-256",
            SaslMechanism::ScramSha512 => "SCRAM-SHA-512",
        }
    }
}

/// Consumer-group partition assignment strategy.
///
/// `CooperativeSticky` is the default: a rebalance revokes only the partitions
/// that move. The other three revoke the whole assignment at every rebalance,
/// for groups whose members do not all speak cooperative-sticky.
#[derive(Debug, Clone, Copy, PartialEq, Eq)]
pub enum BalanceStrategy {
    /// Incremental rebalancing; only affected partitions are revoked.
    CooperativeSticky,
    /// Revokes everything, but minimises partition movement.
    Sticky,
    /// Revokes everything; simple and widely supported.
    RoundRobin,
    /// Revokes everything; Kafka's classic default.
    Range,
}

impl BalanceStrategy {
    /// The strategy's name on the wire.
    pub open spec fn name(self) -> Seq<char> {
        match self {
            BalanceStrategy::CooperativeSticky => "cooperative-sticky"@,
            BalanceStrategy::Sticky => "sticky"@,
            BalanceStrategy::RoundRobin => "roundrobin"@,
            BalanceStrategy::Range => "range"@,
        }
    }

    /// The strategy's name on the wire.
    pub fn wire_name(self) -> (r: &'static str)
        ensures
            r@ == self.name(),
    {
        match self {
            BalanceStrategy::CooperativeSticky => "cooperative-sticky",
            BalanceStrategy::Sticky => "sticky",
            BalanceStrategy::RoundRobin => "roundrobin",
            BalanceStrategy::Range => "range",
        }
    }
}

/// Verbosity of the Kafka client's internal diagnostics.
#[derive(Debug, Clone, Copy, PartialEq, Eq)]
pub enum ClientLogLevel {
    /// No client diagnostics.
    Off,
    /// Client errors only.
    Error,
    /// Errors and warnings.
    Warn,
    /// Group lifecycle: joins, leaves and their failures, rebalance rounds.
    Info,
    /// Per-request client internals.
    Debug,
}

impl ClientLogLevel {
    /// The level's name on the wire.
    pub open spec fn name(self) -> Seq<char> {
        match self {
            ClientLogLevel::Off => "none"@,
            ClientLogLevel::Error => "error"@,
            ClientLogLevel::Warn => "warn"@,
            ClientLogLevel::Info => "info"@,
            ClientLogLevel::Debug => "debug"@,
        }
    }

    /// The level's name on the wire.
    pub fn wire_name(self) -> (r: &'static str)
        ensures
            r@ == self.name(),
    {
        match self {
            ClientLogLevel::Off => "none",
            ClientLogLevel::Error => "error",
            ClientLogLevel::Warn => "warn",
            ClientLogLevel::Info => "info",
            ClientLogLevel::Debug => "debug",
        }
    }
}

// ---------------------------------------------------------------------------
// The builder and its model
// ---------------------------------------------------------------------------

enum Sasl {
    UserPass { mechanism: SaslMechanism, username: String, password: String },
    AwsMskIam {
        region: Option<String>,
        profile: Option<String>,
        role_arn: Option<String>,
        role_session_name: Option<String>,
    },
    OauthbearerOidc {
        token_endpoint: String,
        client_id: String,
        client_secret: String,
        scope: Option<String>,
        extensions: Vec<(String, String)>,
    },
    GcpIam { principal: Option<String>, credentials_file: Option<String> },
}

/// A SASL configuration. The first kind holds a username and a password; the
/// others hold no password and resolve their credentials elsewhere.
#[verifier::ext_equal]
pub enum SaslModel {
    /// PLAIN or SCRAM.
    UserPass { mechanism: SaslMechanism, username: Seq<char>, password: Seq<char> },
    /// IAM authentication to Amazon MSK.
    AwsMskIam {
        region: Option<Seq<char>>,
        profile: Option<Seq<char>>,
        role_arn: Option<Seq<char>>,
        role_session_name: Option<Seq<char>>,
    },
    /// OAUTHBEARER with client credentials.
    OauthbearerOidc {
        token_endpoint: Seq<char>,
        client_id: Seq<char>,
        client_secret: Seq<char>,
        scope: Option<Seq<char>>,
        extensions: Seq<Pair>,
    },
    /// IAM authentication to Google Cloud's managed Kafka.
    GcpIam { principal: Option<Seq<char>>, credentials_file: Option<Seq<char>> },
}

impl View for Sasl {
    type V = SaslModel;

    closed spec fn view(&self) -> SaslModel {
        match *self {
            Sasl::UserPass { mechanism, username, password } => SaslModel::UserPass {
                mechanism,
                username: username@,
                password: password@,
            },
            Sasl::AwsMskIam { region, profile, role_arn, role_session_name } => {
                SaslModel::AwsMskIam {
                    region: config::text_of(region),
                    profile: config::text_of(profile),
                    role_arn: config::text_of(role_arn),
                    role_session_name: config::text_of(role_session_name),
                }
            },
            Sasl::OauthbearerOidc {
                token_endpoint,
                client_id,
                client_secret,
                scope,
                extensions,
            } => SaslModel::OauthbearerOidc {
                token_endpoint: token_endpoint@,
                client_id: client_id@,
                client_secret: client_secret@,
                scope: config::text_of(scope),
                extensions: pairs::pair_texts(extensions@),
            },
            Sasl::GcpIam { principal, credentials_file } => SaslModel::GcpIam {
                principal: config::text_of(principal),
                credentials_file: config::text_of(credentials_file),
            },
        }
    }
}

/// Typed option builder for the Kafka client.
///
/// Any `tls_*` setter or [`tls`](Self::tls) enables TLS, any `sasl_*` setter
/// enables SASL, and the emitted `security.protocol` is the combination:
/// `ssl`, `sasl_plaintext` or `sasl_ssl`.
///
/// Durations are emitted as whole milliseconds, a started millisecond counting
/// as a whole one, so a duration other than zero never becomes zero.
pub struct Options {
    entries: Vec<(String, String)>,
    tls: bool,
    ssl_entries: Vec<(String, String)>,
    sasl: Option<Sasl>,
}

/// What an [`Options`] builder holds.
#[verifier::ext_equal]
pub struct OptionsModel {
    /// The client options and string pairs, in call order.
    pub entries: Seq<Pair>,
    /// Whether TLS is enabled.
    pub tls: bool,
    /// The TLS options, in call order.
    pub ssl_entries: Seq<Pair>,
    /// The SASL configuration that was selected last.
    pub sasl: Option<SaslModel>,
}

impl View for Options {
    type V = OptionsModel;

    closed spec fn view(&self) -> OptionsModel {
        OptionsModel {
            entries: pairs::pair_texts(self.entries@),
            tls: self.tls,
            ssl_entries: pairs::pair_texts(self.ssl_entries@),
            sasl: match self.sasl {
                None => None,
                Some(s) => Some(s@),
            },
        }
    }
}

/// An entry for an optional value: none when it is unset.
pub open spec fn optional_entry(key: Seq<char>, value: Option<Seq<char>>) -> Seq<Pair> {
    match value {
        None => seq![],
        Some(value) => seq![(key, value)],
    }
}

/// Pairs written as `key=value`.
pub open spec fn assignments(s: Seq<Pair>) -> Seq<Seq<char>> {
    Seq::new(s.len(), |i: int| s[i].0 + "="@ + s[i].1)
}

impl SaslModel {
    /// The entries that the configuration emits.
    pub open spec fn entries(self) -> Seq<Pair> {
        match self {
            SaslModel::UserPass { mechanism, username, password } => seq![
                ("sasl.mechanism"@, mechanism.name()),
                ("sasl.username"@, username),
                ("sasl.password"@, password),
            ],
            SaslModel::AwsMskIam { region, profile, role_arn, role_session_name } => seq![
                ("sasl.mechanism"@, "AWS_MSK_IAM"@),
            ] + optional_entry("aws.region"@, region) + optional_entry("aws.profile"@, profile)
                + optional_entry("aws.role.arn"@, role_arn) + optional_entry(
                "aws.role.session.name"@,
                role_session_name,
            ),
            SaslModel::OauthbearerOidc {
                token_endpoint,
                client_id,
                client_secret,
                scope,
                extensions,
            } => seq![
                ("sasl.mechanism"@, "OAUTHBEARER"@),
                ("sasl.oauthbearer.token.endpoint.url"@, token_endpoint),
                ("sasl.oauthbearer.client.id"@, client_id),
                ("sasl.oauthbearer.client.secret"@, client_secret),
            ] + optional_entry("sasl.oauthbearer.scope"@, scope) + optional_entry(
                "sasl.oauthbearer.extensions"@,
                if extensions.len() == 0 {
                    None
                } else {
                    Some(text::join(assignments(extensions), ","@))
                },
            ),
            SaslModel::GcpIam { principal, credentials_file } => seq![
                ("sasl.mechanism"@, "OAUTHBEARER"@),
                ("sasl.oauthbearer.method"@, "gcp"@),
            ] + optional_entry("gcp.principal"@, principal) + optional_entry(
                "gcp.credentials.file"@,
                credentials_file,
            ),
        }
    }

    /// The keys that the configuration claims: those it emits, and the alias
    /// `sasl.mechanisms` that the client reads as `sasl.mechanism`.
    pub open spec fn claimed_keys(self) -> Seq<Seq<char>> {
        seq!["sasl.mechanisms"@] + pairs::keys(self.entries())
    }
}

/// The list with `k` in its place in dictionary order, once.
pub open spec fn insert_sorted(list: Seq<Seq<char>>, k: Seq<char>) -> Seq<Seq<char>>
    decreases list.len(),
{
    if list.len() == 0 {
        seq![k]
    } else if list.last() == k {
        list
    } else if text::precedes(list.last(), k) {
        list.push(k)
    } else {
        insert_sorted(list.drop_last(), k).push(list.last())
    }
}

/// Those of the keys that are claimed, in dictionary order and each once.
pub open spec fn conflicts(ks: Seq<Seq<char>>, claimed: Seq<Seq<char>>) -> Seq<Seq<char>>
    decreases ks.len(),
{
    if ks.len() == 0 {
        seq![]
    } else {
        let before = conflicts(ks.drop_last(), claimed);
        if claimed.contains(ks.last()) {
            insert_sorted(before, ks.last())
        } else {
            before
        }
    }
}

/// The message that reports security keys set in both styles.
pub open spec fn conflict_message(conflicting: Seq<Seq<char>>) -> Seq<char> {
    "Options: security key(s) set both via typed setters and kafka_option(): "@ + text::join(
        conflicting,
        ", "@,
    ) + "; configure each key with one style only"@
}

/// The value under this key is a credential.
pub open spec fn is_secret(key: Seq<char>) -> bool {
    text::contains_text(key, "password"@) || text::contains_text(key, "secret"@)
        || text::contains_text(key, "key.pem"@)
}

/// The pair as it may be shown: a credential is replaced.
pub open spec fn redacted(p: Pair) -> Pair {
    if is_secret(p.0) {
        (p.0, "<redacted>"@)
    } else {
        p
    }
}

/// The pairs as they may be shown.
pub open spec fn redacted_pairs(s: Seq<Pair>) -> Seq<Pair> {
    Seq::new(s.len(), |i: int| redacted(s[i]))
}

/// The pairs with keys and values quoted.
pub open spec fn quoted_pairs(s: Seq<Pair>) -> Seq<Pair> {
    Seq::new(s.len(), |i: int| (foreign::debug_quoted(s[i].0), foreign::debug_quoted(s[i].1)))
}

/// A quoted pair as it is listed.
pub open spec fn listed_pair(p: Pair) -> Seq<char> {
    "("@ + p.0 + ", "@ + p.1 + ")"@
}

/// Quoted pairs as the text of a builder that emits them.
pub open spec fn listing(s: Seq<Pair>) -> Seq<char> {
    "Options { entries: ["@ + text::join(
        Seq::new(s.len(), |i: int| listed_pair(s[i])),
        ", "@,
    ) + "] }"@
}

/// The keys that the client option setters emit.
pub open spec fn client_keys() -> Seq<Seq<char>> {
    seq![
        "auto.offset.reset"@,
        "client.id"@,
        "group.instance.id"@,
        "session.timeout.ms"@,
        "heartbeat.interval.ms"@,
        "rebalance.timeout.ms"@,
        "llingr.client.log.level"@,
        "partition.assignment.strategy"@,
        "fetch.min.bytes"@,
        "fetch.max.bytes"@,
        "max.partition.fetch.bytes"@,
        "fetch.max.wait.ms"@,
        "client.rack"@,
        "metadata.max.age.ms"@,
        "socket.connection.setup.timeout.ms"@,
        "connections.max.idle.ms"@,
        "llingr.request.retries"@,
        "llingr.retry.timeout.ms"@,
        "llingr.max.concurrent.fetches"@,
        "allow.auto.create.topics"@,
        "check.crcs"@,
        "enable.metrics.push"@,
        "llingr.poll.error.bail.after.ms"@,
        "llingr.poll.error.log.interval.ms"@,
        "llingr.poll.error.backoff.ms"@,
    ]
}

/// The keys that the TLS setters emit.
pub open spec fn tls_keys() -> Seq<Seq<char>> {
    seq![
        "ssl.ca.location"@,
        "ssl.ca.pem"@,
        "ssl.certificate.location"@,
        "ssl.key.location"@,
        "ssl.certificate.pem"@,
        "ssl.key.pem"@,
        "enable.ssl.certificate.verification"@,
        "ssl.endpoint.identification.algorithm"@,
    ]
}

impl OptionsModel {
    /// No options and no security.
    pub open spec fn empty() -> OptionsModel {
        OptionsModel { entries: seq![], tls: false, ssl_entries: seq![], sasl: None }
    }

    /// With one more client option.
    pub open spec fn with_entry(self, key: Seq<char>, value: Seq<char>) -> OptionsModel {
        OptionsModel { entries: self.entries.push((key, value)), ..self }
    }

    /// With one more TLS option, and TLS enabled.
    pub open spec fn with_ssl(self, key: Seq<char>, value: Seq<char>) -> OptionsModel {
        OptionsModel { tls: true, ssl_entries: self.ssl_entries.push((key, value)), ..self }
    }

    /// With TLS enabled.
    pub open spec fn with_tls(self) -> OptionsModel {
        OptionsModel { tls: true, ..self }
    }

    /// With another SASL configuration.
    pub open spec fn with_sasl(self, sasl: SaslModel) -> OptionsModel {
        OptionsModel { sasl: Some(sasl), ..self }
    }

    /// Whether any security setter was used.
    pub open spec fn is_secured(self) -> bool {
        self.tls || self.sasl is Some
    }

    /// The protocol that follows from TLS and SASL.
    pub open spec fn protocol(self) -> Seq<char> {
        if self.tls && self.sasl is Some {
            "sasl_ssl"@
        } else if self.tls {
            "ssl"@
        } else {
            "sasl_plaintext"@
        }
    }

    /// The entries that the security setters emit.
    pub open spec fn security_entries(self) -> Seq<Pair> {
        if self.is_secured() {
            seq![("security.protocol"@, self.protocol())] + self.ssl_entries + match self.sasl {
                None => seq![],
                Some(sasl) => sasl.entries(),
            }
        } else {
            seq![]
        }
    }

    /// All the entries that the builder emits: client options and string pairs
    /// in call order, then the security entries.
    pub open spec fn emitted(self) -> Seq<Pair> {
        self.entries + self.security_entries()
    }

    /// The keys that the active security setters claim.
    pub open spec fn typed_keys(self) -> Seq<Seq<char>> {
        if self.is_secured() {
            seq!["security.protocol"@] + pairs::keys(self.ssl_entries) + match self.sasl {
                None => seq![],
                Some(sasl) => sasl.claimed_keys(),
            }
        } else {
            seq![]
        }
    }

    /// The security keys that arrive both from a setter and from a string
    /// pair.
    pub open spec fn conflicting_keys(self) -> Seq<Seq<char>> {
        conflicts(pairs::keys(self.entries), self.typed_keys())
    }

    /// How the builder is shown, with credentials replaced.
    pub open spec fn shown(self) -> Seq<char> {
        listing(quoted_pairs(redacted_pairs(self.emitted())))
    }

    /// What every builder keeps: a TLS option implies TLS, and so do the
    /// mechanisms whose services speak nothing else; and the TLS options have
    /// the keys of the TLS setters.
    pub open spec fn wf(self) -> bool {
        &&& self.ssl_entries.len() > 0 ==> self.tls
        &&& forall|i: int|
            0 <= i < self.ssl_entries.len() ==> tls_keys().contains(
                #[trigger] self.ssl_entries[i].0,
            )
        &&& self.sasl matches Some(SaslModel::AwsMskIam { .. }) ==> self.tls
        &&& self.sasl matches Some(SaslModel::GcpIam { .. }) ==> self.tls
    }
}

fn clone_text(s: &Option<String>) -> (r: Option<String>)
    ensures
        config::text_of(r) == config::text_of(*s),
{
    match s {
        None => None,
        Some(s) => Some(s.clone()),
    }
}

impl Clone for Sasl {
    fn clone(&self) -> (r: Self)
        ensures
            r@ == self@,
    {
        match self {
            Sasl::UserPass { mechanism, username, password } => Sasl::UserPass {
                mechanism: *mechanism,
                username: username.clone(),
                password: password.clone(),
            },
            Sasl::AwsMskIam { region, profile, role_arn, role_session_name } => Sasl::AwsMskIam {
                region: clone_text(region),
                profile: clone_text(profile),
                role_arn: clone_text(role_arn),
                role_session_name: clone_text(role_session_name),
            },
            Sasl::OauthbearerOidc {
                token_endpoint,
                client_id,
                client_secret,
                scope,
                extensions,
            } => Sasl::OauthbearerOidc {
                token_endpoint: token_endpoint.clone(),
                client_id: client_id.clone(),
                client_secret: client_secret.clone(),
                scope: clone_text(scope),
                extensions: clone_pairs(extensions),
            },
            Sasl::GcpIam { principal, credentials_file } => Sasl::GcpIam {
                principal: clone_text(principal),
                credentials_file: clone_text(credentials_file),
            },
        }
    }
}

impl Default for Options {
    fn default() -> (r: Self)
        ensures
            r@ == OptionsModel::empty(),
    {
        let r = Options { entries: Vec::new(), tls: false, ssl_entries: Vec::new(), sasl: None };
        assert(r@ =~= OptionsModel::empty());
        r
    }
}

impl Clone for Options {
    fn clone(&self) -> (r: Self)
        ensures
            r@ == self@,
    {
        proof {
            use_type_invariant(self);
        }
        Options {
            entries: clone_pairs(&self.entries),
            tls: self.tls,
            ssl_entries: clone_pairs(&self.ssl_entries),
            sasl: match &self.sasl {
                None => None,
                Some(sasl) => Some(sasl.clone()),
            },
        }
    }
}

/// The texts of pairs that are given as option text.
pub open spec fn given_texts<K: OptionText, V: OptionText>(s: Seq<(K, V)>) -> Seq<Pair> {
    Seq::new(s.len(), |i: int| (s[i].0.text(), s[i].1.text()))
}

fn owned_pairs<K: OptionText, V: OptionText>(given: Vec<(K, V)>) -> (r: Vec<(String, String)>)
    ensures
        pairs::pair_texts(r@) == given_texts(given@),
{
    let ghost all = given@;
    let mut r: Vec<(String, String)> = Vec::new();
    for p in it: given.into_iter()
        invariant
            it.seq() == all,
            pairs::pair_texts(r@) == given_texts(all.take(it.index())),
    {
        let ghost before = r@;
        let (key, value) = p;
        assert((key, value) == all[it.index()]);
        r.push((key.into_text(), value.into_text()));
        proof {
            let done = all.take(it.index());
            assert(all.take(it.index() + 1) =~= done.push(all[it.index()]));
            assert(given_texts(done.push(all[it.index()])) =~= given_texts(done).push(
                (key.text(), value.text()),
            ));
            assert(pairs::pair_texts(r@) =~= pairs::pair_texts(before).push(
                (key.text(), value.text()),
            ));
        }
    }
    assert(all.take(all.len() as int) =~= all);
    r
}

impl Options {
    /// The model of every builder is well-formed: constructors establish it and
    /// setters keep it.
    #[verifier::type_invariant]
    spec fn is_kept(self) -> bool {
        self@.wf()
    }

    /// An empty builder: no options, no security.
    pub fn new() -> (r: Self)
        ensures
            r@ == OptionsModel::empty(),
    {
        Self::default()
    }

    fn push(self, key: &str, value: String) -> (r: Self)
        ensures
            r@ == self@.with_entry(key@, value@),
    {
        proof {
            use_type_invariant(&self);
        }
        let mut entries = self.entries;
        entries.push((key.to_owned(), value));
        let r = Options { entries, ..self };
        assert(r@.entries =~= self@.entries.push((key@, value@)));
        r
    }

    fn push_ssl(self, key: &str, value: &str) -> (r: Self)
        requires
            tls_keys().contains(key@),
        ensures
            r@ == self@.with_ssl(key@, value@),
    {
        proof {
            use_type_invariant(&self);
        }
        let mut ssl_entries = self.ssl_entries;
        push_pair(&mut ssl_entries, key, value);
        Options { tls: true, ssl_entries, ..self }
    }

    // -- client options -----------------------------------------------------

    /// Where consumption starts when no committed offset exists.
    pub fn auto_offset_reset(self, reset: AutoOffsetReset) -> (r: Self)
        ensures
            r@ == self@.with_entry(
                "auto.offset.reset"@,
                match reset {
                    AutoOffsetReset::Earliest => "earliest"@,
                    AutoOffsetReset::Latest => "latest"@,
                },
            ),
    {
        self.push("auto.offset.reset", offset_reset_name(reset).to_owned())
    }

    /// Client identifier presented to the broker.
    pub fn client_id(self, id: &str) -> (r: Self)
        ensures
            r@ == self@.with_entry("client.id"@, id@),
    {
        self.push("client.id", id.to_owned())
    }

    /// Static group membership identifier: a restart within the session timeout
    /// rejoins without a rebalance.
    pub fn group_instance_id(self, id: &str) -> (r: Self)
        ensures
            r@ == self@.with_entry("group.instance.id"@, id@),
    {
        self.push("group.instance.id", id.to_owned())
    }

    /// Rack identifier: enables rack-aware fetching from followers.
    pub fn rack(self, rack: &str) -> (r: Self)
        ensures
            r@ == self@.with_entry("client.rack"@, rack@),
    {
        self.push("client.rack", rack.to_owned())
    }

    /// Verbosity of the Kafka client's internal diagnostics.
    pub fn client_log_level(self, level: ClientLogLevel) -> (r: Self)
        ensures
            r@ == self@.with_entry("llingr.client.log.level"@, level.name()),
    {
        self.push("llingr.client.log.level", level.wire_name().to_owned())
    }

    /// Partition assignment strategies, in order of preference. The group
    /// takes the first that every member supports.
    pub fn partition_assignment_strategy(self, strategies: &[BalanceStrategy]) -> (r: Self)
        ensures
            r@ == self@.with_entry(
                "partition.assignment.strategy"@,
                text::join(strategy_names(strategies@), ","@),
            ),
    {
        let mut names: Vec<String> = Vec::new();
        let mut i: usize = 0;
        while i < strategies.len()
            invariant
                i <= strategies.len(),
                names.len() == i,
                forall|j: int| 0 <= j < i ==> #[trigger] names@[j]@ == strategies@[j].name(),
            decreases strategies.len() - i,
        {
            names.push(strategies[i].wire_name().to_owned());
            i = i + 1;
        }
        assert(text::texts(names@) =~= strategy_names(strategies@));
        self.push("partition.assignment.strategy", join_text(&names, ","))
    }

    /// Minimum bytes the broker accumulates before answering a fetch.
    pub fn fetch_min_bytes(self, n: u32) -> (r: Self)
        ensures
            r@ == self@.with_entry("fetch.min.bytes"@, text::decimal(n as nat)),
    {
        self.push("fetch.min.bytes", decimal_text(n as u128))
    }

    /// Maximum bytes returned per fetch across all partitions.
    pub fn fetch_max_bytes(self, n: u32) -> (r: Self)
        ensures
            r@ == self@.with_entry("fetch.max.bytes"@, text::decimal(n as nat)),
    {
        self.push("fetch.max.bytes", decimal_text(n as u128))
    }

    /// Maximum bytes returned per partition per fetch.
    pub fn max_partition_fetch_bytes(self, n: u32) -> (r: Self)
        ensures
            r@ == self@.with_entry("max.partition.fetch.bytes"@, text::decimal(n as nat)),
    {
        self.push("max.partition.fetch.bytes", decimal_text(n as u128))
    }

    /// Retry budget for retryable requests other than fetches.
    pub fn request_retries(self, n: u32) -> (r: Self)
        ensures
            r@ == self@.with_entry("llingr.request.retries"@, text::decimal(n as nat)),
    {
        self.push("llingr.request.retries", decimal_text(n as u128))
    }

    /// Maximum in-flight fetch requests across all brokers, at least 1.
    pub fn max_concurrent_fetches(self, n: u32) -> (r: Self)
        ensures
            r@ == self@.with_entry("llingr.max.concurrent.fetches"@, text::decimal(n as nat)),
    {
        self.push("llingr.max.concurrent.fetches", decimal_text(n as u128))
    }

    /// Consumer group session timeout.
    pub fn session_timeout(self, d: Duration) -> (r: Self)
        ensures
            r@ == self@.with_entry("session.timeout.ms"@, text::decimal(config::whole_millis(d))),
    {
        self.push("session.timeout.ms", decimal_text(llingr_nexus::duration_ms_ceil(d)))
    }

    /// Consumer group heartbeat interval.
    pub fn heartbeat_interval(self, d: Duration) -> (r: Self)
        ensures
            r@ == self@.with_entry("heartbeat.interval.ms"@, text::decimal(config::whole_millis(d))),
    {
        self.push("heartbeat.interval.ms", decimal_text(llingr_nexus::duration_ms_ceil(d)))
    }

    /// How long a rebalance may take before the member is evicted. It must exceed
    /// the engine's drain timeout.
    pub fn rebalance_timeout(self, d: Duration) -> (r: Self)
        ensures
            r@ == self@.with_entry("rebalance.timeout.ms"@, text::decimal(config::whole_millis(d))),
    {
        self.push("rebalance.timeout.ms", decimal_text(llingr_nexus::duration_ms_ceil(d)))
    }

    /// Maximum time the broker holds a fetch before answering.
    pub fn fetch_max_wait(self, d: Duration) -> (r: Self)
        ensures
            r@ == self@.with_entry("fetch.max.wait.ms"@, text::decimal(config::whole_millis(d))),
    {
        self.push("fetch.max.wait.ms", decimal_text(llingr_nexus::duration_ms_ceil(d)))
    }

    /// Maximum age of cached broker metadata.
    pub fn metadata_max_age(self, d: Duration) -> (r: Self)
        ensures
            r@ == self@.with_entry("metadata.max.age.ms"@, text::decimal(config::whole_millis(d))),
    {
        self.push("metadata.max.age.ms", decimal_text(llingr_nexus::duration_ms_ceil(d)))
    }

    /// Connection establishment timeout, TLS handshake included.
    pub fn dial_timeout(self, d: Duration) -> (r: Self)
        ensures
            r@ == self@.with_entry("socket.connection.setup.timeout.ms"@, text::decimal(config::whole_millis(d))),
    {
        self.push("socket.connection.setup.timeout.ms", decimal_text(llingr_nexus::duration_ms_ceil(d)))
    }

    /// How long an idle broker connection may live.
    pub fn connection_idle_timeout(self, d: Duration) -> (r: Self)
        ensures
            r@ == self@.with_entry("connections.max.idle.ms"@, text::decimal(config::whole_millis(d))),
    {
        self.push("connections.max.idle.ms", decimal_text(llingr_nexus::duration_ms_ceil(d)))
    }

    /// Upper bound on how long one retryable request keeps being retried.
    pub fn retry_timeout(self, d: Duration) -> (r: Self)
        ensures
            r@ == self@.with_entry("llingr.retry.timeout.ms"@, text::decimal(config::whole_millis(d))),
    {
        self.push("llingr.retry.timeout.ms", decimal_text(llingr_nexus::duration_ms_ceil(d)))
    }

    /// How long a partition may fail continuously before the engine stops itself.
    /// Zero disables the bail; otherwise from 1 minute to 1 hour.
    pub fn poll_error_bail_after(self, d: Duration) -> (r: Self)
        ensures
            r@ == self@.with_entry("llingr.poll.error.bail.after.ms"@, text::decimal(config::whole_millis(d))),
    {
        self.push("llingr.poll.error.bail.after.ms", decimal_text(llingr_nexus::duration_ms_ceil(d)))
    }

    /// Minimum interval between repeated logs of the same poll error.
    pub fn poll_error_log_interval(self, d: Duration) -> (r: Self)
        ensures
            r@ == self@.with_entry("llingr.poll.error.log.interval.ms"@, text::decimal(config::whole_millis(d))),
    {
        self.push("llingr.poll.error.log.interval.ms", decimal_text(llingr_nexus::duration_ms_ceil(d)))
    }

    /// Pause after a broker error that returned no record, at most 5 seconds.
    /// Zero disables it.
    pub fn poll_error_backoff(self, d: Duration) -> (r: Self)
        ensures
            r@ == self@.with_entry("llingr.poll.error.backoff.ms"@, text::decimal(config::whole_millis(d))),
    {
        self.push("llingr.poll.error.backoff.ms", decimal_text(llingr_nexus::duration_ms_ceil(d)))
    }

    /// Create the consumed topic when it is first looked up, where the broker
    /// permits it.
    pub fn allow_auto_topic_creation(self) -> (r: Self)
        ensures
            r@ == self@.with_entry("allow.auto.create.topics"@, "true"@),
    {
        self.push("allow.auto.create.topics", "true".to_owned())
    }

    /// Disable checksum validation of fetched record batches.
    pub fn disable_fetch_crc_validation(self) -> (r: Self)
        ensures
            r@ == self@.with_entry("check.crcs"@, "false"@),
    {
        self.push("check.crcs", "false".to_owned())
    }

    /// Opt out of pushing client metrics to the broker.
    pub fn disable_client_metrics_push(self) -> (r: Self)
        ensures
            r@ == self@.with_entry("enable.metrics.push"@, "false"@),
    {
        self.push("enable.metrics.push", "false".to_owned())
    }

    // -- TLS ------------------------------------------------------------------

    /// Enable TLS with the system trust roots and no client certificate.
    pub fn tls(self) -> (r: Self)
        ensures
            r@ == self@.with_tls(),
    {
        proof {
            use_type_invariant(&self);
        }
        Options { tls: true, ..self }
    }

    /// Trust the CA certificates in the given PEM file.
    pub fn tls_ca_location(self, path: &str) -> (r: Self)
        ensures
            r@ == self@.with_ssl("ssl.ca.location"@, path@),
    {
        assert(tls_keys()[0] == "ssl.ca.location"@);
        self.push_ssl("ssl.ca.location", path)
    }

    /// Trust the CA certificates in the given PEM text.
    pub fn tls_ca_pem(self, pem: &str) -> (r: Self)
        ensures
            r@ == self@.with_ssl("ssl.ca.pem"@, pem@),
    {
        assert(tls_keys()[1] == "ssl.ca.pem"@);
        self.push_ssl("ssl.ca.pem", pem)
    }

    /// Present a client certificate from PEM files. The key must be unencrypted.
    pub fn tls_client_certificate(self, certificate_path: &str, key_path: &str) -> (r: Self)
        ensures
            r@ == self@.with_ssl("ssl.certificate.location"@, certificate_path@).with_ssl(
                "ssl.key.location"@,
                key_path@,
            ),
    {
        assert(tls_keys()[2] == "ssl.certificate.location"@);
        assert(tls_keys()[3] == "ssl.key.location"@);
        self.push_ssl("ssl.certificate.location", certificate_path).push_ssl("ssl.key.location", key_path)
    }

    /// Present a client certificate from PEM texts. The key must be unencrypted.
    pub fn tls_client_certificate_pem(self, certificate_pem: &str, key_pem: &str) -> (r: Self)
        ensures
            r@ == self@.with_ssl("ssl.certificate.pem"@, certificate_pem@).with_ssl(
                "ssl.key.pem"@,
                key_pem@,
            ),
    {
        assert(tls_keys()[4] == "ssl.certificate.pem"@);
        assert(tls_keys()[5] == "ssl.key.pem"@);
        self.push_ssl("ssl.certificate.pem", certificate_pem).push_ssl("ssl.key.pem", key_pem)
    }

    /// Disable all server certificate verification. The connection is encrypted
    /// but the peer is not authenticated: development use only.
    pub fn disable_certificate_verification(self) -> (r: Self)
        ensures
            r@ == self@.with_ssl("enable.ssl.certificate.verification"@, "false"@),
    {
        assert(tls_keys()[6] == "enable.ssl.certificate.verification"@);
        self.push_ssl("enable.ssl.certificate.verification", "false")
    }

    /// Verify the certificate chain but not the hostname.
    pub fn disable_hostname_verification(self) -> (r: Self)
        ensures
            r@ == self@.with_ssl("ssl.endpoint.identification.algorithm"@, "none"@),
    {
        assert(tls_keys()[7] == "ssl.endpoint.identification.algorithm"@);
        self.push_ssl("ssl.endpoint.identification.algorithm", "none")
    }

    // -- SASL -----------------------------------------------------------------

    /// Authenticate with SASL/PLAIN. Combine it with TLS, so that the password
    /// never travels unencrypted.
    pub fn sasl_plain(self, username: &str, password: &str) -> (r: Self)
        ensures
            r@ == self@.with_sasl(
                SaslModel::UserPass {
                    mechanism: SaslMechanism::Plain,
                    username: username@,
                    password: password@,
                },
            ),
    {
        self.with_password(SaslMechanism::Plain, username, password)
    }

    /// Authenticate with SASL/SCRAM-SHA-256.
    pub fn sasl_scram_sha256(self, username: &str, password: &str) -> (r: Self)
        ensures
            r@ == self@.with_sasl(
                SaslModel::UserPass {
                    mechanism: SaslMechanism::ScramSha256,
                    username: username@,
                    password: password@,
                },
            ),
    {
        self.with_password(SaslMechanism::ScramSha256, username, password)
    }

    /// Authenticate with SASL/SCRAM-SHA-512.
    pub fn sasl_scram_sha512(self, username: &str, password: &str) -> (r: Self)
        ensures
            r@ == self@.with_sasl(
                SaslModel::UserPass {
                    mechanism: SaslMechanism::ScramSha512,
                    username: username@,
                    password: password@,
                },
            ),
    {
        self.with_password(SaslMechanism::ScramSha512, username, password)
    }

    fn with_password(self, mechanism: SaslMechanism, username: &str, password: &str) -> (r: Self)
        ensures
            r@ == self@.with_sasl(
                SaslModel::UserPass { mechanism, username: username@, password: password@ },
            ),
    {
        proof {
            use_type_invariant(&self);
        }
        let sasl = Sasl::UserPass {
            mechanism,
            username: username.to_owned(),
            password: password.to_owned(),
        };
        Options { sasl: Some(sasl), ..self }
    }

    // -- AWS_MSK_IAM ------------------------------------------------------------

    /// Authenticate to Amazon MSK with IAM. The service speaks TLS only, so
    /// TLS is enabled too.
    pub fn sasl_aws_msk_iam(self) -> (r: Self)
        ensures
            r@ == self@.with_tls().with_sasl(
                SaslModel::AwsMskIam {
                    region: None,
                    profile: None,
                    role_arn: None,
                    role_session_name: None,
                },
            ),
    {
        proof {
            use_type_invariant(&self);
        }
        let sasl = Sasl::AwsMskIam {
            region: None,
            profile: None,
            role_arn: None,
            role_session_name: None,
        };
        Options { tls: true, sasl: Some(sasl), ..self }
    }

    /// Set the AWS region for the credential provider chain. Without effect
    /// unless [`sasl_aws_msk_iam`](Self::sasl_aws_msk_iam) was selected.
    pub fn aws_region(self, region: &str) -> (r: Self)
        ensures
            r@ == match self@.sasl {
                Some(SaslModel::AwsMskIam { profile, role_arn, role_session_name, .. }) => {
                    self@.with_sasl(
                        SaslModel::AwsMskIam {
                            region: Some(region@),
                            profile,
                            role_arn,
                            role_session_name,
                        },
                    )
                },
                _ => self@,
            },
    {
        proof {
            use_type_invariant(&self);
        }
        let sasl = match self.sasl {
            Some(Sasl::AwsMskIam { profile, role_arn, role_session_name, .. }) => Some(
                Sasl::AwsMskIam {
                    region: Some(region.to_owned()),
                    profile,
                    role_arn,
                    role_session_name,
                },
            ),
            other => other,
        };
        Options { entries: self.entries, tls: self.tls, ssl_entries: self.ssl_entries, sasl }
    }

    /// Select a shared-config profile for the credential provider chain.
    /// Without effect unless [`sasl_aws_msk_iam`](Self::sasl_aws_msk_iam) was
    /// selected.
    pub fn aws_profile(self, profile: &str) -> (r: Self)
        ensures
            r@ == match self@.sasl {
                Some(SaslModel::AwsMskIam { region, role_arn, role_session_name, .. }) => {
                    self@.with_sasl(
                        SaslModel::AwsMskIam {
                            region,
                            profile: Some(profile@),
                            role_arn,
                            role_session_name,
                        },
                    )
                },
                _ => self@,
            },
    {
        proof {
            use_type_invariant(&self);
        }
        let sasl = match self.sasl {
            Some(Sasl::AwsMskIam { region, role_arn, role_session_name, .. }) => Some(
                Sasl::AwsMskIam {
                    region,
                    profile: Some(profile.to_owned()),
                    role_arn,
                    role_session_name,
                },
            ),
            other => other,
        };
        Options { entries: self.entries, tls: self.tls, ssl_entries: self.ssl_entries, sasl }
    }

    /// Assume an IAM role on top of the base credential chain, with an
    /// optional session name. Without effect unless
    /// [`sasl_aws_msk_iam`](Self::sasl_aws_msk_iam) was selected.
    pub fn aws_assume_role(self, role_arn: &str, session_name: Option<&str>) -> (r: Self)
        ensures
            r@ == match self@.sasl {
                Some(SaslModel::AwsMskIam { region, profile, .. }) => self@.with_sasl(
                    SaslModel::AwsMskIam {
                        region,
                        profile,
                        role_arn: Some(role_arn@),
                        role_session_name: match session_name {
                            None => None,
                            Some(name) => Some(name@),
                        },
                    },
                ),
                _ => self@,
            },
    {
        proof {
            use_type_invariant(&self);
        }
        let sasl = match self.sasl {
            Some(Sasl::AwsMskIam { region, profile, .. }) => Some(
                Sasl::AwsMskIam {
                    region,
                    profile,
                    role_arn: Some(role_arn.to_owned()),
                    role_session_name: match session_name {
                        None => None,
                        Some(name) => Some(name.to_owned()),
                    },
                },
            ),
            other => other,
        };
        Options { entries: self.entries, tls: self.tls, ssl_entries: self.ssl_entries, sasl }
    }

    // -- OAUTHBEARER with client credentials ------------------------------------

    /// Authenticate with SASL/OAUTHBEARER, fetching tokens from the endpoint
    /// with the client credentials. This does not enable TLS on its own.
    pub fn sasl_oauthbearer_oidc(
        self,
        token_endpoint_url: &str,
        client_id: &str,
        client_secret: &str,
    ) -> (r: Self)
        ensures
            r@ == self@.with_sasl(
                SaslModel::OauthbearerOidc {
                    token_endpoint: token_endpoint_url@,
                    client_id: client_id@,
                    client_secret: client_secret@,
                    scope: None,
                    extensions: seq![],
                },
            ),
    {
        let extensions: Vec<(String, String)> = Vec::new();
        assert(pairs::pair_texts(extensions@) =~= seq![]);
        proof {
            use_type_invariant(&self);
        }
        let sasl = Sasl::OauthbearerOidc {
            token_endpoint: token_endpoint_url.to_owned(),
            client_id: client_id.to_owned(),
            client_secret: client_secret.to_owned(),
            scope: None,
            extensions,
        };
        Options { sasl: Some(sasl), ..self }
    }

    /// Set the scope requested from the token endpoint. Without effect unless
    /// [`sasl_oauthbearer_oidc`](Self::sasl_oauthbearer_oidc) was selected.
    pub fn oauthbearer_scope(self, scope: &str) -> (r: Self)
        ensures
            r@ == match self@.sasl {
                Some(
                    SaslModel::OauthbearerOidc {
                        token_endpoint,
                        client_id,
                        client_secret,
                        extensions,
                        ..
                    },
                ) => self@.with_sasl(
                    SaslModel::OauthbearerOidc {
                        token_endpoint,
                        client_id,
                        client_secret,
                        scope: Some(scope@),
                        extensions,
                    },
                ),
                _ => self@,
            },
    {
        proof {
            use_type_invariant(&self);
        }
        let sasl = match self.sasl {
            Some(
                Sasl::OauthbearerOidc {
                    token_endpoint,
                    client_id,
                    client_secret,
                    extensions,
                    ..
                },
            ) => Some(
                Sasl::OauthbearerOidc {
                    token_endpoint,
                    client_id,
                    client_secret,
                    scope: Some(scope.to_owned()),
                    extensions,
                },
            ),
            other => other,
        };
        Options { entries: self.entries, tls: self.tls, ssl_entries: self.ssl_entries, sasl }
    }

    /// Set the OAUTHBEARER extensions. Without effect unless
    /// [`sasl_oauthbearer_oidc`](Self::sasl_oauthbearer_oidc) was selected.
    pub fn oauthbearer_extensions<K: OptionText, V: OptionText>(self, given: Vec<(K, V)>) -> (r:
        Self)
        ensures
            r@ == match self@.sasl {
                Some(
                    SaslModel::OauthbearerOidc {
                        token_endpoint,
                        client_id,
                        client_secret,
                        scope,
                        ..
                    },
                ) => self@.with_sasl(
                    SaslModel::OauthbearerOidc {
                        token_endpoint,
                        client_id,
                        client_secret,
                        scope,
                        extensions: given_texts(given@),
                    },
                ),
                _ => self@,
            },
    {
        proof {
            use_type_invariant(&self);
        }
        let sasl = match self.sasl {
            Some(
                Sasl::OauthbearerOidc { token_endpoint, client_id, client_secret, scope, .. },
            ) => Some(
                Sasl::OauthbearerOidc {
                    token_endpoint,
                    client_id,
                    client_secret,
                    scope,
                    extensions: owned_pairs(given),
                },
            ),
            other => other,
        };
        Options { entries: self.entries, tls: self.tls, ssl_entries: self.ssl_entries, sasl }
    }

    // -- GCP IAM ----------------------------------------------------------------

    /// Authenticate to Google Cloud's managed Kafka with IAM. The service
    /// speaks TLS only, so TLS is enabled too.
    pub fn sasl_gcp_iam(self) -> (r: Self)
        ensures
            r@ == self@.with_tls().with_sasl(
                SaslModel::GcpIam { principal: None, credentials_file: None },
            ),
    {
        proof {
            use_type_invariant(&self);
        }
        let sasl = Sasl::GcpIam { principal: None, credentials_file: None };
        Options { tls: true, sasl: Some(sasl), ..self }
    }

    /// Set the principal for the token's subject. Without effect unless
    /// [`sasl_gcp_iam`](Self::sasl_gcp_iam) was selected.
    pub fn gcp_principal(self, principal: &str) -> (r: Self)
        ensures
            r@ == match self@.sasl {
                Some(SaslModel::GcpIam { credentials_file, .. }) => self@.with_sasl(
                    SaslModel::GcpIam { principal: Some(principal@), credentials_file },
                ),
                _ => self@,
            },
    {
        proof {
            use_type_invariant(&self);
        }
        let sasl = match self.sasl {
            Some(Sasl::GcpIam { credentials_file, .. }) => Some(
                Sasl::GcpIam { principal: Some(principal.to_owned()), credentials_file },
            ),
            other => other,
        };
        Options { entries: self.entries, tls: self.tls, ssl_entries: self.ssl_entries, sasl }
    }

    /// Use a service account key file in place of the default credentials.
    /// Without effect unless [`sasl_gcp_iam`](Self::sasl_gcp_iam) was selected.
    pub fn gcp_credentials_file(self, path: &str) -> (r: Self)
        ensures
            r@ == match self@.sasl {
                Some(SaslModel::GcpIam { principal, .. }) => self@.with_sasl(
                    SaslModel::GcpIam { principal, credentials_file: Some(path@) },
                ),
                _ => self@,
            },
    {
        proof {
            use_type_invariant(&self);
        }
        let sasl = match self.sasl {
            Some(Sasl::GcpIam { principal, .. }) => Some(
                Sasl::GcpIam { principal, credentials_file: Some(path.to_owned()) },
            ),
            other => other,
        };
        Options { entries: self.entries, tls: self.tls, ssl_entries: self.ssl_entries, sasl }
    }

    // -- string pairs -------------------------------------------------------------

    /// Add a Kafka client option as a key/value pair. A key may be repeated;
    /// the last write wins. A security key that a setter emits as well is
    /// rejected when the engine is built.
    pub fn kafka_option<K: OptionText, V: OptionText>(self, key: K, value: V) -> (r: Self)
        ensures
            r@ == self@.with_entry(key.text(), value.text()),
    {
        let key = key.into_text();
        self.push(key.as_str(), value.into_text())
    }

    /// Add many Kafka client options at once, as by repeated
    /// [`kafka_option`](Self::kafka_option) calls.
    pub fn kafka_options<K: OptionText, V: OptionText>(self, given: Vec<(K, V)>) -> (r: Self)
        ensures
            r@ == (OptionsModel { entries: self@.entries + given_texts(given@), ..self@ }),
    {
        proof {
            use_type_invariant(&self);
        }
        let mut entries = self.entries;
        let mut added = owned_pairs(given);
        let ghost before = entries@;
        let ghost more = added@;
        entries.append(&mut added);
        let r = Options { entries, ..self };
        assert(r@.entries =~= self@.entries + given_texts(given@)) by {
            assert(pairs::pair_texts(before + more) =~= pairs::pair_texts(before)
                + pairs::pair_texts(more));
        }
        r
    }

    // -- what the builder emits -----------------------------------------------------

    /// The broker client that the options are written for.
    pub fn adapter(&self) -> (r: Adapter)
        ensures
            r == Adapter::Franz,
    {
        Adapter::Franz
    }

    /// All the entries that the builder emits: client options and string pairs
    /// in call order, then the protocol, the TLS options and the SASL options.
    /// The builder is well-formed, as every builder is.
    pub fn entries(&self) -> (r: Vec<(String, String)>)
        ensures
            pairs::pair_texts(r@) == self@.emitted(),
            self@.wf(),
    {
        proof {
            use_type_invariant(self);
        }
        let mut out = clone_pairs(&self.entries);
        if self.tls || self.sasl.is_some() {
            let protocol = if self.tls && self.sasl.is_some() {
                "sasl_ssl"
            } else if self.tls {
                "ssl"
            } else {
                "sasl_plaintext"
            };
            push_pair(&mut out, "security.protocol", protocol);
            extend_pairs(&mut out, &self.ssl_entries);
            match &self.sasl {
                None => {},
                Some(sasl) => {
                    push_sasl_entries(&mut out, sasl);
                },
            }
        }
        assert(pairs::pair_texts(out@) =~= self@.emitted());
        out
    }

    /// The keys that the active security setters claim; a string pair for any
    /// of them is ambiguous.
    pub fn typed_security_keys(&self) -> (r: Vec<String>)
        ensures
            text::texts(r@) == self@.typed_keys(),
    {
        let mut keys: Vec<String> = Vec::new();
        assert(text::texts(keys@) =~= seq![]);
        if !self.tls && self.sasl.is_none() {
            return keys;
        }
        push_text(&mut keys, "security.protocol".to_owned());
        push_keys(&mut keys, &self.ssl_entries);
        match &self.sasl {
            None => {},
            Some(sasl) => {
                push_claimed_keys(&mut keys, sasl);
            },
        }
        assert(text::texts(keys@) =~= self@.typed_keys());
        keys
    }

    /// Reject the ambiguous mix: the same security key arriving from both a
    /// setter and a string pair on this builder. String security pairs without
    /// setters are fine, and so are those that no setter emits. The builder is
    /// well-formed, as every builder is.
    pub fn validate(&self) -> (r: Result<(), String>)
        ensures
            match r {
                Ok(()) => self@.conflicting_keys().len() == 0,
                Err(message) => {
                    &&& self@.conflicting_keys().len() > 0
                    &&& message@ == conflict_message(self@.conflicting_keys())
                },
            },
            self@.wf(),
    {
        proof {
            use_type_invariant(self);
        }
        let claimed = self.typed_security_keys();
        let conflicting = find_conflicts(&self.entries, &claimed);
        if conflicting.is_empty() {
            Ok(())
        } else {
            let mut message = String::new();
            message.append(
                "Options: security key(s) set both via typed setters and kafka_option(): ",
            );
            let listed = join_text(&conflicting, ", ");
            message.append(listed.as_str());
            message.append("; configure each key with one style only");
            assert(message@ =~= conflict_message(self@.conflicting_keys()));
            Err(message)
        }
    }

    /// The entries that the builder emits, with the value of every key that
    /// contains `password`, `secret` or `key.pem` replaced.
    pub fn redacted_entries(&self) -> (r: Vec<(String, String)>)
        ensures
            pairs::pair_texts(r@) == redacted_pairs(self@.emitted()),
    {
        let entries = self.entries();
        let ghost all = self@.emitted();
        let mut r: Vec<(String, String)> = Vec::new();
        let mut i: usize = 0;
        assert(pairs::pair_texts(r@) =~= redacted_pairs(all.take(0)));
        while i < entries.len()
            invariant
                i <= entries.len(),
                all == pairs::pair_texts(entries@),
                pairs::pair_texts(r@) == redacted_pairs(all.take(i as int)),
            decreases entries.len() - i,
        {
            let key = entries[i].0.as_str();
            assert(all[i as int] == (entries@[i as int].0@, entries@[i as int].1@));
            let secret = holds_text(key, "password") || holds_text(key, "secret") || holds_text(
                key,
                "key.pem",
            );
            if secret {
                push_pair(&mut r, key, "<redacted>");
            } else {
                push_pair(&mut r, key, entries[i].1.as_str());
            }
            i = i + 1;
            assert(pairs::pair_texts(r@) =~= redacted_pairs(all.take(i as int)));
        }
        assert(all.take(i as int) =~= all);
        r
    }

    /// The builder as text, for logs: all the entries it emits, quoted, with
    /// credentials replaced.
    pub fn debug_text(&self) -> (r: String)
        ensures
            r@ == self@.shown(),
    {
        let entries = self.redacted_entries();
        let ghost all = pairs::pair_texts(entries@);
        let mut shown: Vec<(String, String)> = Vec::new();
        let mut i: usize = 0;
        assert(pairs::pair_texts(shown@) =~= quoted_pairs(all.take(0)));
        while i < entries.len()
            invariant
                i <= entries.len(),
                all == pairs::pair_texts(entries@),
                pairs::pair_texts(shown@) == quoted_pairs(all.take(i as int)),
            decreases entries.len() - i,
        {
            let key = quoted(entries[i].0.as_str());
            let value = quoted(entries[i].1.as_str());
            push_pair(&mut shown, key.as_str(), value.as_str());
            i = i + 1;
            assert(pairs::pair_texts(shown@) =~= quoted_pairs(all.take(i as int)));
        }
        assert(all.take(i as int) =~= all);
        listing_text(&shown)
    }
}

/// Quoted pairs as the text of a builder that emits them.
pub fn listing_text(quoted: &Vec<(String, String)>) -> (r: String)
    ensures
        r@ == listing(pairs::pair_texts(quoted@)),
{
    let ghost all = pairs::pair_texts(quoted@);
    let ghost listed_pairs = Seq::new(all.len(), |i: int| listed_pair(all[i]));
    let mut parts: Vec<String> = Vec::new();
    let mut i: usize = 0;
    assert(text::texts(parts@) =~= listed_pairs.take(0));
    while i < quoted.len()
        invariant
            i <= quoted.len(),
            all == pairs::pair_texts(quoted@),
            listed_pairs == Seq::new(all.len(), |i: int| listed_pair(all[i])),
            text::texts(parts@) == listed_pairs.take(i as int),
        decreases quoted.len() - i,
    {
        let mut part = "(".to_owned();
        part.append(quoted[i].0.as_str());
        part.append(", ");
        part.append(quoted[i].1.as_str());
        part.append(")");
        assert(part@ =~= listed_pair(all[i as int]));
        push_text(&mut parts, part);
        i = i + 1;
        assert(text::texts(parts@) =~= listed_pairs.take(i as int));
    }
    assert(listed_pairs.take(i as int) =~= listed_pairs);
    let mut r = "Options { entries: [".to_owned();
    let inside = join_text(&parts, ", ");
    r.append(inside.as_str());
    r.append("] }");
    r
}

fn push_optional(out: &mut Vec<(String, String)>, key: &str, value: &Option<String>)
    ensures
        pairs::pair_texts(final(out)@) == pairs::pair_texts(old(out)@) + optional_entry(
            key@,
            config::text_of(*value),
        ),
{
    let ghost before = pairs::pair_texts(out@);
    match value {
        None => {},
        Some(value) => {
            push_pair(out, key, value.as_str());
        },
    }
    assert(pairs::pair_texts(out@) =~= before + optional_entry(key@, config::text_of(*value)));
}

fn joined_assignments(extensions: &Vec<(String, String)>) -> (r: Option<String>)
    ensures
        config::text_of(r) == if extensions@.len() == 0 {
            None
        } else {
            Some(text::join(assignments(pairs::pair_texts(extensions@)), ","@))
        },
{
    if extensions.is_empty() {
        return None;
    }
    let mut parts: Vec<String> = Vec::new();
    let mut i: usize = 0;
    while i < extensions.len()
        invariant
            i <= extensions.len(),
            parts.len() == i,
            forall|j: int|
                0 <= j < i ==> #[trigger] parts@[j]@ == extensions@[j].0@ + "="@ + extensions@[j].1@,
        decreases extensions.len() - i,
    {
        let mut part = extensions[i].0.clone();
        part.append("=");
        part.append(extensions[i].1.as_str());
        parts.push(part);
        i = i + 1;
    }
    assert(text::texts(parts@) =~= assignments(pairs::pair_texts(extensions@)));
    Some(join_text(&parts, ","))
}

fn push_sasl_entries(out: &mut Vec<(String, String)>, sasl: &Sasl)
    ensures
        pairs::pair_texts(final(out)@) == pairs::pair_texts(old(out)@) + sasl@.entries(),
{
    let ghost before = pairs::pair_texts(out@);
    match sasl {
        Sasl::UserPass { mechanism, username, password } => {
            push_pair(out, "sasl.mechanism", mechanism.as_str());
            push_pair(out, "sasl.username", username.as_str());
            push_pair(out, "sasl.password", password.as_str());
        },
        Sasl::AwsMskIam { region, profile, role_arn, role_session_name } => {
            push_pair(out, "sasl.mechanism", "AWS_MSK_IAM");
            push_optional(out, "aws.region", region);
            push_optional(out, "aws.profile", profile);
            push_optional(out, "aws.role.arn", role_arn);
            push_optional(out, "aws.role.session.name", role_session_name);
        },
        Sasl::OauthbearerOidc { token_endpoint, client_id, client_secret, scope, extensions } => {
            push_pair(out, "sasl.mechanism", "OAUTHBEARER");
            push_pair(out, "sasl.oauthbearer.token.endpoint.url", token_endpoint.as_str());
            push_pair(out, "sasl.oauthbearer.client.id", client_id.as_str());
            push_pair(out, "sasl.oauthbearer.client.secret", client_secret.as_str());
            push_optional(out, "sasl.oauthbearer.scope", scope);
            let joined = joined_assignments(extensions);
            push_optional(out, "sasl.oauthbearer.extensions", &joined);
        },
        Sasl::GcpIam { principal, credentials_file } => {
            push_pair(out, "sasl.mechanism", "OAUTHBEARER");
            push_pair(out, "sasl.oauthbearer.method", "gcp");
            push_optional(out, "gcp.principal", principal);
            push_optional(out, "gcp.credentials.file", credentials_file);
        },
    }
    assert(pairs::pair_texts(out@) =~= before + sasl@.entries());
}

fn push_keys(out: &mut Vec<String>, entries: &Vec<(String, String)>)
    ensures
        text::texts(final(out)@) == text::texts(old(out)@) + pairs::keys(
            pairs::pair_texts(entries@),
        ),
{
    let ghost before = text::texts(out@);
    let ghost all = pairs::keys(pairs::pair_texts(entries@));
    let mut i: usize = 0;
    while i < entries.len()
        invariant
            i <= entries.len(),
            all == pairs::keys(pairs::pair_texts(entries@)),
            text::texts(out@) == before + all.take(i as int),
        decreases entries.len() - i,
    {
        push_text(out, entries[i].0.clone());
        assert(text::texts(out@) =~= before + all.take(i + 1));
        i = i + 1;
    }
    assert(all.take(all.len() as int) =~= all);
}

fn push_claimed_keys(out: &mut Vec<String>, sasl: &Sasl)
    ensures
        text::texts(final(out)@) == text::texts(old(out)@) + sasl@.claimed_keys(),
{
    let ghost before = text::texts(out@);
    let mut emitted: Vec<(String, String)> = Vec::new();
    push_sasl_entries(&mut emitted, sasl);
    assert(pairs::pair_texts(emitted@) =~= sasl@.entries());
    push_text(out, "sasl.mechanisms".to_owned());
    push_keys(out, &emitted);
    assert(text::texts(out@) =~= before + sasl@.claimed_keys());
}

fn is_listed(list: &Vec<String>, key: &String) -> (r: bool)
    ensures
        r == text::texts(list@).contains(key@),
{
    let ghost all = text::texts(list@);
    let mut i: usize = 0;
    while i < list.len()
        invariant
            i <= list.len(),
            all == text::texts(list@),
            forall|j: int| 0 <= j < i ==> #[trigger] all[j] != key@,
        decreases list.len() - i,
    {
        assert(all[i as int] == list@[i as int]@);
        if list[i] == *key {
            return true;
        }
        i = i + 1;
    }
    false
}

/// Inserting in order is inserting behind everything that comes before.
proof fn insert_sorted_position(list: Seq<Seq<char>>, k: Seq<char>, i: int)
    requires
        0 <= i <= list.len(),
        forall|j: int|
            i <= j < list.len() ==> #[trigger] list[j] != k && !text::precedes(list[j], k),
    ensures
        i == 0 ==> insert_sorted(list, k) == list.insert(0, k),
        i > 0 && list[i - 1] == k ==> insert_sorted(list, k) == list,
        i > 0 && list[i - 1] != k && text::precedes(list[i - 1], k) ==> insert_sorted(list, k)
            == list.insert(i, k),
    decreases list.len() - i,
{
    if i == list.len() {
        if i == 0 {
            assert(list.insert(0, k) =~= seq![k]);
        } else {
            assert(list.insert(i, k) =~= list.push(k));
        }
    } else {
        let shorter = list.drop_last();
        assert forall|j: int| i <= j < shorter.len() implies #[trigger] shorter[j] != k
            && !text::precedes(shorter[j], k) by {
            assert(shorter[j] == list[j]);
        }
        insert_sorted_position(shorter, k, i);
        assert(list.last() == list[list.len() - 1]);
        assert(shorter.insert(i, k).push(list.last()) =~= list.insert(i, k));
        assert(shorter.push(list.last()) =~= list);
    }
}

fn insert_key(list: &mut Vec<String>, key: &String)
    ensures
        text::texts(final(list)@) == insert_sorted(text::texts(old(list)@), key@),
{
    let ghost all = text::texts(list@);
    let mut i: usize = list.len();
    while i > 0
        invariant
            i <= list.len(),
            all == text::texts(list@),
            all == text::texts(old(list)@),
            forall|j: int|
                i <= j < all.len() ==> #[trigger] all[j] != key@ && !text::precedes(all[j], key@),
        decreases i,
    {
        let here = &list[i - 1];
        assert(all[i - 1] == here@);
        if same_text(here.as_str(), key.as_str()) {
            proof {
                insert_sorted_position(all, key@, i as int);
            }
            return;
        }
        if comes_before(here.as_str(), key.as_str()) {
            proof {
                insert_sorted_position(all, key@, i as int);
            }
            list.insert(i, key.clone());
            assert(text::texts(list@) =~= all.insert(i as int, key@));
            return;
        }
        i = i - 1;
    }
    proof {
        insert_sorted_position(all, key@, 0);
    }
    list.insert(0, key.clone());
    assert(text::texts(list@) =~= all.insert(0, key@));
}

fn find_conflicts(entries: &Vec<(String, String)>, claimed: &Vec<String>) -> (r: Vec<String>)
    ensures
        text::texts(r@) == conflicts(
            pairs::keys(pairs::pair_texts(entries@)),
            text::texts(claimed@),
        ),
{
    let ghost all = pairs::keys(pairs::pair_texts(entries@));
    let mut r: Vec<String> = Vec::new();
    let mut i: usize = 0;
    assert(text::texts(r@) =~= conflicts(all.take(0), text::texts(claimed@)));
    while i < entries.len()
        invariant
            i <= entries.len(),
            all == pairs::keys(pairs::pair_texts(entries@)),
            text::texts(r@) == conflicts(all.take(i as int), text::texts(claimed@)),
        decreases entries.len() - i,
    {
        assert(all.take(i + 1).drop_last() =~= all.take(i as int));
        assert(all[i as int] == entries@[i as int].0@);
        if is_listed(claimed, &entries[i].0) {
            insert_key(&mut r, &entries[i].0);
        }
        i = i + 1;
    }
    assert(all.take(all.len() as int) =~= all);
    r
}

/// The names of the strategies, in order.
pub open spec fn strategy_names(s: Seq<BalanceStrategy>) -> Seq<Seq<char>> {
    Seq::new(s.len(), |i: int| s[i].name())
}

// ---------------------------------------------------------------------------
// Laws
// ---------------------------------------------------------------------------

/// The texts are in dictionary order, and none stands twice.
pub open spec fn strictly_sorted(list: Seq<Seq<char>>) -> bool {
    forall|i: int, j: int|
        0 <= i < j < list.len() ==> text::precedes(#[trigger] list[i], #[trigger] list[j])
}

proof fn insert_sorted_keeps_order(list: Seq<Seq<char>>, k: Seq<char>)
    requires
        strictly_sorted(list),
    ensures
        strictly_sorted(insert_sorted(list, k)),
        forall|x: Seq<char>|
            #[trigger] insert_sorted(list, k).contains(x) <==> x == k || list.contains(x),
    decreases list.len(),
{
    let r = insert_sorted(list, k);
    if list.len() == 0 {
        assert(r[0] == k);
    } else if list.last() == k {
        assert(list[list.len() - 1] == k);
    } else if text::precedes(list.last(), k) {
        assert forall|i: int, j: int| 0 <= i < j < r.len() implies text::precedes(
            #[trigger] r[i],
            #[trigger] r[j],
        ) by {
            if j == list.len() && i < list.len() - 1 {
                assert(text::precedes(list[i], list[list.len() - 1]));
                text::precedes_is_transitive(list[i], list.last(), k);
            }
        }
        assert forall|x: Seq<char>| #[trigger] r.contains(x) <==> x == k || list.contains(x) by {
            if x == k {
                assert(r[list.len() as int] == k);
            }
            if list.contains(x) {
                let i = list.index_of(x);
                assert(r[i] == x);
            }
        }
    } else {
        let shorter = list.drop_last();
        let inner = insert_sorted(shorter, k);
        assert(strictly_sorted(shorter)) by {
            assert forall|i: int, j: int| 0 <= i < j < shorter.len() implies text::precedes(
                #[trigger] shorter[i],
                #[trigger] shorter[j],
            ) by {
                assert(text::precedes(list[i], list[j]));
            }
        }
        insert_sorted_keeps_order(shorter, k);
        text::precedes_is_total(list.last(), k);
        assert forall|i: int, j: int| 0 <= i < j < r.len() implies text::precedes(
            #[trigger] r[i],
            #[trigger] r[j],
        ) by {
            if j == inner.len() {
                assert(inner.contains(inner[i]));
                if inner[i] != k {
                    let at = shorter.index_of(inner[i]);
                    assert(text::precedes(list[at], list[list.len() - 1]));
                }
            } else {
                assert(text::precedes(inner[i], inner[j]));
            }
        }
        assert forall|x: Seq<char>| #[trigger] r.contains(x) <==> x == k || list.contains(x) by {
            if r.contains(x) {
                let i = r.index_of(x);
                if i < inner.len() {
                    assert(inner[i] == x);
                    assert(inner.contains(x));
                    if x != k {
                        let at = shorter.index_of(x);
                        assert(list[at] == x);
                    }
                } else {
                    assert(list[list.len() - 1] == x);
                }
            }
            if x == k {
                assert(inner.contains(x));
                let i = inner.index_of(x);
                assert(r[i] == x);
            }
            if list.contains(x) {
                let at = list.index_of(x);
                if at < shorter.len() {
                    assert(shorter[at] == x);
                    assert(inner.contains(x));
                    let i = inner.index_of(x);
                    assert(r[i] == x);
                } else {
                    assert(r[inner.len() as int] == x);
                }
            }
        }
    }
}

/// The rejected keys are exactly the string-pair keys that a security setter
/// claims, in dictionary order and each once.
pub proof fn conflicts_are_exact_and_sorted(ks: Seq<Seq<char>>, claimed: Seq<Seq<char>>)
    ensures
        strictly_sorted(conflicts(ks, claimed)),
        forall|k: Seq<char>|
            #[trigger] conflicts(ks, claimed).contains(k) <==> ks.contains(k) && claimed.contains(
                k,
            ),
    decreases ks.len(),
{
    if ks.len() > 0 {
        let earlier = ks.drop_last();
        conflicts_are_exact_and_sorted(earlier, claimed);
        let before = conflicts(earlier, claimed);
        insert_sorted_keeps_order(before, ks.last());
        assert forall|k: Seq<char>|
            #[trigger] conflicts(ks, claimed).contains(k) <==> ks.contains(k) && claimed.contains(
                k,
            ) by {
            assert(before.contains(k) <==> earlier.contains(k) && claimed.contains(k));
            if earlier.contains(k) {
                let i = earlier.index_of(k);
                assert(ks[i] == k);
            }
            if ks.contains(k) && k != ks.last() {
                let i = ks.index_of(k);
                assert(earlier[i] == k);
            }
            assert(ks[ks.len() - 1] == ks.last());
            if claimed.contains(ks.last()) {
                assert(insert_sorted(before, ks.last()).contains(k) <==> k == ks.last()
                    || before.contains(k));
            }
        }
    }
}

/// The protocol is the combination of TLS and SASL, it is emitted exactly when
/// either is in use, and nothing but the client options is emitted otherwise.
pub proof fn protocol_is_the_combination(m: OptionsModel)
    ensures
        !m.tls && m.sasl is None ==> m.emitted() == m.entries,
        m.tls && m.sasl is None ==> m.security_entries()[0] == ("security.protocol"@, "ssl"@),
        !m.tls && m.sasl is Some ==> m.security_entries()[0] == (
            "security.protocol"@,
            "sasl_plaintext"@,
        ),
        m.tls && m.sasl is Some ==> m.security_entries()[0] == (
            "security.protocol"@,
            "sasl_ssl"@,
        ),
{
    assert(!m.is_secured() ==> m.emitted() =~= m.entries);
}

/// A mechanism whose service speaks TLS only is always emitted as `sasl_ssl`.
pub proof fn cloud_mechanisms_always_use_tls(m: OptionsModel)
    requires
        m.wf(),
        m.sasl matches Some(s) && (s is AwsMskIam || s is GcpIam),
    ensures
        m.protocol() == "sasl_ssl"@,
{
}

/// Every setter keeps the builder's invariant, whatever was set before.
pub proof fn setters_keep_the_invariant(
    m: OptionsModel,
    key: Seq<char>,
    value: Seq<char>,
    sasl: SaslModel,
)
    requires
        m.wf(),
    ensures
        OptionsModel::empty().wf(),
        m.with_entry(key, value).wf(),
        m.with_tls().wf(),
        tls_keys().contains(key) ==> m.with_ssl(key, value).wf(),
        !(sasl is AwsMskIam || sasl is GcpIam) ==> m.with_sasl(sasl).wf(),
        m.with_tls().with_sasl(sasl).wf(),
        m.tls ==> m.with_sasl(sasl).wf(),
{
}

/// The mechanism selected last is the only one that counts.
pub proof fn last_mechanism_wins(m: OptionsModel, earlier: SaslModel, later: SaslModel)
    ensures
        m.with_sasl(earlier).with_sasl(later) == m.with_sasl(later),
{
}

/// The keys that are guarded are exactly those that the security setters emit,
/// and the alias of the SASL mechanism while one is selected: a string pair
/// with one of them is rejected, and with any other key it is accepted.
pub proof fn guarded_keys_are_the_emitted_ones(m: OptionsModel, k: Seq<char>)
    ensures
        m.typed_keys().contains(k) <==> pairs::keys(m.security_entries()).contains(k) || (
        m.sasl is Some && k == "sasl.mechanisms"@),
{
    let typed = m.typed_keys();
    let emitted = pairs::keys(m.security_entries());
    let n = m.ssl_entries.len() as int;
    if m.is_secured() {
        assert forall|i: int| 0 <= i <= n implies #[trigger] typed[i] == emitted[i] by {
            if i > 0 {
                assert(typed[i] == pairs::keys(m.ssl_entries)[i - 1]);
            }
        }
        if m.sasl is Some {
            let sasl = m.sasl->0;
            assert(typed[n + 1] == "sasl.mechanisms"@);
            assert forall|i: int| n + 1 <= i < emitted.len() implies #[trigger] emitted[i] == typed[i
                + 1] by {
                assert(typed[i + 1] == pairs::keys(sasl.entries())[i - n - 1]);
            }
        }
        if typed.contains(k) {
            let i = typed.index_of(k);
            if i <= n {
                assert(emitted[i] == k);
            } else if i > n + 1 {
                assert(emitted[i - 1] == typed[i - 1 + 1]);
            }
        }
        if emitted.contains(k) {
            let i = emitted.index_of(k);
            if i <= n {
                assert(typed[i] == k);
            } else {
                assert(typed[i + 1] == k);
            }
        }
    }
}

/// String pairs compose with the security setters as long as no setter emits
/// one of their keys.
pub proof fn other_keys_compose(m: OptionsModel)
    requires
        forall|i: int|
            0 <= i < m.entries.len() ==> !pairs::holds_key(
                m.security_entries(),
                (#[trigger] m.entries[i]).0,
            ) && (m.sasl is Some ==> m.entries[i].0 != "sasl.mechanisms"@),
    ensures
        m.conflicting_keys().len() == 0,
{
    let ks = pairs::keys(m.entries);
    conflicts_are_exact_and_sorted(ks, m.typed_keys());
    if m.conflicting_keys().len() > 0 {
        let k = m.conflicting_keys()[0];
        assert(m.conflicting_keys().contains(k));
        guarded_keys_are_the_emitted_ones(m, k);
        let i = ks.index_of(k);
        assert(m.entries[i].0 == k);
        if pairs::keys(m.security_entries()).contains(k) {
            let j = pairs::keys(m.security_entries()).index_of(k);
            assert(m.security_entries()[j].0 == k);
        }
    }
}

/// String pairs are never rejected while no security setter is in use.
pub proof fn string_pairs_alone_are_accepted(m: OptionsModel)
    requires
        !m.is_secured(),
    ensures
        m.conflicting_keys().len() == 0,
{
    conflicts_are_exact_and_sorted(pairs::keys(m.entries), m.typed_keys());
    if m.conflicting_keys().len() > 0 {
        assert(m.conflicting_keys().contains(m.conflicting_keys()[0]));
    }
}

/// What tells the security keys from the client option keys.
spec fn is_security_shaped(k: Seq<char>) -> bool {
    &&& k.len() >= 8
    &&& {
        ||| k[0] == 's' && k[1] == 's'
        ||| k[0] == 's' && k[1] == 'a'
        ||| k[0] == 's' && k[1] == 'e' && k[2] == 'c'
        ||| k[0] == 'a' && k[1] == 'w'
        ||| k[0] == 'g' && k[1] == 'c'
        ||| k[0] == 'e' && k[7] == 's'
    }
}

proof fn client_keys_are_not_security_shaped(i: int)
    requires
        0 <= i < client_keys().len(),
    ensures
        !is_security_shaped(client_keys()[i]),
{
    reveal_strlit("auto.offset.reset");
    reveal_strlit("client.id");
    reveal_strlit("group.instance.id");
    reveal_strlit("session.timeout.ms");
    reveal_strlit("heartbeat.interval.ms");
    reveal_strlit("rebalance.timeout.ms");
    reveal_strlit("llingr.client.log.level");
    reveal_strlit("partition.assignment.strategy");
    reveal_strlit("fetch.min.bytes");
    reveal_strlit("fetch.max.bytes");
    reveal_strlit("max.partition.fetch.bytes");
    reveal_strlit("fetch.max.wait.ms");
    reveal_strlit("client.rack");
    reveal_strlit("metadata.max.age.ms");
    reveal_strlit("socket.connection.setup.timeout.ms");
    reveal_strlit("connections.max.idle.ms");
    reveal_strlit("llingr.request.retries");
    reveal_strlit("llingr.retry.timeout.ms");
    reveal_strlit("llingr.max.concurrent.fetches");
    reveal_strlit("allow.auto.create.topics");
    reveal_strlit("check.crcs");
    reveal_strlit("enable.metrics.push");
    reveal_strlit("llingr.poll.error.bail.after.ms");
    reveal_strlit("llingr.poll.error.log.interval.ms");
    reveal_strlit("llingr.poll.error.backoff.ms");
}

proof fn tls_keys_are_security_shaped(i: int)
    requires
        0 <= i < tls_keys().len(),
    ensures
        is_security_shaped(tls_keys()[i]),
        tls_keys()[i].len() != 17,
{
    reveal_strlit("ssl.ca.location");
    reveal_strlit("ssl.ca.pem");
    reveal_strlit("ssl.certificate.location");
    reveal_strlit("ssl.key.location");
    reveal_strlit("ssl.certificate.pem");
    reveal_strlit("ssl.key.pem");
    reveal_strlit("enable.ssl.certificate.verification");
    reveal_strlit("ssl.endpoint.identification.algorithm");
}

proof fn sasl_keys_are_security_shaped(sasl: SaslModel, i: int)
    requires
        0 <= i < sasl.claimed_keys().len(),
    ensures
        is_security_shaped(sasl.claimed_keys()[i]),
        sasl.claimed_keys()[i][1] != 'e',
{
    reveal_strlit("sasl.mechanism");
    reveal_strlit("sasl.mechanisms");
    reveal_strlit("sasl.username");
    reveal_strlit("sasl.password");
    reveal_strlit("aws.region");
    reveal_strlit("aws.profile");
    reveal_strlit("aws.role.arn");
    reveal_strlit("aws.role.session.name");
    reveal_strlit("sasl.oauthbearer.token.endpoint.url");
    reveal_strlit("sasl.oauthbearer.client.id");
    reveal_strlit("sasl.oauthbearer.client.secret");
    reveal_strlit("sasl.oauthbearer.scope");
    reveal_strlit("sasl.oauthbearer.extensions");
    reveal_strlit("sasl.oauthbearer.method");
    reveal_strlit("gcp.principal");
    reveal_strlit("gcp.credentials.file");
    if i > 0 {
        assert(sasl.claimed_keys()[i] == sasl.entries()[i - 1].0);
    }
}

/// A builder on which only setters were used is never rejected.
pub proof fn setters_alone_are_accepted(m: OptionsModel)
    requires
        m.wf(),
        forall|i: int|
            0 <= i < m.entries.len() ==> client_keys().contains(#[trigger] m.entries[i].0),
    ensures
        m.conflicting_keys().len() == 0,
{
    let ks = pairs::keys(m.entries);
    let typed = m.typed_keys();
    conflicts_are_exact_and_sorted(ks, typed);
    if m.conflicting_keys().len() > 0 {
        let k = m.conflicting_keys()[0];
        assert(m.conflicting_keys().contains(k));
        let i = ks.index_of(k);
        assert(m.entries[i].0 == k);
        client_keys_are_not_security_shaped(client_keys().index_of(k));
        let j = typed.index_of(k);
        let n = m.ssl_entries.len();
        if j == 0 {
            reveal_strlit("security.protocol");
        } else if j <= n {
            assert(m.ssl_entries[j - 1].0 == k);
            tls_keys_are_security_shaped(tls_keys().index_of(k));
        } else {
            sasl_keys_are_security_shaped(m.sasl->0, j - 1 - n);
        }
    }
}

/// The protocol that the setters compute is the one that takes effect, whatever
/// string pairs were written.
pub proof fn computed_protocol_takes_effect(m: OptionsModel)
    requires
        m.wf(),
        m.is_secured(),
    ensures
        pairs::last_value(m.emitted(), "security.protocol"@) == Some(m.protocol()),
{
    let k = "security.protocol"@;
    let first = seq![(k, m.protocol())];
    let sasl = match m.sasl {
        None => seq![],
        Some(sasl) => sasl.entries(),
    };
    reveal_strlit("security.protocol");
    assert(first.drop_last() =~= seq![]);
    assert(pairs::last_value(first, k) == Some(m.protocol()));
    if pairs::holds_key(m.ssl_entries, k) {
        tls_keys_are_security_shaped(tls_keys().index_of(k));
    }
    if pairs::holds_key(sasl, k) {
        let i = choose|i: int| 0 <= i < sasl.len() && #[trigger] sasl[i].0 == k;
        assert(m.sasl->0.claimed_keys()[i + 1] == k);
        sasl_keys_are_security_shaped(m.sasl->0, i + 1);
    }
    pairs::value_is_found(m.ssl_entries, k);
    pairs::value_is_found(sasl, k);
    pairs::later_pairs_win(first, m.ssl_entries, k);
    pairs::later_pairs_win(first + m.ssl_entries, sasl, k);
    pairs::later_pairs_win(m.entries, m.security_entries(), k);
}

/// On an accepted builder every string pair takes effect: no setter overrides
/// it.
pub proof fn accepted_pairs_take_effect(m: OptionsModel, k: Seq<char>)
    requires
        m.conflicting_keys().len() == 0,
        pairs::holds_key(m.entries, k),
    ensures
        pairs::last_value(m.emitted(), k) == pairs::last_value(m.entries, k),
{
    let security = m.security_entries();
    let at = choose|i: int| 0 <= i < m.entries.len() && #[trigger] m.entries[i].0 == k;
    assert(pairs::keys(m.entries)[at] == k);
    conflicts_are_exact_and_sorted(pairs::keys(m.entries), m.typed_keys());
    assert(!m.conflicting_keys().contains(k));
    if pairs::holds_key(security, k) {
        let i = choose|i: int| 0 <= i < security.len() && #[trigger] security[i].0 == k;
        assert(pairs::keys(security)[i] == k);
        guarded_keys_are_the_emitted_ones(m, k);
    }
    pairs::value_is_found(security, k);
    pairs::later_pairs_win(m.entries, security, k);
}

/// Credentials never show: two builders that differ only in the values of
/// secret keys are shown alike.
pub proof fn credentials_never_show(a: OptionsModel, b: OptionsModel)
    requires
        pairs::keys(a.emitted()) == pairs::keys(b.emitted()),
        forall|i: int|
            0 <= i < a.emitted().len() && !is_secret(a.emitted()[i].0)
                ==> #[trigger] a.emitted()[i].1 == b.emitted()[i].1,
    ensures
        a.shown() == b.shown(),
{
    let x = a.emitted();
    let y = b.emitted();
    assert(pairs::keys(x).len() == x.len());
    assert(pairs::keys(y).len() == y.len());
    assert forall|i: int| 0 <= i < x.len() implies redacted(#[trigger] x[i]) == redacted(y[i]) by {
        assert(pairs::keys(x)[i] == x[i].0);
        assert(pairs::keys(y)[i] == y[i].0);
        assert(is_secret(x[i].0) || x[i].1 == y[i].1);
    }
    assert(redacted_pairs(x) =~= redacted_pairs(y));
}

/// The password, the client secret and the inline private key are secret.
pub proof fn credential_keys_are_secret()
    ensures
        is_secret("sasl.password"@),
        is_secret("sasl.oauthbearer.client.secret"@),
        is_secret("ssl.key.pem"@),
{
    reveal_strlit("sasl.password");
    reveal_strlit("password");
    reveal_strlit("sasl.oauthbearer.client.secret");
    reveal_strlit("secret");
    reveal_strlit("ssl.key.pem");
    reveal_strlit("key.pem");
    assert("sasl.password"@.subrange(5, 13) =~= "password"@);
    assert(text::occurs_at("sasl.password"@, "password"@, 5));
    assert("sasl.oauthbearer.client.secret"@.subrange(24, 30) =~= "secret"@);
    assert(text::occurs_at("sasl.oauthbearer.client.secret"@, "secret"@, 24));
    assert("ssl.key.pem"@.subrange(4, 11) =~= "key.pem"@);
    assert(text::occurs_at("ssl.key.pem"@, "key.pem"@, 4));
}

// ---------------------------------------------------------------------------
// What the settings come to
// ---------------------------------------------------------------------------

/// A setting adds its own entry behind those before it and leaves everything
/// else as it was; a new builder holds nothing.
pub proof fn settings_leave_the_others_alone(
    m: OptionsModel,
    key: Seq<char>,
    value: Seq<char>,
    sasl: SaslModel,
)
    ensures
        ({
            let r = m.with_entry(key, value);
            &&& r.entries.len() == m.entries.len() + 1
            &&& r.entries.take(m.entries.len() as int) == m.entries
            &&& r.entries.last() == (key, value)
            &&& pairs::last_value(r.entries, key) == Some(value)
            &&& r.tls == m.tls && r.ssl_entries == m.ssl_entries && r.sasl == m.sasl
        }),
        ({
            let r = m.with_ssl(key, value);
            &&& r.ssl_entries.len() == m.ssl_entries.len() + 1
            &&& r.ssl_entries.take(m.ssl_entries.len() as int) == m.ssl_entries
            &&& r.ssl_entries.last() == (key, value)
            &&& pairs::last_value(r.ssl_entries, key) == Some(value)
            &&& r.tls && r.entries == m.entries && r.sasl == m.sasl
        }),
        ({
            let r = m.with_tls();
            r.tls && r.entries == m.entries && r.ssl_entries == m.ssl_entries && r.sasl == m.sasl
        }),
        ({
            let r = m.with_sasl(sasl);
            r.sasl == Some(sasl) && r.entries == m.entries && r.ssl_entries == m.ssl_entries
                && r.tls == m.tls
        }),
        ({
            let r = OptionsModel::empty();
            r.entries.len() == 0 && r.ssl_entries.len() == 0 && !r.tls && r.sasl is None
        }),
{
    assert(m.entries.push((key, value)).take(m.entries.len() as int) =~= m.entries);
    assert(m.ssl_entries.push((key, value)).take(m.ssl_entries.len() as int) =~= m.ssl_entries);
}

/// What is emitted starts with the client options and string pairs, in call
/// order. Without security nothing follows; with it the protocol follows that
/// TLS and SASL make together, then the TLS options in call order, and nothing
/// else but what the SASL mechanism emits.
pub proof fn entries_come_out_in_order(m: OptionsModel)
    ensures
        ({
            let out = m.emitted();
            let n = m.entries.len() as int;
            let t = m.ssl_entries.len() as int;
            let protocol = if m.tls && m.sasl is Some {
                "sasl_ssl"@
            } else if m.tls {
                "ssl"@
            } else {
                "sasl_plaintext"@
            };
            &&& out.len() >= n && out.take(n) == m.entries
            &&& !m.tls && m.sasl is None ==> out.len() == n
            &&& m.tls || m.sasl is Some ==> {
                &&& out.len() >= n + 1 + t
                &&& out[n] == ("security.protocol"@, protocol)
                &&& out.subrange(n + 1, n + 1 + t) == m.ssl_entries
                &&& m.sasl is None ==> out.len() == n + 1 + t
                &&& m.sasl matches Some(sasl) ==> out.skip(n + 1 + t) == sasl.entries()
            }
        }),
{
    let out = m.emitted();
    let n = m.entries.len() as int;
    let t = m.ssl_entries.len() as int;
    assert(out.take(n) =~= m.entries);
    if m.tls || m.sasl is Some {
        assert(out[n] == m.security_entries()[0]);
        assert(out.subrange(n + 1, n + 1 + t) =~= m.ssl_entries);
        if m.sasl is Some {
            assert(out.skip(n + 1 + t) =~= m.sasl->0.entries());
        }
    }
}

/// What a SASL mechanism emits has the last word on its keys.
pub proof fn mechanism_has_the_last_word(m: OptionsModel, sasl: SaslModel, k: Seq<char>)
    requires
        m.sasl == Some(sasl),
    ensures
        pairs::last_value(sasl.entries(), k) matches Some(v) ==> pairs::last_value(m.emitted(), k)
            == Some(v),
{
    let first = seq![("security.protocol"@, m.protocol())] + m.ssl_entries;
    pairs::later_pairs_win(first, sasl.entries(), k);
    pairs::later_pairs_win(m.entries, m.security_entries(), k);
}

proof fn value_of_one(p: Pair, k: Seq<char>)
    ensures
        pairs::last_value(seq![p], k) == if p.0 == k {
            Some(p.1)
        } else {
            None
        },
{
    assert(seq![p].drop_last() =~= seq![]);
    assert(pairs::last_value(seq![], k) is None);
    assert(seq![p].last() == p);
}

proof fn value_of_optional(key: Seq<char>, value: Option<Seq<char>>, k: Seq<char>)
    ensures
        pairs::last_value(optional_entry(key, value), k) == if key == k {
            value
        } else {
            None
        },
        optional_entry(key, value).len() == if value is Some {
            1nat
        } else {
            0nat
        },
{
    match value {
        None => {
            assert(pairs::last_value(seq![], k) is None);
        },
        Some(v) => {
            value_of_one((key, v), k);
        },
    }
}

proof fn sasl_keys_differ()
    ensures
        "sasl.mechanism"@.len() == 14,
        "sasl.username"@.len() == 13,
        "sasl.password"@.len() == 13,
        "sasl.username"@[5] == 'u',
        "sasl.password"@[5] == 'p',
        "aws.region"@.len() == 10,
        "aws.profile"@.len() == 11,
        "aws.role.arn"@.len() == 12,
        "aws.role.session.name"@.len() == 21,
        "sasl.oauthbearer.token.endpoint.url"@.len() == 35,
        "sasl.oauthbearer.client.id"@.len() == 26,
        "sasl.oauthbearer.client.secret"@.len() == 30,
        "sasl.oauthbearer.scope"@.len() == 22,
        "sasl.oauthbearer.extensions"@.len() == 27,
        "sasl.oauthbearer.method"@.len() == 23,
        "gcp.principal"@.len() == 13,
        "gcp.credentials.file"@.len() == 20,
{
    reveal_strlit("sasl.mechanism");
    reveal_strlit("sasl.username");
    reveal_strlit("sasl.password");
    reveal_strlit("aws.region");
    reveal_strlit("aws.profile");
    reveal_strlit("aws.role.arn");
    reveal_strlit("aws.role.session.name");
    reveal_strlit("sasl.oauthbearer.token.endpoint.url");
    reveal_strlit("sasl.oauthbearer.client.id");
    reveal_strlit("sasl.oauthbearer.client.secret");
    reveal_strlit("sasl.oauthbearer.scope");
    reveal_strlit("sasl.oauthbearer.extensions");
    reveal_strlit("sasl.oauthbearer.method");
    reveal_strlit("gcp.principal");
    reveal_strlit("gcp.credentials.file");
}

/// With a username and a password, the mechanism's own name, the username and
/// the password are found under their keys, whatever they are, and nothing
/// else is emitted.
pub proof fn username_and_password_come_through(
    mechanism: SaslMechanism,
    username: Seq<char>,
    password: Seq<char>,
    k: Seq<char>,
)
    ensures
        ({
            let out = (SaslModel::UserPass { mechanism, username, password }).entries();
            &&& pairs::last_value(out, "sasl.mechanism"@) == Some(
                match mechanism {
                    SaslMechanism::Plain => "PLAIN"@,
                    SaslMechanism::ScramSha256 => "SCRAM-SHA-256"@,
                    SaslMechanism::ScramSha512 => "SCRAM-SHA-512"@,
                },
            )
            &&& pairs::last_value(out, "sasl.username"@) == Some(username)
            &&& pairs::last_value(out, "sasl.password"@) == Some(password)
            &&& out.len() == 3
            &&& pairs::last_value(out, k) is Some ==> k == "sasl.mechanism"@ || k
                == "sasl.username"@ || k == "sasl.password"@
        }),
{
    sasl_keys_differ();
    user_pass_lookup(mechanism, username, password, "sasl.mechanism"@);
    user_pass_lookup(mechanism, username, password, "sasl.username"@);
    user_pass_lookup(mechanism, username, password, "sasl.password"@);
    user_pass_lookup(mechanism, username, password, k);
}

proof fn user_pass_lookup(
    mechanism: SaslMechanism,
    username: Seq<char>,
    password: Seq<char>,
    k: Seq<char>,
)
    ensures
        pairs::last_value((SaslModel::UserPass { mechanism, username, password }).entries(), k)
            == if k == "sasl.password"@ {
            Some(password)
        } else if k == "sasl.username"@ {
            Some(username)
        } else if k == "sasl.mechanism"@ {
            Some(mechanism.name())
        } else {
            None
        },
{
    let a = ("sasl.mechanism"@, mechanism.name());
    let b = ("sasl.username"@, username);
    let c = ("sasl.password"@, password);
    assert(seq![a, b, c] =~= seq![a] + seq![b] + seq![c]);
    value_of_one(a, k);
    value_of_one(b, k);
    value_of_one(c, k);
    pairs::later_pairs_win(seq![a], seq![b], k);
    pairs::later_pairs_win(seq![a] + seq![b], seq![c], k);
}

/// With IAM authentication to Amazon MSK, each of the four steering values that
/// was set is found under its key, whatever the others are; one that was not
/// set is not emitted, and nothing else is.
pub proof fn aws_settings_come_through(
    region: Option<Seq<char>>,
    profile: Option<Seq<char>>,
    role_arn: Option<Seq<char>>,
    role_session_name: Option<Seq<char>>,
    k: Seq<char>,
)
    ensures
        ({
            let out = (SaslModel::AwsMskIam {
                region,
                profile,
                role_arn,
                role_session_name,
            }).entries();
            let set = |v: Option<Seq<char>>|
                if v is Some {
                    1nat
                } else {
                    0nat
                };
            &&& pairs::last_value(out, "sasl.mechanism"@) == Some("AWS_MSK_IAM"@)
            &&& pairs::last_value(out, "aws.region"@) == region
            &&& pairs::last_value(out, "aws.profile"@) == profile
            &&& pairs::last_value(out, "aws.role.arn"@) == role_arn
            &&& pairs::last_value(out, "aws.role.session.name"@) == role_session_name
            &&& out.len() == 1 + set(region) + set(profile) + set(role_arn) + set(
                role_session_name,
            )
            &&& pairs::last_value(out, k) is Some ==> k == "sasl.mechanism"@ || k == "aws.region"@
                || k == "aws.profile"@ || k == "aws.role.arn"@ || k == "aws.role.session.name"@
        }),
{
    sasl_keys_differ();
    aws_lookup(region, profile, role_arn, role_session_name, "sasl.mechanism"@);
    aws_lookup(region, profile, role_arn, role_session_name, "aws.region"@);
    aws_lookup(region, profile, role_arn, role_session_name, "aws.profile"@);
    aws_lookup(region, profile, role_arn, role_session_name, "aws.role.arn"@);
    aws_lookup(region, profile, role_arn, role_session_name, "aws.role.session.name"@);
    aws_lookup(region, profile, role_arn, role_session_name, k);
}

proof fn aws_lookup(
    region: Option<Seq<char>>,
    profile: Option<Seq<char>>,
    role_arn: Option<Seq<char>>,
    role_session_name: Option<Seq<char>>,
    k: Seq<char>,
)
    ensures
        pairs::last_value(
            (SaslModel::AwsMskIam { region, profile, role_arn, role_session_name }).entries(),
            k,
        ) == if k == "aws.role.session.name"@ {
            role_session_name
        } else if k == "aws.role.arn"@ {
            role_arn
        } else if k == "aws.profile"@ {
            profile
        } else if k == "aws.region"@ {
            region
        } else if k == "sasl.mechanism"@ {
            Some("AWS_MSK_IAM"@)
        } else {
            None
        },
        (SaslModel::AwsMskIam { region, profile, role_arn, role_session_name }).entries().len() == 1
            + optional_entry("aws.region"@, region).len() + optional_entry(
            "aws.profile"@,
            profile,
        ).len() + optional_entry("aws.role.arn"@, role_arn).len() + optional_entry(
            "aws.role.session.name"@,
            role_session_name,
        ).len(),
{
    sasl_keys_differ();
    let a = seq![("sasl.mechanism"@, "AWS_MSK_IAM"@)];
    let b = optional_entry("aws.region"@, region);
    let c = optional_entry("aws.profile"@, profile);
    let d = optional_entry("aws.role.arn"@, role_arn);
    let e = optional_entry("aws.role.session.name"@, role_session_name);
    value_of_one(("sasl.mechanism"@, "AWS_MSK_IAM"@), k);
    value_of_optional("aws.region"@, region, k);
    value_of_optional("aws.profile"@, profile, k);
    value_of_optional("aws.role.arn"@, role_arn, k);
    value_of_optional("aws.role.session.name"@, role_session_name, k);
    pairs::later_pairs_win(a, b, k);
    pairs::later_pairs_win(a + b, c, k);
    pairs::later_pairs_win(a + b + c, d, k);
    pairs::later_pairs_win(a + b + c + d, e, k);
}

/// With client credentials, the token endpoint, the client ID, the secret and
/// the scope are found under their keys, each whatever the others are, and
/// nothing else is emitted but the extensions.
pub proof fn oidc_settings_come_through(
    token_endpoint: Seq<char>,
    client_id: Seq<char>,
    client_secret: Seq<char>,
    scope: Option<Seq<char>>,
    extensions: Seq<Pair>,
    k: Seq<char>,
)
    ensures
        ({
            let out = (SaslModel::OauthbearerOidc {
                token_endpoint,
                client_id,
                client_secret,
                scope,
                extensions,
            }).entries();
            &&& pairs::last_value(out, "sasl.mechanism"@) == Some("OAUTHBEARER"@)
            &&& pairs::last_value(out, "sasl.oauthbearer.token.endpoint.url"@) == Some(
                token_endpoint,
            )
            &&& pairs::last_value(out, "sasl.oauthbearer.client.id"@) == Some(client_id)
            &&& pairs::last_value(out, "sasl.oauthbearer.client.secret"@) == Some(client_secret)
            &&& pairs::last_value(out, "sasl.oauthbearer.scope"@) == scope
            &&& pairs::last_value(out, "sasl.oauthbearer.extensions"@) is Some <==> extensions.len()
                > 0
            &&& out.len() == 4 + if scope is Some {
                1nat
            } else {
                0nat
            } + if extensions.len() > 0 {
                1nat
            } else {
                0nat
            }
            &&& pairs::last_value(out, k) is Some ==> k == "sasl.mechanism"@ || k
                == "sasl.oauthbearer.token.endpoint.url"@ || k == "sasl.oauthbearer.client.id"@ || k
                == "sasl.oauthbearer.client.secret"@ || k == "sasl.oauthbearer.scope"@ || k
                == "sasl.oauthbearer.extensions"@
        }),
{
    sasl_keys_differ();
    let s = SaslModel::OauthbearerOidc {
        token_endpoint,
        client_id,
        client_secret,
        scope,
        extensions,
    };
    oidc_lookup(s, "sasl.mechanism"@);
    oidc_lookup(s, "sasl.oauthbearer.token.endpoint.url"@);
    oidc_lookup(s, "sasl.oauthbearer.client.id"@);
    oidc_lookup(s, "sasl.oauthbearer.client.secret"@);
    oidc_lookup(s, "sasl.oauthbearer.scope"@);
    oidc_lookup(s, "sasl.oauthbearer.extensions"@);
    oidc_lookup(s, k);
}

spec fn joined_extensions(extensions: Seq<Pair>) -> Option<Seq<char>> {
    if extensions.len() == 0 {
        None
    } else {
        Some(text::join(assignments(extensions), ","@))
    }
}

proof fn oidc_lookup(s: SaslModel, k: Seq<char>)
    requires
        s is OauthbearerOidc,
    ensures
        s matches SaslModel::OauthbearerOidc {
            token_endpoint,
            client_id,
            client_secret,
            scope,
            extensions,
        } ==> {
            &&& pairs::last_value(s.entries(), k) == if k == "sasl.oauthbearer.extensions"@ {
                joined_extensions(extensions)
            } else if k == "sasl.oauthbearer.scope"@ {
                scope
            } else if k == "sasl.oauthbearer.client.secret"@ {
                Some(client_secret)
            } else if k == "sasl.oauthbearer.client.id"@ {
                Some(client_id)
            } else if k == "sasl.oauthbearer.token.endpoint.url"@ {
                Some(token_endpoint)
            } else if k == "sasl.mechanism"@ {
                Some("OAUTHBEARER"@)
            } else {
                None
            }
            &&& s.entries().len() == 4 + if scope is Some {
                1nat
            } else {
                0nat
            } + if extensions.len() > 0 {
                1nat
            } else {
                0nat
            }
        },
{
    sasl_keys_differ();
    match s {
        SaslModel::OauthbearerOidc {
            token_endpoint,
            client_id,
            client_secret,
            scope,
            extensions,
        } => {
            let p1 = ("sasl.mechanism"@, "OAUTHBEARER"@);
            let p2 = ("sasl.oauthbearer.token.endpoint.url"@, token_endpoint);
            let p3 = ("sasl.oauthbearer.client.id"@, client_id);
            let p4 = ("sasl.oauthbearer.client.secret"@, client_secret);
            let fixed = seq![p1, p2, p3, p4];
            let e = optional_entry("sasl.oauthbearer.scope"@, scope);
            let f = optional_entry("sasl.oauthbearer.extensions"@, joined_extensions(extensions));
            assert(fixed =~= seq![p1] + seq![p2] + seq![p3] + seq![p4]);
            value_of_one(p1, k);
            value_of_one(p2, k);
            value_of_one(p3, k);
            value_of_one(p4, k);
            pairs::later_pairs_win(seq![p1], seq![p2], k);
            pairs::later_pairs_win(seq![p1] + seq![p2], seq![p3], k);
            pairs::later_pairs_win(seq![p1] + seq![p2] + seq![p3], seq![p4], k);
            value_of_optional("sasl.oauthbearer.scope"@, scope, k);
            value_of_optional("sasl.oauthbearer.extensions"@, joined_extensions(extensions), k);
            pairs::later_pairs_win(fixed, e, k);
            pairs::later_pairs_win(fixed + e, f, k);
        },
        _ => {},
    }
}

/// The extensions are emitted in one text, in the order in which they were
/// given: one more stands behind the others, as key, equals sign and value,
/// with a comma before it unless it is the first.
pub proof fn extensions_come_through_in_order(s: SaslModel, key: Seq<char>, value: Seq<char>)
    ensures
        s matches SaslModel::OauthbearerOidc {
            token_endpoint,
            client_id,
            client_secret,
            scope,
            extensions,
        } ==> {
            let k = "sasl.oauthbearer.extensions"@;
            let more = SaslModel::OauthbearerOidc {
                token_endpoint,
                client_id,
                client_secret,
                scope,
                extensions: extensions.push((key, value)),
            };
            pairs::last_value(more.entries(), k) == Some(
                match pairs::last_value(s.entries(), k) {
                    None => key + "="@ + value,
                    Some(before) => before + ","@ + (key + "="@ + value),
                },
            )
        },
{
    match s {
        SaslModel::OauthbearerOidc {
            token_endpoint,
            client_id,
            client_secret,
            scope,
            extensions,
        } => {
            let k = "sasl.oauthbearer.extensions"@;
            let all = extensions.push((key, value));
            let more = SaslModel::OauthbearerOidc {
                token_endpoint,
                client_id,
                client_secret,
                scope,
                extensions: all,
            };
            oidc_lookup(s, k);
            oidc_lookup(more, k);
            let part = key + "="@ + value;
            assert(assignments(all) =~= assignments(extensions).push(part));
            text::joining_only_adds_separators(assignments(extensions), part, ","@);
        },
        _ => {},
    }
}

/// With IAM authentication to Google Cloud, the principal and the key file are
/// found under their keys, each whatever the other is; one that was not set is
/// not emitted, and nothing else is.
pub proof fn gcp_settings_come_through(
    principal: Option<Seq<char>>,
    credentials_file: Option<Seq<char>>,
    k: Seq<char>,
)
    ensures
        ({
            let out = (SaslModel::GcpIam { principal, credentials_file }).entries();
            &&& pairs::last_value(out, "sasl.mechanism"@) == Some("OAUTHBEARER"@)
            &&& pairs::last_value(out, "sasl.oauthbearer.method"@) == Some("gcp"@)
            &&& pairs::last_value(out, "gcp.principal"@) == principal
            &&& pairs::last_value(out, "gcp.credentials.file"@) == credentials_file
            &&& out.len() == 2 + if principal is Some {
                1nat
            } else {
                0nat
            } + if credentials_file is Some {
                1nat
            } else {
                0nat
            }
            &&& pairs::last_value(out, k) is Some ==> k == "sasl.mechanism"@ || k
                == "sasl.oauthbearer.method"@ || k == "gcp.principal"@ || k
                == "gcp.credentials.file"@
        }),
{
    sasl_keys_differ();
    gcp_lookup(principal, credentials_file, "sasl.mechanism"@);
    gcp_lookup(principal, credentials_file, "sasl.oauthbearer.method"@);
    gcp_lookup(principal, credentials_file, "gcp.principal"@);
    gcp_lookup(principal, credentials_file, "gcp.credentials.file"@);
    gcp_lookup(principal, credentials_file, k);
}

proof fn gcp_lookup(
    principal: Option<Seq<char>>,
    credentials_file: Option<Seq<char>>,
    k: Seq<char>,
)
    ensures
        pairs::last_value((SaslModel::GcpIam { principal, credentials_file }).entries(), k) == if k
            == "gcp.credentials.file"@ {
            credentials_file
        } else if k == "gcp.principal"@ {
            principal
        } else if k == "sasl.oauthbearer.method"@ {
            Some("gcp"@)
        } else if k == "sasl.mechanism"@ {
            Some("OAUTHBEARER"@)
        } else {
            None
        },
        (SaslModel::GcpIam { principal, credentials_file }).entries().len() == 2 + optional_entry(
            "gcp.principal"@,
            principal,
        ).len() + optional_entry("gcp.credentials.file"@, credentials_file).len(),
{
    sasl_keys_differ();
    let p = ("sasl.mechanism"@, "OAUTHBEARER"@);
    let q = ("sasl.oauthbearer.method"@, "gcp"@);
    let fixed = seq![p, q];
    let b = optional_entry("gcp.principal"@, principal);
    let c = optional_entry("gcp.credentials.file"@, credentials_file);
    assert(fixed =~= seq![p] + seq![q]);
    value_of_one(p, k);
    value_of_one(q, k);
    pairs::later_pairs_win(seq![p], seq![q], k);
    value_of_optional("gcp.principal"@, principal, k);
    value_of_optional("gcp.credentials.file"@, credentials_file, k);
    pairs::later_pairs_win(fixed, b, k);
    pairs::later_pairs_win(fixed + b, c, k);
}

/// Each level and each strategy has its own name on the wire.
pub proof fn wire_names_are_known(level: ClientLogLevel, strategy: BalanceStrategy)
    ensures
        level is Off ==> level.name() == "none"@,
        level is Error ==> level.name() == "error"@,
        level is Warn ==> level.name() == "warn"@,
        level is Info ==> level.name() == "info"@,
        level is Debug ==> level.name() == "debug"@,
        strategy is CooperativeSticky ==> strategy.name() == "cooperative-sticky"@,
        strategy is Sticky ==> strategy.name() == "sticky"@,
        strategy is RoundRobin ==> strategy.name() == "roundrobin"@,
        strategy is Range ==> strategy.name() == "range"@,
{
}

/// Strategies that are written into one option are read out of it again, in
/// order of preference, by taking it apart at its commas.
pub proof fn strategies_keep_their_order(strategies: Seq<BalanceStrategy>, i: int)
    requires
        0 <= i < strategies.len(),
    ensures
        ({
            let names = producer::pieces(text::join(strategy_names(strategies), ","@));
            names.len() == strategies.len() && names[i] == strategies[i].name()
        }),
{
    let names = strategy_names(strategies);
    reveal_strlit("cooperative-sticky");
    reveal_strlit("sticky");
    reveal_strlit("roundrobin");
    reveal_strlit("range");
    assert forall|j: int| 0 <= j < names.len() implies !(#[trigger] names[j]).contains(',') by {
        assert(names[j] == strategies[j].name());
    }
    producer::joined_texts_are_taken_apart_again(names);
}

/// Pairs that are given as option text are taken as they stand, in order.
pub proof fn given_pairs_are_taken_as_they_stand<K: OptionText, V: OptionText>(given: Seq<(K, V)>)
    ensures
        given_texts(given).len() == given.len(),
        forall|i: int| 0 <= i < given.len() ==> (#[trigger] given_texts(given)[i]).0 == given[i].0.text(),
        forall|i: int| 0 <= i < given.len() ==> (#[trigger] given_texts(given)[i]).1 == given[i].1.text(),
{
}

/// The report of a conflict names every key that is in conflict, between a
/// text that says what is wrong and one that says what to do.
pub proof fn conflict_report_names_every_key(conflicting: Seq<Seq<char>>, i: int)
    requires
        0 <= i < conflicting.len(),
    ensures
        text::contains_text(conflict_message(conflicting), conflicting[i]),
        conflict_message(conflicting)
            == "Options: security key(s) set both via typed setters and kafka_option(): "@
            + text::join(conflicting, ", "@) + "; configure each key with one style only"@,
{
    let keys = text::join(conflicting, ", "@);
    let start = "Options: security key(s) set both via typed setters and kafka_option(): "@;
    let end = "; configure each key with one style only"@;
    text::joined_text_holds_every_part(conflicting, ", "@, i);
    text::held_text_stands_between_two_others(keys, seq![], conflicting[i], seq![]);
    let (a, b) = choose|a: Seq<char>, b: Seq<char>| keys == #[trigger] (a + conflicting[i] + b);
    assert(conflict_message(conflicting) =~= (start + a) + conflicting[i] + (b + end));
    text::held_text_stands_between_two_others(
        conflict_message(conflicting),
        start + a,
        conflicting[i],
        b + end,
    );
}

/// A value is a credential exactly where `password`, `secret` or `key.pem`
/// stands anywhere in its key.
pub proof fn secrets_are_told_by_their_keys(key: Seq<char>, before: Seq<char>, after: Seq<char>)
    ensures
        is_secret(before + "password"@ + after),
        is_secret(before + "secret"@ + after),
        is_secret(before + "key.pem"@ + after),
        is_secret(key) ==> (exists|a: Seq<char>, b: Seq<char>| key == #[trigger] (a + "password"@ + b))
            || (exists|a: Seq<char>, b: Seq<char>| key == #[trigger] (a + "secret"@ + b)) || (exists|
            a: Seq<char>,
            b: Seq<char>,
        |
            key == #[trigger] (a + "key.pem"@ + b)),
{
    text::held_text_stands_between_two_others(key, before, "password"@, after);
    text::held_text_stands_between_two_others(key, before, "secret"@, after);
    text::held_text_stands_between_two_others(key, before, "key.pem"@, after);
}

/// What is shown of a pair is its key, and its value unless that is a
/// credential, of which nothing shows; pairs are shown in order.
pub proof fn only_credentials_are_hidden(s: Seq<Pair>, i: int)
    requires
        0 <= i < s.len(),
    ensures
        redacted_pairs(s).len() == s.len(),
        redacted_pairs(s)[i].0 == s[i].0,
        is_secret(s[i].0) ==> redacted_pairs(s)[i].1 == "<redacted>"@,
        !is_secret(s[i].0) ==> redacted_pairs(s)[i].1 == s[i].1,
        quoted_pairs(s).len() == s.len(),
        quoted_pairs(s)[i].0 == foreign::debug_quoted(s[i].0),
        quoted_pairs(s)[i].1 == foreign::debug_quoted(s[i].1),
{
}

/// Pairs are listed in brackets, one behind the other with a comma between
/// them, each as key and value in round brackets.
pub proof fn pairs_are_listed_in_order(s: Seq<Pair>, p: Pair)
    ensures
        listing(seq![]) == "Options { entries: ["@ + "] }"@,
        ({
            let now = listing(s.push(p));
            let before = listing(s);
            let one = "("@ + p.0 + ", "@ + p.1 + ")"@;
            now == before.take(before.len() - 3) + (if s.len() == 0 {
                seq![]
            } else {
                ", "@
            }) + one + "] }"@
        }),
{
    reveal_strlit("] }");
    let open = "Options { entries: ["@;
    let none = Seq::<Pair>::empty();
    assert(Seq::new(none.len(), |i: int| listed_pair(none[i])) =~= seq![]);
    assert(listing(none) =~= open + "] }"@);
    let parts = Seq::new(s.len(), |i: int| listed_pair(s[i]));
    let all = s.push(p);
    let more = Seq::new(all.len(), |i: int| listed_pair(all[i]));
    let one = "("@ + p.0 + ", "@ + p.1 + ")"@;
    assert(more =~= parts.push(one));
    text::joining_only_adds_separators(parts, one, ", "@);
    let before = listing(s);
    assert(before.take(before.len() - 3) =~= open + text::join(parts, ", "@));
    if s.len() == 0 {
        assert(parts =~= seq![]);
        assert(text::join(parts, ", "@) =~= seq![]);
    }
    assert(listing(all) =~= before.take(before.len() - 3) + (if s.len() == 0 {
        seq![]
    } else {
        ", "@
    }) + one + "] }"@);
}

/// What a builder shows is the listing of what it emits, quoted, with the
/// credentials hidden.
pub proof fn builder_shows_what_it_emits(m: OptionsModel)
    ensures
        m.shown() == listing(quoted_pairs(redacted_pairs(m.emitted()))),
        m.conflicting_keys() == conflicts(pairs::keys(m.entries), m.typed_keys()),
{
}

/// The keys of pairs stand in the order of the pairs.
pub proof fn keys_keep_their_order(s: Seq<Pair>)
    ensures
        pairs::keys(s).len() == s.len(),
        forall|i: int| 0 <= i < s.len() ==> #[trigger] pairs::keys(s)[i] == s[i].0,
{
}

} // verus!
