//! How a cluster is connected to, and what of that may be kept.
//!
//! The split between the two types here is a rule, not a convenience. `KafkaAuth` carries
//! secrets and exists only for the length of a connection attempt; `StoredAuthConfig` is
//! the one of the two that may be written down — protocol, mechanism, username,
//! certificate paths. An implementation must never persist a password, in either form.

use vstd::prelude::*;

use crate::search::opt_view;
use crate::text::{clone_opt, clone_strings, owned, views};

verus! {

/// Which security protocol a connection uses.
#[derive(Debug, Clone, Copy, PartialEq, Eq, Hash, Structural)]
pub enum KafkaProtocol {
    Plaintext,
    SaslPlaintext,
    Ssl,
    SaslSsl,
}

impl Default for KafkaProtocol {
    fn default() -> (r: Self)
        ensures
            r == KafkaProtocol::Plaintext,
    {
        KafkaProtocol::Plaintext
    }
}

/// Which SASL mechanism authenticates the connection.
#[derive(Debug, Clone, Copy, PartialEq, Eq, Hash, Structural)]
pub enum SaslMechanism {
    Plain,
    ScramSha256,
    ScramSha512,
    /// Standard OAUTHBEARER (RFC 7628). The token travels in `password`; `username` is
    /// unused.
    OAuthBearer,
    /// AWS MSK IAM. On the wire this is OAUTHBEARER, but the token is signed per
    /// connection: `username` is the access key id, `password` the secret, and a region
    /// is required. TLS is mandatory, so only `SASL_SSL` applies.
    AwsMskIam,
}

/// The identifier a mechanism goes on the wire as.
pub open spec fn wire_name_spec(m: SaslMechanism) -> Seq<char> {
    match m {
        SaslMechanism::Plain => "PLAIN"@,
        SaslMechanism::ScramSha256 => "SCRAM-SHA-256"@,
        SaslMechanism::ScramSha512 => "SCRAM-SHA-512"@,
        SaslMechanism::OAuthBearer => "OAUTHBEARER"@,
        SaslMechanism::AwsMskIam => "OAUTHBEARER"@,
    }
}

impl SaslMechanism {
    /// The identifier as it goes on the wire.
    pub fn wire_name(&self) -> (r: &'static str)
        ensures
            r@ == wire_name_spec(*self),
    {
        match self {
            SaslMechanism::Plain => "PLAIN",
            SaslMechanism::ScramSha256 => "SCRAM-SHA-256",
            SaslMechanism::ScramSha512 => "SCRAM-SHA-512",
            SaslMechanism::OAuthBearer => "OAUTHBEARER",
            SaslMechanism::AwsMskIam => "OAUTHBEARER",
        }
    }
}

/// Everything needed to connect, secrets included.
///
/// **Must not be stored.** Converting to `StoredAuthConfig` drops the secrets, and that
/// conversion has to be the only route from here to disk.
#[derive(Debug, Clone, PartialEq)]
pub enum KafkaAuth {
    /// No authentication, no TLS.
    Plaintext,
    SaslPlaintext { mechanism: SaslMechanism, username: String, password: String },
    Ssl {
        ca_cert_path: Option<String>,
        client_cert_path: Option<String>,
        client_key_path: Option<String>,
        key_password: Option<String>,
        /// SHA-256 fingerprints of server certificates the user has explicitly chosen to
        /// trust despite failing chain validation. Not a secret.
        pinned_cert_fingerprints: Vec<String>,
    },
    SaslSsl {
        mechanism: SaslMechanism,
        username: String,
        password: String,
        /// Required for AWS MSK IAM; ignored otherwise.
        aws_region: Option<String>,
        /// Set when the credentials are temporary.
        aws_session_token: Option<String>,
        ca_cert_path: Option<String>,
        client_cert_path: Option<String>,
        client_key_path: Option<String>,
        key_password: Option<String>,
        /// The same contract as for `Ssl`.
        pinned_cert_fingerprints: Vec<String>,
    },
}

impl Default for KafkaAuth {
    fn default() -> (r: Self)
        ensures
            r is Plaintext,
    {
        KafkaAuth::Plaintext
    }
}

/// The protocol an authentication uses.
pub open spec fn protocol_spec(auth: KafkaAuth) -> KafkaProtocol {
    match auth {
        KafkaAuth::Plaintext => KafkaProtocol::Plaintext,
        KafkaAuth::SaslPlaintext { .. } => KafkaProtocol::SaslPlaintext,
        KafkaAuth::Ssl { .. } => KafkaProtocol::Ssl,
        KafkaAuth::SaslSsl { .. } => KafkaProtocol::SaslSsl,
    }
}

/// The one combination that cannot work: AWS MSK IAM without TLS.
pub open spec fn is_unsupported(auth: KafkaAuth) -> bool {
    auth matches KafkaAuth::SaslPlaintext { mechanism: SaslMechanism::AwsMskIam, .. }
}

impl KafkaAuth {
    pub fn protocol(&self) -> (r: KafkaProtocol)
        ensures
            r == protocol_spec(*self),
    {
        match self {
            KafkaAuth::Plaintext => KafkaProtocol::Plaintext,
            KafkaAuth::SaslPlaintext { .. } => KafkaProtocol::SaslPlaintext,
            KafkaAuth::Ssl { .. } => KafkaProtocol::Ssl,
            KafkaAuth::SaslSsl { .. } => KafkaProtocol::SaslSsl,
        }
    }

    /// The reason this combination cannot work, if it cannot. Only AWS MSK IAM without
    /// TLS is refused, which the service does not accept in the first place.
    pub fn unsupported_error(&self) -> (r: Option<String>)
        ensures
            r is Some <==> is_unsupported(*self),
            r matches Some(msg) ==> msg@
                == "AWS MSK IAM requires TLS — select SASL_SSL as the security protocol"@,
    {
        match self {
            KafkaAuth::SaslPlaintext { mechanism: SaslMechanism::AwsMskIam, .. } => Some(
                owned("AWS MSK IAM requires TLS — select SASL_SSL as the security protocol"),
            ),
            _ => None,
        }
    }
}

/// A summary of one AWS profile, without its secrets.
#[derive(Debug, Clone, PartialEq)]
pub struct AwsProfileSummary {
    pub name: String,
    /// The access key id, which identifies rather than authenticates.
    pub access_key_id: Option<String>,
    /// The region found for this profile, if any.
    pub region: Option<String>,
    /// Whether the credentials are temporary and need a session token.
    pub has_session_token: bool,
    /// A profile that defines only a role or sign-in, with no key to use directly.
    pub sso_only: bool,
}

/// The AWS credential file paths actually in use. Empty where no path could be worked
/// out; existence is not checked.
#[derive(Debug, Clone, PartialEq)]
pub struct AwsPaths {
    /// Where credentials are read from unless another file was chosen.
    pub credentials: String,
    /// Consulted only for a region.
    pub config: String,
}

impl Default for AwsPaths {
    fn default() -> (r: Self)
        ensures
            r.credentials@.len() == 0,
            r.config@.len() == 0,
    {
        AwsPaths { credentials: String::new(), config: String::new() }
    }
}

/// One profile's actual credentials, secrets included. **Not to be stored.**
#[derive(Debug, Clone, PartialEq)]
pub struct AwsProfileCredentials {
    pub access_key_id: String,
    pub secret_access_key: String,
    pub session_token: Option<String>,
    pub region: Option<String>,
}

/// What may be written to disk: everything except the secrets.
#[derive(Debug, Clone, PartialEq)]
pub struct StoredAuthConfig {
    pub protocol: KafkaProtocol,
    pub sasl_mechanism: Option<SaslMechanism>,
    pub username: Option<String>,
    /// The region for AWS MSK IAM. Not a secret, so it is kept.
    pub aws_region: Option<String>,
    /// Which credential file to read next time — a location, not a credential.
    pub aws_credentials_file: Option<String>,
    /// Which profile in that file. Not a secret.
    pub aws_profile: Option<String>,
    pub ca_cert_path: Option<String>,
    pub client_cert_path: Option<String>,
    pub client_key_path: Option<String>,
    /// Kept, since carrying trust over on reconnect is the point.
    pub pinned_cert_fingerprints: Vec<String>,
}

/// A stored configuration as its contracts see it: each text by its characters.
pub struct StoredAuthView {
    pub protocol: KafkaProtocol,
    pub sasl_mechanism: Option<SaslMechanism>,
    pub username: Option<Seq<char>>,
    pub aws_region: Option<Seq<char>>,
    pub aws_credentials_file: Option<Seq<char>>,
    pub aws_profile: Option<Seq<char>>,
    pub ca_cert_path: Option<Seq<char>>,
    pub client_cert_path: Option<Seq<char>>,
    pub client_key_path: Option<Seq<char>>,
    pub pinned_cert_fingerprints: Seq<Seq<char>>,
}

impl View for StoredAuthConfig {
    type V = StoredAuthView;

    open spec fn view(&self) -> StoredAuthView {
        StoredAuthView {
            protocol: self.protocol,
            sasl_mechanism: self.sasl_mechanism,
            username: opt_view(self.username),
            aws_region: opt_view(self.aws_region),
            aws_credentials_file: opt_view(self.aws_credentials_file),
            aws_profile: opt_view(self.aws_profile),
            ca_cert_path: opt_view(self.ca_cert_path),
            client_cert_path: opt_view(self.client_cert_path),
            client_key_path: opt_view(self.client_key_path),
            pinned_cert_fingerprints: views(self.pinned_cert_fingerprints@),
        }
    }
}

/// A configuration holding only a protocol.
pub open spec fn blank_stored(protocol: KafkaProtocol) -> StoredAuthView {
    StoredAuthView {
        protocol,
        sasl_mechanism: None,
        username: None,
        aws_region: None,
        aws_credentials_file: None,
        aws_profile: None,
        ca_cert_path: None,
        client_cert_path: None,
        client_key_path: None,
        pinned_cert_fingerprints: Seq::empty(),
    }
}

/// What of an authentication may be stored: its protocol, mechanism, username, region,
/// certificate paths and pinned fingerprints — never a password, key password or session
/// token, and never where credentials were read from, which only the caller knows.
pub open spec fn stored_spec(auth: KafkaAuth) -> StoredAuthView {
    match auth {
        KafkaAuth::Plaintext => blank_stored(KafkaProtocol::Plaintext),
        KafkaAuth::SaslPlaintext { mechanism, username, .. } => StoredAuthView {
            sasl_mechanism: Some(mechanism),
            username: Some(username@),
            ..blank_stored(KafkaProtocol::SaslPlaintext)
        },
        KafkaAuth::Ssl {
            ca_cert_path,
            client_cert_path,
            client_key_path,
            pinned_cert_fingerprints,
            ..
        } => StoredAuthView {
            ca_cert_path: opt_view(ca_cert_path),
            client_cert_path: opt_view(client_cert_path),
            client_key_path: opt_view(client_key_path),
            pinned_cert_fingerprints: views(pinned_cert_fingerprints@),
            ..blank_stored(KafkaProtocol::Ssl)
        },
        KafkaAuth::SaslSsl {
            mechanism,
            username,
            aws_region,
            ca_cert_path,
            client_cert_path,
            client_key_path,
            pinned_cert_fingerprints,
            ..
        } => StoredAuthView {
            sasl_mechanism: Some(mechanism),
            username: Some(username@),
            aws_region: opt_view(aws_region),
            ca_cert_path: opt_view(ca_cert_path),
            client_cert_path: opt_view(client_cert_path),
            client_key_path: opt_view(client_key_path),
            pinned_cert_fingerprints: views(pinned_cert_fingerprints@),
            ..blank_stored(KafkaProtocol::SaslSsl)
        },
    }
}

impl Default for StoredAuthConfig {
    fn default() -> (r: Self)
        ensures
            r@ == blank_stored(KafkaProtocol::Plaintext),
    {
        let r = StoredAuthConfig {
            protocol: KafkaProtocol::Plaintext,
            sasl_mechanism: None,
            username: None,
            aws_region: None,
            aws_credentials_file: None,
            aws_profile: None,
            ca_cert_path: None,
            client_cert_path: None,
            client_key_path: None,
            pinned_cert_fingerprints: Vec::new(),
        };
        assert(views(r.pinned_cert_fingerprints@) =~= Seq::<Seq<char>>::empty());
        r
    }
}

impl StoredAuthConfig {
    /// Drops the secrets, leaving what may be stored.
    pub fn from_auth(auth: &KafkaAuth) -> (r: Self)
        ensures
            r@ == stored_spec(*auth),
    {
        let blank = StoredAuthConfig::default();
        let r = match auth {
            KafkaAuth::Plaintext => blank,
            KafkaAuth::SaslPlaintext { mechanism, username, .. } => StoredAuthConfig {
                protocol: KafkaProtocol::SaslPlaintext,
                sasl_mechanism: Some(*mechanism),
                username: Some(username.clone()),
                ..blank
            },
            KafkaAuth::Ssl {
                ca_cert_path,
                client_cert_path,
                client_key_path,
                pinned_cert_fingerprints,
                ..
            } => StoredAuthConfig {
                protocol: KafkaProtocol::Ssl,
                ca_cert_path: clone_opt(ca_cert_path),
                client_cert_path: clone_opt(client_cert_path),
                client_key_path: clone_opt(client_key_path),
                pinned_cert_fingerprints: clone_strings(pinned_cert_fingerprints),
                ..blank
            },
            KafkaAuth::SaslSsl {
                mechanism,
                username,
                aws_region,
                ca_cert_path,
                client_cert_path,
                client_key_path,
                pinned_cert_fingerprints,
                ..
            } => StoredAuthConfig {
                protocol: KafkaProtocol::SaslSsl,
                sasl_mechanism: Some(*mechanism),
                username: Some(username.clone()),
                aws_region: clone_opt(aws_region),
                ca_cert_path: clone_opt(ca_cert_path),
                client_cert_path: clone_opt(client_cert_path),
                client_key_path: clone_opt(client_key_path),
                pinned_cert_fingerprints: clone_strings(pinned_cert_fingerprints),
                // Where the credentials came from is not part of the connection itself;
                // only the caller that read them knows, so it supplies these separately.
                ..blank
            },
        };
        r
    }
}

/// Storing an authentication keeps its protocol: what `from_auth` keeps says the same
/// protocol that `protocol` reports.
pub proof fn law_stored_keeps_protocol(auth: KafkaAuth)
    ensures
        stored_spec(auth).protocol == protocol_spec(auth),
{
}

/// Why a presented TLS certificate failed standard chain validation. A locale-invariant
/// identifier; the variant names must not change.
#[derive(Debug, Clone, Copy, PartialEq, Eq, Structural)]
pub enum CertFailureReason {
    /// Not a v3 X.509 certificate.
    UnsupportedVersion,
    /// No trusted CA issued it (includes self-signed).
    UnknownIssuer,
    Expired,
    NotValidYet,
    /// The certificate's names do not cover the address that was dialed.
    HostnameMismatch,
    /// The issuing CA has explicitly revoked it. Never to be bypassed.
    Revoked,
    /// Any other validation failure.
    Other,
}

/// A server certificate that failed standard validation, offered up for the caller to
/// decide whether to trust it anyway.
#[derive(Debug, Clone)]
pub struct UntrustedCertInfo {
    /// The broker address (`host:port`) that presented this certificate.
    pub broker_addr: String,
    /// SHA-256 fingerprint, lowercase hex, colon-separated.
    pub sha256_fingerprint: String,
    pub reason: CertFailureReason,
    /// The underlying validation error, for display.
    pub detail: String,
}

/// A broker that could not be reached at all while checking cluster-wide certificate
/// trust.
#[derive(Debug, Clone)]
pub struct UnreachableBrokerInfo {
    /// The broker address (`host:port`) that did not respond.
    pub broker_addr: String,
    /// The underlying connection error, for display.
    pub detail: String,
}

/// What verifying a connection's trust resolves to. `UntrustedCert` is a decision point
/// for the caller, not a failure.
#[derive(Debug, Clone)]
pub enum VerifyKafkaAuthResult {
    Trusted {
        /// Brokers that could not be reached while checking trust.
        unreachable_brokers: Vec<UnreachableBrokerInfo>,
    },
    UntrustedCert { candidates: Vec<UntrustedCertInfo> },
}

} // verus!
