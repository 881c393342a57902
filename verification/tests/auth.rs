use kaflow::auth::{KafkaAuth, KafkaProtocol, SaslMechanism, StoredAuthConfig};

fn sasl_ssl(mechanism: SaslMechanism) -> KafkaAuth {
    KafkaAuth::SaslSsl {
        mechanism,
        username: "AKIA".to_string(),
        password: "SECRET-REDACTED".to_string(),
        aws_region: Some("eu-west-1".to_string()),
        aws_session_token: Some("token".to_string()),
        ca_cert_path: Some("/ca.pem".to_string()),
        client_cert_path: None,
        client_key_path: None,
        key_password: Some("kp".to_string()),
        pinned_cert_fingerprints: vec!["ab:cd".to_string()],
    }
}

#[test]
fn wire_names() {
    assert_eq!(SaslMechanism::Plain.wire_name(), "PLAIN");
    assert_eq!(SaslMechanism::ScramSha256.wire_name(), "SCRAM-SHA-256");
    assert_eq!(SaslMechanism::ScramSha512.wire_name(), "SCRAM-SHA-512");
    assert_eq!(SaslMechanism::OAuthBearer.wire_name(), "OAUTHBEARER");
    assert_eq!(SaslMechanism::AwsMskIam.wire_name(), "OAUTHBEARER");
}

#[test]
fn protocol_of_each_variant() {
    assert_eq!(KafkaAuth::default().protocol(), KafkaProtocol::Plaintext);
    assert_eq!(sasl_ssl(SaslMechanism::Plain).protocol(), KafkaProtocol::SaslSsl);
    let plain = KafkaAuth::SaslPlaintext {
        mechanism: SaslMechanism::Plain,
        username: "u".to_string(),
        password: "p".to_string(),
    };
    assert_eq!(plain.protocol(), KafkaProtocol::SaslPlaintext);
}

#[test]
fn iam_without_tls_is_refused() {
    let iam_plain = KafkaAuth::SaslPlaintext {
        mechanism: SaslMechanism::AwsMskIam,
        username: "u".to_string(),
        password: "p".to_string(),
    };
    assert_eq!(
        iam_plain.unsupported_error().as_deref(),
        Some("AWS MSK IAM requires TLS — select SASL_SSL as the security protocol")
    );
    assert!(sasl_ssl(SaslMechanism::AwsMskIam).unsupported_error().is_none());
    assert!(KafkaAuth::Plaintext.unsupported_error().is_none());
}

#[test]
fn stored_config_drops_secrets() {
    let stored = StoredAuthConfig::from_auth(&sasl_ssl(SaslMechanism::AwsMskIam));
    assert_eq!(stored.protocol, KafkaProtocol::SaslSsl);
    assert_eq!(stored.sasl_mechanism, Some(SaslMechanism::AwsMskIam));
    assert_eq!(stored.username.as_deref(), Some("AKIA"));
    assert_eq!(stored.aws_region.as_deref(), Some("eu-west-1"));
    assert_eq!(stored.ca_cert_path.as_deref(), Some("/ca.pem"));
    assert_eq!(stored.pinned_cert_fingerprints, vec!["ab:cd".to_string()]);
    assert!(stored.aws_credentials_file.is_none());
    assert!(stored.aws_profile.is_none());
}

#[test]
fn stored_config_of_plaintext_is_blank() {
    let stored = StoredAuthConfig::from_auth(&KafkaAuth::Plaintext);
    assert_eq!(stored, StoredAuthConfig::default());
    let ssl = StoredAuthConfig::from_auth(&KafkaAuth::Ssl {
        ca_cert_path: None,
        client_cert_path: Some("/c.pem".to_string()),
        client_key_path: Some("/k.pem".to_string()),
        key_password: Some("kp".to_string()),
        pinned_cert_fingerprints: Vec::new(),
    });
    assert_eq!(ssl.protocol, KafkaProtocol::Ssl);
    assert!(ssl.username.is_none());
    assert_eq!(ssl.client_cert_path.as_deref(), Some("/c.pem"));
    assert_eq!(ssl.client_key_path.as_deref(), Some("/k.pem"));
}
