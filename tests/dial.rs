use viam_rust_utils::dial::{
    amend_domain_if_local, is_local_authority, hostname_matches, mdns_address, mdns_candidates, mdns_query_name,
    uri_parts_with_defaults, DialError, DialOptions, DialPhase, DialStep, RPCCredentials, Scheme,
};
use viam_rust_utils::text::{contains, dots_to_dashes, starts_with, to_decimal};

fn connect_target(step: &DialStep) -> (Scheme, String, Option<String>) {
    match step {
        DialStep::Connect { target, tls_domain } => {
            (target.scheme, target.authority.clone(), tls_domain.clone())
        }
        other => panic!("unexpected {:?}", other),
    }
}

#[test]
fn amend_domain_for_loopback() {
    assert_eq!(amend_domain_if_local("127.0.0.1:8080"), "localhost:8080");
    assert_eq!(amend_domain_if_local("localhost:9090"), "localhost:8080");
    assert_eq!(amend_domain_if_local("robot.local:8080"), "robot.local:8080");
}

#[test]
fn uri_defaults_to_secure() {
    let t = uri_parts_with_defaults("localhost:8080").unwrap();
    assert_eq!(t.scheme, Scheme::Secure);
    assert_eq!(t.authority, "localhost:8080");
    let t = uri_parts_with_defaults("http://robot.example.com:443").unwrap();
    assert_eq!(t.scheme, Scheme::Plain);
    assert_eq!(t.authority, "robot.example.com:443");
    assert!(uri_parts_with_defaults("").is_none());
    assert!(uri_parts_with_defaults("/only/a/path").is_none());
}

#[test]
fn text_helpers() {
    assert!(starts_with("localhost:1", "local"));
    assert!(!starts_with("loc", "local"));
    assert!(contains("abc-robot-local", "robot"));
    assert!(!contains("abc", "abcd"));
    assert!(contains("abc", ""));
    assert_eq!(dots_to_dashes("a.b.c:1"), "a-b-c:1");
    assert_eq!(to_decimal(0), "0");
    assert_eq!(to_decimal(8080), "8080");
    assert_eq!(to_decimal(65535), "65535");
}

#[test]
fn mdns_names() {
    let c = mdns_candidates("my.robot.local:8080");
    assert_eq!(c, vec!["my-robot-local:8080".to_string(), "my.robot.local:8080".to_string()]);
    assert_eq!(mdns_query_name("robot"), "robot._rpc._tcp.local");
    assert!(hostname_matches(&c, "host-my-robot-local:8080.local"));
    assert!(!hostname_matches(&c, "other.local"));
}

#[test]
fn mdns_address_needs_rpc_record_ip_and_port() {
    let txt = vec!["grpc".to_string()];
    assert_eq!(
        mdns_address(&txt, Some("192.168.1.5".to_string()), Some(8080)),
        Some("192.168.1.5:8080".to_string())
    );
    let txt2 = vec!["other".to_string(), "has webrtc".to_string()];
    assert!(mdns_address(&txt2, Some("10.0.0.1".to_string()), Some(1)).is_some());
    assert!(mdns_address(&vec!["none".to_string()], Some("10.0.0.1".to_string()), Some(1)).is_none());
    assert!(mdns_address(&txt, None, Some(1)).is_none());
    assert!(mdns_address(&txt, Some("10.0.0.1".to_string()), None).is_none());
}

#[test]
fn builder_sets_flags() {
    let b = DialOptions::builder().uri("localhost:8080").without_credentials().insecure().disable_webrtc();
    assert!(b.mdns_query().is_some());
    let b = b.disable_mdns();
    assert!(b.mdns_query().is_none());
    assert_eq!(b.target().as_ref().unwrap().authority, "localhost:8080");
}

#[test]
fn dial_without_uri_fails() {
    let b = DialOptions::builder().uri("").without_credentials();
    assert_eq!(b.into_dialer(None).err(), Some(DialError::NoUri));
}

#[test]
fn direct_dial_insecure_without_webrtc() {
    let b = DialOptions::builder().uri("localhost:8080").without_credentials().insecure().disable_webrtc();
    let mut d = b.into_dialer(None).unwrap();
    assert_eq!(d.rpc_host(), "localhost:8080");
    let step = d.start();
    assert_eq!(connect_target(&step), (Scheme::Plain, "localhost:8080".to_string(), None));
    assert!(matches!(d.on_connected(), DialStep::ReturnDirect));
    assert_eq!(d.phase(), DialPhase::Finished);
}

#[test]
fn webrtc_dial_and_fallback() {
    let b = DialOptions::builder().uri("localhost:8080").without_credentials().insecure();
    let mut d = b.into_dialer(None).unwrap();
    d.start();
    assert!(matches!(d.on_connected(), DialStep::NegotiateWebRtc { disable_trickle_ice: false }));
    assert!(matches!(d.on_webrtc_result(true), DialStep::ReturnWebRtc));

    let b = DialOptions::builder().uri("localhost:8080").without_credentials().insecure();
    let mut d = b.into_dialer(None).unwrap();
    d.start();
    d.on_connected();
    assert!(matches!(d.on_webrtc_result(false), DialStep::ReturnDirect));
}

#[test]
fn mdns_then_downgrade_then_primary() {
    let b = DialOptions::builder().uri("robot.example.com:443").without_credentials().allow_downgrade();
    let mut d = b.into_dialer(Some("10.1.1.1:8080".to_string())).unwrap();
    let s = d.start();
    assert_eq!(
        connect_target(&s),
        (Scheme::Plain, "10.1.1.1:8080".to_string(), Some("robot.example.com:443".to_string()))
    );
    let s = d.on_connect_failed();
    assert_eq!(connect_target(&s), (Scheme::Plain, "10.1.1.1:8080".to_string(), None));
    let s = d.on_connect_failed();
    assert_eq!(connect_target(&s), (Scheme::Secure, "robot.example.com:443".to_string(), None));
    let s = d.on_connect_failed();
    assert_eq!(connect_target(&s), (Scheme::Plain, "robot.example.com:443".to_string(), None));
    assert!(matches!(d.on_connect_failed(), DialStep::Fail(DialError::Transport)));
}

#[test]
fn transport_failure_without_downgrade_is_fatal() {
    let b = DialOptions::builder().uri("robot.example.com:443").without_credentials();
    let mut d = b.into_dialer(None).unwrap();
    d.start();
    assert!(matches!(d.on_connect_failed(), DialStep::Fail(DialError::Transport)));
    assert!(matches!(d.on_connected(), DialStep::Fail(DialError::OutOfOrder)));
}

#[test]
fn credentials_default_entity_to_authority() {
    let creds = RPCCredentials::new(None, "robot-location-secret".to_string(), "SECRET-REDACTED".to_string());
    let b = DialOptions::builder().uri("robot.example.com:443").with_credentials(creds).disable_webrtc();
    let mut d = b.into_dialer(None).unwrap();
    d.start();
    match d.on_connected() {
        DialStep::Authenticate { entity, credential_type, payload } => {
            assert_eq!(entity, "robot.example.com:443");
            assert_eq!(credential_type, "robot-location-secret");
            assert_eq!(payload, "SECRET-REDACTED");
        }
        other => panic!("unexpected {:?}", other),
    }
    assert!(matches!(d.on_auth_result(true), DialStep::ReturnDirect));
}

#[test]
fn auth_failure_is_fatal() {
    let creds = RPCCredentials::new(Some("e".to_string()), "t".to_string(), "p".to_string());
    let b = DialOptions::builder().uri("robot.example.com:443").with_credentials(creds);
    let mut d = b.into_dialer(None).unwrap();
    d.start();
    match d.on_connected() {
        DialStep::Authenticate { entity, .. } => assert_eq!(entity, "e"),
        other => panic!("unexpected {:?}", other),
    }
    assert!(matches!(d.on_auth_result(false), DialStep::Fail(DialError::Auth)));
}

#[test]
fn mdns_absent_dial_proceeds_to_target() {
    let b = DialOptions::builder().uri("robot.example.com:443").without_credentials().disable_webrtc();
    assert!(b.mdns_query().is_some());
    let mut d = b.into_dialer(None).unwrap();
    let s = d.start();
    assert_eq!(connect_target(&s), (Scheme::Secure, "robot.example.com:443".to_string(), None));
    assert_eq!(d.phase(), DialPhase::Primary);
    assert!(matches!(d.on_connected(), DialStep::ReturnDirect));
}

#[test]
fn mdns_secure_failure_without_downgrade_goes_to_target() {
    let b = DialOptions::builder().uri("robot.example.com:443").without_credentials();
    let mut d = b.into_dialer(Some("10.1.1.1:8080".to_string())).unwrap();
    d.start();
    let s = d.on_connect_failed();
    assert_eq!(connect_target(&s), (Scheme::Secure, "robot.example.com:443".to_string(), None));
}

#[test]
fn loopback_rpc_host_is_rewritten() {
    let b = DialOptions::builder().uri("127.0.0.1:9090").without_credentials();
    let d = b.into_dialer(None).unwrap();
    assert_eq!(d.rpc_host(), "localhost:8080");
}

#[test]
fn local_authorities_are_classified() {
    assert!(is_local_authority("robot.local:8080"));
    assert!(is_local_authority("localhost:8080"));
    assert!(!is_local_authority("robot.example.com:443"));
    assert!(!is_local_authority("127.0.0.1:8080"));
}
