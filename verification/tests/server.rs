use std::str::FromStr;

use cdk_payment_processors::ldk_server::settings::Config as LdkConfig;
use cdk_payment_processors::lnbits::settings::Config as LnbitsConfig;
use cdk_payment_processors::server::{
    insecure_guidance_text, retry_delay, self_check, self_check_endpoint, transport, IpAddress,
    SelfCheckStep, Transport, SELF_CHECK_ATTEMPTS,
};

fn ldk_config(address: &str, allow_insecure: bool) -> LdkConfig {
    LdkConfig { address: address.to_owned(), allow_insecure, ..LdkConfig::default() }
}

fn lnbits_config(address: &str, allow_insecure: bool) -> LnbitsConfig {
    LnbitsConfig { address: address.to_owned(), allow_insecure, ..LnbitsConfig::default() }
}

fn address(text: &str) -> IpAddress {
    let octets: Vec<u8> = text.split('.').map(|part| u8::from_str(part).unwrap()).collect();
    IpAddress::V4([octets[0], octets[1], octets[2], octets[3]])
}

fn ldk_transport(config: &LdkConfig) -> Result<Transport, String> {
    transport(config.tls_enable, config.allow_insecure, &address(&config.address))
}

fn lnbits_transport(config: &LnbitsConfig) -> Result<Transport, String> {
    transport(config.tls_enable, config.allow_insecure, &address(&config.address))
}

#[test]
fn plaintext_without_explicit_opt_in_is_rejected() {
    let config = ldk_config("127.0.0.1", false);
    let error = match ldk_transport(&config) {
        Ok(_) => panic!("plaintext without opt-in must fail"),
        Err(error) => error,
    };
    assert!(error.contains(&insecure_guidance_text()));
}

#[test]
fn explicitly_insecure_loopback_is_allowed() {
    let config = ldk_config("127.0.0.1", true);
    let transport =
        ldk_transport(&config).expect("explicit loopback development mode should be allowed");
    assert_eq!(transport, Transport::Plaintext { loopback: true });
}

#[test]
fn explicitly_insecure_non_loopback_is_allowed() {
    let config = ldk_config("0.0.0.0", true);
    let transport =
        ldk_transport(&config).expect("explicit insecure mode should allow a Docker-compatible bind");
    assert_eq!(transport, Transport::Plaintext { loopback: false });
}

#[test]
fn main_plaintext_without_explicit_opt_in_is_rejected() {
    let config = lnbits_config("127.0.0.1", false);
    let error = match lnbits_transport(&config) {
        Ok(_) => panic!("plaintext without opt-in must fail"),
        Err(error) => error,
    };
    assert!(error.contains(&insecure_guidance_text()));
}

#[test]
fn main_explicitly_insecure_loopback_is_allowed() {
    let config = lnbits_config("127.0.0.1", true);
    lnbits_transport(&config).expect("explicit loopback development mode should be allowed");
}

#[test]
fn main_explicitly_insecure_non_loopback_is_allowed() {
    let config = lnbits_config("0.0.0.0", true);
    lnbits_transport(&config)
        .expect("explicit insecure mode should allow a container-compatible bind");
}

#[test]
fn self_check_uses_loopback_for_unspecified_docker_bind() {
    assert_eq!(self_check_endpoint(&IpAddress::V4([0; 4]), "0.0.0.0"), "127.0.0.1");
    assert_eq!(self_check_endpoint(&IpAddress::V6([0; 16]), "::"), "[::1]");
}

#[test]
fn self_check_uses_the_address_it_listens_on() {
    assert_eq!(self_check_endpoint(&address("10.0.0.7"), "10.0.0.7"), "10.0.0.7");
    let mut octets = [0_u8; 16];
    octets[0] = 0xfe;
    octets[1] = 0x80;
    octets[15] = 1;
    assert_eq!(self_check_endpoint(&IpAddress::V6(octets), "fe80::1"), "[fe80::1]");
}

#[test]
fn tls_is_used_where_it_is_enabled() {
    assert_eq!(transport(true, false, &address("0.0.0.0")), Ok(Transport::MutualTls));
    assert_eq!(transport(true, true, &address("127.0.0.1")), Ok(Transport::MutualTls));
    assert_eq!(
        transport(false, false, &address("127.0.0.1")),
        Err(
            "payment processor TLS is required: configure mTLS with tls_enable = true and \
             tls_cert_path/tls_key_path/tls_client_ca_path, or set allow_insecure = true to accept \
             cleartext traffic"
                .to_string()
        )
    );
}

#[test]
fn loopback_and_unspecified_addresses_are_recognised() {
    assert!(address("127.255.0.1").is_loopback());
    assert!(!address("128.0.0.1").is_loopback());
    assert!(address("0.0.0.0").is_unspecified());
    assert!(!address("0.0.0.1").is_unspecified());
    let mut octets = [0_u8; 16];
    assert!(IpAddress::V6(octets).is_unspecified());
    assert!(!IpAddress::V6(octets).is_loopback());
    octets[15] = 1;
    assert!(IpAddress::V6(octets).is_loopback());
    octets[0] = 1;
    assert!(!IpAddress::V6(octets).is_loopback());
}

#[test]
fn self_check_gives_up_after_ten_tries() {
    assert_eq!(SELF_CHECK_ATTEMPTS, 10);
    assert_eq!(self_check(1, true, 50051), SelfCheckStep::Passed);
    for attempt in 1..10_u8 {
        assert_eq!(self_check(attempt, false, 50051), SelfCheckStep::RetryAfter(500));
    }
    assert_eq!(
        self_check(10, false, 50051),
        SelfCheckStep::Failed(
            "self-check failed: gRPC service on port 50051 did not answer GetSettings; \
             refusing to run while not actually serving"
                .to_string()
        )
    );
}

#[test]
fn retry_delays_double_up_to_ten_seconds() {
    for count in 0..64_u32 {
        assert_eq!(retry_delay(count), 2_u64.saturating_pow(count).min(10));
    }
    assert_eq!(retry_delay(u32::MAX), 10);
}
