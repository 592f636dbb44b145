//! Decisions of the gRPC servers.

use vstd::prelude::*;
use vstd::string::*;

use crate::text::{decimal, decimal_digits, join2, join3};

verus! {

/// How the server talks to mints.
#[derive(Clone, Copy, Debug, PartialEq, Eq, Structural)]
pub enum Transport {
    /// With mutual TLS.
    MutualTls,
    /// In plain text, on an address that other machines may reach or not.
    Plaintext {
        /// Whether only this machine can reach the address.
        loopback: bool,
    },
}

/// What to do about plain text.
pub open spec fn insecure_guidance() -> Seq<char> {
    "configure mTLS with tls_enable = true and tls_cert_path/tls_key_path/tls_client_ca_path, or set allow_insecure = true to accept cleartext traffic"@
}

/// What to do about plain text.
pub fn insecure_guidance_text() -> (text: String)
    ensures
        text@ == insecure_guidance(),
{
    "configure mTLS with tls_enable = true and tls_cert_path/tls_key_path/tls_client_ca_path, or set allow_insecure = true to accept cleartext traffic".to_owned()
}

/// How the server talks to mints: with mutual TLS where it is enabled, else in
/// plain text where that is explicitly allowed, else not at all.
pub fn transport(tls_enable: bool, allow_insecure: bool, address: &IpAddress) -> (res: Result<
    Transport,
    String,
>)
    ensures
        match res {
            Ok(Transport::MutualTls) => tls_enable,
            Ok(Transport::Plaintext { loopback }) => {
                &&& !tls_enable
                &&& allow_insecure
                &&& loopback == address.is_loopback_spec()
            },
            Err(words) => {
                &&& !tls_enable
                &&& !allow_insecure
                &&& words@ == "payment processor TLS is required: "@ + insecure_guidance()
            },
        },
{
    if tls_enable {
        return Ok(Transport::MutualTls);
    }
    if !allow_insecure {
        let guidance = insecure_guidance_text();
        return Err(join2("payment processor TLS is required: ", guidance.as_str()));
    }
    Ok(Transport::Plaintext { loopback: address.is_loopback() })
}

/// An IP address by its octets.
#[derive(Clone, Copy, Debug, PartialEq, Eq)]
pub enum IpAddress {
    /// Version 4.
    V4([u8; 4]),
    /// Version 6.
    V6([u8; 16]),
}

fn all_zero(octets: &[u8], n: usize) -> (res: bool)
    requires
        n <= octets@.len(),
    ensures
        res == (forall|i: int| 0 <= i < n ==> octets@[i] == 0),
{
    let mut i: usize = 0;
    while i < n
        invariant
            i <= n <= octets@.len(),
            forall|j: int| 0 <= j < i ==> octets@[j] == 0,
        decreases n - i,
    {
        if octets[i] != 0 {
            return false;
        }
        i = i + 1;
    }
    true
}

impl IpAddress {
    /// Whether the address stands for every address of the machine.
    pub open spec fn is_unspecified_spec(self) -> bool {
        match self {
            IpAddress::V4(octets) => forall|i: int| 0 <= i < 4 ==> octets@[i] == 0,
            IpAddress::V6(octets) => forall|i: int| 0 <= i < 16 ==> octets@[i] == 0,
        }
    }

    /// Whether only this machine can reach the address.
    pub open spec fn is_loopback_spec(self) -> bool {
        match self {
            IpAddress::V4(octets) => octets@[0] == 127,
            IpAddress::V6(octets) => (forall|i: int| 0 <= i < 15 ==> octets@[i] == 0) && octets@[15]
                == 1,
        }
    }

    /// Whether the address stands for every address of the machine.
    pub fn is_unspecified(&self) -> (res: bool)
        ensures
            res == self.is_unspecified_spec(),
    {
        match self {
            IpAddress::V4(octets) => all_zero(octets.as_slice(), 4),
            IpAddress::V6(octets) => all_zero(octets.as_slice(), 16),
        }
    }

    /// Whether only this machine can reach the address.
    pub fn is_loopback(&self) -> (res: bool)
        ensures
            res == self.is_loopback_spec(),
    {
        match self {
            IpAddress::V4(octets) => octets[0] == 127,
            IpAddress::V6(octets) => all_zero(octets.as_slice(), 15) && octets[15] == 1,
        }
    }
}

/// The host under which the server reaches itself.
pub open spec fn endpoint(address: IpAddress, text: Seq<char>) -> Seq<char> {
    match address {
        IpAddress::V4(_) => if address.is_unspecified_spec() {
            "127.0.0.1"@
        } else {
            text
        },
        IpAddress::V6(_) => if address.is_unspecified_spec() {
            "["@ + "::1"@ + "]"@
        } else {
            "["@ + text + "]"@
        },
    }
}

/// The host under which the server reaches itself: its own address, or the
/// loopback address where it listens on every address. `text` is the address
/// in text form.
pub fn self_check_endpoint(address: &IpAddress, text: &str) -> (host: String)
    ensures
        host@ == endpoint(*address, text@),
{
    let unspecified = address.is_unspecified();
    match address {
        IpAddress::V4(_) => if unspecified {
            "127.0.0.1".to_owned()
        } else {
            text.to_owned()
        },
        IpAddress::V6(_) => if unspecified {
            join3("[", "::1", "]")
        } else {
            join3("[", text, "]")
        },
    }
}

/// How often the server tries to reach itself.
pub const SELF_CHECK_ATTEMPTS: u8 = 10;

/// How long it waits between tries, in milliseconds.
pub const SELF_CHECK_PAUSE_MS: u64 = 500;

/// How long one request of a try may take, in seconds.
pub const SELF_CHECK_TIMEOUT_SECS: u64 = 2;

/// What follows a try of the self-check.
#[derive(Debug, PartialEq, Eq)]
pub enum SelfCheckStep {
    /// The server answered.
    Passed,
    /// Try again after a pause, in milliseconds.
    RetryAfter(u64),
    /// Give up, in these words.
    Failed(String),
}

/// The words in which the self-check gives up.
pub open spec fn self_check_words(port: u16) -> Seq<char> {
    "self-check failed: gRPC service on port "@ + decimal_digits(port as nat)
        + " did not answer GetSettings; refusing to run while not actually serving"@
}

/// What follows the try number `attempt`, counted from one.
pub fn self_check(attempt: u8, answered: bool, port: u16) -> (step: SelfCheckStep)
    ensures
        match step {
            SelfCheckStep::Passed => answered,
            SelfCheckStep::RetryAfter(ms) => !answered && attempt < SELF_CHECK_ATTEMPTS && ms
                == SELF_CHECK_PAUSE_MS,
            SelfCheckStep::Failed(words) => !answered && attempt >= SELF_CHECK_ATTEMPTS && words@
                == self_check_words(port),
        },
{
    if answered {
        SelfCheckStep::Passed
    } else if attempt < SELF_CHECK_ATTEMPTS {
        SelfCheckStep::RetryAfter(SELF_CHECK_PAUSE_MS)
    } else {
        let digits = decimal(port as u64);
        SelfCheckStep::Failed(
            join3(
                "self-check failed: gRPC service on port ",
                digits.as_str(),
                " did not answer GetSettings; refusing to run while not actually serving",
            ),
        )
    }
}

/// How long to wait before the next try to reconnect, in seconds, after
/// `retry_count` failures: doubling from one second, ten at most.
pub open spec fn retry_delay_secs(retry_count: u32) -> u64 {
    if retry_count == 0 {
        1
    } else if retry_count == 1 {
        2
    } else if retry_count == 2 {
        4
    } else if retry_count == 3 {
        8
    } else {
        10
    }
}

/// The wait doubles with each failure until it would exceed ten seconds, never
/// shrinks, and stays between one and ten seconds.
pub proof fn retry_delays_are_bounded(retry_count: u32)
    ensures
        1 <= retry_delay_secs(retry_count) <= 10,
        retry_count < u32::MAX ==> retry_delay_secs(retry_count) <= retry_delay_secs(
            (retry_count + 1) as u32,
        ),
        retry_count < 4 ==> retry_delay_secs(retry_count) == vstd::arithmetic::power2::pow2(
            retry_count as nat,
        ),
        retry_count >= 4 ==> retry_delay_secs(retry_count) == 10,
{
    vstd::arithmetic::power2::lemma2_to64();
}

/// How long to wait before the next try to reconnect, in seconds.
pub fn retry_delay(retry_count: u32) -> (secs: u64)
    ensures
        secs == retry_delay_secs(retry_count),
{
    match retry_count {
        0 => 1,
        1 => 2,
        2 => 4,
        3 => 8,
        _ => 10,
    }
}

} // verus!
