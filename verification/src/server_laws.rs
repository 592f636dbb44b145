//! How the servers are reached.

use vstd::prelude::*;

use crate::server::{
    insecure_guidance_text, retry_delay, self_check, self_check_endpoint, transport, IpAddress,
    SelfCheckStep, Transport,
};
use crate::text_laws::{is_decimal, value_of};

verus! {

/// Whether an address is that of this machine alone: any that begins with 127, or
/// the sixth version's one.
pub open spec fn is_own(address: IpAddress) -> bool {
    match address {
        IpAddress::V4(octets) => octets@[0] == 127,
        IpAddress::V6(octets) => octets@[15] == 1 && forall|i: int|
            0 <= i < 15 ==> #[trigger] octets@[i] == 0,
    }
}

/// Whether an address stands for all addresses of the machine: nothing but zeros.
pub open spec fn is_any(address: IpAddress) -> bool {
    match address {
        IpAddress::V4(octets) => forall|i: int| 0 <= i < 4 ==> #[trigger] octets@[i] == 0,
        IpAddress::V6(octets) => forall|i: int| 0 <= i < 16 ==> #[trigger] octets@[i] == 0,
    }
}

/// The kinds of address are told apart by their octets.
pub proof fn addresses_are_told_apart(address: IpAddress, own: bool, any: bool)
    requires
        call_ensures(IpAddress::is_loopback, (&address,), own),
        call_ensures(IpAddress::is_unspecified, (&address,), any),
    ensures
        own == is_own(address),
        any == is_any(address),
{
}

/// Mutual TLS is used wherever it is enabled, and plain text nowhere but where it
/// is allowed. What is refused is refused with advice.
pub proof fn plain_text_must_be_allowed(
    tls_enable: bool,
    allow_insecure: bool,
    address: IpAddress,
    res: Result<Transport, String>,
    guidance: String,
)
    requires
        call_ensures(insecure_guidance_text, (), guidance),
        call_ensures(transport, (tls_enable, allow_insecure, &address), res),
    ensures
        tls_enable <==> (res matches Ok(Transport::MutualTls)),
        !tls_enable && allow_insecure <==> (res matches Ok(Transport::Plaintext { .. })),
        !tls_enable && !allow_insecure <==> res is Err,
        res matches Ok(Transport::Plaintext { loopback }) ==> loopback == is_own(address),
        res matches Err(words) ==> words@ == "payment processor TLS is required: "@ + guidance@,
        guidance@
            == "configure mTLS with tls_enable = true and tls_cert_path/tls_key_path/tls_client_ca_path, or set allow_insecure = true to accept cleartext traffic"@,
{
}

/// The server reaches itself under its own address, in brackets where it is of the
/// sixth version, and under that of this machine where it listens on all.
pub proof fn servers_reach_themselves(address: IpAddress, text: &str, host: String)
    requires
        call_ensures(self_check_endpoint, (&address, text), host),
    ensures
        match address {
            IpAddress::V4(_) => host@ == (if is_any(address) {
                "127.0.0.1"@
            } else {
                text@
            }),
            IpAddress::V6(_) => host@ == "["@ + (if is_any(address) {
                "::1"@
            } else {
                text@
            }) + "]"@,
        },
{
}

/// Whether words say that nothing answered on a port.
pub open spec fn names_port(words: Seq<char>, port: u16) -> bool {
    exists|digits: Seq<char>| #[trigger]
        is_decimal(digits) && value_of(digits) == port && words
            == "self-check failed: gRPC service on port "@ + digits
            + " did not answer GetSettings; refusing to run while not actually serving"@
}

/// The self-check passes exactly where the server answers. It is tried ten times,
/// every half second, and then given up in words that name the port.
pub proof fn self_checks_are_tried_ten_times(
    attempt: u8,
    answered: bool,
    port: u16,
    step: SelfCheckStep,
)
    requires
        call_ensures(self_check, (attempt, answered, port), step),
    ensures
        match step {
            SelfCheckStep::Passed => answered,
            SelfCheckStep::RetryAfter(ms) => !answered && attempt < 10 && ms == 500,
            SelfCheckStep::Failed(words) => !answered && attempt >= 10 && names_port(words@, port),
        },
{
    crate::text_laws::lemma_decimal(port as nat);
}

/// The wait for the next try doubles from one second with every failure, up to ten
/// seconds.
pub proof fn waits_double_up_to_ten_seconds(failures: u32, secs: u64, next: u64)
    requires
        failures < u32::MAX,
        call_ensures(retry_delay, (failures,), secs),
        call_ensures(retry_delay, ((failures + 1) as u32,), next),
    ensures
        failures == 0 ==> secs == 1,
        next == 2 * secs || (next == 10 && 2 * secs > 10),
        next <= 10,
{
}

} // verus!
