//! What the Lexe node reports, as plain values.

use core::str::FromStr;
use vstd::prelude::*;
use vstd::string::*;

use base64::Engine as _;

use crate::payment::MSAT_IN_SAT;
use crate::text::trim;

verus! {

/// Which way a payment goes.
#[derive(Clone, Copy, Debug, PartialEq, Eq, Structural)]
pub enum PaymentDirection {
    /// To this node.
    Inbound,
    /// From this node.
    Outbound,
    /// Neither: a record without a transfer.
    Info,
}

/// How far a payment has come.
#[derive(Clone, Copy, Debug, PartialEq, Eq, Structural)]
pub enum PaymentStatus {
    /// Under way.
    Pending,
    /// Settled.
    Completed,
    /// Failed for good.
    Failed,
}

/// A payment as the node reports it.
#[derive(Debug, PartialEq, Eq)]
pub struct Payment {
    /// The index by which the node finds the payment.
    pub index: String,
    /// The index of the payment's latest update.
    pub updated_index: String,
    /// Which way the payment goes.
    pub direction: PaymentDirection,
    /// The payment hash, where the payment has one.
    pub hash: Option<[u8; 32]>,
    /// The preimage, where it is known.
    pub preimage: Option<[u8; 32]>,
    /// The amount in millisatoshis, where it is known.
    pub amount_msat: Option<u64>,
    /// The fees in millisatoshis.
    pub fees_msat: u64,
    /// How far the payment has come.
    pub status: PaymentStatus,
    /// The status in words.
    pub status_msg: String,
}

/// The kinds of error a node request fails with.
#[derive(Clone, Copy, Debug, PartialEq, Eq, Structural)]
pub enum NodeErrorKind {
    /// A kind this library does not know.
    Unknown(u16),
    /// The HTTP client failed.
    UnknownReqwest,
    /// The request could not be built.
    Building,
    /// The node could not be connected to.
    Connect,
    /// The request timed out.
    Timeout,
    /// The response could not be decoded.
    Decode,
    /// The server failed.
    Server,
    /// The server refused the request as malformed.
    Rejection,
    /// The server is at capacity.
    AtCapacity,
    /// The client did not authenticate.
    ClientAuth,
    /// The client lacks a permission.
    InsufficientScope,
    /// An error without a description.
    General,
    /// The user key is wrong.
    WrongUserPk,
    /// The node key is wrong.
    WrongNodePk,
    /// The enclave measurement is wrong.
    WrongMeasurement,
    /// Provisioning failed.
    Provision,
    /// The authentication token was refused.
    BadAuth,
    /// The request could not be proxied to the node.
    Proxy,
    /// The command failed.
    Command,
    /// There is no such resource.
    NotFound,
}

impl NodeErrorKind {
    /// The kind with the given code.
    pub open spec fn of_code(code: u16) -> NodeErrorKind {
        match code {
            1 => NodeErrorKind::UnknownReqwest,
            2 => NodeErrorKind::Building,
            3 => NodeErrorKind::Connect,
            4 => NodeErrorKind::Timeout,
            5 => NodeErrorKind::Decode,
            6 => NodeErrorKind::Server,
            7 => NodeErrorKind::Rejection,
            8 => NodeErrorKind::AtCapacity,
            9 => NodeErrorKind::ClientAuth,
            10 => NodeErrorKind::InsufficientScope,
            11 => NodeErrorKind::General,
            100 => NodeErrorKind::WrongUserPk,
            101 => NodeErrorKind::WrongNodePk,
            102 => NodeErrorKind::WrongMeasurement,
            103 => NodeErrorKind::Provision,
            104 => NodeErrorKind::BadAuth,
            105 => NodeErrorKind::Proxy,
            106 => NodeErrorKind::Command,
            107 => NodeErrorKind::NotFound,
            _ => NodeErrorKind::Unknown(code),
        }
    }

    /// The kind with the given code.
    pub fn from_code(code: u16) -> (kind: NodeErrorKind)
        ensures
            kind == NodeErrorKind::of_code(code),
    {
        match code {
            1 => NodeErrorKind::UnknownReqwest,
            2 => NodeErrorKind::Building,
            3 => NodeErrorKind::Connect,
            4 => NodeErrorKind::Timeout,
            5 => NodeErrorKind::Decode,
            6 => NodeErrorKind::Server,
            7 => NodeErrorKind::Rejection,
            8 => NodeErrorKind::AtCapacity,
            9 => NodeErrorKind::ClientAuth,
            10 => NodeErrorKind::InsufficientScope,
            11 => NodeErrorKind::General,
            100 => NodeErrorKind::WrongUserPk,
            101 => NodeErrorKind::WrongNodePk,
            102 => NodeErrorKind::WrongMeasurement,
            103 => NodeErrorKind::Provision,
            104 => NodeErrorKind::BadAuth,
            105 => NodeErrorKind::Proxy,
            106 => NodeErrorKind::Command,
            107 => NodeErrorKind::NotFound,
            _ => NodeErrorKind::Unknown(code),
        }
    }

    /// Whether a submission that failed in this way was definitely not
    /// accepted: the request was never built or sent, or it was turned away
    /// before the node acted on it.
    pub open spec fn proves_rejection(self) -> bool {
        ||| self == NodeErrorKind::Building
        ||| self == NodeErrorKind::Connect
        ||| self == NodeErrorKind::Rejection
        ||| self == NodeErrorKind::ClientAuth
        ||| self == NodeErrorKind::InsufficientScope
        ||| self == NodeErrorKind::BadAuth
    }
}

/// Why a submission did not report an index.
#[derive(Debug, PartialEq, Eq)]
pub enum SubmissionError {
    /// The payment was definitely not accepted.
    Rejected(String),
    /// The payment may or may not have been accepted.
    Ambiguous(String),
}

impl SubmissionError {
    /// What a failed submission proves: a rejection only where the error kind
    /// proves one; everything else stays ambiguous, whatever the words say.
    pub fn from_node_error(kind: NodeErrorKind, message: String) -> (res: SubmissionError)
        ensures
            res == (if kind.proves_rejection() {
                SubmissionError::Rejected(message)
            } else {
                SubmissionError::Ambiguous(message)
            }),
    {
        match kind {
            NodeErrorKind::Building
            | NodeErrorKind::Connect
            | NodeErrorKind::Rejection
            | NodeErrorKind::ClientAuth
            | NodeErrorKind::InsufficientScope
            | NodeErrorKind::BadAuth => SubmissionError::Rejected(message),
            _ => SubmissionError::Ambiguous(message),
        }
    }
}

/// What reading a payment index gives: its canonical text, or the words in
/// which it is refused.
pub uninterp spec fn payment_index_read(text: Seq<char>) -> Result<Seq<char>, Seq<char>>;

/// Reads a payment index and writes it out again.
///
/// `PaymentCreatedIndex::from_str` of the Lexe SDK is trusted to depend on the
/// text alone. What it writes out it reads back: the canonical text of an
/// index is the canonical text of itself.
#[verifier::external_body]
fn read_payment_index(text: &str) -> (res: Result<String, String>)
    ensures
        match res {
            Ok(canonical) => {
                &&& payment_index_read(text@) == Ok::<Seq<char>, Seq<char>>(canonical@)
                &&& payment_index_read(canonical@) == Ok::<Seq<char>, Seq<char>>(canonical@)
            },
            Err(words) => payment_index_read(text@) == Err::<Seq<char>, Seq<char>>(words@),
        },
{
    match lexe::types::payment::PaymentCreatedIndex::from_str(text) {
        Ok(index) => Ok(index.to_string()),
        Err(error) => Err(error.to_string()),
    }
}

/// A payment index in its canonical text form.
pub fn parse_payment_index(text: &str) -> (res: Result<String, String>)
    ensures
        match res {
            Ok(canonical) => {
                &&& payment_index_read(text@) == Ok::<Seq<char>, Seq<char>>(canonical@)
                &&& payment_index_read(canonical@) == Ok::<Seq<char>, Seq<char>>(canonical@)
            },
            Err(words) => payment_index_read(text@) == Err::<Seq<char>, Seq<char>>(words@),
        },
{
    read_payment_index(text)
}

/// The words in which the Lexe SDK refuses an invoice, where it refuses it.
pub uninterp spec fn invoice_refusal(text: Seq<char>) -> Option<Seq<char>>;

/// Whether the Lexe SDK accepts an invoice, and why not.
///
/// `Invoice::from_str` of the Lexe SDK is trusted to depend on the text alone.
#[verifier::external_body]
pub(crate) fn check_invoice(text: &str) -> (refusal: Option<String>)
    ensures
        refusal.deep_view() == invoice_refusal(text@),
{
    lexe::types::bitcoin::Invoice::from_str(text).err().map(|error| error.to_string())
}

/// A Lexe amount of whole satoshis, in millisatoshis.
///
/// `Amount::try_from_sats_u64` of the Lexe SDK is trusted to accept exactly the
/// amounts whose millisatoshis fit in 64 bits, and to refuse the others in the
/// words given here.
#[verifier::external_body]
pub(crate) fn lexe_amount_from_sats(sats: u64) -> (res: Result<u64, String>)
    ensures
        match res {
            Ok(msat) => msat == sats * MSAT_IN_SAT,
            Err(words) => sats * MSAT_IN_SAT > u64::MAX && words@ == "Amount is too large"@,
        },
{
    match lexe::types::bitcoin::Amount::try_from_sats_u64(sats) {
        Ok(amount) => Ok(amount.msat()),
        Err(error) => Err(error.to_string()),
    }
}

/// The whole satoshis of a Lexe amount.
///
/// `Amount::sats_u64` of the Lexe SDK is trusted to drop the fraction of a
/// satoshi.
#[verifier::external_body]
pub(crate) fn lexe_amount_sats(msat: u64) -> (sats: u64)
    ensures
        sats == msat / MSAT_IN_SAT,
{
    lexe::types::bitcoin::Amount::from_msat(msat).sats_u64()
}

/// The credentials of an SDK client.
#[verifier::external_type_specification]
#[verifier::external_body]
pub struct ExClientCredentials(lexe::types::auth::ClientCredentials);

/// The bytes that a text stands for in standard, padded base64.
pub uninterp spec fn base64_bytes(text: Seq<char>) -> Option<Seq<u8>>;

/// The client credentials that the Lexe SDK reads from a blob, where it accepts
/// the blob.
pub uninterp spec fn credentials_read(blob: Seq<char>) -> Option<
    lexe::types::auth::ClientCredentials,
>;

/// Decodes standard, padded base64.
///
/// `STANDARD.decode` of `base64` is trusted to depend on the text alone.
#[verifier::external_body]
fn base64_decode(text: &str) -> (bytes: Option<Vec<u8>>)
    ensures
        match bytes {
            Some(bytes) => base64_bytes(text@) == Some(bytes@),
            None => base64_bytes(text@) is None,
        },
{
    base64::engine::general_purpose::STANDARD.decode(text).ok()
}

/// Reads client credentials from a base64 blob.
///
/// `ClientCredentials::from_string` of the Lexe SDK is trusted to depend on the
/// blob alone. Why it refuses a blob is left unsaid.
#[verifier::external_body]
fn read_credentials(blob: &str) -> (res: Option<lexe::types::auth::ClientCredentials>)
    ensures
        res == credentials_read(blob@),
{
    lexe::types::auth::ClientCredentials::from_string(blob).ok()
}

/// Why client credentials were refused.
#[derive(Clone, Copy, Debug, PartialEq, Eq, Structural)]
pub enum CredentialsError {
    /// The text is not base64.
    NotBase64,
    /// The bytes are not client credentials.
    NotCredentials,
}

impl CredentialsError {
    /// The reason in words.
    pub open spec fn words(self) -> Seq<char> {
        match self {
            CredentialsError::NotBase64 => "client credentials are not valid base64"@,
            CredentialsError::NotCredentials => {
                "client credentials are not a valid SDK credentials blob"@
            },
        }
    }

    /// The reason in words.
    pub fn message(&self) -> (words: String)
        ensures
            words@ == self.words(),
    {
        match self {
            CredentialsError::NotBase64 => "client credentials are not valid base64".to_owned(),
            CredentialsError::NotCredentials => {
                "client credentials are not a valid SDK credentials blob".to_owned()
            },
        }
    }
}

/// What a text gives as client credentials.
pub open spec fn credentials_answer(raw: Seq<char>) -> Result<
    lexe::types::auth::ClientCredentials,
    CredentialsError,
> {
    let blob = crate::text::trimmed(raw);
    match (base64_bytes(blob), credentials_read(blob)) {
        (None, _) => Err(CredentialsError::NotBase64),
        (Some(_), None) => Err(CredentialsError::NotCredentials),
        (Some(_), Some(credentials)) => Ok(credentials),
    }
}

/// Decodes a base64 client-credentials blob.
pub fn decode_client_credentials(raw: &str) -> (res: Result<
    lexe::types::auth::ClientCredentials,
    CredentialsError,
>)
    ensures
        res == credentials_answer(raw@),
{
    let blob = trim(raw);
    let is_base64 = base64_decode(blob).is_some();
    if is_base64 {
        credentials_or_refusal(is_base64, read_credentials(blob))
    } else {
        credentials_or_refusal(is_base64, None)
    }
}

/// What a blob gives, from whether it is base64 and from what the SDK read.
pub fn credentials_or_refusal(
    is_base64: bool,
    read: Option<lexe::types::auth::ClientCredentials>,
) -> (res: Result<lexe::types::auth::ClientCredentials, CredentialsError>)
    ensures
        match res {
            Ok(credentials) => is_base64 && read == Some(credentials),
            Err(error) => (!is_base64 || read is None) && error == (if is_base64 {
                CredentialsError::NotCredentials
            } else {
                CredentialsError::NotBase64
            }),
        },
{
    if !is_base64 {
        return Err(CredentialsError::NotBase64);
    }
    match read {
        Some(credentials) => Ok(credentials),
        None => Err(CredentialsError::NotCredentials),
    }
}

/// The environments a wallet can run in.
#[derive(Clone, Copy, Debug, PartialEq, Eq, Structural)]
pub enum WalletEnvironment {
    /// The main network.
    Mainnet,
    /// The third test network.
    Testnet3,
    /// A local network for development.
    Regtest,
}

/// The environment that a network's name stands for, in letters of any case.
pub open spec fn environment_of(network: Seq<char>) -> Option<WalletEnvironment> {
    let name = crate::text::lower(network);
    if name == "mainnet"@ {
        Some(WalletEnvironment::Mainnet)
    } else if name == "testnet3"@ || name == "testnet"@ {
        Some(WalletEnvironment::Testnet3)
    } else if name == "regtest"@ {
        Some(WalletEnvironment::Regtest)
    } else {
        None
    }
}

/// The wallet environment for the configured network, or why there is none.
pub fn wallet_env_config(network: &str) -> (res: Result<WalletEnvironment, String>)
    ensures
        match res {
            Ok(environment) => environment_of(network@) == Some(environment),
            Err(words) => {
                &&& environment_of(network@) is None
                &&& words@ == "invalid network `"@ + crate::text::lower(network@) + "`"@
            },
        },
{
    let name = crate::text::to_ascii_lowercase(network);
    if crate::text::same_text(name.as_str(), "mainnet") {
        Ok(WalletEnvironment::Mainnet)
    } else if crate::text::same_text(name.as_str(), "testnet3") || crate::text::same_text(
        name.as_str(),
        "testnet",
    ) {
        Ok(WalletEnvironment::Testnet3)
    } else if crate::text::same_text(name.as_str(), "regtest") {
        Ok(WalletEnvironment::Regtest)
    } else {
        Err(crate::text::join3("invalid network `", name.as_str(), "`"))
    }
}

} // verus!
