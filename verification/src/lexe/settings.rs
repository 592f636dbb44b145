//! Configuration of the Lexe backend.

use vstd::prelude::*;
use vstd::string::*;

use crate::text::{lower, same_text, to_ascii_lowercase, trim, trimmed};

verus! {

/// Configuration of the connection to the node.
#[derive(PartialEq, Eq)]
pub struct BackendConfig {
    /// Base64 SDK client credentials. Exactly one of these and the seed phrase
    /// must be set.
    pub client_credentials: Option<String>,
    /// BIP39 seed phrase of the node.
    pub seed_phrase: Option<String>,
    /// The network: `mainnet`, `testnet3` or `regtest`.
    pub network: String,
    /// Where the wallet state and the quote database are kept.
    pub data_dir: String,
    /// The estimated outgoing fee in millionths of the amount.
    pub fee_reserve_ppm: u32,
    /// The least estimated outgoing fee, in satoshis.
    pub fee_reserve_min_sat: u32,
    /// How long to wait for an outgoing payment where the mint does not say,
    /// in seconds.
    pub payment_timeout_secs: u64,
}

/// The whole configuration.
#[derive(PartialEq, Eq)]
pub struct Config {
    /// The connection to the node.
    pub lexe: BackendConfig,
    /// The address to listen on.
    pub address: String,
    /// The port to listen on.
    pub port: u16,
    /// Whether to use mutual TLS.
    pub tls_enable: bool,
    /// Whether plain text is explicitly allowed.
    pub allow_insecure: bool,
    /// The server certificate.
    pub tls_cert_path: String,
    /// The server key.
    pub tls_key_path: String,
    /// The authority that signs the certificates of mints.
    pub tls_client_ca_path: String,
}

/// The main network.
pub fn default_network() -> (network: String)
    ensures
        network@ == "mainnet"@,
{
    "mainnet".to_owned()
}

/// A directory below the current one.
pub fn default_data_dir() -> (dir: String)
    ensures
        dir@ == ".data/lexe"@,
{
    ".data/lexe".to_owned()
}

/// One hundredth of a percent.
pub fn default_fee_reserve_ppm() -> (ppm: u32)
    ensures
        ppm == 100,
{
    100
}

/// One satoshi.
pub fn default_fee_reserve_min_sat() -> (sats: u32)
    ensures
        sats == 1,
{
    1
}

/// Five minutes.
pub fn default_payment_timeout_secs() -> (secs: u64)
    ensures
        secs == 300,
{
    300
}

/// This machine only.
pub fn default_address() -> (address: String)
    ensures
        address@ == "127.0.0.1"@,
{
    "127.0.0.1".to_owned()
}

/// The port that mints expect.
pub fn default_port() -> (port: u16)
    ensures
        port == 50051,
{
    50051
}

/// The server certificate below the current directory.
pub fn default_tls_cert_path() -> (path: String)
    ensures
        path@ == "certs/server.crt"@,
{
    "certs/server.crt".to_owned()
}

/// The server key below the current directory.
pub fn default_tls_key_path() -> (path: String)
    ensures
        path@ == "certs/server.key"@,
{
    "certs/server.key".to_owned()
}

/// The authority below the current directory.
pub fn default_tls_client_ca_path() -> (path: String)
    ensures
        path@ == "certs/ca.pem"@,
{
    "certs/ca.pem".to_owned()
}

impl Default for BackendConfig {
    fn default() -> (config: Self)
        ensures
            config.client_credentials is None,
            config.seed_phrase is None,
            config.network@ == "mainnet"@,
            config.data_dir@ == ".data/lexe"@,
            config.fee_reserve_ppm == 100,
            config.fee_reserve_min_sat == 1,
            config.payment_timeout_secs == 300,
    {
        BackendConfig {
            client_credentials: None,
            seed_phrase: None,
            network: default_network(),
            data_dir: default_data_dir(),
            fee_reserve_ppm: default_fee_reserve_ppm(),
            fee_reserve_min_sat: default_fee_reserve_min_sat(),
            payment_timeout_secs: default_payment_timeout_secs(),
        }
    }
}

impl Default for Config {
    fn default() -> (config: Self)
        ensures
            config.lexe.client_credentials is None,
            config.lexe.seed_phrase is None,
            config.lexe.network@ == "mainnet"@,
            config.lexe.data_dir@ == ".data/lexe"@,
            config.lexe.fee_reserve_ppm == 100,
            config.lexe.fee_reserve_min_sat == 1,
            config.lexe.payment_timeout_secs == 300,
            config.address@ == "127.0.0.1"@,
            config.port == 50051,
            !config.tls_enable,
            !config.allow_insecure,
            config.tls_cert_path@ == "certs/server.crt"@,
            config.tls_key_path@ == "certs/server.key"@,
            config.tls_client_ca_path@ == "certs/ca.pem"@,
    {
        Config {
            lexe: BackendConfig::default(),
            address: default_address(),
            port: default_port(),
            tls_enable: false,
            allow_insecure: false,
            tls_cert_path: default_tls_cert_path(),
            tls_key_path: default_tls_key_path(),
            tls_client_ca_path: default_tls_client_ca_path(),
        }
    }
}

/// Why a configuration is refused.
#[derive(Debug, PartialEq, Eq)]
pub enum ConfigError<T> {
    /// Client credentials and a seed phrase are both set.
    BothCredentials,
    /// Neither client credentials nor a seed phrase is set.
    MissingCredentials,
    /// The network is not known.
    InvalidNetwork(T),
}

impl DeepView for ConfigError<String> {
    type V = ConfigError<Seq<char>>;

    open spec fn deep_view(&self) -> ConfigError<Seq<char>> {
        match self {
            ConfigError::BothCredentials => ConfigError::BothCredentials,
            ConfigError::MissingCredentials => ConfigError::MissingCredentials,
            ConfigError::InvalidNetwork(network) => ConfigError::InvalidNetwork(network@),
        }
    }
}

impl ConfigError<Seq<char>> {
    /// The reason in words.
    pub open spec fn words(self) -> Seq<char> {
        match self {
            ConfigError::BothCredentials => {
                "set either LEXE_CLIENT_CREDENTIALS or LEXE_SEED_PHRASE, not both"@
            },
            ConfigError::MissingCredentials => {
                "missing credentials: set LEXE_CLIENT_CREDENTIALS (base64 SDK client credentials from the Lexe app, Menu → SDK clients) or LEXE_SEED_PHRASE (BIP39)"@
            },
            ConfigError::InvalidNetwork(network) => {
                "invalid LEXE_NETWORK `"@ + network
                    + "`; expected one of: mainnet, testnet3, regtest"@
            },
        }
    }
}

impl ConfigError<String> {
    /// The reason in words.
    pub fn message(&self) -> (words: String)
        ensures
            words@ == self.deep_view().words(),
    {
        match self {
            ConfigError::BothCredentials => {
                "set either LEXE_CLIENT_CREDENTIALS or LEXE_SEED_PHRASE, not both".to_owned()
            },
            ConfigError::MissingCredentials => {
                "missing credentials: set LEXE_CLIENT_CREDENTIALS (base64 SDK client credentials from the Lexe app, Menu → SDK clients) or LEXE_SEED_PHRASE (BIP39)".to_owned()
            },
            ConfigError::InvalidNetwork(network) => crate::text::join3(
                "invalid LEXE_NETWORK `",
                network.as_str(),
                "`; expected one of: mainnet, testnet3, regtest",
            ),
        }
    }
}

/// Whether a text is set: present and not blank.
pub open spec fn is_set(text: Option<String>) -> bool {
    text matches Some(text) && trimmed(text@).len() > 0
}

fn has_text(text: &Option<String>) -> (res: bool)
    ensures
        res == is_set(*text),
{
    match text {
        Some(text) => !trim(text.as_str()).is_empty(),
        None => false,
    }
}

/// Whether a network is accepted, in letters of any case.
pub open spec fn is_network(network: Seq<char>) -> bool {
    let name = lower(network);
    name == "mainnet"@ || name == "testnet3"@ || name == "regtest"@
}

/// Why a configuration is refused, where it is.
pub open spec fn config_refusal(config: Config) -> Option<ConfigError<Seq<char>>> {
    let credentials = is_set(config.lexe.client_credentials);
    let seed = is_set(config.lexe.seed_phrase);
    if credentials && seed {
        Some(ConfigError::BothCredentials)
    } else if !credentials && !seed {
        Some(ConfigError::MissingCredentials)
    } else if !is_network(config.lexe.network@) {
        Some(ConfigError::InvalidNetwork(config.lexe.network@))
    } else {
        None
    }
}

/// Accepts a configuration with exactly one kind of credentials and a known
/// network.
pub fn validate(config: &Config) -> (res: Result<(), ConfigError<String>>)
    ensures
        match res {
            Ok(()) => config_refusal(*config) is None,
            Err(error) => config_refusal(*config) == Some(error.deep_view()),
        },
{
    let has_credentials = has_text(&config.lexe.client_credentials);
    let has_seed = has_text(&config.lexe.seed_phrase);
    match (has_credentials, has_seed) {
        (true, true) => return Err(ConfigError::BothCredentials),
        (false, false) => return Err(ConfigError::MissingCredentials),
        _ => {},
    }
    let network = to_ascii_lowercase(config.lexe.network.as_str());
    if same_text(network.as_str(), "mainnet") || same_text(network.as_str(), "testnet3")
        || same_text(network.as_str(), "regtest") {
        Ok(())
    } else {
        Err(ConfigError::InvalidNetwork(config.lexe.network.clone()))
    }
}

/// How the wallet is opened.
#[derive(PartialEq, Eq)]
pub enum WalletCredentials {
    /// With SDK client credentials.
    Client(String),
    /// With a seed phrase; a new wallet is signed up first.
    Seed(String),
}

/// How the wallet is opened: with client credentials where they are set, else
/// with the seed phrase where there is one.
pub fn wallet_credentials(config: &BackendConfig) -> (res: Result<WalletCredentials, String>)
    ensures
        match res {
            Ok(WalletCredentials::Client(blob)) => is_set(config.client_credentials) && blob@
                == trimmed(config.client_credentials->0@),
            Ok(WalletCredentials::Seed(phrase)) => !is_set(config.client_credentials)
                && config.seed_phrase is Some && phrase@ == trimmed(config.seed_phrase->0@),
            Err(words) => {
                &&& !is_set(config.client_credentials)
                &&& config.seed_phrase is None
                &&& words@
                    == "lexe credentials missing: set client_credentials or seed_phrase"@
            },
        },
{
    if has_text(&config.client_credentials) {
        match &config.client_credentials {
            Some(blob) => return Ok(WalletCredentials::Client(trim(blob.as_str()).to_owned())),
            None => {},
        }
    }
    match &config.seed_phrase {
        Some(phrase) => Ok(WalletCredentials::Seed(trim(phrase.as_str()).to_owned())),
        None => Err(
            "lexe credentials missing: set client_credentials or seed_phrase".to_owned(),
        ),
    }
}

/// A configuration as it may be shown: without its secrets.
#[derive(Debug, PartialEq, Eq)]
pub struct RedactedBackendConfig {
    /// Whether client credentials are set, not what they are.
    pub client_credentials: Option<String>,
    /// Whether a seed phrase is set, not what it is.
    pub seed_phrase: Option<String>,
    /// The network.
    pub network: String,
    /// Where the wallet state and the quote database are kept.
    pub data_dir: String,
    /// The estimated outgoing fee in millionths of the amount.
    pub fee_reserve_ppm: u32,
    /// The least estimated outgoing fee, in satoshis.
    pub fee_reserve_min_sat: u32,
    /// How long to wait for an outgoing payment, in seconds.
    pub payment_timeout_secs: u64,
}

/// What stands in place of a secret.
pub open spec fn redaction(secret: Option<String>) -> Option<Seq<char>> {
    if secret is Some {
        Some("[REDACTED]"@)
    } else {
        None
    }
}

fn redact(secret: &Option<String>) -> (res: Option<String>)
    ensures
        res.deep_view() == redaction(*secret),
{
    match secret {
        Some(_) => Some("[REDACTED]".to_owned()),
        None => None,
    }
}

impl BackendConfig {
    /// The configuration as it may be shown.
    pub fn redacted(&self) -> (shown: RedactedBackendConfig)
        ensures
            shown.client_credentials.deep_view() == redaction(self.client_credentials),
            shown.seed_phrase.deep_view() == redaction(self.seed_phrase),
            shown.network == self.network,
            shown.data_dir == self.data_dir,
            shown.fee_reserve_ppm == self.fee_reserve_ppm,
            shown.fee_reserve_min_sat == self.fee_reserve_min_sat,
            shown.payment_timeout_secs == self.payment_timeout_secs,
    {
        RedactedBackendConfig {
            client_credentials: redact(&self.client_credentials),
            seed_phrase: redact(&self.seed_phrase),
            network: self.network.clone(),
            data_dir: self.data_dir.clone(),
            fee_reserve_ppm: self.fee_reserve_ppm,
            fee_reserve_min_sat: self.fee_reserve_min_sat,
            payment_timeout_secs: self.payment_timeout_secs,
        }
    }
}

/// A configuration that is accepted names a wallet environment.
pub proof fn valid_network_has_an_environment(config: Config)
    requires
        config_refusal(config) is None,
    ensures
        crate::lexe::client::environment_of(config.lexe.network@) is Some,
{
}

} // verus!
