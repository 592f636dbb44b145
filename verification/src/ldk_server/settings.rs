//! Configuration of the LDK Server processor.

use vstd::prelude::*;
use vstd::string::*;

verus! {

/// Configuration of the connection to the node.
#[derive(PartialEq, Eq)]
pub struct BackendConfig {
    /// The address of the node, without a scheme.
    pub address: String,
    /// The key that authenticates requests, in hexadecimal.
    pub api_key: String,
    /// The certificate of the node.
    pub tls_cert_path: String,
    /// The least fee reserve of melt quotes, in satoshis.
    pub fee_reserve_min_sat: u64,
    /// The share of the amount that is reserved for fees, as the bits of a
    /// single-precision number.
    pub fee_reserve_percent_bits: u32,
    /// How many pages of the history are read to look a payment up.
    pub max_payment_scan_pages: u16,
}

/// The whole configuration.
#[derive(PartialEq, Eq)]
pub struct Config {
    /// The connection to the node.
    pub backend: BackendConfig,
    /// The address to listen on.
    pub address: String,
    /// The port to listen on.
    pub port: u16,
    /// Whether to use mutual TLS.
    pub tls_enable: bool,
    /// Whether plain text is explicitly allowed.
    pub allow_insecure: bool,
    /// The server certificate.
    pub tls_cert_path: String,
    /// The server key.
    pub tls_key_path: String,
    /// The authority that signs the certificates of mints.
    pub tls_client_ca_path: String,
}

/// Two satoshis.
pub fn default_fee_reserve_min_sat() -> (sats: u64)
    ensures
        sats == 2,
{
    2
}

/// One percent, as the bits of the single-precision number nearest to it.
pub fn default_fee_reserve_percent_bits() -> (bits: u32)
    ensures
        bits == 0x3C23_D70A,
{
    0x3C23_D70A
}

/// Thirty-two pages.
pub fn default_max_payment_scan_pages() -> (pages: u16)
    ensures
        pages == 32,
{
    32
}

/// This machine only.
pub fn default_address() -> (address: String)
    ensures
        address@ == "127.0.0.1"@,
{
    "127.0.0.1".to_owned()
}

/// The port that mints expect.
pub fn default_port() -> (port: u16)
    ensures
        port == 50051,
{
    50051
}

/// The server certificate below the current directory.
pub fn default_tls_cert_path() -> (path: String)
    ensures
        path@ == "certs/server.crt"@,
{
    "certs/server.crt".to_owned()
}

/// The server key below the current directory.
pub fn default_tls_key_path() -> (path: String)
    ensures
        path@ == "certs/server.key"@,
{
    "certs/server.key".to_owned()
}

/// The authority below the current directory.
pub fn default_tls_client_ca_path() -> (path: String)
    ensures
        path@ == "certs/ca.pem"@,
{
    "certs/ca.pem".to_owned()
}

impl Default for BackendConfig {
    fn default() -> (config: Self)
        ensures
            config.address@.len() == 0,
            config.api_key@.len() == 0,
            config.tls_cert_path@.len() == 0,
            config.fee_reserve_min_sat == 2,
            config.fee_reserve_percent_bits == 0x3C23_D70A,
            config.max_payment_scan_pages == 32,
    {
        BackendConfig {
            address: String::new(),
            api_key: String::new(),
            tls_cert_path: String::new(),
            fee_reserve_min_sat: default_fee_reserve_min_sat(),
            fee_reserve_percent_bits: default_fee_reserve_percent_bits(),
            max_payment_scan_pages: default_max_payment_scan_pages(),
        }
    }
}

impl Default for Config {
    fn default() -> (config: Self)
        ensures
            config.backend.address@.len() == 0,
            config.backend.api_key@.len() == 0,
            config.backend.tls_cert_path@.len() == 0,
            config.backend.fee_reserve_min_sat == 2,
            config.backend.fee_reserve_percent_bits == 0x3C23_D70A,
            config.backend.max_payment_scan_pages == 32,
            config.address@ == "127.0.0.1"@,
            config.port == 50051,
            !config.tls_enable,
            !config.allow_insecure,
            config.tls_cert_path@ == "certs/server.crt"@,
            config.tls_key_path@ == "certs/server.key"@,
            config.tls_client_ca_path@ == "certs/ca.pem"@,
    {
        Config {
            backend: BackendConfig::default(),
            address: default_address(),
            port: default_port(),
            tls_enable: false,
            allow_insecure: false,
            tls_cert_path: default_tls_cert_path(),
            tls_key_path: default_tls_key_path(),
            tls_client_ca_path: default_tls_client_ca_path(),
        }
    }
}

/// What is missing in a configuration.
#[derive(Clone, Copy, Debug, PartialEq, Eq, Structural)]
pub enum MissingSetting {
    /// The address of the node.
    Address,
    /// The key that authenticates requests.
    ApiKey,
    /// The certificate of the node.
    TlsCertPath,
}

impl MissingSetting {
    /// What is missing, in words.
    pub open spec fn words(self) -> Seq<char> {
        match self {
            MissingSetting::Address => "backend.address is required"@,
            MissingSetting::ApiKey => "backend.api_key is required"@,
            MissingSetting::TlsCertPath => "backend.tls_cert_path is required"@,
        }
    }

    /// What is missing, in words.
    pub fn message(&self) -> (words: String)
        ensures
            words@ == self.words(),
    {
        match self {
            MissingSetting::Address => "backend.address is required".to_owned(),
            MissingSetting::ApiKey => "backend.api_key is required".to_owned(),
            MissingSetting::TlsCertPath => "backend.tls_cert_path is required".to_owned(),
        }
    }
}

impl BackendConfig {
    /// Accepts a configuration that says how to reach the node.
    pub fn validate(&self) -> (res: Result<(), MissingSetting>)
        ensures
            res == (if self.address@.len() == 0 {
                Err::<(), MissingSetting>(MissingSetting::Address)
            } else if self.api_key@.len() == 0 {
                Err::<(), MissingSetting>(MissingSetting::ApiKey)
            } else if self.tls_cert_path@.len() == 0 {
                Err::<(), MissingSetting>(MissingSetting::TlsCertPath)
            } else {
                Ok::<(), MissingSetting>(())
            }),
    {
        if self.address.as_str().is_empty() {
            Err(MissingSetting::Address)
        } else if self.api_key.as_str().is_empty() {
            Err(MissingSetting::ApiKey)
        } else if self.tls_cert_path.as_str().is_empty() {
            Err(MissingSetting::TlsCertPath)
        } else {
            Ok(())
        }
    }
}

} // verus!
