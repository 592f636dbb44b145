//! Configuration of the LNbits processor.

use vstd::prelude::*;
use vstd::string::*;

use crate::text::{trim, trimmed};

verus! {

/// Configuration of the connection to the wallet.
#[derive(PartialEq, Eq)]
pub struct BackendConfig {
    /// The key that can spend.
    pub admin_api_key: String,
    /// The key that can create invoices and read.
    pub invoice_api_key: String,
    /// The URL of the instance, at its root or at its API.
    pub api_url: String,
    /// The least fee reserve of melt quotes, in satoshis.
    pub fee_reserve_min_sat: u64,
    /// The share of the amount that is reserved for fees, as the bits of a
    /// single-precision number.
    pub fee_reserve_percent_bits: u32,
}

/// A configuration as it is written, under current and former names.
#[derive(PartialEq, Eq)]
pub struct BackendConfigRepr {
    /// The key that can spend.
    pub admin_api_key: String,
    /// The key that can create invoices and read.
    pub invoice_api_key: String,
    /// The URL of the instance.
    pub api_url: Option<String>,
    /// The URL of the instance, under its former name.
    pub lnbits_api: Option<String>,
    /// The least fee reserve, in satoshis.
    pub fee_reserve_min_sat: Option<u64>,
    /// The least fee reserve, under its former name.
    pub reserve_fee_min: Option<u64>,
    /// The share that is reserved for fees, as the bits of a single-precision
    /// number.
    pub fee_reserve_percent_bits: Option<u32>,
    /// The share that is reserved for fees, under its former name.
    pub fee_percent_bits: Option<u32>,
}

/// The whole configuration.
#[derive(PartialEq, Eq)]
pub struct Config {
    /// The connection to the wallet.
    pub lnbits: BackendConfig,
    /// The address to listen on.
    pub address: String,
    /// The port to listen on.
    pub port: u16,
    /// Whether to use mutual TLS.
    pub tls_enable: bool,
    /// Whether plain text is explicitly allowed.
    pub allow_insecure: bool,
    /// The server certificate.
    pub tls_cert_path: String,
    /// The server key.
    pub tls_key_path: String,
    /// The authority that signs the certificates of mints.
    pub tls_client_ca_path: String,
}

/// Two satoshis.
pub fn default_fee_reserve_min_sat() -> (sats: u64)
    ensures
        sats == 2,
{
    2
}

/// Two percent, as the bits of the single-precision number nearest to it.
pub fn default_fee_reserve_percent_bits() -> (bits: u32)
    ensures
        bits == 0x3CA3_D70A,
{
    0x3CA3_D70A
}

/// This machine only.
pub fn default_address() -> (address: String)
    ensures
        address@ == "127.0.0.1"@,
{
    "127.0.0.1".to_owned()
}

/// The port that mints expect.
pub fn default_port() -> (port: u16)
    ensures
        port == 50051,
{
    50051
}

/// The server certificate below the current directory.
pub fn default_tls_cert_path() -> (path: String)
    ensures
        path@ == "certs/server.crt"@,
{
    "certs/server.crt".to_owned()
}

/// The server key below the current directory.
pub fn default_tls_key_path() -> (path: String)
    ensures
        path@ == "certs/server.key"@,
{
    "certs/server.key".to_owned()
}

/// The authority below the current directory.
pub fn default_tls_client_ca_path() -> (path: String)
    ensures
        path@ == "certs/ca.pem"@,
{
    "certs/ca.pem".to_owned()
}

impl Default for BackendConfig {
    fn default() -> (config: Self)
        ensures
            config.admin_api_key@.len() == 0,
            config.invoice_api_key@.len() == 0,
            config.api_url@.len() == 0,
            config.fee_reserve_min_sat == 2,
            config.fee_reserve_percent_bits == 0x3CA3_D70A,
    {
        BackendConfig {
            admin_api_key: String::new(),
            invoice_api_key: String::new(),
            api_url: String::new(),
            fee_reserve_min_sat: default_fee_reserve_min_sat(),
            fee_reserve_percent_bits: default_fee_reserve_percent_bits(),
        }
    }
}

impl Default for Config {
    fn default() -> (config: Self)
        ensures
            config.lnbits.admin_api_key@.len() == 0,
            config.lnbits.invoice_api_key@.len() == 0,
            config.lnbits.api_url@.len() == 0,
            config.lnbits.fee_reserve_min_sat == 2,
            config.lnbits.fee_reserve_percent_bits == 0x3CA3_D70A,
            config.address@ == "127.0.0.1"@,
            config.port == 50051,
            !config.tls_enable,
            !config.allow_insecure,
            config.tls_cert_path@ == "certs/server.crt"@,
            config.tls_key_path@ == "certs/server.key"@,
            config.tls_client_ca_path@ == "certs/ca.pem"@,
    {
        Config {
            lnbits: BackendConfig::default(),
            address: default_address(),
            port: default_port(),
            tls_enable: false,
            allow_insecure: false,
            tls_cert_path: default_tls_cert_path(),
            tls_key_path: default_tls_key_path(),
            tls_client_ca_path: default_tls_client_ca_path(),
        }
    }
}

/// What is wrong with a configuration.
#[derive(Clone, Copy, Debug, PartialEq, Eq, Structural)]
pub enum InvalidSetting {
    /// The key that can spend is missing.
    AdminApiKey,
    /// The key that can create invoices is missing.
    InvoiceApiKey,
    /// The URL is missing.
    ApiUrl,
    /// The share that is reserved for fees is no number, infinite or negative.
    FeeReservePercent,
}

impl InvalidSetting {
    /// What is wrong, in words.
    pub open spec fn words(self) -> Seq<char> {
        match self {
            InvalidSetting::AdminApiKey => "lnbits.admin_api_key is required"@,
            InvalidSetting::InvoiceApiKey => "lnbits.invoice_api_key is required"@,
            InvalidSetting::ApiUrl => "lnbits.api_url is required"@,
            InvalidSetting::FeeReservePercent => {
                "lnbits.fee_reserve_percent must be a finite, non-negative number"@
            },
        }
    }

    /// What is wrong, in words.
    pub fn message(&self) -> (words: String)
        ensures
            words@ == self.words(),
    {
        match self {
            InvalidSetting::AdminApiKey => "lnbits.admin_api_key is required".to_owned(),
            InvalidSetting::InvoiceApiKey => "lnbits.invoice_api_key is required".to_owned(),
            InvalidSetting::ApiUrl => "lnbits.api_url is required".to_owned(),
            InvalidSetting::FeeReservePercent => {
                "lnbits.fee_reserve_percent must be a finite, non-negative number".to_owned()
            },
        }
    }
}

/// Whether the bits of a single-precision number stand for a finite number that
/// is not negative. Negative zero is not negative.
pub open spec fn is_finite_non_negative(bits: u32) -> bool {
    bits < 0x7F80_0000 || bits == 0x8000_0000
}

/// What is wrong with a configuration, where something is.
pub open spec fn config_refusal(config: BackendConfig) -> Option<InvalidSetting> {
    if trimmed(config.admin_api_key@).len() == 0 {
        Some(InvalidSetting::AdminApiKey)
    } else if trimmed(config.invoice_api_key@).len() == 0 {
        Some(InvalidSetting::InvoiceApiKey)
    } else if trimmed(config.api_url@).len() == 0 {
        Some(InvalidSetting::ApiUrl)
    } else if !is_finite_non_negative(config.fee_reserve_percent_bits) {
        Some(InvalidSetting::FeeReservePercent)
    } else {
        None
    }
}

fn chosen<V>(current: Option<V>, former: Option<V>, default: V) -> (value: V)
    ensures
        value == (match (current, former) {
            (Some(value), _) => value,
            (None, Some(value)) => value,
            (None, None) => default,
        }),
{
    match current {
        Some(value) => value,
        None => match former {
            Some(value) => value,
            None => default,
        },
    }
}

impl BackendConfig {
    /// The configuration that is written. A current name takes precedence over
    /// a former one, and what is not written has its default.
    pub fn from_repr(repr: BackendConfigRepr) -> (config: BackendConfig)
        ensures
            config.admin_api_key == repr.admin_api_key,
            config.invoice_api_key == repr.invoice_api_key,
            match (repr.api_url, repr.lnbits_api) {
                (Some(url), _) => config.api_url == url,
                (None, Some(url)) => config.api_url == url,
                (None, None) => config.api_url@.len() == 0,
            },
            config.fee_reserve_min_sat == (match (repr.fee_reserve_min_sat, repr.reserve_fee_min) {
                (Some(sats), _) => sats,
                (None, Some(sats)) => sats,
                (None, None) => 2,
            }),
            config.fee_reserve_percent_bits == (match (
                repr.fee_reserve_percent_bits,
                repr.fee_percent_bits,
            ) {
                (Some(bits), _) => bits,
                (None, Some(bits)) => bits,
                (None, None) => 0x3CA3_D70A,
            }),
    {
        BackendConfig {
            admin_api_key: repr.admin_api_key,
            invoice_api_key: repr.invoice_api_key,
            api_url: chosen(repr.api_url, repr.lnbits_api, String::new()),
            fee_reserve_min_sat: chosen(
                repr.fee_reserve_min_sat,
                repr.reserve_fee_min,
                default_fee_reserve_min_sat(),
            ),
            fee_reserve_percent_bits: chosen(
                repr.fee_reserve_percent_bits,
                repr.fee_percent_bits,
                default_fee_reserve_percent_bits(),
            ),
        }
    }

    /// Whether nothing is configured.
    pub fn is_default(&self) -> (res: bool)
        ensures
            res == {
                &&& self.admin_api_key@.len() == 0
                &&& self.invoice_api_key@.len() == 0
                &&& self.api_url@.len() == 0
                &&& self.fee_reserve_min_sat == 2
                &&& self.fee_reserve_percent_bits == 0x3CA3_D70A
            },
    {
        self.admin_api_key.as_str().is_empty() && self.invoice_api_key.as_str().is_empty()
            && self.api_url.as_str().is_empty() && self.fee_reserve_min_sat
            == default_fee_reserve_min_sat() && self.fee_reserve_percent_bits
            == default_fee_reserve_percent_bits()
    }

    /// Accepts a configuration with both keys, a URL and a sensible share.
    pub fn validate(&self) -> (res: Result<(), InvalidSetting>)
        ensures
            match res {
                Ok(()) => config_refusal(*self) is None,
                Err(error) => config_refusal(*self) == Some(error),
            },
    {
        if trim(self.admin_api_key.as_str()).is_empty() {
            return Err(InvalidSetting::AdminApiKey);
        }
        if trim(self.invoice_api_key.as_str()).is_empty() {
            return Err(InvalidSetting::InvoiceApiKey);
        }
        if trim(self.api_url.as_str()).is_empty() {
            return Err(InvalidSetting::ApiUrl);
        }
        let bits: u32 = self.fee_reserve_percent_bits;
        if bits < 0x7F80_0000 || bits == 0x8000_0000 {
            Ok(())
        } else {
            Err(InvalidSetting::FeeReservePercent)
        }
    }

    /// The configuration as it may be shown: without its keys.
    pub fn redacted(&self) -> (shown: RedactedBackendConfig)
        ensures
            shown.admin_api_key@ == "[REDACTED]"@,
            shown.invoice_api_key@ == "[REDACTED]"@,
            shown.api_url == self.api_url,
            shown.fee_reserve_min_sat == self.fee_reserve_min_sat,
            shown.fee_reserve_percent_bits == self.fee_reserve_percent_bits,
    {
        RedactedBackendConfig {
            admin_api_key: "[REDACTED]".to_owned(),
            invoice_api_key: "[REDACTED]".to_owned(),
            api_url: self.api_url.clone(),
            fee_reserve_min_sat: self.fee_reserve_min_sat,
            fee_reserve_percent_bits: self.fee_reserve_percent_bits,
        }
    }
}

/// A configuration as it may be shown.
#[derive(Debug, PartialEq, Eq)]
pub struct RedactedBackendConfig {
    /// What stands in place of the key that can spend.
    pub admin_api_key: String,
    /// What stands in place of the key that can create invoices.
    pub invoice_api_key: String,
    /// The URL of the instance.
    pub api_url: String,
    /// The least fee reserve of melt quotes, in satoshis.
    pub fee_reserve_min_sat: u64,
    /// The share that is reserved for fees, as the bits of a single-precision
    /// number.
    pub fee_reserve_percent_bits: u32,
}

} // verus!
