//! Configuration values the core reads.
use vstd::prelude::*;

verus! {

/// Web server settings.
#[derive(Debug)]
pub struct WebConfig {
    /// Listening address.
    pub addr: String,
    pub secret_key: String,
}

/// Keyed store settings.
#[derive(Debug)]
pub struct RedisConfig {
    pub dsn: String,
}

/// Session settings.
#[derive(Debug)]
pub struct SessionConfig {
    /// Prefix of session keys in the keyed store.
    pub prefix: String,
    /// Name of the session cookie.
    pub id_name: String,
    /// Session lifetime in seconds.
    pub expired: usize,
}

/// hCaptcha keys.
#[derive(Debug)]
pub struct HCaptchaConfig {
    pub site_key: String,
    pub secret_key: String,
}

/// reCAPTCHA keys.
#[derive(Debug)]
pub struct ReCaptchaConfig {
    pub site_key: String,
    pub secret_key: String,
}

} // verus!
