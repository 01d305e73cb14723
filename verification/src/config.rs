//! Plain configuration records for the service around the generator.
//!
//! Loading them from a file or the environment is I/O and lives outside the
//! library; `init` assembles the loaded plain values into one record.

use vstd::prelude::*;

verus! {

/// Credentials for the payment processor.
pub struct StripeConfig {
    pub secret_key: String,
    pub webhook_secret: String,
}

/// Where outgoing chat notifications are sent.
pub struct WebhookConfig {
    pub url: String,
}

/// The whole service configuration.
pub struct Config {
    pub stripe: StripeConfig,
    pub webhook: WebhookConfig,
}

/// Assembles a configuration from its already-loaded parts.
pub fn init(stripe: StripeConfig, webhook: WebhookConfig) -> (c: Config)
    ensures
        c.stripe == stripe,
        c.webhook == webhook,
{
    Config { stripe, webhook }
}

} // verus!
