use vstd::prelude::*;

use crate::numbers::{parse_u32, parse_u32_spec};

verus! {

/// Process-wide configuration, constructed once at startup from values the
/// surrounding process supplies and passed into the components that need
/// it: the auth gate takes the credential, the persistence gateway the
/// connection parameters, the crash reporter its endpoint.
pub struct Config {
    pub api_key: String,
    pub postgres_user: String,
    pub postgres_password: String,
    pub postgres_host: String,
    pub postgres_port: u32,
    pub postgres_db: String,
    pub sentry_dsn: String,
}

impl Config {
    /// Builds the configuration from the textual values the surrounding
    /// process reads in. The port must be an unsigned decimal 32-bit
    /// number, with one optional leading plus; anything else yields
    /// nothing.
    pub fn load(
        api_key: String,
        postgres_user: String,
        postgres_password: String,
        postgres_host: String,
        postgres_port: String,
        postgres_db: String,
        sentry_dsn: String,
    ) -> (r: Option<Config>)
        ensures
            parse_u32_spec(postgres_port@) matches Some(p) ==> (r matches Some(c) && c.api_key@
                == api_key@ && c.postgres_user@ == postgres_user@ && c.postgres_password@
                == postgres_password@ && c.postgres_host@ == postgres_host@ && c.postgres_port == p
                && c.postgres_db@ == postgres_db@ && c.sentry_dsn@ == sentry_dsn@),
            parse_u32_spec(postgres_port@) is None ==> r is None,
    {
        match parse_u32(postgres_port.as_str()) {
            Some(port) => Some(
                Config {
                    api_key,
                    postgres_user,
                    postgres_password,
                    postgres_host,
                    postgres_port: port,
                    postgres_db,
                    sentry_dsn,
                },
            ),
            None => None,
        }
    }
}

} // verus!
