//! The settings of the service, made from the values that the environment
//! gives, with a default for each one that may be missing.

use vstd::prelude::*;
use vstd::string::*;
use crate::errors::ok_view;
use crate::text::{chars_of, opt_text, parse_i64, parse_u16, signed_value, unsigned_value};

verus! {

/// The port that is used where none is given.
pub const DEFAULT_PORT: u16 = 8001;

/// The lifetime of a token where none is given: seven days, in seconds.
pub const DEFAULT_EXPIRES_IN: i64 = 604_800;

/// The address that is used where none is given.
pub open spec fn default_host() -> Seq<char> {
    "127.0.0.1"@
}

/// The database that is used where none is given.
pub open spec fn default_database_url() -> Seq<char> {
    "sqlite:loginapp.db"@
}

/// The front end that is allowed where none is given.
pub open spec fn default_frontend_url() -> Seq<char> {
    "http://localhost:5173"@
}

/// The settings of the service.
#[derive(Debug, PartialEq, Eq)]
pub struct Config {
    pub host: String,
    pub port: u16,
    pub database_url: String,
    pub jwt_secret: String,
    pub jwt_expires_in: i64,
    pub frontend_url: String,
}

/// The settings, as plain values.
pub struct ConfigView {
    pub host: Seq<char>,
    pub port: u16,
    pub database_url: Seq<char>,
    pub jwt_secret: Seq<char>,
    pub jwt_expires_in: i64,
    pub frontend_url: Seq<char>,
}

impl View for Config {
    type V = ConfigView;

    open spec fn view(&self) -> ConfigView {
        ConfigView {
            host: self.host@,
            port: self.port,
            database_url: self.database_url@,
            jwt_secret: self.jwt_secret@,
            jwt_expires_in: self.jwt_expires_in,
            frontend_url: self.frontend_url@,
        }
    }
}

impl Clone for Config {
    fn clone(&self) -> (r: Self)
        ensures
            r == *self,
    {
        Config {
            host: self.host.clone(),
            port: self.port,
            database_url: self.database_url.clone(),
            jwt_secret: self.jwt_secret.clone(),
            jwt_expires_in: self.jwt_expires_in,
            frontend_url: self.frontend_url.clone(),
        }
    }
}

/// Why no settings could be made.
#[derive(Clone, Copy, Debug, PartialEq, Eq, Structural)]
pub enum ConfigError {
    /// The port is not a number from 0 to 65535.
    InvalidPort,
    /// No secret is given.
    MissingSecret,
    /// The lifetime of a token is not a number of seconds that fits.
    InvalidExpiry,
}

/// The value, or the default where it is missing.
pub open spec fn or_default(value: Option<Seq<char>>, default: Seq<char>) -> Seq<char> {
    match value {
        Some(s) => s,
        None => default,
    }
}

/// The port that a value states: the default where it is missing, nothing
/// where it is no number that fits.
pub open spec fn port_of(value: Option<Seq<char>>) -> Option<u16> {
    match value {
        Some(s) => match unsigned_value(s) {
            Some(v) => if v <= u16::MAX {
                Some(v as u16)
            } else {
                None
            },
            None => None,
        },
        None => Some(DEFAULT_PORT),
    }
}

/// The lifetime that a value states: the default where it is missing, nothing
/// where it is no number that fits.
pub open spec fn expiry_of(value: Option<Seq<char>>) -> Option<i64> {
    match value {
        Some(s) => match signed_value(s) {
            Some(v) => if i64::MIN <= v <= i64::MAX {
                Some(v as i64)
            } else {
                None
            },
            None => None,
        },
        None => Some(DEFAULT_EXPIRES_IN),
    }
}

/// The settings that the six values give. The port is looked at first, then
/// the secret, then the lifetime: the first that is wrong is reported.
pub open spec fn spec_from_values(
    host: Option<Seq<char>>,
    port: Option<Seq<char>>,
    database_url: Option<Seq<char>>,
    jwt_secret: Option<Seq<char>>,
    jwt_expires_in: Option<Seq<char>>,
    frontend_url: Option<Seq<char>>,
) -> Result<ConfigView, ConfigError> {
    if port_of(port) is None {
        Err(ConfigError::InvalidPort)
    } else if jwt_secret is None {
        Err(ConfigError::MissingSecret)
    } else if expiry_of(jwt_expires_in) is None {
        Err(ConfigError::InvalidExpiry)
    } else {
        Ok(
            ConfigView {
                host: or_default(host, default_host()),
                port: port_of(port)->Some_0,
                database_url: or_default(database_url, default_database_url()),
                jwt_secret: jwt_secret->Some_0,
                jwt_expires_in: expiry_of(jwt_expires_in)->Some_0,
                frontend_url: or_default(frontend_url, default_frontend_url()),
            },
        )
    }
}

/// The value, or the default where it is missing.
pub fn value_or(value: Option<String>, default: &str) -> (r: String)
    ensures
        r@ == or_default(opt_text(value), default@),
{
    match value {
        Some(s) => s,
        None => default.to_owned(),
    }
}

impl Config {
    /// Makes the settings from the values of `HOST`, `PORT`, `DATABASE_URL`,
    /// `JWT_SECRET`, `JWT_EXPIRES_IN` and `FRONTEND_URL`, each `None` where
    /// the variable is not set.
    pub fn from_values(
        host: Option<String>,
        port: Option<String>,
        database_url: Option<String>,
        jwt_secret: Option<String>,
        jwt_expires_in: Option<String>,
        frontend_url: Option<String>,
    ) -> (r: Result<Config, ConfigError>)
        ensures
            ok_view(r) == spec_from_values(
                opt_text(host),
                opt_text(port),
                opt_text(database_url),
                opt_text(jwt_secret),
                opt_text(jwt_expires_in),
                opt_text(frontend_url),
            ),
    {
        let port_number: u16 = match &port {
            Some(text) => match parse_u16(&chars_of(text.as_str())) {
                Some(p) => p,
                None => {
                    return Err(ConfigError::InvalidPort);
                },
            },
            None => DEFAULT_PORT,
        };
        let secret: String = match jwt_secret {
            Some(s) => s,
            None => {
                return Err(ConfigError::MissingSecret);
            },
        };
        let expires_in: i64 = match &jwt_expires_in {
            Some(text) => match parse_i64(&chars_of(text.as_str())) {
                Some(n) => n,
                None => {
                    return Err(ConfigError::InvalidExpiry);
                },
            },
            None => DEFAULT_EXPIRES_IN,
        };
        Ok(
            Config {
                host: value_or(host, "127.0.0.1"),
                port: port_number,
                database_url: value_or(database_url, "sqlite:loginapp.db"),
                jwt_secret: secret,
                jwt_expires_in: expires_in,
                frontend_url: value_or(frontend_url, "http://localhost:5173"),
            },
        )
    }
}

} // verus!
