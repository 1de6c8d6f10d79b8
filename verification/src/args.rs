//! The service's settings, once the command line has been read.

use vstd::prelude::*;
use vstd::string::*;
use crate::database::{Address, RedisDb};

verus! {

/// A setting that must be given and was not.
#[derive(Debug, Clone, Copy, PartialEq, Eq, Structural)]
pub enum MissingArgument {
    /// The secret that signs updates.
    Hmac,
    /// The store's host.
    Host,
}

/// The settings the service runs with.
#[derive(Debug, Clone)]
pub struct Settings {
    /// The secret that signs updates.
    pub hmac: String,
    /// The store's host, which is also the host the service listens on.
    pub host: String,
    /// The store's port.
    pub port: String,
    /// The store's password.
    pub password: String,
}

/// The store's port where none is given.
pub open spec fn default_port() -> Seq<char> {
    "6379"@
}

/// The text of an optional setting, or `fallback` where it is not given.
pub open spec fn given_or(setting: Option<String>, fallback: Seq<char>) -> Seq<char> {
    match setting {
        Some(text) => text@,
        None => fallback,
    }
}

impl Settings {
    /// Settles the settings from what was given. The secret and the host
    /// must be given, the secret being asked for first; the port falls back
    /// to 6379 and the password to the empty one.
    pub fn resolve(
        hmac: Option<String>,
        host: Option<String>,
        port: Option<String>,
        password: Option<String>,
    ) -> (settled: Result<Settings, MissingArgument>)
        ensures
            match settled {
                Ok(settings) => {
                    &&& hmac == Some(settings.hmac)
                    &&& host == Some(settings.host)
                    &&& settings.port@ == given_or(port, default_port())
                    &&& settings.password@ == given_or(password, Seq::empty())
                },
                Err(MissingArgument::Hmac) => hmac is None,
                Err(MissingArgument::Host) => hmac is Some && host is None,
            },
    {
        let hmac = match hmac {
            Some(hmac) => hmac,
            None => {
                return Err(MissingArgument::Hmac);
            },
        };
        let host = match host {
            Some(host) => host,
            None => {
                return Err(MissingArgument::Host);
            },
        };
        let port = match port {
            Some(port) => port,
            None => String::from_str("6379"),
        };
        let password = match password {
            Some(password) => password,
            None => String::new(),
        };
        Ok(Settings { hmac, host, port, password })
    }

    /// The store these settings point to.
    pub fn store(&self) -> (db: RedisDb)
        ensures
            db@ == (Address { host: self.host@, port: self.port@, password: self.password@ }),
    {
        RedisDb::new(self.host.clone(), self.port.clone(), self.password.clone())
    }

    /// The address the service listens on: the host, at port 5000.
    pub fn listen_address(&self) -> (address: String)
        ensures
            address@ == self.host@ + ":5000"@,
    {
        let mut address = self.host.clone();
        address.append(":5000");
        address
    }
}

} // verus!
