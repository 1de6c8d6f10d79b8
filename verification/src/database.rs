//! The remote store: where it is reached, and what its replies mean.

use vstd::prelude::*;
use vstd::string::*;
use crate::invoice::InvoiceError;

verus! {

/// Where a remote store is reached, as a mathematical value.
pub struct Address {
    pub host: Seq<char>,
    pub port: Seq<char>,
    pub password: Seq<char>,
}

/// The connection string of an address: `redis://:<password>@<host>:<port>`.
pub open spec fn url_of(address: Address) -> Seq<char> {
    "redis://:"@ + address.password + "@"@ + address.host + ":"@ + address.port
}

/// A remote store, known by its address. Each read and each write opens a
/// connection of its own.
#[derive(Clone)]
pub struct RedisDb {
    host: String,
    port: String,
    password: String,
}

impl View for RedisDb {
    type V = Address;

    closed spec fn view(&self) -> Address {
        Address { host: self.host@, port: self.port@, password: self.password@ }
    }
}

/// What came of one operation on the remote store.
#[derive(Debug)]
pub enum StoreReply<T> {
    /// No connection could be opened.
    Unreachable,
    /// The connection was there, and the operation failed.
    Failed,
    /// The operation was carried out, with this result.
    Done(T),
}

impl RedisDb {
    /// A store at `host` and `port`, opened with `password`.
    pub fn new(host: String, port: String, password: String) -> (db: RedisDb)
        ensures
            db@ == (Address { host: host@, port: port@, password: password@ }),
    {
        RedisDb { host, port, password }
    }

    /// The string that a connection to the store is opened with.
    pub fn connection_url(&self) -> (url: String)
        ensures
            url@ == url_of(self@),
    {
        let mut url = String::from_str("redis://:");
        url.append(self.password.as_str());
        url.append("@");
        url.append(self.host.as_str());
        url.append(":");
        url.append(self.port.as_str());
        url
    }

    /// What a read returns, from the store's reply: a failed read means that
    /// the invoice has no status.
    pub fn status_from_reply(reply: StoreReply<String>) -> (status: Result<String, InvoiceError>)
        ensures
            status == match reply {
                StoreReply::Unreachable => Err::<String, InvoiceError>(InvoiceError::DbConnection),
                StoreReply::Failed => Err(InvoiceError::DoesNotExist),
                StoreReply::Done(found) => Ok(found),
            },
    {
        match reply {
            StoreReply::Unreachable => Err(InvoiceError::DbConnection),
            StoreReply::Failed => Err(InvoiceError::DoesNotExist),
            StoreReply::Done(found) => Ok(found),
        }
    }

    /// What a write returns, from the store's reply: a write fails only for
    /// want of the store.
    pub fn written_from_reply(reply: StoreReply<()>) -> (written: Result<(), InvoiceError>)
        ensures
            written == match reply {
                StoreReply::Unreachable => Err::<(), InvoiceError>(InvoiceError::DbConnection),
                StoreReply::Failed => Err(InvoiceError::DbConnection),
                StoreReply::Done(_) => Ok(()),
            },
    {
        match reply {
            StoreReply::Unreachable => Err(InvoiceError::DbConnection),
            StoreReply::Failed => Err(InvoiceError::DbConnection),
            StoreReply::Done(_) => Ok(()),
        }
    }
}

} // verus!
