//! The errors that the library itself reports.

use crate::pool::PoolError;
use vstd::prelude::*;
use vstd::string::*;

verus! {

/// Main error type.
#[derive(Debug)]
pub enum Error {
    /// Connection error.
    Connection(String),
    /// Address lookup metadata error.
    AddressLookupMetadata(String),
    /// DHT discovery error.
    DhtDiscovery(String),
    /// Connection pool error.
    Pool(PoolError),
}

/// The text that describes an error.
pub open spec fn error_text(error: Error) -> Seq<char> {
    match error {
        Error::Connection(msg) => "Connection error: "@ + msg@,
        Error::AddressLookupMetadata(msg) => "Address lookup metadata error: "@ + msg@,
        Error::DhtDiscovery(msg) => "DHT discovery error: "@ + msg@,
        Error::Pool(e) => "Pool error: "@ + crate::pool::pool_error_text(e),
    }
}

impl Error {
    /// Create a connection error.
    pub fn connection(msg: String) -> (r: Error)
        ensures
            r == Error::Connection(msg),
    {
        Error::Connection(msg)
    }

    /// Create an address-lookup metadata error.
    pub fn address_lookup_metadata(msg: String) -> (r: Error)
        ensures
            r == Error::AddressLookupMetadata(msg),
    {
        Error::AddressLookupMetadata(msg)
    }

    /// Create a DHT discovery error.
    pub fn dht_discovery(msg: String) -> (r: Error)
        ensures
            r == Error::DhtDiscovery(msg),
    {
        Error::DhtDiscovery(msg)
    }

    /// The text that describes the error.
    pub fn message(&self) -> (r: String)
        ensures
            r@ == error_text(*self),
    {
        let mut text = String::new();
        match self {
            Error::Connection(msg) => {
                text.append("Connection error: ");
                text.append(msg.as_str());
            },
            Error::AddressLookupMetadata(msg) => {
                text.append("Address lookup metadata error: ");
                text.append(msg.as_str());
            },
            Error::DhtDiscovery(msg) => {
                text.append("DHT discovery error: ");
                text.append(msg.as_str());
            },
            Error::Pool(e) => {
                text.append("Pool error: ");
                let inner = e.message();
                text.append(inner.as_str());
            },
        }
        assert(text@ =~= error_text(*self));
        text
    }
}

} // verus!
