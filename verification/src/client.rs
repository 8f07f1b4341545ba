//! The data exchanged with the incident-management service.
//!
//! The HTTP calls themselves — three REST endpoints, paged listing, and
//! the override submission — are plain I/O and live with the surrounding
//! command-line tool; this module holds the values they carry and what the
//! requests are built from.

use vstd::prelude::*;
use vstd::string::StringExecFns;

verus! {

/// A user of the service's directory: the id the service knows and the
/// display email.
#[derive(Debug, PartialEq, Eq)]
pub struct User {
    pub id: String,
    pub email: String,
}

/// One page of the paged user listing.
pub struct UserResponse {
    pub users: Vec<User>,
    pub more: bool,
    pub limit: i32,
    pub offset: i32,
    pub total: u64,
}

/// An on-call schedule: the id the service knows and the display name.
#[derive(Debug, PartialEq, Eq)]
pub struct Schedule {
    pub id: String,
    pub name: String,
}

/// One page of the paged schedule listing.
pub struct SchedulesResponse {
    pub schedules: Vec<Schedule>,
    pub more: bool,
    pub limit: i32,
    pub offset: i32,
    pub total: u64,
}

/// The service client: holds the API key that authorizes every request.
pub struct Client {
    api_key: String,
}

impl Client {
    /// The key this client authorizes its requests with.
    pub closed spec fn spec_api_key(&self) -> Seq<char> {
        self.api_key@
    }

    /// A client from an already-looked-up API key; the credential lookup
    /// itself (secret store, prompt) is the surrounding tool's business.
    pub fn new(api_key: String) -> (c: Client)
        ensures
            c.spec_api_key() == api_key@,
    {
        Client { api_key }
    }

    /// The value of the `Authorization` header sent with every request:
    /// the fixed token prefix followed by the API key.
    pub fn auth_header_value(&self) -> (v: String)
        ensures
            v@ == "Token token="@ + self.spec_api_key(),
    {
        let mut v: String = "Token token=".to_owned();
        v.append(self.api_key.as_str());
        v
    }
}

} // verus!
