//! The request that creates a network at the broker's REST service and
//! returns its certificates and id.

use crate::json::{json_quoted, quoted};
use vstd::prelude::*;

verus! {

/// No credentials given yet: the request cannot be sent.
#[derive(Clone, Copy, Debug, PartialEq, Eq, Structural)]
pub struct NoCredentials;

/// Credentials given: the request can be sent.
#[derive(Clone, Copy, Debug, PartialEq, Eq, Structural)]
pub struct WithCredentials;

/// Whether a request builder has its credentials.
pub trait Credentials {}

impl Credentials for NoCredentials {}

impl Credentials for WithCredentials {}

/// The REST servers a network can be created at.
#[derive(Clone, Copy, Debug, PartialEq, Eq, Structural)]
pub enum WappstoServers {
    PROD,
    QA,
}

impl Default for WappstoServers {
    fn default() -> (r: WappstoServers)
        ensures
            r == WappstoServers::PROD,
    {
        WappstoServers::PROD
    }
}

/// Builds the request that creates a network; it can be sent only once it
/// has credentials.
#[derive(Debug)]
pub struct RequestBuilder<C: Credentials> {
    pub username: String,
    pub password: String,
    pub server: WappstoServers,
    pub credentials_state: C,
}

impl RequestBuilder<NoCredentials> {
    pub fn new() -> (r: RequestBuilder<NoCredentials>)
        ensures
            r.username@.len() == 0,
            r.password@.len() == 0,
            r.server == WappstoServers::PROD,
    {
        RequestBuilder {
            username: String::new(),
            password: String::new(),
            server: WappstoServers::PROD,
            credentials_state: NoCredentials,
        }
    }
}

impl<C: Credentials> RequestBuilder<C> {
    pub fn with_credentials(self, username: &str, password: &str) -> (r: RequestBuilder<WithCredentials>)
        ensures
            r.username@ == username@,
            r.password@ == password@,
            r.server == self.server,
    {
        RequestBuilder {
            username: username.to_owned(),
            password: password.to_owned(),
            server: self.server,
            credentials_state: WithCredentials,
        }
    }

    pub fn to_server(self, server: WappstoServers) -> (r: RequestBuilder<C>)
        ensures
            r.username == self.username,
            r.password == self.password,
            r.server == server,
    {
        RequestBuilder { server, ..self }
    }
}

pub open spec fn services_url(server: WappstoServers) -> Seq<char> {
    match server {
        WappstoServers::PROD => "https://wappsto.com/services/"@,
        WappstoServers::QA => "https://qa.wappsto.com/services/"@,
    }
}

/// The base url of the REST services of a server.
pub fn base_url(server: WappstoServers) -> (r: String)
    ensures
        r@ == services_url(server),
{
    match server {
        WappstoServers::PROD => "https://wappsto.com/services/".to_owned(),
        WappstoServers::QA => "https://qa.wappsto.com/services/".to_owned(),
    }
}

pub open spec fn session_body_text(username: Seq<char>, password: Seq<char>) -> Seq<char> {
    "{\"username\":"@ + json_quoted(username) + ",\"password\":"@ + json_quoted(password) + "}"@
}

/// The body that opens a session.
pub const CREATOR_BODY: &'static str = "{\"manufacturer_as_owner\":true}";

impl RequestBuilder<WithCredentials> {
    /// Where the session is opened.
    pub fn session_url(&self) -> (r: String)
        ensures
            r@ == services_url(self.server) + "2.0/session"@,
    {
        let mut r = base_url(self.server);
        r.append("2.0/session");
        r
    }

    /// Where the network is created, within the session.
    pub fn creator_url(&self) -> (r: String)
        ensures
            r@ == services_url(self.server) + "2.1/creator"@,
    {
        let mut r = base_url(self.server);
        r.append("2.1/creator");
        r
    }

    /// The JSON body that opens the session.
    pub fn session_body(&self) -> (r: String)
        ensures
            r@ == session_body_text(self.username@, self.password@),
    {
        let mut r = "{\"username\":".to_owned();
        r.append(quoted(self.username.as_str()).as_str());
        r.append(",\"password\":");
        r.append(quoted(self.password.as_str()).as_str());
        r.append("}");
        r
    }
}

/// The network id that the creator answer holds.
#[derive(Clone, Copy, Debug, PartialEq, Eq, Structural)]
pub struct CreatorNetwork {
    pub id: u128,
}

/// What creating a network returns: its credentials and id.
#[derive(Debug)]
pub struct Creator {
    pub ca: String,
    pub certificate: String,
    pub private_key: String,
    pub network: CreatorNetwork,
}

} // verus!
