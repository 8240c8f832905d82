//! The connection to the broker: which server, with which credentials, and
//! the outbound channel that messages are queued on.

use crate::certs::Certs;
use std::sync::mpsc::Sender;
use vstd::prelude::*;

verus! {

#[verifier::external_type_specification]
#[verifier::external_body]
#[verifier::reject_recursive_types(T)]
pub struct ExSender<T>(Sender<T>);

/// The outbound message could not be queued: the writer is gone.
#[derive(Clone, Copy, Debug, PartialEq, Eq, Structural)]
pub struct SendError;

/// Where outbound messages go, in the order they are handed over.
pub trait WrappedSend {
    /// Queues `msg` after those queued before, or refuses it.
    fn send(&mut self, msg: String) -> Result<(), SendError>;
}

/// The sending end of the queue that the writer loop empties.
pub struct SendChannel {
    send: Sender<String>,
}

/// Relies on `std::sync::mpsc::Sender::send`: queues `msg`, failing only
/// when the receiving end has gone.
#[verifier::external_body]
fn queue(send: &Sender<String>, msg: String) -> (r: bool) {
    send.send(msg).is_ok()
}

impl SendChannel {
    pub fn new(send: Sender<String>) -> (r: SendChannel) {
        SendChannel { send }
    }
}

impl WrappedSend for SendChannel {
    fn send(&mut self, msg: String) -> Result<(), SendError> {
        if queue(&self.send, msg) {
            Ok(())
        } else {
            Err(SendError)
        }
    }
}

/// The broker's servers.
#[derive(Clone, Copy, Debug, PartialEq, Eq, Structural)]
pub enum WappstoServers {
    DEV,
    QA,
    STAGING,
    PROD,
}

impl Default for WappstoServers {
    fn default() -> (r: WappstoServers)
        ensures
            r == WappstoServers::PROD,
    {
        WappstoServers::PROD
    }
}

/// The domain all servers live under.
pub const BASE_URL: &'static str = "wappsto.com";

pub open spec fn host_prefix(s: WappstoServers) -> Seq<char> {
    match s {
        WappstoServers::DEV => "dev."@,
        WappstoServers::QA => "qa."@,
        WappstoServers::STAGING => "staging."@,
        WappstoServers::PROD => ""@,
    }
}

pub open spec fn port_suffix(s: WappstoServers) -> Seq<char> {
    match s {
        WappstoServers::DEV => ":52005"@,
        WappstoServers::QA => ":53005"@,
        WappstoServers::STAGING => ":54005"@,
        WappstoServers::PROD => ":443"@,
    }
}

/// The host name of a server, which its certificate is checked against.
pub fn host(server: WappstoServers) -> (r: String)
    ensures
        r@ == host_prefix(server) + BASE_URL@,
{
    let mut out = match server {
        WappstoServers::DEV => "dev.".to_owned(),
        WappstoServers::QA => "qa.".to_owned(),
        WappstoServers::STAGING => "staging.".to_owned(),
        WappstoServers::PROD => "".to_owned(),
    };
    out.append(BASE_URL);
    out
}

/// The address to connect to: host and port.
pub fn address(server: WappstoServers) -> (r: String)
    ensures
        r@ == host_prefix(server) + BASE_URL@ + port_suffix(server),
{
    let mut out = host(server);
    out.append(
        match server {
            WappstoServers::DEV => ":52005",
            WappstoServers::QA => ":53005",
            WappstoServers::STAGING => ":54005",
            WappstoServers::PROD => ":443",
        },
    );
    out
}

/// What is needed to open the connection: the credentials and the server.
pub struct Connection {
    pub certs: Certs,
    pub server: WappstoServers,
}

impl Connection {
    pub fn new(certs: Certs, server: WappstoServers) -> (r: Connection)
        ensures
            r.certs == certs,
            r.server == server,
    {
        Connection { certs, server }
    }
}

} // verus!
