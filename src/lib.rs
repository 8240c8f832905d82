//! Client runtime that keeps a local tree of devices and values in step with a
//! remote broker, over a JSON-RPC message protocol.
//!
//! - `network`: the entity model (networks, devices, values) and its
//!   well-formedness; `snapshot`: its schema snapshot, publication, reports
//!   and life cycle; `registry`: where inbound control messages go.
//! - `rpc`, `schema`, `json`: the wire messages and their JSON text.
//! - `communication`: the decisions of the reader and writer loops.
//! - `ids`, `clock`, `certs`: identifiers, time stamps, credentials.
//! - `connection`, `create_network`, `fs_store`, `stream_mock`: servers,
//!   the outbound channel, the REST request, file names, a stream stand-in.

pub mod certs;
pub mod clock;
pub mod communication;
pub mod connection;
pub mod create_network;
pub mod fs_store;
pub mod ids;
pub mod json;
pub mod network;
pub mod registry;
pub mod rpc;
pub mod schema;
pub mod snapshot;
pub mod stream_mock;
