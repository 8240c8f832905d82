use std::cell::RefCell;
use std::rc::Rc;

use wappsto_iot_rs::clock::{timestamp_text, Timestamp};
use wappsto_iot_rs::communication::{after_read, after_write, decode, decode_all, handle_inbound, Inbound, IoOutcome, LoopAction, RETRY_DELAY_MS};
use wappsto_iot_rs::connection::{address, host, SendError, WappstoServers, WrappedSend};
use wappsto_iot_rs::create_network::{base_url, RequestBuilder, WappstoServers as RestServers};
use wappsto_iot_rs::fs_store::FsStore;
use wappsto_iot_rs::ids::{fresh_id, id_text, parse_id};
use wappsto_iot_rs::json::quoted;
use wappsto_iot_rs::network::{Network, ValuePermission};
use wappsto_iot_rs::rpc::{RpcData, RpcMethod, RpcRequest, RpcResponse, RpcStateData, RpcType};
use wappsto_iot_rs::schema::{Meta, MetaType};
use wappsto_iot_rs::stream_mock::StreamMock;

type Callback = Box<dyn Fn(String)>;

#[derive(Clone, Default)]
struct Outbox {
    sent: Rc<RefCell<Vec<String>>>,
}

impl WrappedSend for Outbox {
    fn send(&mut self, msg: String) -> Result<(), SendError> {
        self.sent.borrow_mut().push(msg);
        Ok(())
    }
}

fn parse(text: &str) -> serde_json::Value {
    serde_json::from_str(text).unwrap()
}

#[test]
fn report_frame_carries_data_and_state_id() {
    let mut network: Network<Callback, Outbox> = Network::new("test", 1);
    let d = network.create_device("thing");
    let v = network.create_value(d, "value", ValuePermission::R);
    let outbox = Outbox::default();
    network.start(outbox.clone()).unwrap();
    assert_eq!(1, outbox.sent.borrow().len());
    let before = outbox.sent.borrow().len();
    network.report(d, v, "5").unwrap();
    let sent = outbox.sent.borrow();
    assert_eq!(before + 1, sent.len());
    let frame = parse(sent.last().unwrap());
    assert_eq!("5", frame.pointer("/params/data/data").unwrap().as_str().unwrap());
    let report_id = network.value(d, v).report_id().unwrap();
    assert_eq!(id_text(report_id), frame.pointer("/params/data/meta/id").unwrap().as_str().unwrap());
    assert_eq!("PUT", frame.pointer("/method").unwrap().as_str().unwrap());
    assert_eq!("/state", frame.pointer("/params/url").unwrap().as_str().unwrap());
    assert_eq!("2.0", frame.pointer("/jsonrpc").unwrap().as_str().unwrap());
    assert_eq!("state", frame.pointer("/params/data/meta/type").unwrap().as_str().unwrap());
}

#[test]
fn control_message_is_acknowledged_once_under_its_id() {
    let called = Rc::new(RefCell::new(0));
    let seen = Rc::clone(&called);
    let mut network: Network<Callback, Outbox> = Network::new("test", 1);
    let d = network.create_device("thing");
    let v = network.create_value(d, "value", ValuePermission::W(Box::new(move |_| *seen.borrow_mut() += 1)));
    let registry = network.callbacks();
    let state = network.value(d, v).control_id();
    let inbound = RpcRequest::new_with_id(
        RpcMethod::Put,
        RpcType::State,
        RpcData::Data(RpcStateData::new("1", "t", Meta::new_with_uuid(state, MetaType::State))),
        "request-7",
    )
    .to_text();
    let step = handle_inbound(&registry, decode(inbound.as_bytes()));
    let ack = parse(&step.ack.unwrap());
    assert_eq!("request-7", ack.pointer("/id").unwrap().as_str().unwrap());
    assert_eq!(true, ack.pointer("/result/success").unwrap().as_bool().unwrap());
    let (d2, v2, data) = step.dispatch.unwrap();
    assert_eq!((d, v, "1".to_string()), (d2, v2, data.clone()));
    (network.value(d2, v2).callback().unwrap())(data);
    assert_eq!(1, *called.borrow());
    assert!(!step.stop);
}

#[test]
fn unknown_state_stops_the_reader() {
    let network: Network<Callback, Outbox> = Network::new("test", 1);
    let registry = network.callbacks();
    let inbound = RpcRequest::new_with_id(
        RpcMethod::Put,
        RpcType::State,
        RpcData::Data(RpcStateData::new("1", "t", Meta::new_with_uuid(99, MetaType::State))),
        "r",
    )
    .to_text();
    let step = handle_inbound(&registry, decode(inbound.as_bytes()));
    assert!(step.ack.is_some());
    assert!(step.dispatch.is_none());
    assert!(step.stop);
}

#[test]
fn decode_sorts_messages() {
    let response = RpcResponse::new(String::from("abc"), true).to_text();
    assert_eq!(Inbound::Response, decode(response.as_bytes()));
    assert_eq!(Inbound::Unknown, decode(b"{\"hello\":1}"));
    assert_eq!(Inbound::Malformed, decode(b"{not json"));
    let publication = RpcRequest::new_with_id(RpcMethod::Post, RpcType::Network, RpcData::Empty, "x").to_text();
    assert_eq!(Inbound::Request, decode(publication.as_bytes()));
}

#[test]
fn request_text_is_exact() {
    let req = RpcRequest::new_with_id(RpcMethod::Delete, RpcType::Network, RpcData::Empty, "id");
    assert_eq!(
        "{\"jsonrpc\":\"2.0\",\"method\":\"DELETE\",\"id\":\"id\",\"params\":{\"url\":\"/network\",\"data\":null}}",
        req.to_text()
    );
    let resp = RpcResponse::new(String::from("q\""), false);
    assert_eq!("{\"jsonrpc\":\"2.0\",\"id\":\"q\\\"\",\"result\":{\"success\":false}}", resp.to_text());
}

#[test]
fn builder_defaults_to_posting_the_network() {
    let req = RpcRequest::builder().create();
    assert_eq!(RpcMethod::Post, req.method);
    assert_eq!("/network", req.params.url);
    assert!(parse_id(&req.id).is_some());
    let req = RpcRequest::builder().on_type(RpcType::State).method(RpcMethod::Patch).create();
    assert_eq!("/state", req.params.url);
    assert_eq!(RpcMethod::Patch, req.method);
}

#[test]
fn ids_are_written_hyphenated() {
    assert_eq!("00000000-0000-0000-0000-000000000000", id_text(0));
    assert_eq!(
        "01234567-89ab-cdef-0123-456789abcdef",
        id_text(0x0123456789abcdef0123456789abcdef)
    );
    assert_eq!(Some(0x0123456789abcdef0123456789abcdef), parse_id("01234567-89AB-CDEF-0123-456789ABCDEF"));
    assert_eq!(None, parse_id("not a uuid"));
}

#[test]
fn fresh_id_avoids_taken_ones() {
    assert_eq!(5, fresh_id(&vec![1, 2, 3], 5));
    let taken = vec![5, 0, 1, 2];
    let id = fresh_id(&taken, 5);
    assert!(!taken.contains(&id));
}

#[test]
fn strings_are_quoted_and_escaped() {
    assert_eq!("\"a\\\"b\\\\c\\n\"", quoted("a\"b\\c\n"));
    assert_eq!("\"\"", quoted(""));
}

#[test]
fn timestamps_have_nanoseconds_and_zulu() {
    assert_eq!("2021-03-04T05:06:07.000000008Z", timestamp_text(Timestamp { secs: 1614834367, nanos: 8 }));
}

#[test]
fn io_outcomes_decide_the_loops() {
    assert_eq!(LoopAction::Proceed(12), after_read(IoOutcome::Done(12)));
    assert_eq!(LoopAction::Stop, after_read(IoOutcome::Done(0)));
    assert_eq!(LoopAction::RetryAfter(RETRY_DELAY_MS), after_read(IoOutcome::WouldBlock));
    assert_eq!(LoopAction::Stop, after_read(IoOutcome::Failed));
    assert_eq!(LoopAction::Proceed(3), after_write(IoOutcome::Done(3)));
    assert_eq!(LoopAction::RetryAfter(100), after_write(IoOutcome::WouldBlock));
    assert_eq!(LoopAction::Stop, after_write(IoOutcome::Failed));
}

#[test]
fn servers_have_their_addresses() {
    assert_eq!("wappsto.com:443", address(WappstoServers::PROD));
    assert_eq!("dev.wappsto.com:52005", address(WappstoServers::DEV));
    assert_eq!("qa.wappsto.com", host(WappstoServers::QA));
    assert_eq!("staging.wappsto.com:54005", address(WappstoServers::STAGING));
    assert_eq!(WappstoServers::PROD, WappstoServers::default());
}

#[test]
fn creator_request_is_built_from_credentials() {
    let builder = RequestBuilder::new().to_server(RestServers::QA).with_credentials("me", "pw");
    assert_eq!("https://qa.wappsto.com/services/2.0/session", builder.session_url());
    assert_eq!("https://qa.wappsto.com/services/2.1/creator", builder.creator_url());
    assert_eq!("{\"username\":\"me\",\"password\":\"pw\"}", builder.session_body());
    assert_eq!("https://wappsto.com/services/", base_url(RestServers::PROD));
}

#[test]
fn store_paths_follow_directories() {
    let store = FsStore::default();
    assert_eq!("certificates/ca.crt", store.ca_path());
    assert_eq!("certificates/client.crt", store.certificate_path());
    assert_eq!("certificates/client.key", store.key_path());
    assert_eq!("network_instance/00000000-0000-0000-0000-000000000001.json", store.schema_path(1));
    assert_eq!("a/00000000-0000-0000-0000-000000000000.json", FsStore::new("x/", "a/").schema_path(0));
}

#[test]
fn stream_mock_keeps_what_it_got() {
    let mut stream = StreamMock::new();
    stream.receive("ab");
    stream.receive("c");
    stream.write("out");
    assert_eq!("abc", stream.in_buffer);
    assert_eq!("out", stream.out_buffer);
}

#[test]
fn one_read_may_hold_several_messages() {
    let first = RpcResponse::new(String::from("a"), true).to_text();
    let second = RpcRequest::new_with_id(RpcMethod::Put, RpcType::State, RpcData::Empty, "b").to_text();
    let read = format!("{}\n{}\n", first, second);
    assert_eq!(vec![Inbound::Response, Inbound::Request], decode_all(read.as_bytes()));
    assert_eq!(vec![Inbound::Malformed], decode_all(b"{oops"));
    assert_eq!(vec![Inbound::Unknown], decode_all(b"{\"x\":1} {oops"));
}
