use std::cell::RefCell;
use std::rc::Rc;

use wappsto_iot_rs::communication::{decode, handle_inbound, Inbound};
use wappsto_iot_rs::connection::{SendError, WrappedSend};
use wappsto_iot_rs::ids::{id_text, parse_id};
use wappsto_iot_rs::network::{Device, Network, Phase, Value, ValuePermission};
use wappsto_iot_rs::rpc::{RpcData, RpcMethod, RpcRequest, RpcStateData};
use wappsto_iot_rs::schema::{DeviceSchema, Meta, MetaType, Permission, Schema, State, StateType, ValueSchema};

const DEFAULT_ID: &str = "00000000-0000-0000-0000-000000000000";

type Callback = Box<dyn Fn(String)>;

/// Records every message handed to it.
#[derive(Clone, Default)]
struct SendMock {
    sent: Rc<RefCell<Vec<String>>>,
}

impl SendMock {
    fn sent_to_server(&self, term: &str) -> bool {
        self.sent.borrow().iter().any(|m| m.contains(term))
    }
}

impl WrappedSend for SendMock {
    fn send(&mut self, msg: String) -> Result<(), SendError> {
        self.sent.borrow_mut().push(msg);
        Ok(())
    }
}

fn default_id() -> u128 {
    parse_id(DEFAULT_ID).unwrap()
}

fn test_network() -> Network<Callback, SendMock> {
    Network::new("test", default_id())
}

fn control_state_rpc(data: &str, id: u128) -> String {
    RpcRequest::builder()
        .method(RpcMethod::Put)
        .data(RpcData::Data(RpcStateData::new(data, "2021-01-01T00:00:00.000000000Z", Meta::new_with_uuid(id, MetaType::State))))
        .create()
        .to_text()
}

fn flag_callback() -> (Rc<RefCell<bool>>, Callback) {
    let called = Rc::new(RefCell::new(false));
    let seen = Rc::clone(&called);
    (called, Box::new(move |_: String| *seen.borrow_mut() = true))
}

#[test]
fn should_start() {
    let mut network = test_network();
    assert!(network.start(SendMock::default()).is_ok())
}

#[test]
fn should_open_a_connection() {
    let mut network = test_network();
    network.start(SendMock::default()).expect("Failed to start");
    assert!(network.sender().is_some());
    assert_eq!(Phase::Started, network.phase());
}

#[test]
fn should_load_certificates_on_start() {
    let mut network = test_network();
    network.start(SendMock::default()).expect("Failed to start");
    assert_eq!(DEFAULT_ID, &id_text(network.id()))
}

#[test]
fn should_save_schema_to_store_on_stop() {
    let mut network = test_network();
    network.start(SendMock::default()).unwrap();
    let schema = network.stop();
    assert_eq!(default_id(), schema.meta.id);
    assert_eq!(Phase::Stopped, network.phase());
}

#[test]
fn should_load_schema_from_store_on_creation() {
    let mut schema = Schema::new("test", default_id());
    let device = DeviceSchema::new("test_device", 7);
    schema.device.push(device);
    let network: Network<Callback, SendMock> = Network::from_schema("test", default_id(), &schema);
    assert!(!network.devices_is_empty());
    assert!(network.device_named("test_device").is_some())
}

#[test]
fn should_create_new_device() {
    let mut network = test_network();
    network.create_device("test device");
    assert!(network.device_named("test device").is_some())
}

#[test]
fn should_load_existing_device_from_store() {
    let mut schema = Schema::new("test", default_id());
    let device = DeviceSchema::new("test_device", 0x1234);
    let device_id = device.meta.id;
    schema.device.push(device);
    let mut network: Network<Callback, SendMock> = Network::from_schema("test", default_id(), &schema);
    let d = network.create_device("test_device");
    assert_eq!(device_id, network.device(d).id())
}

#[test]
fn should_create_multiple_devices() {
    let mut network = test_network();
    let device_1 = network.create_device("stuff");
    let device_2 = network.create_device("other_stuff");
    assert_ne!(device_1, device_2);
    assert_ne!(network.device(device_1).id(), network.device(device_2).id());
}

#[test]
fn should_publish_itself_on_start() {
    let mut network = test_network();
    let sender = SendMock::default();
    network.start(sender.clone()).unwrap();
    assert!(sender.sent_to_server(&id_text(network.id())))
}

#[test]
fn should_pass_callbacks_to_reader() {
    let (called, callback) = flag_callback();
    let mut network = test_network();
    let d = network.create_device("test_device");
    let v = network.create_value(d, "test_value", ValuePermission::RW(callback));
    let state_id = network.value(d, v).control_id();
    let registry = network.callbacks();
    network.start(SendMock::default()).unwrap();
    let step = handle_inbound(&registry, decode(control_state_rpc("1", state_id).as_bytes()));
    let (d2, v2, data) = step.dispatch.unwrap();
    (network.value(d2, v2).callback().unwrap())(data);
    assert!(*called.borrow())
}

#[test]
fn should_create_new_value() {
    let mut device: Device<Callback> = Device::default();
    device.create_value("test", ValuePermission::R);
    assert!(device.value_named("test").is_some())
}

#[test]
fn should_register_callback_on_writable_values() {
    let (called, callback) = flag_callback();
    let mut device: Device<Callback> = Device::default();
    let v = device.create_value("test_value", ValuePermission::RW(callback));
    (device.value(v).callback().unwrap())(String::new());
    assert!(*called.borrow())
}

#[test]
fn should_report_state_change_to_server() {
    let mut network = test_network();
    let d = network.create_device("test device");
    let v = network.create_value(d, "test value", ValuePermission::R);
    let sender = SendMock::default();
    network.start(sender.clone()).unwrap();
    network.report(d, v, "test report").unwrap();
    assert!(sender.sent_to_server("test report"))
}

#[test]
fn should_reference_value_in_callback() {
    let mut network = test_network();
    let d = network.create_device("test device");
    let v = network.create_value(d, "test value", ValuePermission::RW(Box::new(|_| {})));
    let told = Rc::new(RefCell::new(Vec::<String>::new()));
    let sink = Rc::clone(&told);
    network.on_control(d, v, Box::new(move |data: String| sink.borrow_mut().push(data)));
    let state_id = network.value(d, v).control_id();
    let registry = network.callbacks();
    let sender = SendMock::default();
    network.start(sender.clone()).unwrap();
    let step = handle_inbound(&registry, decode(control_state_rpc("test report", state_id).as_bytes()));
    let (d2, v2, data) = step.dispatch.unwrap();
    (network.value(d2, v2).callback().unwrap())(data);
    for data in told.borrow().iter() {
        network.report(d2, v2, data).unwrap();
    }
    assert!(sender.sent_to_server("test report"))
}

#[test]
fn receiver_test_should_callback_on_control() {
    let (called, callback) = flag_callback();
    let mut schema = Schema::new("test", 1);
    let mut device = DeviceSchema::new("device", 2);
    device.value.push(ValueSchema {
        name: String::from("value"),
        permission: Permission::W,
        state: vec![State::new_with_id(StateType::Control, default_id(), "")],
        meta: Meta::new_with_uuid(3, MetaType::Value),
    });
    schema.device.push(device);
    let mut network: Network<Callback, SendMock> = Network::from_schema("test", 1, &schema);
    network.on_control(0, 0, callback);
    let registry = network.callbacks();
    let step = handle_inbound(&registry, decode(control_state_rpc("1", default_id()).as_bytes()));
    let (d, v, data) = step.dispatch.unwrap();
    (network.value(d, v).callback().unwrap())(data);
    assert!(*called.borrow())
}

#[test]
fn communication_test_should_callback_on_control() {
    let (called, callback) = flag_callback();
    let mut network = test_network();
    let d = network.create_device("device");
    let v = network.create_value(d, "value", ValuePermission::W(callback));
    let registry = network.callbacks();
    let state = network.value(d, v).control_id();
    match decode(control_state_rpc("1", state).as_bytes()) {
        Inbound::Control { data, .. } => {
            let step = handle_inbound(&registry, decode(control_state_rpc(&data, state).as_bytes()));
            let (d2, v2, data) = step.dispatch.unwrap();
            (network.value(d2, v2).callback().unwrap())(data);
        }
        other => panic!("not a control message: {:?}", other),
    }
    assert!(*called.borrow())
}

#[test]
fn network_publishes_new_network_to_wappsto() {
    let mut network = test_network();
    let d = network.create_device("thing");
    network.create_value(d, "value", ValuePermission::RW(Box::new(|_| {})));
    let sender = SendMock::default();
    network.start(sender.clone()).expect("Failed to start network");
    let schema = network.stop();
    assert_eq!(1, schema.device.len());
    assert!(sender.sent_to_server("\"thing\""));
}

#[test]
fn creating_twice_gives_the_same_device_and_value() {
    let mut network = test_network();
    let d1 = network.create_device("n");
    let v1 = network.create_value(d1, "v", ValuePermission::R);
    let d2 = network.create_device("n");
    let v2 = network.create_value(d2, "v", ValuePermission::W(Box::new(|_| {})));
    assert_eq!(d1, d2);
    assert_eq!(v1, v2);
    assert_eq!(1, network.devices_len());
    assert_eq!(network.device(d1).id(), network.device(d2).id());
    assert_eq!(Permission::R, network.value(d1, v1).permission());
}

#[test]
fn permissions_decide_the_states() {
    let mut network = test_network();
    let d = network.create_device("d");
    let r = network.create_value(d, "r", ValuePermission::R);
    let w = network.create_value(d, "w", ValuePermission::W(Box::new(|_| {})));
    let rw = network.create_value(d, "rw", ValuePermission::RW(Box::new(|_| {})));
    let (r, w, rw) = (network.value(d, r), network.value(d, w), network.value(d, rw));
    assert!(r.report_id().is_some() && !r.has_control());
    assert!(w.report_id().is_none() && w.has_control());
    assert!(rw.report_id().is_some() && rw.has_control());
    let mut ids = vec![network.id(), network.device(d).id(), r.id(), w.id(), rw.id(), w.control_id(), rw.control_id()];
    ids.extend([r.report_id(), rw.report_id()].into_iter().flatten());
    let mut unique = ids.clone();
    unique.sort();
    unique.dedup();
    assert_eq!(ids.len(), unique.len());
}

#[test]
fn start_twice_is_refused() {
    let mut network = test_network();
    network.start(SendMock::default()).unwrap();
    assert_eq!(
        Err(wappsto_iot_rs::snapshot::NetworkError::NotIdle),
        network.start(SendMock::default())
    );
}

#[test]
fn new_value_has_the_states_of_its_permission() {
    let v: Value<Callback> = Value::new_with_id("v", ValuePermission::RW(Box::new(|_| {})), 42);
    assert_eq!(42, v.id());
    assert_eq!("v", v.name());
    let report = v.report_id().unwrap();
    assert!(v.has_control());
    assert!(report != 42 && v.control_id() != 42 && report != v.control_id());
    assert!(v.callback().is_some());
    let r: Value<Callback> = Value::new("r", ValuePermission::R);
    assert!(r.report_id().is_some() && !r.has_control() && r.callback().is_none());
}
