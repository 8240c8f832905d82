use std::cell::RefCell;
use std::rc::Rc;

use wappsto_iot_rs::communication::{decode, handle_inbound};
use wappsto_iot_rs::connection::{SendError, WrappedSend};
use wappsto_iot_rs::network::{Network, ValuePermission};
use wappsto_iot_rs::rpc::{RpcData, RpcMethod, RpcRequest, RpcStateData};
use wappsto_iot_rs::schema::{DeviceSchema, Meta, MetaType, Permission, Schema, ValueSchema};

type Callback = Rc<dyn Fn(String)>;

#[derive(Clone, Default)]
struct Outbox {
    sent: Rc<RefCell<Vec<String>>>,
}

impl WrappedSend for Outbox {
    fn send(&mut self, msg: String) -> Result<(), SendError> {
        self.sent.borrow_mut().push(msg);
        Ok(())
    }
}

#[test]
fn can_build_an_empty_network_schema() {
    let schema = Schema::new("", 5);
    assert!(schema.device.is_empty())
}

#[test]
fn can_name_the_network() {
    let schema = Schema::new("test", 5);
    assert_eq!("test", schema.name)
}

#[test]
fn can_add_device_to_network() {
    let mut schema = Schema::new("", 5);
    schema.device.push(DeviceSchema::new("", 6));
    assert!(!schema.device.is_empty())
}

#[test]
fn can_build_an_empty_device() {
    let device = DeviceSchema::new("", 6);
    assert!(device.value.is_empty())
}

#[test]
fn can_name_the_device() {
    let device = DeviceSchema::new("test", 6);
    assert_eq!("test", device.name)
}

#[test]
fn can_add_a_value_to_the_device() {
    let mut device = DeviceSchema::new("", 6);
    device.value.push(ValueSchema::default());
    assert!(!device.value.is_empty())
}

#[test]
fn value_schema_state_ids_are_apart() {
    let v = ValueSchema::new_with_id("a", Permission::RW, 77);
    assert_eq!("2.0", v.meta.version);
    assert_eq!(77, v.meta.id);
    let (a, b) = (v.state[0].meta.id, v.state[1].meta.id);
    assert!(a != b && a != 77 && b != 77);
    assert_eq!(v.state[0].timestamp, v.state[1].timestamp);
    assert_eq!("2.0", v.state[1].meta.version);
}

#[test]
fn value_schema_states_follow_permission() {
    assert_eq!(1, ValueSchema::new("a", Permission::R).state.len());
    assert_eq!(1, ValueSchema::new("a", Permission::W).state.len());
    assert_eq!(2, ValueSchema::new("a", Permission::RW).state.len());
    let v = ValueSchema::default();
    assert_eq!("State", v.name);
    assert_eq!(MetaType::Value, v.meta.meta_type);
}

#[test]
fn saves_network_schema_to_data_store() {
    let mut network: Network<Callback, Outbox> = Network::new("test", 9);
    let d = network.create_device("button");
    network.create_value(d, "State", ValuePermission::R);
    let text = network.stop().to_text();
    let doc: serde_json::Value = serde_json::from_str(&text).unwrap();
    assert_eq!("test", doc.pointer("/name").unwrap().as_str().unwrap());
    assert_eq!("button", doc.pointer("/device/0/name").unwrap().as_str().unwrap());
    assert_eq!("r", doc.pointer("/device/0/value/0/permission").unwrap().as_str().unwrap());
    assert_eq!("Report", doc.pointer("/device/0/value/0/state/0/type").unwrap().as_str().unwrap());
    assert_eq!(0.0, doc.pointer("/device/0/value/0/number/min").unwrap().as_f64().unwrap());
    assert_eq!("network", doc.pointer("/meta/type").unwrap().as_str().unwrap());
    assert_eq!("00000000-0000-0000-0000-000000000009", doc.pointer("/meta/id").unwrap().as_str().unwrap());
}

#[test]
fn reloaded_network_keeps_names_and_ids() {
    let mut network: Network<Callback, Outbox> = Network::new("test", 9);
    for dn in ["a", "b", "c"] {
        let d = network.create_device(dn);
        network.create_value(d, "r", ValuePermission::R);
        network.create_value(d, "w", ValuePermission::W(Rc::new(|_| {})));
        network.create_value(d, "rw", ValuePermission::RW(Rc::new(|_| {})));
    }
    let schema = network.to_schema("now");
    let again: Network<Callback, Outbox> = Network::from_schema("test", 9, &schema);
    assert_eq!(network.devices_len(), again.devices_len());
    for d in 0..network.devices_len() {
        let (a, b) = (network.device(d), again.device(d));
        assert_eq!((a.name(), a.id()), (b.name(), b.id()));
        assert_eq!(a.values_len(), b.values_len());
        for v in 0..a.values_len() {
            let (x, y) = (a.value(v), b.value(v));
            assert_eq!((x.name(), x.id(), x.permission()), (y.name(), y.id(), y.permission()));
            assert_eq!((x.report_id(), x.has_control()), (y.report_id(), y.has_control()));
            if x.has_control() {
                assert_eq!(x.control_id(), y.control_id());
            }
            assert!(y.callback().is_none());
        }
    }
}

#[test]
fn colliding_saved_ids_are_replaced() {
    let mut schema = Schema::new("test", 1);
    schema.device.push(DeviceSchema::new("a", 1));
    schema.device.push(DeviceSchema::new("b", 2));
    schema.device.push(DeviceSchema::new("b", 3));
    let network: Network<Callback, Outbox> = Network::from_schema("test", 1, &schema);
    assert_eq!(2, network.devices_len());
    assert_ne!(1, network.device(0).id());
    assert_eq!(2, network.device(1).id());
}

#[test]
fn value_that_reports_what_it_is_told() {
    let mut network: Network<Callback, Outbox> = Network::new("test", 1);
    let d = network.create_device("thing");
    let told = Rc::new(RefCell::new(Vec::<String>::new()));
    let sink = Rc::clone(&told);
    let v = network.create_value(
        d,
        "value",
        ValuePermission::RW(Rc::new(move |data: String| sink.borrow_mut().push(data))),
    );
    let state = network.value(d, v).control_id();
    let registry = network.callbacks();
    let outbox = Outbox::default();
    network.start(outbox.clone()).unwrap();
    let inbound = RpcRequest::builder()
        .method(RpcMethod::Put)
        .data(RpcData::Data(RpcStateData::new("1", "t", Meta::new_with_uuid(state, MetaType::State))))
        .create()
        .to_text();
    let step = handle_inbound(&registry, decode(inbound.as_bytes()));
    let (d2, v2, data) = step.dispatch.unwrap();
    let callback = Rc::clone(network.value(d2, v2).callback().unwrap());
    callback(data);
    for data in told.borrow().iter() {
        network.report(d2, v2, data).unwrap();
    }
    let last: serde_json::Value = serde_json::from_str(outbox.sent.borrow().last().unwrap()).unwrap();
    assert_eq!("1", last.pointer("/params/data/data").unwrap().as_str().unwrap());
}
