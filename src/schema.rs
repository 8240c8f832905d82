//! The schema document: the serialisable snapshot of a network's devices and
//! values, and its JSON text.

use crate::clock::{now, timestamp_text, timestamp_text_of, Timestamp};
use crate::ids::{fresh_id, id_text, new_id, uuid_text};
use crate::json::{comma_list, json_quoted, lemma_comma_list_push, push_list_item, quoted};
use vstd::prelude::*;

verus! {

/// What a `meta` block describes.
#[derive(Clone, Copy, Debug, PartialEq, Eq, Structural)]
pub enum MetaType {
    Network,
    Device,
    Value,
    State,
}

/// The two kinds of state a value can have.
#[derive(Clone, Copy, Debug, PartialEq, Eq, Structural)]
pub enum StateType {
    Report,
    Control,
}

/// Access to a value as the broker sees it.
#[derive(Clone, Copy, Debug, PartialEq, Eq, Structural)]
pub enum Permission {
    R,
    W,
    RW,
}

/// Identity and kind of an entity in the schema.
#[derive(Debug)]
pub struct Meta {
    pub id: u128,
    pub meta_type: MetaType,
    pub version: String,
}

/// A report or control state of a value.
#[derive(Debug)]
pub struct State {
    pub data: String,
    pub state_type: StateType,
    pub timestamp: String,
    pub meta: Meta,
}

/// A value with its states. Its number range is always the default one,
/// from 0 to 1 in steps of 1 with no unit.
#[derive(Debug)]
pub struct ValueSchema {
    pub name: String,
    pub permission: Permission,
    pub state: Vec<State>,
    pub meta: Meta,
}

/// A device with its values.
#[derive(Debug)]
pub struct DeviceSchema {
    pub name: String,
    pub value: Vec<ValueSchema>,
    pub meta: Meta,
}

/// A network with its devices.
#[derive(Debug)]
pub struct Schema {
    pub name: String,
    pub meta: Meta,
    pub device: Vec<DeviceSchema>,
}

/// The schema version that every `meta` block carries.
pub const SCHEMA_VERSION: &'static str = "2.0";

impl Meta {
    pub fn new_with_uuid(id: u128, meta_type: MetaType) -> (r: Meta)
        ensures
            r.id == id,
            r.meta_type == meta_type,
            r.version@ == SCHEMA_VERSION@,
    {
        Meta { id, meta_type, version: SCHEMA_VERSION.to_owned() }
    }

    /// A `meta` block with a fresh random id.
    pub fn new(meta_type: MetaType) -> (r: Meta)
        ensures
            r.meta_type == meta_type,
            r.version@ == SCHEMA_VERSION@,
    {
        Meta::new_with_uuid(new_id(), meta_type)
    }
}

impl State {
    /// A state with empty data, stamped with the text `timestamp`.
    pub fn new_with_id(state_type: StateType, id: u128, timestamp: &str) -> (r: State)
        ensures
            r.data@ == Seq::<char>::empty(),
            r.state_type == state_type,
            r.timestamp@ == timestamp@,
            r.meta.id == id,
            r.meta.meta_type == MetaType::State,
            r.meta.version@ == SCHEMA_VERSION@,
    {
        State {
            data: String::new(),
            state_type,
            timestamp: timestamp.to_owned(),
            meta: Meta::new_with_uuid(id, MetaType::State),
        }
    }

    /// A state with a fresh random id, stamped with the current time.
    pub fn new(state_type: StateType) -> (r: State)
        ensures
            r.data@ == Seq::<char>::empty(),
            r.state_type == state_type,
            r.meta.meta_type == MetaType::State,
            r.meta.version@ == SCHEMA_VERSION@,
            exists|t: Timestamp| r.timestamp@ == timestamp_text_of(t),
    {
        let t = now();
        let stamp = timestamp_text(t);
        State::new_with_id(state_type, new_id(), stamp.as_str())
    }
}

/// The state types that a value with permission `p` has, report first.
pub open spec fn state_types_of(p: Permission) -> Seq<StateType> {
    match p {
        Permission::R => seq![StateType::Report],
        Permission::W => seq![StateType::Control],
        Permission::RW => seq![StateType::Report, StateType::Control],
    }
}

impl ValueSchema {
    /// A value schema whose states follow `permission`: a report state for
    /// read access, a control state for write access. The states get fresh
    /// ids, apart from each other and from `id`, and the current time.
    pub fn new_with_id(name: &str, permission: Permission, id: u128) -> (r: ValueSchema)
        ensures
            r.name@ == name@,
            r.permission == permission,
            r.meta.id == id,
            r.meta.meta_type == MetaType::Value,
            r.meta.version@ == SCHEMA_VERSION@,
            r.state@.len() == state_types_of(permission).len(),
            forall|i: int|
                0 <= i < r.state@.len() ==> {
                    &&& (#[trigger] r.state@[i]).state_type == state_types_of(permission)[i]
                    &&& r.state@[i].meta.meta_type == MetaType::State
                    &&& r.state@[i].meta.version@ == SCHEMA_VERSION@
                    &&& r.state@[i].meta.id != id
                    &&& r.state@[i].data@.len() == 0
                },
            forall|i: int, j: int|
                0 <= i < r.state@.len() && 0 <= j < r.state@.len() && i != j
                    ==> (#[trigger] r.state@[i]).meta.id != (#[trigger] r.state@[j]).meta.id,
            exists|t: Timestamp|
                #![trigger timestamp_text_of(t)]
                forall|i: int| 0 <= i < r.state@.len() ==> (#[trigger] r.state@[i]).timestamp@
                    == timestamp_text_of(t),
    {
        let t = now();
        let stamp = timestamp_text(t);
        let mut taken: Vec<u128> = Vec::new();
        taken.push(id);
        let first = fresh_id(&taken, new_id());
        taken.push(first);
        let second = fresh_id(&taken, new_id());
        proof {
            assert(taken@[0] == id);
            assert(taken@[1] == first);
        }
        let mut state: Vec<State> = Vec::new();
        match permission {
            Permission::R => {
                state.push(State::new_with_id(StateType::Report, first, stamp.as_str()));
            },
            Permission::W => {
                state.push(State::new_with_id(StateType::Control, first, stamp.as_str()));
            },
            Permission::RW => {
                state.push(State::new_with_id(StateType::Report, first, stamp.as_str()));
                state.push(State::new_with_id(StateType::Control, second, stamp.as_str()));
            },
        }
        ValueSchema {
            name: name.to_owned(),
            permission,
            state,
            meta: Meta::new_with_uuid(id, MetaType::Value),
        }
    }

    /// As `new_with_id`, with a fresh random id.
    pub fn new(name: &str, permission: Permission) -> (r: ValueSchema)
        ensures
            r.name@ == name@,
            r.permission == permission,
            r.meta.meta_type == MetaType::Value,
            r.state@.len() == state_types_of(permission).len(),
    {
        ValueSchema::new_with_id(name, permission, new_id())
    }
}

impl Default for ValueSchema {
    fn default() -> (r: ValueSchema)
        ensures
            r.name@ == "State"@,
            r.permission == Permission::R,
    {
        ValueSchema::new("State", Permission::R)
    }
}

impl DeviceSchema {
    pub fn new(name: &str, id: u128) -> (r: DeviceSchema)
        ensures
            r.name@ == name@,
            r.value@.len() == 0,
            r.meta.id == id,
            r.meta.meta_type == MetaType::Device,
            r.meta.version@ == SCHEMA_VERSION@,
    {
        DeviceSchema { name: name.to_owned(), value: Vec::new(), meta: Meta::new_with_uuid(id, MetaType::Device) }
    }
}

impl Schema {
    pub fn new(name: &str, id: u128) -> (r: Schema)
        ensures
            r.name@ == name@,
            r.device@.len() == 0,
            r.meta.id == id,
            r.meta.meta_type == MetaType::Network,
            r.meta.version@ == SCHEMA_VERSION@,
    {
        Schema { name: name.to_owned(), meta: Meta::new_with_uuid(id, MetaType::Network), device: Vec::new() }
    }
}

// ---------------------------------------------------------------------------
// JSON text

pub open spec fn meta_type_name(t: MetaType) -> Seq<char> {
    match t {
        MetaType::Network => "network"@,
        MetaType::Device => "device"@,
        MetaType::Value => "value"@,
        MetaType::State => "state"@,
    }
}

pub open spec fn state_type_name(t: StateType) -> Seq<char> {
    match t {
        StateType::Report => "Report"@,
        StateType::Control => "Control"@,
    }
}

pub open spec fn permission_name(p: Permission) -> Seq<char> {
    match p {
        Permission::R => "r"@,
        Permission::W => "w"@,
        Permission::RW => "rw"@,
    }
}

/// The default number range of a value, as JSON.
pub const NUMBER_TEXT: &'static str = "{\"min\":0.0,\"max\":1.0,\"step\":1.0,\"unit\":\"\"}";

pub open spec fn meta_text(m: Meta) -> Seq<char> {
    "{\"id\":\""@ + uuid_text(m.id) + "\",\"type\":\""@ + meta_type_name(m.meta_type)
        + "\",\"version\":"@ + json_quoted(m.version@) + "}"@
}

pub open spec fn state_text(s: State) -> Seq<char> {
    "{\"data\":"@ + json_quoted(s.data@) + ",\"type\":\""@ + state_type_name(s.state_type)
        + "\",\"timestamp\":"@ + json_quoted(s.timestamp@) + ",\"meta\":"@ + meta_text(s.meta)
        + "}"@
}

pub open spec fn value_schema_text(v: ValueSchema) -> Seq<char> {
    "{\"name\":"@ + json_quoted(v.name@) + ",\"permission\":\""@ + permission_name(v.permission)
        + "\",\"number\":"@ + NUMBER_TEXT@ + ",\"state\":["@ + comma_list(
        v.state@.map_values(|s: State| state_text(s)),
    ) + "],\"meta\":"@ + meta_text(v.meta) + "}"@
}

pub open spec fn device_schema_text(d: DeviceSchema) -> Seq<char> {
    "{\"name\":"@ + json_quoted(d.name@) + ",\"value\":["@ + comma_list(
        d.value@.map_values(|v: ValueSchema| value_schema_text(v)),
    ) + "],\"meta\":"@ + meta_text(d.meta) + "}"@
}

pub open spec fn schema_text(s: Schema) -> Seq<char> {
    "{\"name\":"@ + json_quoted(s.name@) + ",\"meta\":"@ + meta_text(s.meta) + ",\"device\":["@
        + comma_list(s.device@.map_values(|d: DeviceSchema| device_schema_text(d))) + "]}"@
}

impl Meta {
    pub fn to_text(&self) -> (r: String)
        ensures
            r@ == meta_text(*self),
    {
        let mut out = "{\"id\":\"".to_owned();
        out.append(id_text(self.id).as_str());
        out.append("\",\"type\":\"");
        out.append(
            match self.meta_type {
                MetaType::Network => "network",
                MetaType::Device => "device",
                MetaType::Value => "value",
                MetaType::State => "state",
            },
        );
        out.append("\",\"version\":");
        out.append(quoted(self.version.as_str()).as_str());
        out.append("}");
        out
    }
}

impl State {
    pub fn to_text(&self) -> (r: String)
        ensures
            r@ == state_text(*self),
    {
        let mut out = "{\"data\":".to_owned();
        out.append(quoted(self.data.as_str()).as_str());
        out.append(",\"type\":\"");
        out.append(
            match self.state_type {
                StateType::Report => "Report",
                StateType::Control => "Control",
            },
        );
        out.append("\",\"timestamp\":");
        out.append(quoted(self.timestamp.as_str()).as_str());
        out.append(",\"meta\":");
        out.append(self.meta.to_text().as_str());
        out.append("}");
        out
    }
}

impl ValueSchema {
    pub fn to_text(&self) -> (r: String)
        ensures
            r@ == value_schema_text(*self),
    {
        let mut out = "{\"name\":".to_owned();
        out.append(quoted(self.name.as_str()).as_str());
        out.append(",\"permission\":\"");
        out.append(
            match self.permission {
                Permission::R => "r",
                Permission::W => "w",
                Permission::RW => "rw",
            },
        );
        out.append("\",\"number\":");
        out.append(NUMBER_TEXT);
        out.append(",\"state\":[");
        let ghost start = out@;
        let mut i: usize = 0;
        while i < self.state.len()
            invariant
                i <= self.state@.len(),
                out@ == start + comma_list(
                    self.state@.take(i as int).map_values(|s: State| state_text(s)),
                ),
            decreases self.state@.len() - i,
        {
            let item = self.state[i].to_text();
            proof {
                let f = |s: State| state_text(s);
                assert(self.state@.take(i + 1).map_values(f) =~= self.state@.take(i as int).map_values(f).push(f(self.state@[i as int])));
                lemma_comma_list_push(self.state@.take(i as int).map_values(f), f(self.state@[i as int]));
            }
            push_list_item(&mut out, i, item.as_str());
            i += 1;
        }
        proof {
            assert(self.state@.take(i as int) =~= self.state@);
        }
        out.append("],\"meta\":");
        out.append(self.meta.to_text().as_str());
        out.append("}");
        out
    }
}

impl DeviceSchema {
    pub fn to_text(&self) -> (r: String)
        ensures
            r@ == device_schema_text(*self),
    {
        let mut out = "{\"name\":".to_owned();
        out.append(quoted(self.name.as_str()).as_str());
        out.append(",\"value\":[");
        let ghost start = out@;
        let mut i: usize = 0;
        while i < self.value.len()
            invariant
                i <= self.value@.len(),
                out@ == start + comma_list(
                    self.value@.take(i as int).map_values(|v: ValueSchema| value_schema_text(v)),
                ),
            decreases self.value@.len() - i,
        {
            let item = self.value[i].to_text();
            proof {
                let f = |v: ValueSchema| value_schema_text(v);
                assert(self.value@.take(i + 1).map_values(f) =~= self.value@.take(i as int).map_values(f).push(f(self.value@[i as int])));
                lemma_comma_list_push(self.value@.take(i as int).map_values(f), f(self.value@[i as int]));
            }
            push_list_item(&mut out, i, item.as_str());
            i += 1;
        }
        proof {
            assert(self.value@.take(i as int) =~= self.value@);
        }
        out.append("],\"meta\":");
        out.append(self.meta.to_text().as_str());
        out.append("}");
        out
    }
}

impl Schema {
    pub fn to_text(&self) -> (r: String)
        ensures
            r@ == schema_text(*self),
    {
        let mut out = "{\"name\":".to_owned();
        out.append(quoted(self.name.as_str()).as_str());
        out.append(",\"meta\":");
        out.append(self.meta.to_text().as_str());
        out.append(",\"device\":[");
        let ghost start = out@;
        let mut i: usize = 0;
        while i < self.device.len()
            invariant
                i <= self.device@.len(),
                out@ == start + comma_list(
                    self.device@.take(i as int).map_values(|d: DeviceSchema| device_schema_text(d)),
                ),
            decreases self.device@.len() - i,
        {
            let item = self.device[i].to_text();
            proof {
                let f = |d: DeviceSchema| device_schema_text(d);
                assert(self.device@.take(i + 1).map_values(f) =~= self.device@.take(i as int).map_values(f).push(f(self.device@[i as int])));
                lemma_comma_list_push(self.device@.take(i as int).map_values(f), f(self.device@[i as int]));
            }
            push_list_item(&mut out, i, item.as_str());
            i += 1;
        }
        proof {
            assert(self.device@.take(i as int) =~= self.device@);
        }
        out.append("]}");
        out
    }
}

} // verus!
