//! Between the entity model and the schema document: the snapshot that is
//! published and persisted, and the network rebuilt from a saved one.

use crate::clock::{now, timestamp_text, timestamp_text_of, Timestamp};
use crate::connection::{SendError, WrappedSend};
use crate::ids::{id_text, new_id, uuid_text};
use crate::rpc::{request_text, RpcData, RpcMethod, RpcRequest, RpcStateData, RpcType};
use crate::network::{lemma_device_same_ids, DeviceModel, Network, NetworkModel, Phase, Value, ValueModel};
use crate::schema::{
    state_types_of, DeviceSchema, Meta, MetaType, Permission, Schema, State, StateType,
    ValueSchema, SCHEMA_VERSION,
};
use vstd::prelude::*;

verus! {

/// The states of `v` are those its permission calls for, report first.
pub open spec fn states_fit(v: ValueSchema) -> bool {
    &&& v.state@.len() == state_types_of(v.permission).len()
    &&& forall|k: int|
        0 <= k < v.state@.len() ==> (#[trigger] v.state@[k]).state_type == state_types_of(
            v.permission,
        )[k]
}

/// Every value of `s` has the states its permission calls for.
pub open spec fn schema_fits(s: Schema) -> bool {
    forall|i: int, j: int|
        0 <= i < s.device@.len() && 0 <= j < s.device@[i].value@.len() ==> states_fit(
            #[trigger] s.device@[i].value@[j],
        )
}

/// The value that a value schema describes, with no callback.
pub open spec fn value_of_schema<C>(v: ValueSchema) -> ValueModel<C> {
    ValueModel {
        name: v.name@,
        id: v.meta.id,
        permission: v.permission,
        report: if v.permission != Permission::W { Some(v.state@[0].meta.id) } else { None },
        control: if v.permission != Permission::R { Some(v.state@.last().meta.id) } else { None },
        callback: None,
    }
}

pub open spec fn device_of_schema<C>(d: DeviceSchema) -> DeviceModel<C> {
    DeviceModel {
        name: d.name@,
        id: d.meta.id,
        values: d.value@.map_values(|v: ValueSchema| value_of_schema::<C>(v)),
    }
}

/// The devices that a schema describes.
pub open spec fn devices_of_schema<C>(s: Schema) -> Seq<DeviceModel<C>> {
    s.device@.map_values(|d: DeviceSchema| device_of_schema::<C>(d))
}

pub open spec fn value_without_callback<C>(v: ValueModel<C>) -> ValueModel<C> {
    ValueModel { callback: None, ..v }
}

pub open spec fn device_without_callbacks<C>(d: DeviceModel<C>) -> DeviceModel<C> {
    DeviceModel { values: d.values.map_values(|v: ValueModel<C>| value_without_callback(v)), ..d }
}

/// The devices with every callback taken away.
pub open spec fn without_callbacks<C>(devices: Seq<DeviceModel<C>>) -> Seq<DeviceModel<C>> {
    devices.map_values(|d: DeviceModel<C>| device_without_callbacks(d))
}

pub open spec fn meta_ok(m: Meta, t: MetaType) -> bool {
    m.meta_type == t && m.version@ == SCHEMA_VERSION@
}

/// The value schema carries the right `meta` blocks, and its states are
/// empty and stamped `timestamp`.
pub open spec fn value_stamped(v: ValueSchema, timestamp: Seq<char>) -> bool {
    &&& meta_ok(v.meta, MetaType::Value)
    &&& forall|k: int|
        0 <= k < v.state@.len() ==> meta_ok((#[trigger] v.state@[k]).meta, MetaType::State)
            && v.state@[k].timestamp@ == timestamp && v.state@[k].data@.len() == 0
}

pub open spec fn device_stamped(d: DeviceSchema, timestamp: Seq<char>) -> bool {
    &&& meta_ok(d.meta, MetaType::Device)
    &&& forall|j: int| 0 <= j < d.value@.len() ==> value_stamped(#[trigger] d.value@[j], timestamp)
}

/// The schema carries the right `meta` blocks throughout, and its states are
/// empty and stamped `timestamp`.
pub open spec fn schema_stamped(s: Schema, timestamp: Seq<char>) -> bool {
    &&& meta_ok(s.meta, MetaType::Network)
    &&& forall|i: int| 0 <= i < s.device@.len() ==> device_stamped(#[trigger] s.device@[i], timestamp)
}

/// The schema `s` is the snapshot of the network `n` taken at `timestamp`.
pub open spec fn snapshot_of<C>(s: Schema, n: NetworkModel<C>, timestamp: Seq<char>) -> bool {
    &&& s.name@ == n.name
    &&& s.meta.id == n.id
    &&& schema_fits(s)
    &&& devices_of_schema::<C>(s) == without_callbacks(n.devices)
    &&& schema_stamped(s, timestamp)
}

/// The schema of one value, its states stamped `timestamp`.
pub fn value_to_schema<C>(v: &Value<C>, timestamp: &str) -> (r: ValueSchema)
    requires
        v@.wf(),
    ensures
        states_fit(r),
        value_of_schema::<C>(r) == value_without_callback(v@),
        value_stamped(r, timestamp@),
{
    let mut state: Vec<State> = Vec::new();
    match v.report_id() {
        Some(id) => {
            state.push(State::new_with_id(StateType::Report, id, timestamp));
        },
        None => {},
    }
    if v.has_control() {
        state.push(State::new_with_id(StateType::Control, v.control_id(), timestamp));
    }
    let r = ValueSchema {
        name: v.name().to_owned(),
        permission: v.permission(),
        state,
        meta: Meta::new_with_uuid(v.id(), MetaType::Value),
    };
    proof {
        assert(value_of_schema::<C>(r) =~= value_without_callback(v@));
    }
    r
}

/// The schema of one device.
pub fn device_to_schema<C>(d: &crate::network::Device<C>, timestamp: &str) -> (r: DeviceSchema)
    requires
        d@.wf(),
    ensures
        forall|j: int| 0 <= j < r.value@.len() ==> states_fit(#[trigger] r.value@[j]),
        device_of_schema::<C>(r) == device_without_callbacks(d@),
        device_stamped(r, timestamp@),
{
    let mut r = DeviceSchema::new(d.name(), d.id());
    let mut j: usize = 0;
    while j < d.values_len()
        invariant
            j <= d@.values.len(),
            d@.wf(),
            r.name@ == d@.name,
            r.meta.id == d@.id,
            meta_ok(r.meta, MetaType::Device),
            r.value@.len() == j,
            forall|k: int| 0 <= k < j ==> states_fit(#[trigger] r.value@[k]),
            forall|k: int| 0 <= k < j ==> value_stamped(#[trigger] r.value@[k], timestamp@),
            forall|k: int|
                0 <= k < j ==> value_of_schema::<C>(#[trigger] r.value@[k]) == value_without_callback(
                    d@.values[k],
                ),
        decreases d@.values.len() - j,
    {
        let vs = value_to_schema(d.value(j), timestamp);
        r.value.push(vs);
        j += 1;
    }
    proof {
        assert(device_of_schema::<C>(r).values =~= device_without_callbacks(d@).values);
    }
    r
}

impl<C, S> Network<C, S> {
    /// The snapshot of the network, its states stamped `timestamp`.
    pub fn to_schema(&self, timestamp: &str) -> (r: Schema)
        requires
            self@.wf(),
        ensures
            snapshot_of(r, self@, timestamp@),
    {
        let mut r = Schema::new(self.name(), self.id());
        let mut i: usize = 0;
        while i < self.devices_len()
            invariant
                i <= self@.devices.len(),
                self@.wf(),
                r.name@ == self@.name,
                r.meta.id == self@.id,
                meta_ok(r.meta, MetaType::Network),
                r.device@.len() == i,
                forall|k: int, j: int|
                    0 <= k < i && 0 <= j < r.device@[k].value@.len() ==> states_fit(
                        #[trigger] r.device@[k].value@[j],
                    ),
                forall|k: int| 0 <= k < i ==> device_stamped(#[trigger] r.device@[k], timestamp@),
                forall|k: int|
                    0 <= k < i ==> device_of_schema::<C>(#[trigger] r.device@[k])
                        == device_without_callbacks(self@.devices[k]),
            decreases self@.devices.len() - i,
        {
            let ds = device_to_schema(self.device(i), timestamp);
            r.device.push(ds);
            proof {
                assert forall|k: int, j: int|
                    0 <= k < i + 1 && 0 <= j < r.device@[k].value@.len() implies states_fit(
                        #[trigger] r.device@[k].value@[j],
                    ) by {
                    if k == i {
                        assert(r.device@[k] == ds);
                    }
                }
            }
            i += 1;
        }
        proof {
            assert(devices_of_schema::<C>(r) =~= without_callbacks(self@.devices));
        }
        r
    }
}

/// The network `id` that a schema describes, idle.
pub open spec fn network_of_schema<C>(s: Schema, id: u128) -> NetworkModel<C> {
    NetworkModel { name: s.name@, id, devices: devices_of_schema::<C>(s), phase: Phase::Idle, connected: false }
}

/// A saved schema can be taken as it is for the network `id`: its values
/// have the states their permissions call for, names do not repeat, and no
/// identifier occurs twice or equals `id`.
pub open spec fn loadable<C>(s: Schema, id: u128) -> bool {
    schema_fits(s) && network_of_schema::<C>(s, id).wf()
}

/// The next device of a well-formed target is new to a network that holds
/// the devices before it.
proof fn lemma_next_device_new<C>(t: NetworkModel<C>, cur: NetworkModel<C>, i: int)
    requires
        t.wf(),
        0 <= i < t.devices.len(),
        cur.id == t.id,
        cur.devices == t.devices.take(i),
    ensures
        !cur.has_device_named(t.devices[i].name),
        !cur.has_id(t.devices[i].id),
{
    let d = t.devices[i];
    assert(d.has_id(d.id));
    if cur.has_device_named(d.name) {
        let k = choose|k: int| 0 <= k < cur.devices.len() && (#[trigger] cur.devices[k]).name == d.name;
        assert(cur.devices[k] == t.devices[k]);
    }
    if cur.has_id(d.id) {
        if d.id != cur.id {
            let k = choose|k: int| 0 <= k < cur.devices.len() && #[trigger] cur.devices[k].has_id(d.id);
            assert(cur.devices[k] == t.devices[k]);
            assert(t.devices[k].has_id(d.id));
        }
    }
}

/// The next value of device `i` of a well-formed target is new to a network
/// that holds the devices before it and the values of device `i` before it.
proof fn lemma_next_value_new<C>(t: NetworkModel<C>, cur: NetworkModel<C>, i: int, j: int)
    requires
        t.wf(),
        0 <= i < t.devices.len(),
        0 <= j < t.devices[i].values.len(),
        cur.id == t.id,
        cur.devices == t.devices.take(i).push(
            DeviceModel { values: t.devices[i].values.take(j), ..t.devices[i] },
        ),
    ensures
        !cur.devices[i].has_value_named(t.devices[i].values[j].name),
        forall|x: u128| t.devices[i].values[j].has_id(x) ==> !cur.has_id(x),
{
    let d = t.devices[i];
    let v = d.values[j];
    let cd = cur.devices[i];
    assert(d.wf());
    if cd.has_value_named(v.name) {
        let m = choose|m: int| 0 <= m < cd.values.len() && (#[trigger] cd.values[m]).name == v.name;
        assert(cd.values[m] == d.values[m]);
    }
    assert forall|x: u128| v.has_id(x) implies !cur.has_id(x) by {
        assert(d.values[j].has_id(x));
        assert(d.has_id(x));
        if x == cur.id {
            assert(!d.has_id(t.id));
        }
        if cur.has_id(x) && x != cur.id {
            let k = choose|k: int| 0 <= k < cur.devices.len() && #[trigger] cur.devices[k].has_id(x);
            if k < i {
                assert(cur.devices[k] == t.devices[k]);
                assert(t.devices[k].has_id(x));
            } else {
                assert(k == i);
                if x == cd.id {
                    assert(!d.values[j].has_id(d.id));
                } else {
                    let m = choose|m: int| 0 <= m < cd.values.len() && #[trigger] cd.values[m].has_id(x);
                    assert(cd.values[m] == d.values[m]);
                    assert(d.values[m].has_id(x));
                }
            }
        }
    }
}

impl<C, S> Network<C, S> {
    /// A network `id` named `name`, rebuilt from a saved schema: devices and
    /// values keep their names, ids and state ids, and have no callbacks. A
    /// schema that cannot be taken as it is is taken as far as it is
    /// consistent: a repeated name is merged into the first, an identifier
    /// that is already in use is replaced by a fresh one.
    pub fn from_schema(name: &str, id: u128, saved: &Schema) -> (r: Network<C, S>)
        ensures
            r@.wf(),
            r@.name == name@,
            r@.id == id,
            r@.phase == Phase::Idle,
            loadable::<C>(*saved, id) ==> r@.devices == devices_of_schema::<C>(*saved),
    {
        let ghost t = network_of_schema::<C>(*saved, id);
        let ghost ok = loadable::<C>(*saved, id);
        let mut n: Network<C, S> = Network::new(name, id);
        let mut i: usize = 0;
        proof {
            assert(ok ==> n@.devices =~= t.devices.take(0));
        }
        while i < saved.device.len()
            invariant
                i <= saved.device@.len(),
                t == network_of_schema::<C>(*saved, id),
                ok == loadable::<C>(*saved, id),
                n@.wf(),
                n@.name == name@,
                n@.id == id,
                n@.phase == Phase::Idle,
                ok ==> n@.devices == t.devices.take(i as int),
            decreases saved.device@.len() - i,
        {
            let ds = &saved.device[i];
            proof {
                if ok {
                    lemma_next_device_new(t, n@, i as int);
                }
            }
            let d = n.insert_device(ds.name.as_str(), ds.meta.id);
            proof {
                if ok {
                    let td = t.devices[i as int];
                    let nd = n@.devices.last();
                    assert(td == device_of_schema::<C>(*ds));
                    assert(nd.values =~= td.values.take(0));
                    assert(nd == DeviceModel { values: td.values.take(0), ..td });
                    assert(n@.devices.drop_last() == t.devices.take(i as int));
                    assert(n@.devices =~= t.devices.take(i as int).push(
                        DeviceModel { values: t.devices[i as int].values.take(0), ..t.devices[i as int] },
                    ));
                }
            }
            let mut j: usize = 0;
            while j < ds.value.len()
                invariant
                    i < saved.device@.len(),
                    *ds == saved.device@[i as int],
                    j <= ds.value@.len(),
                    t == network_of_schema::<C>(*saved, id),
                    ok == loadable::<C>(*saved, id),
                    n@.wf(),
                    n@.name == name@,
                    n@.id == id,
                    n@.phase == Phase::Idle,
                    d < n@.devices.len(),
                    ok ==> d == i,
                    ok ==> n@.devices == t.devices.take(i as int).push(
                        DeviceModel { values: t.devices[i as int].values.take(j as int), ..t.devices[i as int] },
                    ),
                decreases ds.value@.len() - j,
            {
                let vs = &ds.value[j];
                let report = if vs.state.len() > 0 { vs.state[0].meta.id } else { new_id() };
                let control = if vs.state.len() > 0 { vs.state[vs.state.len() - 1].meta.id } else { new_id() };
                let ghost before = n@;
                proof {
                    if ok {
                        lemma_next_value_new(t, before, i as int, j as int);
                    }
                }
                n.insert_value(d, vs.name.as_str(), vs.permission, None, (vs.meta.id, report, control));
                proof {
                    if ok {
                        let tv = t.devices[i as int].values[j as int];
                        assert(tv == value_of_schema::<C>(*vs));
                        assert(saved.device@[i as int].value@[j as int] == *vs);
                        assert(states_fit(*vs));
                        assert(tv.wf()) by {
                            assert(t.devices[i as int].wf());
                        }
                        assert(tv.has_id(tv.id));
                        let nv = n@.devices[i as int].values.last();
                        assert(nv == tv);
                        let td = t.devices[i as int];
                        let od = before.devices[i as int];
                        let nd = n@.devices[i as int];
                        assert(od == DeviceModel { values: td.values.take(j as int), ..td });
                        assert(nd.values.drop_last() == od.values);
                        assert(nd.values =~= td.values.take(j + 1));
                        assert(nd == DeviceModel { values: td.values.take(j + 1), ..td });
                        assert forall|k: int| 0 <= k < i implies n@.devices[k] == before.devices[k] by {}
                        assert(n@.devices =~= t.devices.take(i as int).push(
                            DeviceModel { values: t.devices[i as int].values.take(j + 1), ..t.devices[i as int] },
                        ));
                    }
                }
                j += 1;
            }
            proof {
                if ok {
                    assert(t.devices[i as int].values.take(j as int) =~= t.devices[i as int].values);
                    assert(n@.devices =~= t.devices.take(i + 1));
                }
            }
            i += 1;
        }
        proof {
            if ok {
                assert(t.devices.take(i as int) =~= t.devices);
            }
        }
        n
    }
}

/// Taking the callbacks away keeps a well-formed network well formed.
proof fn lemma_without_callbacks_wf<C>(n: NetworkModel<C>)
    requires
        n.wf(),
    ensures
        (NetworkModel { devices: without_callbacks(n.devices), phase: Phase::Idle, connected: false, ..n }).wf(),
{
    let m = NetworkModel { devices: without_callbacks(n.devices), phase: Phase::Idle, connected: false, ..n };
    assert forall|i: int| 0 <= i < n.devices.len() implies (#[trigger] m.devices[i]).wf() && (forall|x: u128|
        n.devices[i].has_id(x) <==> m.devices[i].has_id(x)) by {
        let a = n.devices[i];
        let b = m.devices[i];
        assert(b == device_without_callbacks(a));
        lemma_device_same_ids(a, b);
    }
    assert forall|i: int, k: int, x: u128|
        0 <= i < m.devices.len() && 0 <= k < m.devices.len() && i != k
            && #[trigger] m.devices[i].has_id(x) implies !#[trigger] m.devices[k].has_id(x) by {
        assert(n.devices[i].has_id(x));
        assert(!n.devices[k].has_id(x));
    }
    assert forall|i: int| 0 <= i < m.devices.len() implies !(#[trigger] m.devices[i]).has_id(m.id) by {
        assert(!n.devices[i].has_id(n.id));
    }
    assert forall|i: int, k: int|
        0 <= i < m.devices.len() && 0 <= k < m.devices.len() && i != k implies (#[trigger] m.devices[i]).name
            != (#[trigger] m.devices[k]).name by {
        assert(n.devices[i].name != n.devices[k].name);
    }
}

/// A snapshot of a well-formed network can be loaded as it is, and the
/// network rebuilt from it has the same devices and values, with the same
/// names and ids, and no callbacks.
pub proof fn lemma_snapshot_round_trip<C>(n: NetworkModel<C>, s: Schema, timestamp: Seq<char>, rebuilt: NetworkModel<C>)
    requires
        n.wf(),
        snapshot_of(s, n, timestamp),
        loadable::<C>(s, n.id) ==> rebuilt.devices == devices_of_schema::<C>(s),
    ensures
        loadable::<C>(s, n.id),
        rebuilt.devices == without_callbacks(n.devices),
{
    lemma_without_callbacks_wf(n);
    let m = NetworkModel { devices: without_callbacks(n.devices), phase: Phase::Idle, connected: false, ..n };
    assert(network_of_schema::<C>(s, n.id) == NetworkModel { name: s.name@, ..m });
}

/// Why a network refused to start.
#[derive(Clone, Copy, Debug, PartialEq, Eq, Structural)]
pub enum NetworkError {
    /// It was started before.
    NotIdle,
    /// Its schema could not be queued for publication.
    SendFailed,
}

/// `text` is a `PUT /state` request `request_id` that reports `data` for the
/// state `state` at `timestamp`.
pub open spec fn is_state_report(
    text: Seq<char>,
    request_id: Seq<char>,
    timestamp: Seq<char>,
    data: Seq<char>,
    state: u128,
) -> bool {
    exists|req: RpcRequest|
        #![trigger request_text(req)]
        {
            &&& text == request_text(req)
            &&& req.jsonrpc@ == "2.0"@
            &&& req.method == RpcMethod::Put
            &&& req.id@ == request_id
            &&& req.params.url@ == "/state"@
            &&& (req.params.data matches RpcData::Data(d) && d.data@ == data && d.timestamp@
                == timestamp && d.meta.id == state && meta_ok(d.meta, MetaType::State))
        }
}

/// `text` is a `POST /network` request `request_id` that publishes the
/// snapshot of `n` taken at `timestamp`.
pub open spec fn is_publication<C>(
    text: Seq<char>,
    request_id: Seq<char>,
    timestamp: Seq<char>,
    n: NetworkModel<C>,
) -> bool {
    exists|req: RpcRequest|
        #![trigger request_text(req)]
        {
            &&& text == request_text(req)
            &&& req.jsonrpc@ == "2.0"@
            &&& req.method == RpcMethod::Post
            &&& req.id@ == request_id
            &&& req.params.url@ == "/network"@
            &&& (req.params.data matches RpcData::Schema(s) && snapshot_of(s, n, timestamp))
        }
}

impl<C, S> Network<C, S> {
    /// The report of `data` by value `j` of device `d`, as the request
    /// `request_id` stamped `timestamp`.
    pub fn report_frame(&self, d: usize, j: usize, data: &str, request_id: &str, timestamp: &str) -> (r: String)
        requires
            d < self@.devices.len(),
            j < self@.devices[d as int].values.len(),
            self@.devices[d as int].values[j as int].report is Some,
        ensures
            is_state_report(r@, request_id@, timestamp@, data@, self@.devices[d as int].values[j as int].report->0),
    {
        let state = match self.value(d, j).report_id() {
            Some(s) => s,
            None => 0,
        };
        let req = RpcRequest::new_with_id(
            RpcMethod::Put,
            RpcType::State,
            RpcData::Data(RpcStateData::new(data, timestamp, Meta::new_with_uuid(state, MetaType::State))),
            request_id,
        );
        proof {
            reveal_strlit("2.0");
            reveal_strlit("/state");
        }
        req.to_text()
    }

    /// The publication of the network's snapshot, as the request
    /// `request_id` stamped `timestamp`.
    pub fn publish_frame(&self, request_id: &str, timestamp: &str) -> (r: String)
        requires
            self@.wf(),
        ensures
            is_publication(r@, request_id@, timestamp@, self@),
    {
        let req = RpcRequest::new_with_id(
            RpcMethod::Post,
            RpcType::Network,
            RpcData::Schema(self.to_schema(timestamp)),
            request_id,
        );
        proof {
            reveal_strlit("2.0");
            reveal_strlit("/network");
        }
        req.to_text()
    }
}

/// `text` is a state report of `data` for the state `state`, under some
/// request id and time stamp.
pub open spec fn report_of(text: Seq<char>, data: Seq<char>, state: u128) -> bool {
    exists|id: u128, t: Timestamp|
        #![trigger uuid_text(id), timestamp_text_of(t)]
        is_state_report(text, uuid_text(id), timestamp_text_of(t), data, state)
}

/// `text` publishes the snapshot of `n`, under some request id and time
/// stamp.
pub open spec fn publication_of<C>(text: Seq<char>, n: NetworkModel<C>) -> bool {
    exists|id: u128, t: Timestamp|
        #![trigger uuid_text(id), timestamp_text_of(t)]
        is_publication(text, uuid_text(id), timestamp_text_of(t), n)
}

impl<C, S: WrappedSend> Network<C, S> {
    /// Starts an idle network: it keeps `sender` for its reports and queues
    /// on it the publication of its snapshot, under a fresh request id.
    pub fn start(&mut self, sender: S) -> (r: Result<(), NetworkError>)
        requires
            old(self)@.wf(),
        ensures
            final(self)@.wf(),
            old(self)@.phase != Phase::Idle ==> r == Err::<(), NetworkError>(NetworkError::NotIdle)
                && final(self)@ == old(self)@ && final(self).outbox() == old(self).outbox(),
            old(self)@.phase == Phase::Idle ==> r != Err::<(), NetworkError>(NetworkError::NotIdle)
                && final(self)@ == (NetworkModel { phase: Phase::Started, connected: true, ..old(self)@ }),
            old(self)@.phase == Phase::Idle && r is Ok ==> final(self).outbox().len() == old(self).outbox().len() + 1
                && final(self).outbox().drop_last() == old(self).outbox()
                && publication_of(final(self).outbox().last(), old(self)@),
            old(self)@.phase == Phase::Idle && r is Err ==> final(self).outbox() == old(self).outbox(),
    {
        if self.phase() != Phase::Idle {
            return Err(NetworkError::NotIdle);
        }
        let id = new_id();
        let request_id = id_text(id);
        let t = now();
        let stamp = timestamp_text(t);
        let frame = self.publish_frame(request_id.as_str(), stamp.as_str());
        let ghost f = frame@;
        let ghost before = self@;
        let ghost handed = self.outbox();
        self.connect(sender);
        let sent = self.queue_message(frame);
        proof {
            assert(is_publication(f, uuid_text(id), timestamp_text_of(t), before));
            if sent is Ok {
                assert(self.outbox().drop_last() =~= handed);
            }
        }
        match sent {
            Ok(()) => Ok(()),
            Err(_) => Err(NetworkError::SendFailed),
        }
    }

    /// Queues on the channel of the started network the report of `data` by
    /// value `j` of device `d`, which can be read, under a fresh request id
    /// and the current time.
    pub fn report(&mut self, d: usize, j: usize, data: &str) -> (r: Result<(), SendError>)
        requires
            old(self)@.phase == Phase::Started,
            old(self)@.connected,
            d < old(self)@.devices.len(),
            j < old(self)@.devices[d as int].values.len(),
            old(self)@.devices[d as int].values[j as int].report is Some,
        ensures
            final(self)@ == old(self)@,
            r is Ok ==> final(self).outbox().len() == old(self).outbox().len() + 1
                && final(self).outbox().drop_last() == old(self).outbox()
                && report_of(
                final(self).outbox().last(),
                data@,
                old(self)@.devices[d as int].values[j as int].report->0,
            ),
            r is Err ==> final(self).outbox() == old(self).outbox(),
    {
        let id = new_id();
        let request_id = id_text(id);
        let t = now();
        let stamp = timestamp_text(t);
        let frame = self.report_frame(d, j, data, request_id.as_str(), stamp.as_str());
        let ghost f = frame@;
        let ghost before = self.outbox();
        let r = self.queue_message(frame);
        proof {
            assert(is_state_report(f, uuid_text(id), timestamp_text_of(t), data@, self@.devices[d as int].values[j as int].report->0));
            if r is Ok {
                assert(self.outbox().drop_last() =~= before);
            }
        }
        r
    }

    /// Stops the network and hands back its snapshot, stamped with the
    /// current time, for keeping.
    pub fn stop(&mut self) -> (r: Schema)
        requires
            old(self)@.wf(),
        ensures
            final(self)@.wf(),
            final(self)@ == (NetworkModel { phase: Phase::Stopped, ..old(self)@ }),
            final(self).outbox() == old(self).outbox(),
            exists|t: Timestamp| #[trigger] snapshot_of(r, old(self)@, timestamp_text_of(t)),
    {
        let t = now();
        let stamp = timestamp_text(t);
        let r = self.to_schema(stamp.as_str());
        self.finish();
        r
    }
}

} // verus!
