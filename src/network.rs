//! The entity model: a network of devices, each with named values whose
//! permission decides which states they have.

use crate::ids::{fresh_id, new_id};
use crate::connection::{SendError, WrappedSend};
use crate::schema::Permission;
use vstd::prelude::*;

verus! {

/// The access a value is created with; a writable value carries the callback
/// that inbound control messages are handed to.
pub enum ValuePermission<C> {
    RW(C),
    R,
    W(C),
}

pub open spec fn permission_of<C>(p: ValuePermission<C>) -> Permission {
    match p {
        ValuePermission::RW(_) => Permission::RW,
        ValuePermission::R => Permission::R,
        ValuePermission::W(_) => Permission::W,
    }
}

pub open spec fn callback_of<C>(p: ValuePermission<C>) -> Option<C> {
    match p {
        ValuePermission::RW(f) => Some(f),
        ValuePermission::R => None,
        ValuePermission::W(f) => Some(f),
    }
}

impl<C> ValuePermission<C> {
    /// The permission, and the callback that comes with it.
    pub fn split(self) -> (r: (Permission, Option<C>))
        ensures
            r.0 == permission_of(self),
            r.1 == callback_of(self),
    {
        match self {
            ValuePermission::RW(f) => (Permission::RW, Some(f)),
            ValuePermission::R => (Permission::R, None),
            ValuePermission::W(f) => (Permission::W, Some(f)),
        }
    }
}

/// The outbound half of a value.
#[derive(Clone, Copy, Debug, PartialEq, Eq, Structural)]
pub struct ReportState {
    pub id: u128,
}

/// The inbound half of a value, with the callback that control messages go
/// to (none: they are dropped).
pub struct ControlState<C> {
    pub id: u128,
    pub callback: Option<C>,
}

pub struct Value<C> {
    name: String,
    id: u128,
    permission: Permission,
    report: Option<ReportState>,
    control: Option<ControlState<C>>,
}

pub struct Device<C> {
    name: String,
    id: u128,
    values: Vec<Value<C>>,
}

/// What a value is: its name, identifiers, permission and callback.
pub struct ValueModel<C> {
    pub name: Seq<char>,
    pub id: u128,
    pub permission: Permission,
    pub report: Option<u128>,
    pub control: Option<u128>,
    pub callback: Option<C>,
}

pub struct DeviceModel<C> {
    pub name: Seq<char>,
    pub id: u128,
    pub values: Seq<ValueModel<C>>,
}

impl<C> View for Value<C> {
    type V = ValueModel<C>;

    closed spec fn view(&self) -> ValueModel<C> {
        ValueModel {
            name: self.name@,
            id: self.id,
            permission: self.permission,
            report: match self.report {
                Some(r) => Some(r.id),
                None => None,
            },
            control: match self.control {
                Some(c) => Some(c.id),
                None => None,
            },
            callback: match self.control {
                Some(c) => c.callback,
                None => None,
            },
        }
    }
}

impl<C> View for Device<C> {
    type V = DeviceModel<C>;

    closed spec fn view(&self) -> DeviceModel<C> {
        DeviceModel {
            name: self.name@,
            id: self.id,
            values: self.values@.map_values(|v: Value<C>| v@),
        }
    }
}

impl<C> ValueModel<C> {
    /// `x` is one of the value's identifiers.
    pub open spec fn has_id(self, x: u128) -> bool {
        x == self.id || self.report == Some(x) || self.control == Some(x)
    }

    /// The value has a report state exactly when it can be read, a control
    /// state exactly when it can be written, and its identifiers differ.
    pub open spec fn wf(self) -> bool {
        &&& (self.report is Some <==> self.permission != Permission::W)
        &&& (self.control is Some <==> self.permission != Permission::R)
        &&& (self.control is None ==> self.callback is None)
        &&& (self.report matches Some(r) ==> r != self.id)
        &&& (self.control matches Some(c) ==> c != self.id && self.report != Some(c))
    }
}

impl<C> DeviceModel<C> {
    pub open spec fn has_id(self, x: u128) -> bool {
        x == self.id || exists|j: int| 0 <= j < self.values.len() && #[trigger] self.values[j].has_id(x)
    }

    /// The index of the value named `name`, if there is one.
    pub open spec fn has_value_named(self, name: Seq<char>) -> bool {
        exists|j: int| 0 <= j < self.values.len() && (#[trigger] self.values[j]).name == name
    }

    /// Values are well formed, named apart, and no two identifiers of the
    /// device are equal.
    pub open spec fn wf(self) -> bool {
        &&& forall|j: int| 0 <= j < self.values.len() ==> (#[trigger] self.values[j]).wf()
        &&& forall|j: int| 0 <= j < self.values.len() ==> !(#[trigger] self.values[j]).has_id(self.id)
        &&& forall|j: int, k: int, x: u128|
            0 <= j < self.values.len() && 0 <= k < self.values.len() && j != k
                && #[trigger] self.values[j].has_id(x) ==> !#[trigger] self.values[k].has_id(x)
        &&& forall|j: int, k: int|
            0 <= j < self.values.len() && 0 <= k < self.values.len() && j != k
                ==> (#[trigger] self.values[j]).name != (#[trigger] self.values[k]).name
    }
}

/// A value built from its parts.
pub open spec fn value_model<C>(
    name: Seq<char>,
    permission: Permission,
    callback: Option<C>,
    id: u128,
    report: u128,
    control: u128,
) -> ValueModel<C> {
    ValueModel {
        name,
        id,
        permission,
        report: if permission != Permission::W { Some(report) } else { None },
        control: if permission != Permission::R { Some(control) } else { None },
        callback: if permission != Permission::R { callback } else { None },
    }
}

impl<C> Value<C> {
    fn assemble(
        name: &str,
        permission: Permission,
        callback: Option<C>,
        id: u128,
        report: u128,
        control: u128,
    ) -> (r: Value<C>)
        ensures
            r@ == value_model(name@, permission, callback, id, report, control),
    {
        let rep = match permission {
            Permission::W => None,
            _ => Some(ReportState { id: report }),
        };
        let ctl = match permission {
            Permission::R => None,
            _ => Some(ControlState { id: control, callback }),
        };
        Value { name: name.to_owned(), id, permission, report: rep, control: ctl }
    }

    pub fn name(&self) -> (r: &str)
        ensures
            r@ == self@.name,
    {
        self.name.as_str()
    }

    pub fn id(&self) -> (r: u128)
        ensures
            r == self@.id,
    {
        self.id
    }

    pub fn permission(&self) -> (r: Permission)
        ensures
            r == self@.permission,
    {
        self.permission
    }

    /// The id of the report state, if the value can be read.
    pub fn report_id(&self) -> (r: Option<u128>)
        ensures
            r == self@.report,
    {
        match &self.report {
            Some(s) => Some(s.id),
            None => None,
        }
    }

    /// Whether the value can be written, and so has a control state.
    pub fn has_control(&self) -> (r: bool)
        ensures
            r == self@.control is Some,
    {
        self.control.is_some()
    }

    /// The id of the control state of a writable value: the key that its
    /// callback is registered under.
    pub fn control_id(&self) -> (r: u128)
        requires
            self@.control is Some,
        ensures
            self@.control == Some(r),
    {
        match &self.control {
            Some(s) => s.id,
            None => 0,
        }
    }

    /// The callback that control messages for this value go to.
    pub fn callback(&self) -> (r: Option<&C>)
        ensures
            r == match self@.callback {
                Some(c) => Some(&c),
                None => None::<&C>,
            },
    {
        match &self.control {
            Some(s) => match &s.callback {
                Some(c) => Some(c),
                None => None,
            },
            None => None,
        }
    }

    /// Replaces the callback of a writable value.
    pub fn on_control(&mut self, callback: C)
        requires
            old(self)@.control is Some,
        ensures
            final(self)@ == (if old(self)@.control is Some {
                ValueModel { callback: Some(callback), ..old(self)@ }
            } else {
                old(self)@
            }),
    {
        match &mut self.control {
            Some(s) => {
                s.callback = Some(callback);
            },
            None => {},
        }
    }
}

impl<C> Value<C> {
    /// A value `id` named `name` with the states its permission calls for,
    /// each with a fresh id apart from `id` and from each other; a writable
    /// value gets the callback that comes with the permission.
    pub fn new_with_id(name: &str, permission: ValuePermission<C>, id: u128) -> (r: Value<C>)
        ensures
            made_value(r@, name@, permission_of(permission), callback_of(permission)),
            r@.id == id,
    {
        let (p, cb) = permission.split();
        let mut taken: Vec<u128> = Vec::new();
        proof {
            assert(!taken@.contains(id));
        }
        let (a, b, c) = pick_value_ids::<C>(&mut taken, p, id, new_id(), new_id());
        let r = Value::assemble(name, p, cb, a, b, c);
        proof {
            let w = value_model::<C>(Seq::empty(), p, None, a, b, c);
            assert(w.wf());
        }
        r
    }

    /// As `new_with_id`, with a fresh random id.
    pub fn new(name: &str, permission: ValuePermission<C>) -> (r: Value<C>)
        ensures
            made_value(r@, name@, permission_of(permission), callback_of(permission)),
    {
        Value::new_with_id(name, permission, new_id())
    }
}

/// A newly made value has a report state exactly when it can be read and a
/// control state exactly when it can be written, and its own id, report id
/// and control id are pairwise distinct.
pub proof fn lemma_made_value_states<C>(v: ValueModel<C>, name: Seq<char>, p: Permission, cb: Option<C>)
    requires
        made_value(v, name, p, cb),
    ensures
        p == Permission::R ==> v.report is Some && v.control is None,
        p == Permission::W ==> v.report is None && v.control is Some,
        p == Permission::RW ==> v.report is Some && v.control is Some,
        v.report matches Some(r) ==> r != v.id,
        v.control matches Some(c) ==> c != v.id && v.report != Some(c),
{
}

/// Picks identifiers that `taken` does not hold and that differ from each
/// other, for a value with permission `p`: its own, and one for each state it
/// has (the unused one is 0). Each is the preferred one where that is
/// possible. They are recorded in `taken`.
fn pick_value_ids<C>(
    taken: &mut Vec<u128>,
    p: Permission,
    id: u128,
    report: u128,
    control: u128,
) -> (r: (u128, u128, u128))
    ensures
        ({
            let v = value_model::<C>(Seq::empty(), p, None, r.0, r.1, r.2);
            &&& v.wf()
            &&& forall|x: u128| v.has_id(x) ==> !old(taken)@.contains(x)
            &&& forall|x: u128| v.has_id(x) ==> final(taken)@.contains(x)
            &&& preferred_taken(v, old(taken)@, (id, report, control))
        }),
        forall|x: u128| old(taken)@.contains(x) ==> final(taken)@.contains(x),
{
    let ghost t0 = taken@;
    let a = fresh_id(taken, id);
    taken.push(a);
    let ghost t1 = taken@;
    proof {
        assert forall|x: u128| t0.contains(x) implies t1.contains(x) by {
            lemma_push_keeps(t0, a, x);
        }
        lemma_push_keeps(t0, a, a);
    }
    let mut b: u128 = 0;
    if p != Permission::W {
        b = fresh_id(taken, report);
        taken.push(b);
        proof {
            assert forall|x: u128| t1.contains(x) implies taken@.contains(x) by {
                lemma_push_keeps(t1, b, x);
            }
            lemma_push_keeps(t1, b, b);
        }
    }
    let ghost t2 = taken@;
    let mut c: u128 = 0;
    if p != Permission::R {
        c = fresh_id(taken, control);
        taken.push(c);
        proof {
            assert forall|x: u128| t2.contains(x) implies taken@.contains(x) by {
                lemma_push_keeps(t2, c, x);
            }
            lemma_push_keeps(t2, c, c);
        }
    }
    (a, b, c)
}

/// `v` is a newly made value named `name` with permission `p`, whose
/// callback is `cb` where it can be written.
pub open spec fn made_value<C>(v: ValueModel<C>, name: Seq<char>, p: Permission, cb: Option<C>) -> bool {
    &&& v.wf()
    &&& v.name == name
    &&& v.permission == p
    &&& v.callback == (if p != Permission::R { cb } else { None })
}

/// The device `new` is `old` after asking for a value named `name`, with
/// answer `r`: the index of the value of that name where there is one,
/// else a new value `v` added at the end.
pub open spec fn value_added<C>(
    old: DeviceModel<C>,
    new: DeviceModel<C>,
    name: Seq<char>,
    p: Permission,
    cb: Option<C>,
    r: int,
) -> bool {
    if old.has_value_named(name) {
        &&& new == old
        &&& 0 <= r < old.values.len()
        &&& old.values[r].name == name
    } else {
        &&& r == old.values.len()
        &&& new.name == old.name
        &&& new.id == old.id
        &&& new.values.len() == old.values.len() + 1
        &&& new.values.drop_last() == old.values
        &&& made_value(new.values.last(), name, p, cb)
    }
}

/// Adding a value whose identifiers are new keeps a device well formed.
pub proof fn lemma_device_push<C>(old: DeviceModel<C>, v: ValueModel<C>, taken: Seq<u128>)
    requires
        old.wf(),
        v.wf(),
        !old.has_value_named(v.name),
        forall|x: u128| old.has_id(x) ==> taken.contains(x),
        forall|x: u128| v.has_id(x) ==> !taken.contains(x),
    ensures
        (DeviceModel { values: old.values.push(v), ..old }).wf(),
        forall|x: u128|
            (DeviceModel { values: old.values.push(v), ..old }).has_id(x) <==> old.has_id(x)
                || v.has_id(x),
{
    let new = DeviceModel { values: old.values.push(v), ..old };
    let n = old.values.len() as int;
    assert(new.values[n] == v);
    assert forall|j: int| 0 <= j < n implies new.values[j] == old.values[j] by {}
    assert(old.has_id(old.id));
    assert(taken.contains(old.id));
    assert(!v.has_id(old.id));
    assert forall|j: int, k: int, x: u128|
        0 <= j < new.values.len() && 0 <= k < new.values.len() && j != k
            && #[trigger] new.values[j].has_id(x) implies !#[trigger] new.values[k].has_id(x) by {
        if j < n && k < n {
            assert(new.values[j] == old.values[j]);
            assert(new.values[k] == old.values[k]);
            assert(old.values[j].has_id(x));
            assert(!old.values[k].has_id(x));
        } else if j == n {
            assert(v.has_id(x));
            assert(!taken.contains(x));
            assert(new.values[k] == old.values[k]);
            if old.values[k].has_id(x) {
                assert(old.has_id(x));
                assert(taken.contains(x));
            }
            assert(!old.values[k].has_id(x));
        } else {
            assert(k == n);
            assert(new.values[j] == old.values[j]);
            assert(old.values[j].has_id(x));
            assert(old.has_id(x));
            assert(taken.contains(x));
            assert(!v.has_id(x));
            assert(new.values[k] == v);
        }
    }
    assert forall|x: u128| new.has_id(x) <==> old.has_id(x) || v.has_id(x) by {
        if v.has_id(x) {
            assert(new.values[n].has_id(x));
        }
        if old.has_id(x) && x != old.id {
            let j = choose|j: int| 0 <= j < old.values.len() && #[trigger] old.values[j].has_id(x);
            assert(new.values[j].has_id(x));
        }
        if new.has_id(x) && x != old.id {
            let j = choose|j: int| 0 <= j < new.values.len() && #[trigger] new.values[j].has_id(x);
            if j < n {
                assert(old.values[j].has_id(x));
            }
        }
    }
}

impl<C> Device<C> {
    pub fn new(name: &str, id: u128) -> (r: Device<C>)
        ensures
            r@.name == name@,
            r@.id == id,
            r@.values.len() == 0,
            r@.wf(),
    {
        let r = Device { name: name.to_owned(), id, values: Vec::new() };
        proof {
            assert(r@.values =~= Seq::<ValueModel<C>>::empty());
        }
        r
    }

    pub fn name(&self) -> (r: &str)
        ensures
            r@ == self@.name,
    {
        self.name.as_str()
    }

    pub fn id(&self) -> (r: u128)
        ensures
            r == self@.id,
    {
        self.id
    }

    pub fn values_len(&self) -> (r: usize)
        ensures
            r == self@.values.len(),
    {
        self.values.len()
    }

    pub fn value(&self, j: usize) -> (r: &Value<C>)
        requires
            j < self@.values.len(),
        ensures
            r@ == self@.values[j as int],
    {
        &self.values[j]
    }

    /// The index of the value named `name`.
    pub fn value_index(&self, name: &str) -> (r: Option<usize>)
        ensures
            r matches Some(j) ==> j < self@.values.len() && self@.values[j as int].name == name@,
            r is None ==> !self@.has_value_named(name@),
    {
        let key = name.to_owned();
        let mut j: usize = 0;
        while j < self.values.len()
            invariant
                j <= self.values@.len(),
                key@ == name@,
                forall|k: int| 0 <= k < j ==> self@.values[k].name != name@,
            decreases self.values@.len() - j,
        {
            if self.values[j].name == key {
                return Some(j);
            }
            j += 1;
        }
        None
    }

    /// The value named `name`.
    pub fn value_named(&self, name: &str) -> (r: Option<&Value<C>>)
        ensures
            r matches Some(v) ==> v@.name == name@ && self@.has_value_named(name@),
            r is None ==> !self@.has_value_named(name@),
    {
        match self.value_index(name) {
            Some(j) => Some(&self.values[j]),
            None => None,
        }
    }

    /// Appends every identifier of the device to `out`.
    fn push_ids(&self, out: &mut Vec<u128>)
        ensures
            forall|x: u128| old(out)@.contains(x) ==> final(out)@.contains(x),
            forall|x: u128| self@.has_id(x) ==> final(out)@.contains(x),
            forall|x: u128| final(out)@.contains(x) ==> old(out)@.contains(x) || self@.has_id(x),
    {
        let ghost t0 = out@;
        out.push(self.id);
        proof {
            assert forall|x: u128| t0.contains(x) implies out@.contains(x) by {
                lemma_push_keeps(t0, self.id, x);
            }
            lemma_push_keeps(t0, self.id, self.id);
        }
        let mut j: usize = 0;
        while j < self.values.len()
            invariant
                j <= self.values@.len(),
                forall|x: u128| t0.contains(x) ==> out@.contains(x),
                out@.contains(self.id),
                forall|k: int, x: u128| 0 <= k < j && #[trigger] self@.values[k].has_id(x) ==> out@.contains(x),
                forall|x: u128| out@.contains(x) ==> t0.contains(x) || x == self.id || exists|k: int|
                    0 <= k < j && #[trigger] self@.values[k].has_id(x),
            decreases self.values@.len() - j,
        {
            let v = &self.values[j];
            assert(self@.values[j as int] == v@);
            let ghost before = out@;
            out.push(v.id);
            match &v.report {
                Some(s) => { out.push(s.id); },
                None => {},
            }
            match &v.control {
                Some(s) => { out.push(s.id); },
                None => {},
            }
            proof {
                assert forall|x: u128| before.contains(x) || self@.values[j as int].has_id(x) implies out@.contains(x) by {
                    let t = out@;
                    if before.contains(x) {
                        let i = choose|i: int| 0 <= i < before.len() && before[i] == x;
                        assert(t[i] == x);
                    } else if x == v.id {
                        assert(t[before.len() as int] == x);
                    } else if v.report is Some && x == v.report.unwrap().id {
                        assert(t[before.len() as int + 1] == x);
                    } else {
                        assert(t[t.len() - 1] == x);
                    }
                }
                assert(before.contains(self.id));
                assert(out@.contains(self.id));
                assert forall|k: int, x: u128| 0 <= k < j + 1 && #[trigger] self@.values[k].has_id(x) implies out@.contains(x) by {
                    if k < j {
                        assert(before.contains(x));
                    } else {
                        assert(self@.values[j as int].has_id(x));
                    }
                }
                assert forall|x: u128| out@.contains(x) implies t0.contains(x) || x == self.id || exists|k: int|
                    0 <= k < j + 1 && #[trigger] self@.values[k].has_id(x) by {
                    let t = out@;
                    let i = choose|i: int| 0 <= i < t.len() && t[i] == x;
                    if i < before.len() {
                        assert(before[i] == x);
                        assert(before.contains(x));
                    } else {
                        assert(self@.values[j as int].has_id(x));
                    }
                }
            }
            j += 1;
        }
    }

    /// Gets or adds the value named `name`: an existing value keeps its
    /// permission and callback; a new one gets fresh identifiers.
    pub fn create_value(&mut self, name: &str, permission: ValuePermission<C>) -> (r: usize)
        requires
            old(self)@.wf(),
        ensures
            final(self)@.wf(),
            value_added(
                old(self)@,
                final(self)@,
                name@,
                permission_of(permission),
                callback_of(permission),
                r as int,
            ),
    {
        let (p, cb) = permission.split();
        let mut taken: Vec<u128> = Vec::new();
        self.push_ids(&mut taken);
        self.insert_value(name, p, cb, &mut taken, (new_id(), new_id(), new_id()))
    }

    /// Replaces the callback of value `j`, which can be written.
    pub fn on_control(&mut self, j: usize, callback: C)
        requires
            old(self)@.wf(),
            j < old(self)@.values.len(),
            old(self)@.values[j as int].control is Some,
        ensures
            final(self)@.wf(),
            final(self)@ == (DeviceModel {
                values: old(self)@.values.update(j as int, with_callback(old(self)@.values[j as int], callback)),
                ..old(self)@
            }),
    {
        let ghost before = self@;
        self.values[j].on_control(callback);
        proof {
            assert(self@.values =~= before.values.update(j as int, with_callback(before.values[j as int], callback)));
            lemma_device_same_ids(before, self@);
        }
    }

    /// Adds a value named `name` unless the device has one, with identifiers
    /// that `taken` does not hold (the preferred ones where possible), and
    /// records them in `taken`.
    fn insert_value(
        &mut self,
        name: &str,
        permission: Permission,
        callback: Option<C>,
        taken: &mut Vec<u128>,
        preferred: (u128, u128, u128),
    ) -> (r: usize)
        requires
            old(self)@.wf(),
            forall|x: u128| old(self)@.has_id(x) ==> old(taken)@.contains(x),
        ensures
            final(self)@.wf(),
            value_added(old(self)@, final(self)@, name@, permission, callback, r as int),
            !old(self)@.has_value_named(name@) ==> forall|x: u128|
                final(self)@.values.last().has_id(x) ==> !old(taken)@.contains(x),
            !old(self)@.has_value_named(name@) ==> preferred_taken(
                final(self)@.values.last(),
                old(taken)@,
                preferred,
            ),
            forall|x: u128| old(taken)@.contains(x) ==> final(taken)@.contains(x),
            forall|x: u128| final(self)@.has_id(x) ==> final(taken)@.contains(x),
    {
        match self.value_index(name) {
            Some(j) => j,
            None => {
                let ghost t0 = taken@;
                let ghost old_model = self@;
                let (a, b, c) = pick_value_ids::<C>(taken, permission, preferred.0, preferred.1, preferred.2);
                let v = Value::assemble(name, permission, callback, a, b, c);
                proof {
                    let w = value_model::<C>(Seq::empty(), permission, None, a, b, c);
                    assert forall|x: u128| v@.has_id(x) implies !t0.contains(x) && taken@.contains(x) by {
                        assert(w.has_id(x));
                    }
                    lemma_device_push(old_model, v@, t0);
                }
                self.values.push(v);
                proof {
                    assert(self@.values =~= old_model.values.push(v@));
                    assert(self@.values.drop_last() =~= old_model.values);
                    assert forall|x: u128| self@.has_id(x) implies taken@.contains(x) by {
                        if old_model.has_id(x) {
                            assert(t0.contains(x));
                        } else {
                            assert(v@.has_id(x));
                        }
                    }
                }
                self.values.len() - 1
            },
        }
    }
}

/// `v` with its callback replaced, where it can be written.
pub open spec fn with_callback<C>(v: ValueModel<C>, callback: C) -> ValueModel<C> {
    if v.control is Some {
        ValueModel { callback: Some(callback), ..v }
    } else {
        v
    }
}

/// Devices that differ in callbacks alone have the same identifiers and are
/// both well formed or both not.
pub proof fn lemma_device_same_ids<C>(a: DeviceModel<C>, b: DeviceModel<C>)
    requires
        a.wf(),
        a.name == b.name,
        a.id == b.id,
        a.values.len() == b.values.len(),
        forall|j: int|
            0 <= j < a.values.len() ==> (#[trigger] b.values[j]).name == a.values[j].name
                && b.values[j].id == a.values[j].id && b.values[j].permission
                == a.values[j].permission && b.values[j].report == a.values[j].report
                && b.values[j].control == a.values[j].control && (b.values[j].control is None
                ==> b.values[j].callback is None),
    ensures
        b.wf(),
        forall|x: u128| a.has_id(x) <==> b.has_id(x),
{
    assert forall|j: int, x: u128| 0 <= j < a.values.len() implies (#[trigger] a.values[j].has_id(x)
        <==> b.values[j].has_id(x)) by {}
    assert forall|j: int, k: int, x: u128|
        0 <= j < b.values.len() && 0 <= k < b.values.len() && j != k
            && #[trigger] b.values[j].has_id(x) implies !#[trigger] b.values[k].has_id(x) by {
        assert(a.values[j].has_id(x));
        assert(!a.values[k].has_id(x));
    }
    assert forall|j: int, k: int|
        0 <= j < b.values.len() && 0 <= k < b.values.len() && j != k implies (#[trigger] b.values[j]).name != (#[trigger] b.values[k]).name by {
        assert(a.values[j].name != a.values[k].name);
    }
    assert forall|x: u128| a.has_id(x) <==> b.has_id(x) by {
        if a.has_id(x) && x != a.id {
            let j = choose|j: int| 0 <= j < a.values.len() && #[trigger] a.values[j].has_id(x);
            assert(b.values[j].has_id(x));
        }
        if b.has_id(x) && x != b.id {
            let j = choose|j: int| 0 <= j < b.values.len() && #[trigger] b.values[j].has_id(x);
            assert(a.values[j].has_id(x));
        }
    }
}

impl<C> Default for Device<C> {
    /// An unnamed device with a fresh random id.
    fn default() -> (r: Device<C>)
        ensures
            r@.name.len() == 0,
            r@.values.len() == 0,
            r@.wf(),
    {
        proof {
            reveal_strlit("");
        }
        Device::new("", new_id())
    }
}

/// The preferred identifiers that were free went to the value `v`.
pub open spec fn preferred_taken<C>(v: ValueModel<C>, taken: Seq<u128>, preferred: (u128, u128, u128)) -> bool {
    &&& !taken.contains(preferred.0) ==> v.id == preferred.0
    &&& (!taken.contains(preferred.1) && preferred.1 != v.id && v.report is Some) ==> v.report
        == Some(preferred.1)
    &&& (!taken.contains(preferred.2) && preferred.2 != v.id && v.report != Some(preferred.2)
        && v.control is Some) ==> v.control == Some(preferred.2)
}

/// Where a network is in its life: built, started (connected and
/// published), or stopped (its snapshot taken).
#[derive(Clone, Copy, Debug, PartialEq, Eq, Structural)]
pub enum Phase {
    Idle,
    Started,
    Stopped,
}

/// A network of devices. `C` is the type of the callbacks of writable
/// values, `S` the outbound channel that reports go through once started.
pub struct Network<C, S> {
    name: String,
    id: u128,
    devices: Vec<Device<C>>,
    send: Option<S>,
    phase: Phase,
    handed: Ghost<Seq<Seq<char>>>,
}

pub struct NetworkModel<C> {
    pub name: Seq<char>,
    pub id: u128,
    pub devices: Seq<DeviceModel<C>>,
    pub phase: Phase,
    pub connected: bool,
}

impl<C, S> View for Network<C, S> {
    type V = NetworkModel<C>;

    closed spec fn view(&self) -> NetworkModel<C> {
        NetworkModel {
            name: self.name@,
            id: self.id,
            devices: self.devices@.map_values(|d: Device<C>| d@),
            phase: self.phase,
            connected: self.send is Some,
        }
    }
}

impl<C> NetworkModel<C> {
    pub open spec fn has_id(self, x: u128) -> bool {
        x == self.id || exists|i: int| 0 <= i < self.devices.len() && #[trigger] self.devices[i].has_id(x)
    }

    pub open spec fn has_device_named(self, name: Seq<char>) -> bool {
        exists|i: int| 0 <= i < self.devices.len() && (#[trigger] self.devices[i]).name == name
    }

    /// Devices are well formed and named apart, no two identifiers in the
    /// network are equal, and the network is connected once started and not
    /// before.
    pub open spec fn wf(self) -> bool {
        &&& forall|i: int| 0 <= i < self.devices.len() ==> (#[trigger] self.devices[i]).wf()
        &&& forall|i: int| 0 <= i < self.devices.len() ==> !(#[trigger] self.devices[i]).has_id(self.id)
        &&& forall|i: int, k: int, x: u128|
            0 <= i < self.devices.len() && 0 <= k < self.devices.len() && i != k
                && #[trigger] self.devices[i].has_id(x) ==> !#[trigger] self.devices[k].has_id(x)
        &&& forall|i: int, k: int|
            0 <= i < self.devices.len() && 0 <= k < self.devices.len() && i != k
                ==> (#[trigger] self.devices[i]).name != (#[trigger] self.devices[k]).name
        &&& (self.phase == Phase::Started ==> self.connected)
        &&& (self.phase == Phase::Idle ==> !self.connected)
    }
}

/// The network `new` is `old` after asking for a device named `name`, with
/// answer `r`: the index of the device of that name where there is one,
/// else a new empty device added at the end.
pub open spec fn device_added<C>(old: NetworkModel<C>, new: NetworkModel<C>, name: Seq<char>, r: int) -> bool {
    if old.has_device_named(name) {
        &&& new == old
        &&& 0 <= r < old.devices.len()
        &&& old.devices[r].name == name
    } else {
        &&& r == old.devices.len()
        &&& new == NetworkModel { devices: new.devices, ..old }
        &&& new.devices.len() == old.devices.len() + 1
        &&& new.devices.drop_last() == old.devices
        &&& new.devices.last().name == name
        &&& new.devices.last().values.len() == 0
        &&& !old.has_id(new.devices.last().id)
    }
}

/// The network `new` is `old` after asking device `d` for a value named
/// `name`; a value that is added has identifiers new to the network.
pub open spec fn network_value_added<C>(
    old: NetworkModel<C>,
    new: NetworkModel<C>,
    d: int,
    name: Seq<char>,
    p: Permission,
    cb: Option<C>,
    r: int,
) -> bool {
    &&& new == NetworkModel { devices: new.devices, ..old }
    &&& new.devices.len() == old.devices.len()
    &&& forall|i: int| 0 <= i < old.devices.len() && i != d ==> new.devices[i] == old.devices[i]
    &&& value_added(old.devices[d], new.devices[d], name, p, cb, r)
    &&& (!old.devices[d].has_value_named(name) ==> forall|x: u128|
        new.devices[d].values.last().has_id(x) ==> !old.has_id(x))
}

/// Replacing device `d` by one whose identifiers are those of the old one
/// plus identifiers new to the network, with the same name, keeps the
/// network well formed.
proof fn lemma_network_replace_device<C>(old: NetworkModel<C>, d: int, nd: DeviceModel<C>)
    requires
        old.wf(),
        0 <= d < old.devices.len(),
        nd.wf(),
        nd.name == old.devices[d].name,
        forall|x: u128| #[trigger] nd.has_id(x) ==> old.devices[d].has_id(x) || !old.has_id(x),
    ensures
        (NetworkModel { devices: old.devices.update(d, nd), ..old }).wf(),
{
    let new = NetworkModel { devices: old.devices.update(d, nd), ..old };
    assert(old.has_id(old.id));
    assert(!old.devices[d].has_id(old.id));
    assert forall|i: int, k: int, x: u128|
        0 <= i < new.devices.len() && 0 <= k < new.devices.len() && i != k
            && #[trigger] new.devices[i].has_id(x) implies !#[trigger] new.devices[k].has_id(x) by {
        if i != d && k != d {
            assert(old.devices[i].has_id(x));
            assert(!old.devices[k].has_id(x));
        } else if i == d {
            if new.devices[k].has_id(x) {
                assert(old.devices[k].has_id(x));
                assert(old.has_id(x));
                assert(!old.devices[d].has_id(x));
            }
        } else {
            assert(old.devices[i].has_id(x));
            assert(old.has_id(x));
            assert(!old.devices[d].has_id(x));
        }
    }
    assert forall|i: int, k: int|
        0 <= i < new.devices.len() && 0 <= k < new.devices.len() && i != k implies (#[trigger] new.devices[i]).name
            != (#[trigger] new.devices[k]).name by {
        assert(old.devices[i].name != old.devices[k].name);
    }
}

impl<C, S> Network<C, S> {
    /// An idle network with no devices.
    pub fn new(name: &str, id: u128) -> (r: Network<C, S>)
        ensures
            r@.name == name@,
            r@.id == id,
            r@.devices.len() == 0,
            r@.phase == Phase::Idle,
            r@.wf(),
            r.outbox().len() == 0,
    {
        let r = Network {
            name: name.to_owned(),
            id,
            devices: Vec::new(),
            send: None,
            phase: Phase::Idle,
            handed: Ghost(Seq::empty()),
        };
        proof {
            assert(r@.devices =~= Seq::<DeviceModel<C>>::empty());
        }
        r
    }

    pub fn name(&self) -> (r: &str)
        ensures
            r@ == self@.name,
    {
        self.name.as_str()
    }

    pub fn id(&self) -> (r: u128)
        ensures
            r == self@.id,
    {
        self.id
    }

    pub fn phase(&self) -> (r: Phase)
        ensures
            r == self@.phase,
    {
        self.phase
    }

    pub fn devices_len(&self) -> (r: usize)
        ensures
            r == self@.devices.len(),
    {
        self.devices.len()
    }

    pub fn devices_is_empty(&self) -> (r: bool)
        ensures
            r == (self@.devices.len() == 0),
    {
        self.devices.len() == 0
    }

    pub fn device(&self, i: usize) -> (r: &Device<C>)
        requires
            i < self@.devices.len(),
        ensures
            r@ == self@.devices[i as int],
    {
        &self.devices[i]
    }

    /// The index of the device named `name`.
    pub fn device_index(&self, name: &str) -> (r: Option<usize>)
        ensures
            r matches Some(i) ==> i < self@.devices.len() && self@.devices[i as int].name == name@,
            r is None ==> !self@.has_device_named(name@),
    {
        let key = name.to_owned();
        let mut i: usize = 0;
        while i < self.devices.len()
            invariant
                i <= self.devices@.len(),
                key@ == name@,
                forall|k: int| 0 <= k < i ==> self@.devices[k].name != name@,
            decreases self.devices@.len() - i,
        {
            if self.devices[i].name == key {
                return Some(i);
            }
            i += 1;
        }
        None
    }

    /// The device named `name`.
    pub fn device_named(&self, name: &str) -> (r: Option<&Device<C>>)
        ensures
            r matches Some(d) ==> d@.name == name@ && self@.has_device_named(name@),
            r is None ==> !self@.has_device_named(name@),
    {
        match self.device_index(name) {
            Some(i) => Some(&self.devices[i]),
            None => None,
        }
    }

    /// Every identifier in the network.
    fn taken_ids(&self) -> (r: Vec<u128>)
        ensures
            forall|x: u128| self@.has_id(x) <==> r@.contains(x),
    {
        let mut out: Vec<u128> = Vec::new();
        out.push(self.id);
        proof {
            lemma_push_keeps(Seq::<u128>::empty(), self.id, self.id);
            assert(Seq::<u128>::empty().push(self.id) =~= out@);
            assert forall|x: u128| out@.contains(x) implies self@.has_id(x) by {
                assert(out@[0] == self.id);
            }
        }
        let mut i: usize = 0;
        while i < self.devices.len()
            invariant
                i <= self.devices@.len(),
                out@.contains(self.id),
                forall|k: int, x: u128| 0 <= k < i && #[trigger] self@.devices[k].has_id(x) ==> out@.contains(x),
                forall|x: u128| out@.contains(x) ==> self@.has_id(x),
            decreases self.devices@.len() - i,
        {
            let ghost before = out@;
            self.devices[i].push_ids(&mut out);
            proof {
                assert(self@.devices[i as int] == self.devices@[i as int]@);
                assert forall|k: int, x: u128| 0 <= k < i + 1 && #[trigger] self@.devices[k].has_id(x) implies out@.contains(x) by {
                    if k < i {
                        assert(before.contains(x));
                    }
                }
                assert forall|x: u128| out@.contains(x) implies self@.has_id(x) by {
                    if !before.contains(x) {
                        assert(self@.devices[i as int].has_id(x));
                    }
                }
            }
            i += 1;
        }
        proof {
            assert forall|x: u128| self@.has_id(x) implies out@.contains(x) by {
                if x != self.id {
                    let k = choose|k: int| 0 <= k < self@.devices.len() && #[trigger] self@.devices[k].has_id(x);
                }
            }
        }
        out
    }

    /// Adds an empty device named `name` unless the network has one; its id
    /// is `preferred` unless that is taken.
    pub(crate) fn insert_device(&mut self, name: &str, preferred: u128) -> (r: usize)
        requires
            old(self)@.wf(),
        ensures
            final(self)@.wf(),
            device_added(old(self)@, final(self)@, name@, r as int),
            !old(self)@.has_device_named(name@) && !old(self)@.has_id(preferred)
                ==> final(self)@.devices.last().id == preferred,
    {
        match self.device_index(name) {
            Some(i) => i,
            None => {
                let taken = self.taken_ids();
                let id = fresh_id(&taken, preferred);
                let dev: Device<C> = Device::new(name, id);
                let ghost old_model = self@;
                self.devices.push(dev);
                proof {
                    assert(self@.devices =~= old_model.devices.push(dev@));
                    assert(self@.devices.drop_last() =~= old_model.devices);
                    let n = old_model.devices.len() as int;
                    assert(!old_model.has_id(id));
                    assert forall|x: u128| dev@.has_id(x) implies x == id by {}
                    assert forall|i: int| 0 <= i < n implies self@.devices[i] == old_model.devices[i] by {}
                    assert forall|i: int, k: int, x: u128|
                        0 <= i < self@.devices.len() && 0 <= k < self@.devices.len() && i != k
                            && #[trigger] self@.devices[i].has_id(x) implies !#[trigger] self@.devices[k].has_id(x) by {
                        if i < n && k < n {
                            assert(old_model.devices[i].has_id(x));
                            assert(!old_model.devices[k].has_id(x));
                        } else if i == n {
                            assert(x == id);
                            if old_model.devices[k].has_id(x) {
                                assert(old_model.has_id(x));
                            }
                        } else {
                            assert(old_model.devices[i].has_id(x));
                            assert(old_model.has_id(x));
                            assert(self@.devices[k] == dev@);
                        }
                    }
                    assert forall|i: int, k: int|
                        0 <= i < self@.devices.len() && 0 <= k < self@.devices.len() && i != k implies (#[trigger] self@.devices[i]).name
                            != (#[trigger] self@.devices[k]).name by {
                        if i < n && k < n {
                            assert(old_model.devices[i].name != old_model.devices[k].name);
                        }
                    }
                    assert(old_model.has_id(old_model.id));
                }
                self.devices.len() - 1
            },
        }
    }

    /// Gets or adds the device named `name`; a new one gets a fresh id.
    pub fn create_device(&mut self, name: &str) -> (r: usize)
        requires
            old(self)@.wf(),
        ensures
            final(self)@.wf(),
            device_added(old(self)@, final(self)@, name@, r as int),
    {
        self.insert_device(name, new_id())
    }

    /// Gets or adds the value named `name` on device `d`: an existing value
    /// keeps its permission and callback; a new one gets identifiers new to
    /// the network.
    pub fn create_value(&mut self, d: usize, name: &str, permission: ValuePermission<C>) -> (r: usize)
        requires
            old(self)@.wf(),
            d < old(self)@.devices.len(),
        ensures
            final(self)@.wf(),
            network_value_added(
                old(self)@,
                final(self)@,
                d as int,
                name@,
                permission_of(permission),
                callback_of(permission),
                r as int,
            ),
    {
        let (p, cb) = permission.split();
        self.insert_value(d, name, p, cb, (new_id(), new_id(), new_id()))
    }

    /// Value `j` of device `d`.
    pub fn value(&self, d: usize, j: usize) -> (r: &Value<C>)
        requires
            d < self@.devices.len(),
            j < self@.devices[d as int].values.len(),
        ensures
            r@ == self@.devices[d as int].values[j as int],
    {
        self.devices[d].value(j)
    }

    /// Replaces the callback of value `j` of device `d`, which can be
    /// written.
    pub fn on_control(&mut self, d: usize, j: usize, callback: C)
        requires
            old(self)@.wf(),
            d < old(self)@.devices.len(),
            j < old(self)@.devices[d as int].values.len(),
            old(self)@.devices[d as int].values[j as int].control is Some,
        ensures
            final(self)@.wf(),
            final(self)@ == (NetworkModel {
                devices: old(self)@.devices.update(
                    d as int,
                    DeviceModel {
                        values: old(self)@.devices[d as int].values.update(
                            j as int,
                            with_callback(old(self)@.devices[d as int].values[j as int], callback),
                        ),
                        ..old(self)@.devices[d as int]
                    },
                ),
                ..old(self)@
            }),
    {
        let ghost before = self@;
        proof {
            assert(before.devices[d as int] == self.devices@[d as int]@);
        }
        self.devices[d].on_control(j, callback);
        proof {
            let od = before.devices[d as int];
            let nd = self.devices@[d as int]@;
            assert(self@.devices =~= before.devices.update(d as int, nd));
            lemma_device_same_ids(od, nd);
            assert forall|x: u128| #[trigger] nd.has_id(x) implies od.has_id(x) || !before.has_id(x) by {}
            lemma_network_replace_device(before, d as int, nd);
        }
    }

    /// Gets or adds the value named `name` on device `d`; a new one gets
    /// identifiers new to the network, the preferred ones where possible.
    pub(crate) fn insert_value(
        &mut self,
        d: usize,
        name: &str,
        permission: Permission,
        callback: Option<C>,
        preferred: (u128, u128, u128),
    ) -> (r: usize)
        requires
            old(self)@.wf(),
            d < old(self)@.devices.len(),
        ensures
            final(self)@.wf(),
            network_value_added(old(self)@, final(self)@, d as int, name@, permission, callback, r as int),
            !old(self)@.devices[d as int].has_value_named(name@) ==> preferred_free(
                final(self)@.devices[d as int].values.last(),
                old(self)@,
                preferred,
            ),
    {
        let mut taken = self.taken_ids();
        let ghost t0 = taken@;
        let ghost old_model = self@;
        proof {
            assert(self@.devices[d as int] == self.devices@[d as int]@);
            assert forall|x: u128| self.devices@[d as int]@.has_id(x) implies taken@.contains(x) by {
                assert(old_model.devices[d as int].has_id(x));
            }
        }
        let r = self.devices[d].insert_value(name, permission, callback, &mut taken, preferred);
        proof {
            let od = old_model.devices[d as int];
            let nd = self.devices@[d as int]@;
            assert(self@.devices =~= old_model.devices.update(d as int, nd));
            if od.has_value_named(name@) {
                assert(nd == od);
            } else {
                let v = nd.values.last();
                assert(nd.values =~= od.values.push(v));
                lemma_device_push(od, v, t0);
                assert(nd == DeviceModel { values: od.values.push(v), ..od });
                assert forall|x: u128| v.has_id(x) implies !old_model.has_id(x) by {
                    assert(!t0.contains(x));
                }
            }
            assert forall|x: u128| #[trigger] nd.has_id(x) implies od.has_id(x) || !old_model.has_id(x) by {}
            lemma_network_replace_device(old_model, d as int, nd);
        }
        r
    }
}

/// The preferred identifiers that were not in use in `net` went to `v`.
pub open spec fn preferred_free<C>(v: ValueModel<C>, net: NetworkModel<C>, preferred: (u128, u128, u128)) -> bool {
    &&& !net.has_id(preferred.0) ==> v.id == preferred.0
    &&& (!net.has_id(preferred.1) && preferred.1 != v.id && v.report is Some) ==> v.report
        == Some(preferred.1)
    &&& (!net.has_id(preferred.2) && preferred.2 != v.id && v.report != Some(preferred.2)
        && v.control is Some) ==> v.control == Some(preferred.2)
}

/// Asking twice for a device of the same name gives the same device, and
/// the second request changes nothing.
pub proof fn lemma_create_device_idempotent<C>(
    n0: NetworkModel<C>,
    n1: NetworkModel<C>,
    n2: NetworkModel<C>,
    name: Seq<char>,
    r1: int,
    r2: int,
)
    requires
        n0.wf(),
        device_added(n0, n1, name, r1),
        device_added(n1, n2, name, r2),
    ensures
        r1 == r2,
        n2 == n1,
        n2.devices[r2].id == n1.devices[r1].id,
{
    assert(n1.devices[r1].name == name);
    assert(n1.has_device_named(name));
    if !n0.has_device_named(name) {
        assert(n1.devices[r1] == n1.devices.last());
        assert forall|i: int| 0 <= i < n0.devices.len() implies n1.devices[i] == n0.devices[i] by {
            assert(n1.devices.drop_last()[i] == n0.devices[i]);
        }
        if r2 != r1 {
            assert(n0.devices[r2].name == name);
        }
    } else {
        assert(n0.devices[r1].name == n0.devices[r2].name);
    }
}

/// Asking a device twice for a value of the same name gives the same value,
/// and the second request changes nothing.
pub proof fn lemma_create_value_idempotent<C>(
    d0: DeviceModel<C>,
    d1: DeviceModel<C>,
    d2: DeviceModel<C>,
    name: Seq<char>,
    first_permission: Permission,
    first_callback: Option<C>,
    second_permission: Permission,
    second_callback: Option<C>,
    r1: int,
    r2: int,
)
    requires
        d0.wf(),
        value_added(d0, d1, name, first_permission, first_callback, r1),
        value_added(d1, d2, name, second_permission, second_callback, r2),
    ensures
        r1 == r2,
        d2 == d1,
        d2.values[r2].id == d1.values[r1].id,
{
    assert(d1.values[r1].name == name);
    assert(d1.has_value_named(name));
    if !d0.has_value_named(name) {
        assert forall|j: int| 0 <= j < d0.values.len() implies d1.values[j] == d0.values[j] by {
            assert(d1.values.drop_last()[j] == d0.values[j]);
        }
        if r2 != r1 {
            assert(d0.values[r2].name == name);
        }
    } else {
        assert(d0.values[r1].name == d0.values[r2].name);
    }
}

/// Asking a device of a network twice for a value of the same name gives
/// the same value, and the second request changes nothing.
pub proof fn lemma_network_create_value_idempotent<C>(
    n0: NetworkModel<C>,
    n1: NetworkModel<C>,
    n2: NetworkModel<C>,
    d: int,
    name: Seq<char>,
    first_permission: Permission,
    first_callback: Option<C>,
    second_permission: Permission,
    second_callback: Option<C>,
    r1: int,
    r2: int,
)
    requires
        n0.wf(),
        0 <= d < n0.devices.len(),
        network_value_added(n0, n1, d, name, first_permission, first_callback, r1),
        network_value_added(n1, n2, d, name, second_permission, second_callback, r2),
    ensures
        r1 == r2,
        n2 == n1,
        n2.devices[d].values[r2].id == n1.devices[d].values[r1].id,
{
    assert(n0.devices[d].wf());
    lemma_create_value_idempotent(n0.devices[d], n1.devices[d], n2.devices[d], name, first_permission, first_callback, second_permission, second_callback, r1, r2);
    assert(n2.devices =~= n1.devices);
}

/// Every value of a well-formed network has the states its permission
/// calls for, and no identifier occurs twice: a state id differs from the
/// ids of its value, its device, the network, and every other state.
pub proof fn lemma_permission_states<C>(n: NetworkModel<C>, d: int, j: int)
    requires
        n.wf(),
        0 <= d < n.devices.len(),
        0 <= j < n.devices[d].values.len(),
    ensures
        ({
            let v = n.devices[d].values[j];
            &&& (v.permission == Permission::R ==> v.report is Some && v.control is None)
            &&& (v.permission == Permission::W ==> v.report is None && v.control is Some)
            &&& (v.permission == Permission::RW ==> v.report is Some && v.control is Some)
            &&& forall|x: u128| v.has_id(x) && x != v.id ==> x != n.devices[d].id && x != n.id
            &&& v.report matches Some(r) ==> v.control != Some(r)
        }),
{
    let dev = n.devices[d];
    let v = dev.values[j];
    assert(v.wf());
    assert forall|x: u128| v.has_id(x) && x != v.id implies x != dev.id && x != n.id by {
        assert(dev.has_id(x));
        assert(!dev.values[j].has_id(dev.id));
        assert(!dev.has_id(n.id));
    }
}

/// Two values of a well-formed network, on the same device or not, share
/// no identifier.
pub proof fn lemma_values_apart<C>(n: NetworkModel<C>, d1: int, j1: int, d2: int, j2: int, x: u128)
    requires
        n.wf(),
        0 <= d1 < n.devices.len(),
        0 <= j1 < n.devices[d1].values.len(),
        0 <= d2 < n.devices.len(),
        0 <= j2 < n.devices[d2].values.len(),
        d1 != d2 || j1 != j2,
        n.devices[d1].values[j1].has_id(x),
    ensures
        !n.devices[d2].values[j2].has_id(x),
{
    assert(n.devices[d1].has_id(x));
    if d1 != d2 {
        if n.devices[d2].values[j2].has_id(x) {
            assert(n.devices[d2].has_id(x));
        }
    } else {
        assert(n.devices[d1].wf());
    }
}

impl<C, S: WrappedSend> Network<C, S> {
    /// Queues `msg` on the outbound channel of a connected network.
    pub(crate) fn queue_message(&mut self, msg: String) -> (r: Result<(), SendError>)
        requires
            old(self)@.connected,
        ensures
            final(self)@ == old(self)@,
            r is Ok ==> final(self).outbox() == old(self).outbox().push(msg@),
            r is Err ==> final(self).outbox() == old(self).outbox(),
    {
        let ghost m = msg@;
        match &mut self.send {
            Some(s) => {
                let r = s.send(msg);
                if r.is_ok() {
                    self.handed = Ghost(self.handed@.push(m));
                }
                r
            },
            None => Err(SendError),
        }
    }

    /// Marks the network stopped.
    pub(crate) fn finish(&mut self)
        requires
            old(self)@.wf(),
        ensures
            final(self)@.wf(),
            final(self)@ == (NetworkModel { phase: Phase::Stopped, ..old(self)@ }),
            final(self).outbox() == old(self).outbox(),
    {
        self.phase = Phase::Stopped;
    }

    /// Keeps `sender` and marks the idle network started.
    pub(crate) fn connect(&mut self, sender: S)
        requires
            old(self)@.wf(),
            old(self)@.phase == Phase::Idle,
        ensures
            final(self)@.wf(),
            final(self)@ == (NetworkModel { phase: Phase::Started, connected: true, ..old(self)@ }),
            final(self).outbox() == old(self).outbox(),
    {
        self.send = Some(sender);
        self.phase = Phase::Started;
    }
}

impl<C, S> Network<C, S> {
    /// The messages that the network handed to its outbound channel and
    /// that the channel took, oldest first.
    pub closed spec fn outbox(&self) -> Seq<Seq<char>> {
        self.handed@
    }

    /// The outbound channel, once started.
    pub fn sender(&self) -> (r: Option<&S>)
        ensures
            r is Some <==> self@.connected,
    {
        self.send.as_ref()
    }

}

/// Pushing onto a sequence keeps what it holds and adds the new element.
pub proof fn lemma_push_keeps<A>(s: Seq<A>, a: A, x: A)
    ensures
        s.push(a).contains(a),
        s.contains(x) ==> s.push(a).contains(x),
{
    assert(s.push(a)[s.len() as int] == a);
    if s.contains(x) {
        let j = choose|j: int| 0 <= j < s.len() && s[j] == x;
        assert(s.push(a)[j] == x);
    }
}

} // verus!
