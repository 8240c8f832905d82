//! The callback registry: which value an inbound control message for a state
//! id is meant for.

use crate::network::{DeviceModel, Network, NetworkModel};
use vstd::prelude::*;

verus! {

/// The control state `state` belongs to value `value` of device `device`.
#[derive(Clone, Copy, Debug, PartialEq, Eq, Structural)]
pub struct RegistryEntry {
    pub state: u128,
    pub device: usize,
    pub value: usize,
}

/// The control states of a network, taken when it starts; values added
/// later are not in it.
pub struct CallbackMap {
    entries: Vec<RegistryEntry>,
}

impl View for CallbackMap {
    type V = Seq<RegistryEntry>;

    closed spec fn view(&self) -> Seq<RegistryEntry> {
        self.entries@
    }
}

/// The entries for the first `upto` values of device `d` (at index `i`).
pub open spec fn device_entries<C>(d: DeviceModel<C>, i: int, upto: int) -> Seq<RegistryEntry>
    decreases upto,
{
    if upto <= 0 {
        Seq::empty()
    } else {
        device_entries(d, i, upto - 1) + match d.values[upto - 1].control {
            Some(c) => seq![RegistryEntry { state: c, device: i as usize, value: (upto - 1) as usize }],
            None => Seq::empty(),
        }
    }
}

/// The entries for the first `upto` devices of `n`, in order.
pub open spec fn network_entries<C>(n: NetworkModel<C>, upto: int) -> Seq<RegistryEntry>
    decreases upto,
{
    if upto <= 0 {
        Seq::empty()
    } else {
        network_entries(n, upto - 1) + device_entries(
            n.devices[upto - 1],
            upto - 1,
            n.devices[upto - 1].values.len() as int,
        )
    }
}

/// The registry of `n`: one entry for each writable value, in order.
pub open spec fn registry_of<C>(n: NetworkModel<C>) -> Seq<RegistryEntry> {
    network_entries(n, n.devices.len() as int)
}

/// The value that the last entry for `state` names.
pub open spec fn lookup_in(s: Seq<RegistryEntry>, state: u128) -> Option<(usize, usize)>
    decreases s.len(),
{
    if s.len() == 0 {
        None
    } else if s.last().state == state {
        Some((s.last().device, s.last().value))
    } else {
        lookup_in(s.drop_last(), state)
    }
}

proof fn lemma_device_entries_member<C>(d: DeviceModel<C>, i: int, upto: int, e: RegistryEntry)
    requires
        0 <= upto <= d.values.len(),
        0 <= i <= usize::MAX,
        d.values.len() <= usize::MAX,
    ensures
        device_entries(d, i, upto).contains(e) <==> (e.device == i && 0 <= e.value < upto
            && d.values[e.value as int].control == Some(e.state)),
    decreases upto,
{
    if upto > 0 {
        lemma_device_entries_member(d, i, upto - 1, e);
        let tail = match d.values[upto - 1].control {
            Some(c) => seq![RegistryEntry { state: c, device: i as usize, value: (upto - 1) as usize }],
            None => Seq::<RegistryEntry>::empty(),
        };
        let prev = device_entries(d, i, upto - 1);
        assert(device_entries(d, i, upto) == prev + tail);
        if (prev + tail).contains(e) {
            let k = choose|k: int| 0 <= k < (prev + tail).len() && (prev + tail)[k] == e;
            if k < prev.len() {
                assert(prev[k] == e);
            } else {
                assert(tail[k - prev.len()] == e);
            }
        }
        if e.device == i && 0 <= e.value < upto && d.values[e.value as int].control == Some(e.state) {
            if e.value < upto - 1 {
                let k = choose|k: int| 0 <= k < prev.len() && prev[k] == e;
                assert((prev + tail)[k] == e);
            } else {
                assert((prev + tail)[prev.len() as int] == e);
            }
        }
    }
}

proof fn lemma_network_entries_member<C>(n: NetworkModel<C>, upto: int, e: RegistryEntry)
    requires
        0 <= upto <= n.devices.len(),
        n.devices.len() <= usize::MAX,
        forall|i: int| 0 <= i < n.devices.len() ==> (#[trigger] n.devices[i]).values.len() <= usize::MAX,
    ensures
        network_entries(n, upto).contains(e) <==> (0 <= e.device < upto && 0 <= e.value
            < n.devices[e.device as int].values.len() && n.devices[e.device as int].values[e.value as int].control
            == Some(e.state)),
    decreases upto,
{
    if upto > 0 {
        lemma_network_entries_member(n, upto - 1, e);
        let d = n.devices[upto - 1];
        lemma_device_entries_member(d, upto - 1, d.values.len() as int, e);
        let prev = network_entries(n, upto - 1);
        let tail = device_entries(d, upto - 1, d.values.len() as int);
        assert(network_entries(n, upto) == prev + tail);
        if (prev + tail).contains(e) {
            let k = choose|k: int| 0 <= k < (prev + tail).len() && (prev + tail)[k] == e;
            if k < prev.len() {
                assert(prev[k] == e);
            } else {
                assert(tail[k - prev.len()] == e);
            }
        }
        if 0 <= e.device < upto && 0 <= e.value < n.devices[e.device as int].values.len()
            && n.devices[e.device as int].values[e.value as int].control == Some(e.state) {
            if e.device < upto - 1 {
                let k = choose|k: int| 0 <= k < prev.len() && prev[k] == e;
                assert((prev + tail)[k] == e);
            } else {
                let k = choose|k: int| 0 <= k < tail.len() && tail[k] == e;
                assert((prev + tail)[prev.len() + k] == e);
            }
        }
    }
}

/// Where every entry for `state` names the same value and one does, the
/// lookup finds that value.
proof fn lemma_lookup_unique(s: Seq<RegistryEntry>, state: u128, e: RegistryEntry)
    requires
        s.contains(e),
        e.state == state,
        forall|k: int| 0 <= k < s.len() && (#[trigger] s[k]).state == state ==> s[k] == e,
    ensures
        lookup_in(s, state) == Some((e.device, e.value)),
    decreases s.len(),
{
    if s.last().state != state {
        let k = choose|k: int| 0 <= k < s.len() && s[k] == e;
        assert(k != s.len() - 1);
        assert(s.drop_last()[k] == e);
        lemma_lookup_unique(s.drop_last(), state, e);
    } else {
        assert(s[s.len() - 1] == e);
    }
}

/// An inbound control message for the control state of a value of a
/// well-formed network is dispatched to that value, and to no other.
pub proof fn lemma_dispatch_reaches_owner<C>(n: NetworkModel<C>, d: int, j: int)
    requires
        n.wf(),
        n.devices.len() <= usize::MAX,
        forall|i: int| 0 <= i < n.devices.len() ==> (#[trigger] n.devices[i]).values.len() <= usize::MAX,
        0 <= d < n.devices.len(),
        0 <= j < n.devices[d].values.len(),
        n.devices[d].values[j].control is Some,
    ensures
        lookup_in(registry_of(n), n.devices[d].values[j].control->0) == Some((d as usize, j as usize)),
{
    let c = n.devices[d].values[j].control->0;
    let e = RegistryEntry { state: c, device: d as usize, value: j as usize };
    let s = registry_of(n);
    lemma_network_entries_member(n, n.devices.len() as int, e);
    assert forall|k: int| 0 <= k < s.len() && (#[trigger] s[k]).state == c implies s[k] == e by {
        let f = s[k];
        assert(s.contains(f));
        lemma_network_entries_member(n, n.devices.len() as int, f);
        assert(n.devices[d].values[j].has_id(c));
        if f.device as int != d || f.value as int != j {
            crate::network::lemma_values_apart(n, d, j, f.device as int, f.value as int, c);
        }
    }
    lemma_lookup_unique(s, c, e);
}

impl CallbackMap {
    /// The value that inbound control messages for `state` go to.
    pub fn lookup(&self, state: u128) -> (r: Option<(usize, usize)>)
        ensures
            r == lookup_in(self@, state),
    {
        let mut found: Option<(usize, usize)> = None;
        let mut i: usize = 0;
        while i < self.entries.len()
            invariant
                i <= self.entries@.len(),
                found == lookup_in(self.entries@.take(i as int), state),
            decreases self.entries@.len() - i,
        {
            let e = self.entries[i];
            proof {
                assert(self.entries@.take(i + 1).drop_last() =~= self.entries@.take(i as int));
            }
            if e.state == state {
                found = Some((e.device, e.value));
            }
            i += 1;
        }
        proof {
            assert(self.entries@.take(i as int) =~= self.entries@);
        }
        found
    }

    pub fn len(&self) -> (r: usize)
        ensures
            r == self@.len(),
    {
        self.entries.len()
    }
}

impl<C, S> Network<C, S> {
    /// The registry of the network's writable values, keyed by the id of
    /// their control state.
    pub fn callbacks(&self) -> (r: CallbackMap)
        ensures
            r@ == registry_of(self@),
    {
        let mut entries: Vec<RegistryEntry> = Vec::new();
        let mut i: usize = 0;
        while i < self.devices_len()
            invariant
                i <= self@.devices.len(),
                entries@ == network_entries(self@, i as int),
            decreases self@.devices.len() - i,
        {
            let dev = self.device(i);
            let mut j: usize = 0;
            while j < dev.values_len()
                invariant
                    i < self@.devices.len(),
                    dev@ == self@.devices[i as int],
                    j <= dev@.values.len(),
                    entries@ == network_entries(self@, i as int) + device_entries(dev@, i as int, j as int),
                decreases dev@.values.len() - j,
            {
                let v = dev.value(j);
                if v.has_control() {
                    entries.push(RegistryEntry { state: v.control_id(), device: i, value: j });
                }
                proof {
                    assert(entries@ =~= network_entries(self@, i as int) + device_entries(dev@, i as int, j + 1));
                }
                j += 1;
            }
            i += 1;
        }
        CallbackMap { entries }
    }
}

} // verus!
