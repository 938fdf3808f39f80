//! Incremental per-device observations: which attached devices are ours and
//! eligible. Each probe result publishes on its own; a result that belongs to
//! an earlier sighting of a device is discarded, because every sighting gets
//! an epoch that was never handed out before.
use vstd::prelude::*;
use crate::text::str_eq;

verus! {

/// What is known of one attached device.
pub struct Observation {
    pub epoch: u64,
    pub identity: Option<String>,
    pub eligible: bool,
}

pub struct ObsView {
    pub epoch: nat,
    pub identity: Option<Seq<char>>,
    pub eligible: bool,
}

pub open spec fn opt_string(o: Option<String>) -> Option<Seq<char>> {
    match o {
        Some(s) => Some(s@),
        None => None,
    }
}

pub open spec fn obs_view(o: Observation) -> ObsView {
    ObsView { epoch: o.epoch as nat, identity: opt_string(o.identity), eligible: o.eligible }
}

pub open spec fn entry_view(e: (String, Observation)) -> (Seq<char>, ObsView) {
    (e.0@, obs_view(e.1))
}

/// A probe to run for a device: the epoch of the sighting it belongs to and
/// the identity already known, if any.
pub struct ProbeRequest {
    pub serial: String,
    pub epoch: u64,
    pub known: Option<String>,
}

pub struct ProbeView {
    pub serial: Seq<char>,
    pub epoch: nat,
    pub known: Option<Seq<char>>,
}

pub open spec fn probe_view(p: ProbeRequest) -> ProbeView {
    ProbeView { serial: p.serial@, epoch: p.epoch as nat, known: opt_string(p.known) }
}

pub struct DiscoveryView {
    pub inventory: Seq<Seq<char>>,
    pub observed: Seq<(Seq<char>, ObsView)>,
    pub next_epoch: nat,
}

pub struct Discovery {
    inventory: Vec<String>,
    observed: Vec<(String, Observation)>,
    next_epoch: u64,
}

pub open spec fn strs(s: Seq<String>) -> Seq<Seq<char>> {
    s.map_values(|x: String| x@)
}

impl View for Discovery {
    type V = DiscoveryView;

    closed spec fn view(&self) -> DiscoveryView {
        DiscoveryView {
            inventory: strs(self.inventory@),
            observed: self.observed@.map_values(|e: (String, Observation)| entry_view(e)),
            next_epoch: self.next_epoch as nat,
        }
    }
}

/// The observation of a device, the latest entry for it.
pub open spec fn lookup(obs: Seq<(Seq<char>, ObsView)>, k: Seq<char>) -> Option<ObsView>
    decreases obs.len(),
{
    if obs.len() == 0 {
        None
    } else if obs.last().0 == k {
        Some(obs.last().1)
    } else {
        lookup(obs.drop_last(), k)
    }
}

pub open spec fn unique_keys(obs: Seq<(Seq<char>, ObsView)>) -> bool {
    forall|i: int, j: int| 0 <= i < obs.len() && 0 <= j < obs.len() && i != j ==> obs[i].0 != obs[j].0
}

/// Every device observed once, with an epoch already handed out.
pub open spec fn wf_view(v: DiscoveryView) -> bool {
    &&& unique_keys(v.observed)
    &&& forall|i: int| 0 <= i < v.observed.len() ==> 1 <= (#[trigger] v.observed[i]).1.epoch <= v.next_epoch
}

/// The observations of the devices still attached.
pub open spec fn retained(obs: Seq<(Seq<char>, ObsView)>, devices: Seq<Seq<char>>) -> Seq<(Seq<char>, ObsView)>
    decreases obs.len(),
{
    if obs.len() == 0 {
        obs
    } else if devices.contains(obs.last().0) {
        retained(obs.drop_last(), devices).push(obs.last())
    } else {
        retained(obs.drop_last(), devices)
    }
}

/// New sightings, in device order, each with the next unused epoch.
pub open spec fn admitted(obs: Seq<(Seq<char>, ObsView)>, next: nat, devices: Seq<Seq<char>>) -> (Seq<(Seq<char>, ObsView)>, nat)
    decreases devices.len(),
{
    if devices.len() == 0 {
        (obs, next)
    } else {
        let (o, n) = admitted(obs, next, devices.drop_last());
        let s = devices.last();
        if lookup(o, s) is Some {
            (o, n)
        } else {
            (o.push((s, ObsView { epoch: n + 1, identity: None, eligible: false })), n + 1)
        }
    }
}

/// Devices that were in the inventory and are no longer attached.
pub open spec fn departed(inventory: Seq<Seq<char>>, devices: Seq<Seq<char>>) -> Seq<Seq<char>>
    decreases inventory.len(),
{
    if inventory.len() == 0 {
        inventory
    } else if devices.contains(inventory.last()) {
        departed(inventory.drop_last(), devices)
    } else {
        departed(inventory.drop_last(), devices).push(inventory.last())
    }
}

/// The state after a refresh with the attached `devices`.
pub open spec fn refreshed(v: DiscoveryView, devices: Seq<Seq<char>>) -> DiscoveryView {
    let (o, n) = admitted(retained(v.observed, devices), v.next_epoch, devices);
    DiscoveryView { inventory: devices, observed: o, next_epoch: n }
}

/// One probe per attached device, for its current sighting.
pub open spec fn probes_for(obs: Seq<(Seq<char>, ObsView)>, devices: Seq<Seq<char>>) -> Seq<ProbeView> {
    Seq::new(
        devices.len(),
        |i: int|
            ProbeView {
                serial: devices[i],
                epoch: lookup(obs, devices[i])->0.epoch,
                known: lookup(obs, devices[i])->0.identity,
            },
    )
}

/// A probe result is taken only for the sighting it was started for.
pub open spec fn accepted(v: DiscoveryView, serial: Seq<char>, epoch: nat) -> bool {
    lookup(v.observed, serial) matches Some(o) && o.epoch == epoch
}

/// The state after an accepted probe result.
pub open spec fn with_result(v: DiscoveryView, serial: Seq<char>, identity: Option<Seq<char>>, eligible: bool) -> DiscoveryView {
    DiscoveryView {
        observed: v.observed.map_values(
            |e: (Seq<char>, ObsView)|
                if e.0 == serial {
                    (e.0, ObsView { identity, eligible, ..e.1 })
                } else {
                    e
                },
        ),
        ..v
    }
}

/// The attached devices found eligible, in inventory order.
pub open spec fn eligible_from(inventory: Seq<Seq<char>>, obs: Seq<(Seq<char>, ObsView)>) -> Seq<Seq<char>>
    decreases inventory.len(),
{
    if inventory.len() == 0 {
        inventory
    } else if lookup(obs, inventory.last()) matches Some(o) && o.eligible {
        eligible_from(inventory.drop_last(), obs).push(inventory.last())
    } else {
        eligible_from(inventory.drop_last(), obs)
    }
}

proof fn lemma_lookup_index(obs: Seq<(Seq<char>, ObsView)>, k: Seq<char>, i: int)
    requires
        unique_keys(obs),
        0 <= i < obs.len(),
        obs[i].0 == k,
    ensures
        lookup(obs, k) == Some(obs[i].1),
    decreases obs.len(),
{
    if i < obs.len() - 1 {
        let d = obs.drop_last();
        assert(obs.last().0 != k) by {
            assert(obs[obs.len() - 1].0 != obs[i].0);
        }
        assert(unique_keys(d)) by {
            assert forall|a: int, b: int| 0 <= a < d.len() && 0 <= b < d.len() && a != b implies d[a].0
                != d[b].0 by {
                assert(d[a] == obs[a] && d[b] == obs[b]);
            }
        }
        assert(d[i] == obs[i]);
        lemma_lookup_index(d, k, i);
    }
}

proof fn lemma_lookup_absent(obs: Seq<(Seq<char>, ObsView)>, k: Seq<char>)
    requires
        forall|i: int| 0 <= i < obs.len() ==> obs[i].0 != k,
    ensures
        lookup(obs, k) is None,
    decreases obs.len(),
{
    if obs.len() > 0 {
        let d = obs.drop_last();
        assert(obs[obs.len() - 1].0 != k);
        assert forall|i: int| 0 <= i < d.len() implies d[i].0 != k by {
            assert(d[i] == obs[i]);
        }
        lemma_lookup_absent(d, k);
    }
}

proof fn lemma_lookup_some(obs: Seq<(Seq<char>, ObsView)>, k: Seq<char>)
    requires
        lookup(obs, k) is Some,
    ensures
        exists|i: int| 0 <= i < obs.len() && obs[i].0 == k && obs[i].1 == lookup(obs, k)->0,
    decreases obs.len(),
{
    if obs.last().0 != k {
        lemma_lookup_some(obs.drop_last(), k);
        let i = choose|i: int|
            0 <= i < obs.drop_last().len() && obs.drop_last()[i].0 == k && obs.drop_last()[i].1
                == lookup(obs.drop_last(), k)->0;
        assert(obs[i] == obs.drop_last()[i]);
    } else {
        assert(obs[obs.len() - 1].0 == k);
    }
}

proof fn lemma_retained(obs: Seq<(Seq<char>, ObsView)>, devices: Seq<Seq<char>>, bound: nat)
    requires
        unique_keys(obs),
        forall|i: int| 0 <= i < obs.len() ==> 1 <= (#[trigger] obs[i]).1.epoch <= bound,
    ensures
        unique_keys(retained(obs, devices)),
        forall|i: int|
            0 <= i < retained(obs, devices).len() ==> 1 <= (#[trigger] retained(obs, devices)[i]).1.epoch
                <= bound,
        forall|i: int|
            0 <= i < retained(obs, devices).len() ==> devices.contains(
                (#[trigger] retained(obs, devices)[i]).0,
            ),
        forall|i: int|
            0 <= i < retained(obs, devices).len() ==> exists|j: int|
                0 <= j < obs.len() && obs[j] == #[trigger] retained(obs, devices)[i],
    decreases obs.len(),
{
    if obs.len() > 0 {
        let d = obs.drop_last();
        assert(unique_keys(d)) by {
            assert forall|a: int, b: int| 0 <= a < d.len() && 0 <= b < d.len() && a != b implies d[a].0
                != d[b].0 by {
                assert(d[a] == obs[a] && d[b] == obs[b]);
            }
        }
        assert forall|i: int| 0 <= i < d.len() implies 1 <= (#[trigger] d[i]).1.epoch <= bound by {
            assert(d[i] == obs[i]);
        }
        lemma_retained(d, devices, bound);
        let p = retained(d, devices);
        if devices.contains(obs.last().0) {
            let q = p.push(obs.last());
            assert forall|i: int| 0 <= i < q.len() implies exists|j: int|
                0 <= j < obs.len() && obs[j] == #[trigger] q[i] by {
                if i < p.len() {
                    assert(q[i] == p[i]);
                    let j = choose|j: int| 0 <= j < d.len() && d[j] == p[i];
                    assert(obs[j] == d[j]);
                } else {
                    assert(obs[obs.len() - 1] == q[i]);
                }
            }
            assert forall|a: int, b: int| 0 <= a < q.len() && 0 <= b < q.len() && a != b implies q[a].0
                != q[b].0 by {
                if a < p.len() && b < p.len() {
                    assert(q[a] == p[a] && q[b] == p[b]);
                } else if a < p.len() {
                    assert(q[a] == p[a]);
                    let j = choose|j: int| 0 <= j < d.len() && d[j] == p[a];
                    assert(obs[j] == d[j]);
                    assert(obs[j].0 != obs[obs.len() - 1].0);
                } else {
                    assert(q[b] == p[b]);
                    let j = choose|j: int| 0 <= j < d.len() && d[j] == p[b];
                    assert(obs[j] == d[j]);
                    assert(obs[j].0 != obs[obs.len() - 1].0);
                }
            }
            assert forall|i: int| 0 <= i < q.len() implies 1 <= (#[trigger] q[i]).1.epoch <= bound by {
                if i < p.len() {
                    assert(q[i] == p[i]);
                }
            }
            assert forall|i: int| 0 <= i < q.len() implies devices.contains((#[trigger] q[i]).0) by {
                if i < p.len() {
                    assert(q[i] == p[i]);
                }
            }
        }
    }
}

proof fn lemma_admitted(obs: Seq<(Seq<char>, ObsView)>, next: nat, devices: Seq<Seq<char>>)
    requires
        unique_keys(obs),
        forall|i: int| 0 <= i < obs.len() ==> 1 <= (#[trigger] obs[i]).1.epoch <= next,
    ensures
        ({
            let (o, n) = admitted(obs, next, devices);
            &&& unique_keys(o)
            &&& next <= n <= next + devices.len()
            &&& forall|i: int| 0 <= i < o.len() ==> 1 <= (#[trigger] o[i]).1.epoch <= n
            &&& forall|k: Seq<char>| #[trigger] lookup(obs, k) is Some ==> lookup(o, k) == lookup(obs, k)
            &&& forall|k: Seq<char>|
                lookup(obs, k) is None && devices.contains(k) ==> (#[trigger] lookup(o, k) matches Some(
                    ob,
                ) && ob.epoch > next && ob.identity is None && !ob.eligible)
            &&& forall|k: Seq<char>| #[trigger] lookup(o, k) is Some ==> lookup(obs, k) is Some
                || devices.contains(k)
        }),
    decreases devices.len(),
{
    if devices.len() > 0 {
        let ds = devices.drop_last();
        lemma_admitted(obs, next, ds);
        let (o, n) = admitted(obs, next, ds);
        let s = devices.last();
        if lookup(o, s) is None {
            let e = (s, ObsView { epoch: n + 1, identity: None, eligible: false });
            let q = o.push(e);
            assert forall|i: int| 0 <= i < o.len() implies o[i].0 != s by {
                if o[i].0 == s {
                    lemma_lookup_index(o, s, i);
                }
            }
            assert forall|a: int, b: int| 0 <= a < q.len() && 0 <= b < q.len() && a != b implies q[a].0
                != q[b].0 by {
                if a < o.len() && b < o.len() {
                    assert(q[a] == o[a] && q[b] == o[b]);
                } else if a < o.len() {
                    assert(q[a] == o[a]);
                } else {
                    assert(q[b] == o[b]);
                }
            }
            assert forall|i: int| 0 <= i < q.len() implies 1 <= (#[trigger] q[i]).1.epoch <= n + 1 by {
                if i < o.len() {
                    assert(q[i] == o[i]);
                }
            }
            assert forall|k: Seq<char>| #[trigger] lookup(q, k) is Some implies lookup(obs, k) is Some
                || devices.contains(k) by {
                if k == s {
                    assert(devices[devices.len() - 1] == s);
                } else {
                    assert(q.drop_last() == o);
                    if lookup(o, k) is Some && lookup(obs, k) is None {
                        assert(ds.contains(k));
                        let j = choose|j: int| 0 <= j < ds.len() && ds[j] == k;
                        assert(devices[j] == k);
                    }
                }
            }
            assert forall|k: Seq<char>|
                lookup(obs, k) is None && devices.contains(k) implies (#[trigger] lookup(q, k) matches Some(
                ob,
            ) && ob.epoch > next && ob.identity is None && !ob.eligible) by {
                assert(q.drop_last() == o);
                if k != s {
                    let j = choose|j: int| 0 <= j < devices.len() && devices[j] == k;
                    assert(j < devices.len() - 1);
                    assert(ds[j] == k);
                    assert(ds.contains(k));
                }
            }
            assert forall|k: Seq<char>| #[trigger] lookup(obs, k) is Some implies lookup(q, k) == lookup(
                obs,
                k,
            ) by {
                assert(q.drop_last() == o);
                if k == s {
                    assert(lookup(o, s) == lookup(obs, s));
                }
            }
        } else {
            assert forall|k: Seq<char>|
                lookup(obs, k) is None && devices.contains(k) implies (#[trigger] lookup(o, k) matches Some(
                ob,
            ) && ob.epoch > next && ob.identity is None && !ob.eligible) by {
                if k == s {
                    if lookup(obs, s) is None {
                        assert(lookup(o, s) is Some);
                        if !ds.contains(s) {
                            assert(lookup(obs, s) is Some || ds.contains(s));
                        }
                    }
                } else {
                    let j = choose|j: int| 0 <= j < devices.len() && devices[j] == k;
                    assert(ds[j] == k);
                    assert(ds.contains(k));
                }
            }
            assert forall|k: Seq<char>| #[trigger] lookup(o, k) is Some implies lookup(obs, k) is Some
                || devices.contains(k) by {
                if lookup(o, k) is Some && lookup(obs, k) is None {
                    assert(ds.contains(k));
                    let j = choose|j: int| 0 <= j < ds.len() && ds[j] == k;
                    assert(devices[j] == k);
                }
            }
        }
    }
}


proof fn lemma_lookup_none(obs: Seq<(Seq<char>, ObsView)>, k: Seq<char>)
    requires
        lookup(obs, k) is None,
    ensures
        forall|i: int| 0 <= i < obs.len() ==> (#[trigger] obs[i]).0 != k,
    decreases obs.len(),
{
    if obs.len() > 0 {
        let d = obs.drop_last();
        lemma_lookup_none(d, k);
        assert forall|i: int| 0 <= i < obs.len() implies (#[trigger] obs[i]).0 != k by {
            if i < d.len() {
                assert(obs[i] == d[i]);
            }
        }
    }
}

/// A refresh keeps the state well formed and never reuses an epoch.
pub proof fn lemma_refreshed_wf(v: DiscoveryView, devices: Seq<Seq<char>>)
    requires
        wf_view(v),
    ensures
        wf_view(refreshed(v, devices)),
        v.next_epoch <= refreshed(v, devices).next_epoch <= v.next_epoch + devices.len(),
{
    lemma_retained(v.observed, devices, v.next_epoch);
    lemma_admitted(retained(v.observed, devices), v.next_epoch, devices);
}

/// A probe started for an earlier sighting of a device is never taken once
/// the device has left and come back: the new sighting's epoch is one that
/// was never handed out before.
pub proof fn lemma_stale_probe_rejected(v: DiscoveryView, gone: Seq<Seq<char>>, back: Seq<Seq<char>>, serial: Seq<char>, epoch: nat)
    requires
        wf_view(v),
        epoch <= v.next_epoch,
        !gone.contains(serial),
        back.contains(serial),
    ensures
        !accepted(refreshed(refreshed(v, gone), back), serial, epoch),
{
    lemma_retained(v.observed, gone, v.next_epoch);
    let r1 = retained(v.observed, gone);
    assert forall|i: int| 0 <= i < r1.len() implies (#[trigger] r1[i]).0 != serial by {
        assert(gone.contains(r1[i].0));
    }
    lemma_lookup_absent(r1, serial);
    lemma_admitted(r1, v.next_epoch, gone);
    lemma_refreshed_wf(v, gone);
    let v1 = refreshed(v, gone);
    assert(lookup(v1.observed, serial) is None);
    lemma_lookup_none(v1.observed, serial);
    lemma_retained(v1.observed, back, v1.next_epoch);
    let r2 = retained(v1.observed, back);
    assert forall|i: int| 0 <= i < r2.len() implies (#[trigger] r2[i]).0 != serial by {
        let j = choose|j: int| 0 <= j < v1.observed.len() && v1.observed[j] == r2[i];
        assert(v1.observed[j].0 != serial);
    }
    lemma_lookup_absent(r2, serial);
    lemma_admitted(r2, v1.next_epoch, back);
}

/// Position of a device's observation.
fn find_entry(observed: &Vec<(String, Observation)>, serial: &str) -> (r: Option<usize>)
    requires
        unique_keys(observed@.map_values(|e: (String, Observation)| entry_view(e))),
    ensures
        ({
            let obs = observed@.map_values(|e: (String, Observation)| entry_view(e));
            match r {
                Some(i) => i < obs.len() && obs[i as int].0 == serial@ && lookup(obs, serial@) == Some(
                    obs[i as int].1,
                ),
                None => lookup(obs, serial@) is None,
            }
        }),
{
    let ghost obs = observed@.map_values(|e: (String, Observation)| entry_view(e));
    let mut i: usize = 0;
    while i < observed.len()
        invariant
            i <= observed@.len(),
            obs == observed@.map_values(|e: (String, Observation)| entry_view(e)),
            unique_keys(obs),
            forall|j: int| 0 <= j < i ==> (#[trigger] obs[j]).0 != serial@,
        decreases observed@.len() - i,
    {
        if str_eq(observed[i].0.as_str(), serial) {
            assert(obs[i as int].0 == serial@);
            proof {
                lemma_lookup_index(obs, serial@, i as int);
            }
            return Some(i);
        }
        assert(obs[i as int].0 != serial@);
        i = i + 1;
    }
    proof {
        lemma_lookup_absent(obs, serial@);
    }
    None
}

fn clone_opt(o: &Option<String>) -> (r: Option<String>)
    ensures
        opt_string(r) == opt_string(*o),
{
    match o {
        Some(s) => Some(s.clone()),
        None => None,
    }
}

fn holds(list: &Vec<String>, serial: &str) -> (r: bool)
    ensures
        r == strs(list@).contains(serial@),
{
    let mut i: usize = 0;
    while i < list.len()
        invariant
            i <= list@.len(),
            forall|j: int| 0 <= j < i ==> strs(list@)[j] != serial@,
        decreases list@.len() - i,
    {
        if str_eq(list[i].as_str(), serial) {
            assert(strs(list@)[i as int] == serial@);
            return true;
        }
        i = i + 1;
    }
    false
}

impl Discovery {
    pub closed spec fn wf(&self) -> bool {
        wf_view(self@)
    }

    pub fn new() -> (r: Discovery)
        ensures
            r.wf(),
            r@.inventory.len() == 0,
            r@.observed.len() == 0,
            r@.next_epoch == 0,
    {
        let r = Discovery { inventory: Vec::new(), observed: Vec::new(), next_epoch: 0 };
        assert(r@.inventory =~= Seq::<Seq<char>>::empty());
        assert(r@.observed =~= Seq::<(Seq<char>, ObsView)>::empty());
        r
    }

    /// Take the attached devices: forget the departed ones (their running
    /// probes are for the caller to cancel, the first result), give each
    /// new sighting a fresh epoch, and ask for a probe of every attached
    /// device for its current sighting (the second result).
    pub fn refresh(&mut self, devices: Vec<String>) -> (r: (Vec<String>, Vec<ProbeRequest>))
        requires
            old(self).wf(),
            old(self)@.next_epoch + devices@.len() <= u64::MAX,
        ensures
            final(self).wf(),
            final(self)@ == refreshed(old(self)@, strs(devices@)),
            strs(r.0@) == departed(old(self)@.inventory, strs(devices@)),
            r.1@.map_values(|p: ProbeRequest| probe_view(p)) == probes_for(
                final(self)@.observed,
                strs(devices@),
            ),
    {
        let ghost v = self@;
        let ghost devs = strs(devices@);
        proof {
            lemma_refreshed_wf(v, devs);
            lemma_retained(v.observed, devs, v.next_epoch);
        }
        // Departed devices.
        let mut cancel: Vec<String> = Vec::new();
        let mut i: usize = 0;
        assert(v.inventory.subrange(0, 0) =~= Seq::<Seq<char>>::empty());
        while i < self.inventory.len()
            invariant
                i <= self.inventory@.len(),
                self@ == v,
                devs == strs(devices@),
                strs(cancel@) == departed(v.inventory.subrange(0, i as int), devs),
            decreases self.inventory@.len() - i,
        {
            proof {
                let next = v.inventory.subrange(0, i + 1);
                assert(next.drop_last() == v.inventory.subrange(0, i as int));
                assert(next.last() == self.inventory@[i as int]@);
            }
            if !holds(&devices, self.inventory[i].as_str()) {
                let ghost before = strs(cancel@);
                cancel.push(self.inventory[i].clone());
                assert(strs(cancel@) =~= before.push(self.inventory@[i as int]@));
            }
            i = i + 1;
        }
        assert(v.inventory.subrange(0, v.inventory.len() as int) == v.inventory);
        // Observations of the devices still attached.
        let mut old_obs: Vec<(String, Observation)> = Vec::new();
        std::mem::swap(&mut old_obs, &mut self.observed);
        let mut kept: Vec<(String, Observation)> = Vec::new();
        let ghost ov = v.observed;
        assert(old_obs@.map_values(|e: (String, Observation)| entry_view(e)) == ov);
        assert(ov.subrange(0, 0) =~= Seq::<(Seq<char>, ObsView)>::empty());
        assert(kept@.map_values(|e: (String, Observation)| entry_view(e)) =~= Seq::<(Seq<char>, ObsView)>::empty());
        let mut j: usize = 0;
        let n = old_obs.len();
        while j < n
            invariant
                n == old_obs@.len(),
                j <= n,
                devs == strs(devices@),
                old_obs@.map_values(|e: (String, Observation)| entry_view(e)) == ov,
                kept@.map_values(|e: (String, Observation)| entry_view(e)) == retained(
                    ov.subrange(0, j as int),
                    devs,
                ),
            decreases n - j,
        {
            proof {
                let next = ov.subrange(0, j + 1);
                assert(next.drop_last() == ov.subrange(0, j as int));
                assert(next.last() == entry_view(old_obs@[j as int]));
            }
            if holds(&devices, old_obs[j].0.as_str()) {
                let ghost before = kept@.map_values(|e: (String, Observation)| entry_view(e));
                let entry = (
                    old_obs[j].0.clone(),
                    Observation {
                        epoch: old_obs[j].1.epoch,
                        identity: clone_opt(&old_obs[j].1.identity),
                        eligible: old_obs[j].1.eligible,
                    },
                );
                assert(entry_view(entry) == entry_view(old_obs@[j as int]));
                kept.push(entry);
                assert(kept@.map_values(|e: (String, Observation)| entry_view(e)) =~= before.push(
                    entry_view(old_obs@[j as int]),
                ));
            }
            j = j + 1;
        }
        assert(ov.subrange(0, n as int) == ov);
        self.observed = kept;
        // New sightings.
        let ghost r0 = retained(ov, devs);
        assert(self@.observed == r0);
        let mut k: usize = 0;
        assert(devs.subrange(0, 0) =~= Seq::<Seq<char>>::empty());
        while k < devices.len()
            invariant
                k <= devices@.len(),
                devs == strs(devices@),
                v.next_epoch + devs.len() <= u64::MAX,
                unique_keys(r0),
                forall|x: int| 0 <= x < r0.len() ==> 1 <= (#[trigger] r0[x]).1.epoch <= v.next_epoch,
                (self@.observed, self@.next_epoch) == admitted(r0, v.next_epoch, devs.subrange(0, k as int)),
            decreases devices@.len() - k,
        {
            proof {
                lemma_admitted(r0, v.next_epoch, devs.subrange(0, k as int));
                let next = devs.subrange(0, k + 1);
                assert(next.drop_last() == devs.subrange(0, k as int));
                assert(next.last() == devices@[k as int]@);
            }
            match find_entry(&self.observed, devices[k].as_str()) {
                Some(_) => {},
                None => {
                    let ghost before = self@.observed;
                    let epoch = self.next_epoch + 1;
                    self.observed.push(
                        (devices[k].clone(), Observation { epoch, identity: None, eligible: false }),
                    );
                    self.next_epoch = epoch;
                    assert(self@.observed =~= before.push(
                        (devices@[k as int]@, ObsView { epoch: epoch as nat, identity: None, eligible: false }),
                    ));
                },
            }
            k = k + 1;
        }
        assert(devs.subrange(0, devs.len() as int) == devs);
        let ghost after = self@.observed;
        self.inventory = devices;
        assert(self@.observed == after);
        // One probe per attached device.
        let mut probes: Vec<ProbeRequest> = Vec::new();
        let mut m: usize = 0;
        while m < self.inventory.len()
            invariant
                m <= self.inventory@.len(),
                strs(self.inventory@) == devs,
                wf_view(self@),
                self@ == refreshed(v, devs),
                r0 == retained(v.observed, devs),
                unique_keys(r0),
                forall|x: int| 0 <= x < r0.len() ==> 1 <= (#[trigger] r0[x]).1.epoch <= v.next_epoch,
                probes@.len() == m,
                forall|x: int| 0 <= x < m ==> probe_view(#[trigger] probes@[x]) == probes_for(
                    self@.observed,
                    devs,
                )[x],
            decreases self.inventory@.len() - m,
        {
            proof {
                lemma_admitted(r0, v.next_epoch, devs);
            }
            assert(devs.contains(devs[m as int]));
            assert(devs[m as int] == self.inventory@[m as int]@);
            assert(lookup(self@.observed, devs[m as int]) is Some);
            let found = find_entry(&self.observed, self.inventory[m].as_str());
            match found {
                Some(p) => {
                    let request = ProbeRequest {
                        serial: self.inventory[m].clone(),
                        epoch: self.observed[p].1.epoch,
                        known: clone_opt(&self.observed[p].1.identity),
                    };
                    probes.push(request);
                },
                None => {
                    assert(false);
                },
            }
            m = m + 1;
        }
        assert(probes@.map_values(|p: ProbeRequest| probe_view(p)) =~= probes_for(self@.observed, devs));
        (cancel, probes)
    }

    /// Whether the device is being observed.
    pub fn present(&self, serial: &str) -> (r: bool)
        requires
            self.wf(),
        ensures
            r == lookup(self@.observed, serial@) is Some,
    {
        find_entry(&self.observed, serial).is_some()
    }

    /// The attached devices found eligible, in inventory order.
    pub fn eligible(&self) -> (r: Vec<String>)
        requires
            self.wf(),
        ensures
            strs(r@) == eligible_from(self@.inventory, self@.observed),
    {
        let mut out: Vec<String> = Vec::new();
        let ghost inv = self@.inventory;
        let mut i: usize = 0;
        assert(inv.subrange(0, 0) =~= Seq::<Seq<char>>::empty());
        assert(strs(out@) =~= Seq::<Seq<char>>::empty());
        while i < self.inventory.len()
            invariant
                i <= self.inventory@.len(),
                inv == self@.inventory,
                wf_view(self@),
                strs(out@) == eligible_from(inv.subrange(0, i as int), self@.observed),
            decreases self.inventory@.len() - i,
        {
            proof {
                let next = inv.subrange(0, i + 1);
                assert(next.drop_last() == inv.subrange(0, i as int));
                assert(next.last() == self.inventory@[i as int]@);
            }
            match find_entry(&self.observed, self.inventory[i].as_str()) {
                Some(p) => {
                    if self.observed[p].1.eligible {
                        let ghost before = strs(out@);
                        out.push(self.inventory[i].clone());
                        assert(strs(out@) =~= before.push(inv[i as int]));
                    }
                },
                None => {},
            }
            i = i + 1;
        }
        assert(inv.subrange(0, inv.len() as int) == inv);
        out
    }

    /// A probe result: taken only for the device's current sighting, and
    /// then returned with the identity found; otherwise nothing changes.
    pub fn accept(&mut self, serial: &str, epoch: u64, identity: Option<String>, eligible: bool) -> (r: Option<(String, Option<String>)>)
        requires
            old(self).wf(),
        ensures
            final(self).wf(),
            accepted(old(self)@, serial@, epoch as nat) ==> final(self)@ == with_result(
                old(self)@,
                serial@,
                opt_string(identity),
                eligible,
            ),
            accepted(old(self)@, serial@, epoch as nat) ==> (r matches Some(pair) && pair.0@ == serial@
                && opt_string(pair.1) == opt_string(identity)),
            !accepted(old(self)@, serial@, epoch as nat) ==> r is None && final(self)@ == old(self)@,
    {
        let ghost v = self@;
        let p = match find_entry(&self.observed, serial) {
            None => return None,
            Some(p) => p,
        };
        if self.observed[p].1.epoch != epoch {
            return None;
        }
        let key = self.observed[p].0.clone();
        let returned = clone_opt(&identity);
        let entry = (key, Observation { epoch, identity, eligible });
        self.observed.set(p, entry);
        proof {
            let w = with_result(v, serial@, opt_string(identity), eligible);
            assert forall|x: int| 0 <= x < self@.observed.len() implies self@.observed[x] == w.observed[x] by {
                if x != p {
                    assert(v.observed[x].0 != v.observed[p as int].0);
                }
            }
            assert(self@.observed =~= w.observed);
            assert forall|a: int, b: int|
                0 <= a < self@.observed.len() && 0 <= b < self@.observed.len() && a != b implies self@.observed[a].0
                != self@.observed[b].0 by {
                assert(v.observed[a].0 != v.observed[b].0);
            }
            assert forall|x: int| 0 <= x < self@.observed.len() implies 1 <= (#[trigger] self@.observed[x]).1.epoch
                <= self@.next_epoch by {
                assert(v.observed[x].1.epoch == self@.observed[x].1.epoch);
            }
        }
        let name = serial.to_owned();
        Some((name, returned))
    }
}

proof fn lemma_eligible_membership(inventory: Seq<Seq<char>>, obs: Seq<(Seq<char>, ObsView)>, s: Seq<char>)
    ensures
        eligible_from(inventory, obs).contains(s) <==> (inventory.contains(s) && lookup(obs, s) is Some
            && lookup(obs, s)->0.eligible),
    decreases inventory.len(),
{
    if inventory.len() > 0 {
        let rest = inventory.drop_last();
        lemma_eligible_membership(rest, obs, s);
        assert(inventory == rest.push(inventory.last()));
        assert(inventory.contains(s) <==> (rest.contains(s) || inventory.last() == s)) by {
            if inventory.contains(s) {
                let i = choose|i: int| 0 <= i < inventory.len() && inventory[i] == s;
                if i < rest.len() {
                    assert(rest[i] == s);
                }
            }
            if rest.contains(s) {
                let i = choose|i: int| 0 <= i < rest.len() && rest[i] == s;
                assert(inventory[i] == s);
            }
        }
        let prev = eligible_from(rest, obs);
        if lookup(obs, inventory.last()) matches Some(o) && o.eligible {
            assert(eligible_from(inventory, obs) == prev.push(inventory.last()));
            assert(prev.push(inventory.last()).contains(s) <==> (prev.contains(s) || inventory.last() == s)) by {
                let q = prev.push(inventory.last());
                if q.contains(s) {
                    let i = choose|i: int| 0 <= i < q.len() && q[i] == s;
                    if i < prev.len() {
                        assert(prev[i] == s);
                    }
                }
                if prev.contains(s) {
                    let i = choose|i: int| 0 <= i < prev.len() && prev[i] == s;
                    assert(q[i] == s);
                }
                if inventory.last() == s {
                    assert(q[prev.len() as int] == s);
                }
            }
        }
    }
}

proof fn lemma_lookup_with_result(v: DiscoveryView, serial: Seq<char>, identity: Option<Seq<char>>, eligible: bool, k: Seq<char>)
    ensures
        ({
            let updated = with_result(v, serial, identity, eligible).observed;
            &&& k == serial ==> lookup(updated, k) == (match lookup(v.observed, k) {
                Some(o) => Some(ObsView { identity, eligible, ..o }),
                None => None,
            })
            &&& k != serial ==> lookup(updated, k) == lookup(v.observed, k)
        }),
    decreases v.observed.len(),
{
    if v.observed.len() > 0 {
        let v2 = DiscoveryView { observed: v.observed.drop_last(), ..v };
        lemma_lookup_with_result(v2, serial, identity, eligible, k);
        let u = with_result(v, serial, identity, eligible).observed;
        let u2 = with_result(v2, serial, identity, eligible).observed;
        assert(u.drop_last() =~= u2);
        assert(u.last().0 == v.observed.last().0);
        if v.observed.last().0 == serial {
            assert(u.last().1 == ObsView { identity, eligible, ..v.observed.last().1 });
        } else {
            assert(u.last() == v.observed.last());
        }
    }
}

/// Eligibility law: once a probe result for a device's current sighting is
/// taken, the device is listed as eligible exactly when it is still attached
/// and that result said the app is usable on it, whatever identity it
/// reported; every other device's listing is unchanged.
pub proof fn lemma_result_decides_eligibility(v: DiscoveryView, serial: Seq<char>, epoch: nat, identity: Option<Seq<char>>, eligible: bool, other: Seq<char>)
    requires
        accepted(v, serial, epoch),
        other != serial,
    ensures
        ({
            let w = with_result(v, serial, identity, eligible);
            &&& eligible_from(w.inventory, w.observed).contains(serial) <==> (v.inventory.contains(serial)
                && eligible)
            &&& eligible_from(w.inventory, w.observed).contains(other) <==> eligible_from(
                v.inventory,
                v.observed,
            ).contains(other)
        }),
{
    let w = with_result(v, serial, identity, eligible);
    lemma_lookup_with_result(v, serial, identity, eligible, serial);
    lemma_lookup_with_result(v, serial, identity, eligible, other);
    lemma_eligible_membership(w.inventory, w.observed, serial);
    lemma_eligible_membership(w.inventory, w.observed, other);
    lemma_eligible_membership(v.inventory, v.observed, other);
}

} // verus!
