//! Shared network-provisioning state: the bounded credential list, the last
//! connection outcome, and the pending connect request with its wake signal.
//!
//! A single instance of [`WifiContext`] is created at process start and lives
//! for the process lifetime.  The surrounding runtime guards it with one lock
//! and never holds that lock across a suspension point; every function here
//! is a single non-blocking critical section over the state.

use vstd::prelude::*;

pub mod comm;
pub mod mgmt;

verus! {

/// Longest ssid, in bytes.
pub const MAX_SSID_LEN: usize = 32;

/// Longest network password, in bytes.
pub const MAX_PASSWORD_LEN: usize = 64;

/// One stored network: identity is the ssid; the list owning the credential
/// keeps ssids unique.
#[derive(Clone, Debug)]
pub struct WifiCredentials {
    pub ssid: Vec<u8>,
    pub password: Vec<u8>,
}

impl WifiCredentials {
    /// Both fields fit their wire bounds.
    pub open spec fn wf(self) -> bool {
        self.ssid@.len() <= MAX_SSID_LEN && self.password@.len() <= MAX_PASSWORD_LEN
    }
}

/// The mathematical value of a credential: its ssid bytes and password bytes.
pub open spec fn cred_view(c: WifiCredentials) -> (Seq<u8>, Seq<u8>) {
    (c.ssid@, c.password@)
}

/// The mathematical value of a credential list.
pub open spec fn nets_view(s: Seq<WifiCredentials>) -> Seq<(Seq<u8>, Seq<u8>)> {
    s.map_values(|c: WifiCredentials| cred_view(c))
}

/// Status codes of the network-commissioning cluster, as reported to
/// protocol clients.
#[derive(Clone, Copy, Debug, PartialEq, Eq, Structural)]
pub enum NetworkCommissioningStatus {
    Success,
    OutOfRange,
    BoundsExceeded,
    NetworkIdNotFound,
    DuplicateNetworkId,
    NetworkNotFound,
    RegulatoryError,
    AuthFailure,
    UnsupportedSecurity,
    OtherConnectionFailure,
    Ipv6Failed,
    IpBindFailed,
    UnknownError,
}

/// The wire code of each commissioning status.
pub open spec fn spec_status_code(s: NetworkCommissioningStatus) -> u8 {
    match s {
        NetworkCommissioningStatus::Success => 0,
        NetworkCommissioningStatus::OutOfRange => 1,
        NetworkCommissioningStatus::BoundsExceeded => 2,
        NetworkCommissioningStatus::NetworkIdNotFound => 3,
        NetworkCommissioningStatus::DuplicateNetworkId => 4,
        NetworkCommissioningStatus::NetworkNotFound => 5,
        NetworkCommissioningStatus::RegulatoryError => 6,
        NetworkCommissioningStatus::AuthFailure => 7,
        NetworkCommissioningStatus::UnsupportedSecurity => 8,
        NetworkCommissioningStatus::OtherConnectionFailure => 9,
        NetworkCommissioningStatus::Ipv6Failed => 10,
        NetworkCommissioningStatus::IpBindFailed => 11,
        NetworkCommissioningStatus::UnknownError => 12,
    }
}

/// The wire code of a commissioning status, as encoded in the
/// `LastNetworkingStatus` attribute.
pub fn status_code(s: NetworkCommissioningStatus) -> (r: u8)
    ensures
        r == spec_status_code(s),
{
    match s {
        NetworkCommissioningStatus::Success => 0,
        NetworkCommissioningStatus::OutOfRange => 1,
        NetworkCommissioningStatus::BoundsExceeded => 2,
        NetworkCommissioningStatus::NetworkIdNotFound => 3,
        NetworkCommissioningStatus::DuplicateNetworkId => 4,
        NetworkCommissioningStatus::NetworkNotFound => 5,
        NetworkCommissioningStatus::RegulatoryError => 6,
        NetworkCommissioningStatus::AuthFailure => 7,
        NetworkCommissioningStatus::UnsupportedSecurity => 8,
        NetworkCommissioningStatus::OtherConnectionFailure => 9,
        NetworkCommissioningStatus::Ipv6Failed => 10,
        NetworkCommissioningStatus::IpBindFailed => 11,
        NetworkCommissioningStatus::UnknownError => 12,
    }
}

/// Outcome of the last connect attempt, written by the network manager.
#[derive(Clone, Debug)]
pub struct ConnectionStatus {
    /// The ssid the attempt was for.
    pub ssid: Vec<u8>,
    /// The per-protocol status code of the attempt.
    pub status: NetworkCommissioningStatus,
    /// Signed diagnostic code of the platform network layer.
    pub value: i32,
}

impl ConnectionStatus {
    pub open spec fn wf(self) -> bool {
        self.ssid@.len() <= MAX_SSID_LEN
    }
}

/// One list entry fits its wire bounds (ssid bytes, password bytes).
pub open spec fn pair_wf(p: (Seq<u8>, Seq<u8>)) -> bool {
    p.0.len() <= MAX_SSID_LEN && p.1.len() <= MAX_PASSWORD_LEN
}

/// Every entry of the list fits its wire bounds.
pub open spec fn views_wf(nets: Seq<(Seq<u8>, Seq<u8>)>) -> bool {
    forall|i: int| 0 <= i < nets.len() ==> pair_wf(#[trigger] nets[i])
}

/// No two entries share an ssid.
pub open spec fn view_unique(nets: Seq<(Seq<u8>, Seq<u8>)>) -> bool {
    forall|i: int, j: int| 0 <= i < j < nets.len() ==> (#[trigger] nets[i]).0 != (#[trigger] nets[j]).0
}

/// Some entry has this ssid.
pub open spec fn view_has_ssid(nets: Seq<(Seq<u8>, Seq<u8>)>, id: Seq<u8>) -> bool {
    exists|i: int| 0 <= i < nets.len() && (#[trigger] nets[i]).0 == id
}

/// The position of the entry with this ssid; meaningful when
/// `view_has_ssid(nets, id)` holds, and unique when ssids are unique.
pub open spec fn view_index_of(nets: Seq<(Seq<u8>, Seq<u8>)>, id: Seq<u8>) -> int {
    choose|i: int| 0 <= i < nets.len() && (#[trigger] nets[i]).0 == id
}

/// In a list with unique ssids, any position holding `id` is the one that
/// `view_index_of` picks.
pub proof fn lemma_index_of_unique(nets: Seq<(Seq<u8>, Seq<u8>)>, id: Seq<u8>, i: int)
    requires
        view_unique(nets),
        0 <= i < nets.len(),
        nets[i].0 == id,
    ensures
        view_has_ssid(nets, id),
        view_index_of(nets, id) == i,
{
    assert(view_has_ssid(nets, id));
    let j = view_index_of(nets, id);
    if i < j {
        assert(nets[i].0 != nets[j].0);
    } else if j < i {
        assert(nets[j].0 != nets[i].0);
    }
}

/// What adding or updating a network does to the list: overwrite the
/// password in place when the ssid is present, append when there is room,
/// and leave the list as it is when it is full.
pub open spec fn model_add(
    nets: Seq<(Seq<u8>, Seq<u8>)>,
    cap: nat,
    id: Seq<u8>,
    pw: Seq<u8>,
) -> Seq<(Seq<u8>, Seq<u8>)> {
    if view_has_ssid(nets, id) {
        nets.update(view_index_of(nets, id), (id, pw))
    } else if nets.len() < cap {
        nets.push((id, pw))
    } else {
        nets
    }
}

/// What removing a network does to the list.
pub open spec fn model_remove(nets: Seq<(Seq<u8>, Seq<u8>)>, id: Seq<u8>) -> Seq<
    (Seq<u8>, Seq<u8>),
> {
    if view_has_ssid(nets, id) {
        nets.remove(view_index_of(nets, id))
    } else {
        nets
    }
}

/// What reordering a network does to the list: the entry moves to
/// `index` when the ssid is present and `index` is below the current
/// length; otherwise nothing changes.
pub open spec fn model_reorder(nets: Seq<(Seq<u8>, Seq<u8>)>, id: Seq<u8>, index: int) -> Seq<
    (Seq<u8>, Seq<u8>),
> {
    if view_has_ssid(nets, id) && 0 <= index < nets.len() {
        nets.remove(view_index_of(nets, id)).insert(index, nets[view_index_of(nets, id)])
    } else {
        nets
    }
}

/// One list-mutating protocol command, at the level of the mathematical
/// model.  Inputs past their wire bounds are carried as they came: the
/// step function rejects them without touching the list, as the cluster
/// does.
pub ghost enum NetworkCommand {
    AddOrUpdate { ssid: Seq<u8>, password: Seq<u8> },
    Remove { ssid: Seq<u8> },
    Reorder { ssid: Seq<u8>, index: int },
}

/// What one command does to the credential list.
pub open spec fn model_step(
    nets: Seq<(Seq<u8>, Seq<u8>)>,
    cap: nat,
    c: NetworkCommand,
) -> Seq<(Seq<u8>, Seq<u8>)> {
    match c {
        NetworkCommand::AddOrUpdate { ssid, password } => {
            if ssid.len() <= MAX_SSID_LEN && password.len() <= MAX_PASSWORD_LEN {
                model_add(nets, cap, ssid, password)
            } else {
                nets
            }
        },
        NetworkCommand::Remove { ssid } => model_remove(nets, ssid),
        NetworkCommand::Reorder { ssid, index } => model_reorder(nets, ssid, index),
    }
}

/// What a whole sequence of commands does to the credential list.
pub open spec fn model_run(
    nets: Seq<(Seq<u8>, Seq<u8>)>,
    cap: nat,
    cs: Seq<NetworkCommand>,
) -> Seq<(Seq<u8>, Seq<u8>)>
    decreases cs.len(),
{
    if cs.len() == 0 {
        nets
    } else {
        model_step(model_run(nets, cap, cs.drop_last()), cap, cs.last())
    }
}

/// Removing an entry keeps the bounds and the uniqueness of the list, and
/// removes its ssid entirely.
pub proof fn lemma_remove_keeps_invariants(nets: Seq<(Seq<u8>, Seq<u8>)>, i: int)
    requires
        views_wf(nets),
        view_unique(nets),
        0 <= i < nets.len(),
    ensures
        views_wf(nets.remove(i)),
        view_unique(nets.remove(i)),
        !view_has_ssid(nets.remove(i), nets[i].0),
{
    let t = nets.remove(i);
    assert forall|a: int| 0 <= a < t.len() implies pair_wf(#[trigger] t[a]) by {
        if a < i {
            assert(t[a] == nets[a]);
        } else {
            assert(t[a] == nets[a + 1]);
        }
    }
    assert forall|a: int, b: int| 0 <= a < b < t.len() implies (#[trigger] t[a]).0 != (
    #[trigger] t[b]).0 by {
        let oa = if a < i {
            a
        } else {
            a + 1
        };
        let ob = if b < i {
            b
        } else {
            b + 1
        };
        assert(t[a] == nets[oa]);
        assert(t[b] == nets[ob]);
    }
    assert forall|a: int| 0 <= a < t.len() implies (#[trigger] t[a]).0 != nets[i].0 by {
        if a < i {
            assert(t[a] == nets[a]);
        } else {
            assert(t[a] == nets[a + 1]);
        }
    }
}

/// Inserting an entry with a fresh ssid keeps the bounds and the
/// uniqueness of the list.
pub proof fn lemma_insert_keeps_invariants(
    nets: Seq<(Seq<u8>, Seq<u8>)>,
    k: int,
    p: (Seq<u8>, Seq<u8>),
)
    requires
        views_wf(nets),
        view_unique(nets),
        pair_wf(p),
        !view_has_ssid(nets, p.0),
        0 <= k <= nets.len(),
    ensures
        views_wf(nets.insert(k, p)),
        view_unique(nets.insert(k, p)),
{
    let t = nets.insert(k, p);
    assert forall|a: int| 0 <= a < nets.len() implies (#[trigger] nets[a]).0 != p.0 by {
        assert(!(exists|i: int| 0 <= i < nets.len() && (#[trigger] nets[i]).0 == p.0));
    }
    assert forall|a: int| 0 <= a < t.len() implies pair_wf(#[trigger] t[a]) by {
        if a < k {
            assert(t[a] == nets[a]);
        } else if a == k {
            assert(t[a] == p);
        } else {
            assert(t[a] == nets[a - 1]);
        }
    }
    assert forall|a: int, b: int| 0 <= a < b < t.len() implies (#[trigger] t[a]).0 != (
    #[trigger] t[b]).0 by {
        if a < k {
            assert(t[a] == nets[a]);
        } else if a == k {
            assert(t[a] == p);
        } else {
            assert(t[a] == nets[a - 1]);
        }
        if b < k {
            assert(t[b] == nets[b]);
        } else if b == k {
            assert(t[b] == p);
        } else {
            assert(t[b] == nets[b - 1]);
        }
    }
}

/// One command keeps the list within its capacity, its entries within
/// their wire bounds, and its ssids unique.
pub proof fn lemma_step_keeps_invariants(
    nets: Seq<(Seq<u8>, Seq<u8>)>,
    cap: nat,
    c: NetworkCommand,
)
    requires
        nets.len() <= cap,
        views_wf(nets),
        view_unique(nets),
    ensures
        model_step(nets, cap, c).len() <= cap,
        views_wf(model_step(nets, cap, c)),
        view_unique(model_step(nets, cap, c)),
{
    let t = model_step(nets, cap, c);
    match c {
        NetworkCommand::AddOrUpdate { ssid, password } => {
            if ssid.len() <= MAX_SSID_LEN && password.len() <= MAX_PASSWORD_LEN {
                if view_has_ssid(nets, ssid) {
                    let i = view_index_of(nets, ssid);
                    assert(0 <= i < nets.len() && nets[i].0 == ssid);
                    assert forall|a: int| 0 <= a < t.len() implies pair_wf(#[trigger] t[a]) by {
                        if a != i {
                            assert(t[a] == nets[a]);
                        }
                    }
                    assert forall|a: int, b: int| 0 <= a < b < t.len() implies (
                    #[trigger] t[a]).0 != (#[trigger] t[b]).0 by {
                        assert(t[a].0 == nets[a].0);
                        assert(t[b].0 == nets[b].0);
                    }
                } else if nets.len() < cap {
                    lemma_insert_keeps_invariants(nets, nets.len() as int, (ssid, password));
                    assert(nets.insert(nets.len() as int, (ssid, password)) =~= nets.push(
                        (ssid, password),
                    ));
                }
            }
        },
        NetworkCommand::Remove { ssid } => {
            if view_has_ssid(nets, ssid) {
                lemma_remove_keeps_invariants(nets, view_index_of(nets, ssid));
            }
        },
        NetworkCommand::Reorder { ssid, index } => {
            if view_has_ssid(nets, ssid) && 0 <= index < nets.len() {
                let i = view_index_of(nets, ssid);
                assert(0 <= i < nets.len() && nets[i].0 == ssid);
                lemma_remove_keeps_invariants(nets, i);
                lemma_insert_keeps_invariants(nets.remove(i), index, nets[i]);
            }
        },
    }
}

/// Law: under every sequence of add, remove and reorder commands the
/// credential list never exceeds its capacity and its ssids stay unique.
pub proof fn lemma_command_sequences_keep_invariants(
    nets: Seq<(Seq<u8>, Seq<u8>)>,
    cap: nat,
    cs: Seq<NetworkCommand>,
)
    requires
        nets.len() <= cap,
        views_wf(nets),
        view_unique(nets),
    ensures
        model_run(nets, cap, cs).len() <= cap,
        views_wf(model_run(nets, cap, cs)),
        view_unique(model_run(nets, cap, cs)),
    decreases cs.len(),
{
    if cs.len() > 0 {
        lemma_command_sequences_keep_invariants(nets, cap, cs.drop_last());
        lemma_step_keeps_invariants(model_run(nets, cap, cs.drop_last()), cap, cs.last());
    }
}

/// Law: waking the manager reads the stored connect request, never the
/// signal.  Two states that agree on the request decide alike, wherever
/// their signals stand, so a signal that fired before the manager started
/// waiting loses nothing.
pub proof fn lemma_wake_ignores_signal(a: WifiContext, b: WifiContext)
    requires
        a.connect_requested == b.connect_requested,
    ensures
        a.connect_req() == b.connect_req(),
{
}

/// Law: a cleared dirty flag certifies that the list equals the last
/// persisted snapshot.  Divergence from the snapshot always shows as a
/// raised flag, so a crash between a mutation and the next storage write
/// leaves the flag standing: the durability boundary is the write.
pub proof fn lemma_clean_means_persisted(ctx: WifiContext)
    requires
        ctx.wf(),
    ensures
        ctx.nets() != ctx.saved@ ==> ctx.changed,
{
}

pub(crate) proof fn lemma_view_update(s: Seq<WifiCredentials>, i: int, c: WifiCredentials)
    requires
        0 <= i < s.len(),
    ensures
        nets_view(s.update(i, c)) =~= nets_view(s).update(i, cred_view(c)),
{
}

pub(crate) proof fn lemma_view_push(s: Seq<WifiCredentials>, c: WifiCredentials)
    ensures
        nets_view(s.push(c)) =~= nets_view(s).push(cred_view(c)),
{
}

pub(crate) proof fn lemma_view_remove(s: Seq<WifiCredentials>, i: int)
    requires
        0 <= i < s.len(),
    ensures
        nets_view(s.remove(i)) =~= nets_view(s).remove(i),
{
}

pub(crate) proof fn lemma_view_insert(s: Seq<WifiCredentials>, i: int, c: WifiCredentials)
    requires
        0 <= i <= s.len(),
    ensures
        nets_view(s.insert(i, c)) =~= nets_view(s).insert(i, cred_view(c)),
{
}

/// Whether two byte vectors hold the same bytes.
pub(crate) fn bytes_eq(a: &Vec<u8>, b: &Vec<u8>) -> (r: bool)
    ensures
        r == (a@ == b@),
{
    if a.len() != b.len() {
        return false;
    }
    let mut i: usize = 0;
    while i < a.len()
        invariant
            i <= a@.len(),
            a@.len() == b@.len(),
            forall|j: int| 0 <= j < i ==> a@[j] == b@[j],
        decreases a@.len() - i,
    {
        if a[i] != b[i] {
            return false;
        }
        i += 1;
    }
    proof {
        assert(a@ =~= b@);
    }
    true
}

/// A fresh vector with the same bytes.
pub(crate) fn copy_bytes(v: &Vec<u8>) -> (r: Vec<u8>)
    ensures
        r@ == v@,
{
    let mut r: Vec<u8> = Vec::new();
    let mut i: usize = 0;
    while i < v.len()
        invariant
            i <= v@.len(),
            r@ =~= v@.subrange(0, i as int),
        decreases v@.len() - i,
    {
        r.push(v[i]);
        i += 1;
    }
    proof {
        assert(r@ =~= v@);
    }
    r
}

/// How `add_or_update_network` changed the list.
#[derive(Clone, Copy, Debug, PartialEq, Eq, Structural)]
pub enum AddOutcome {
    /// The ssid was present; its password was overwritten at this position.
    Updated(usize),
    /// The ssid was new; it was appended at this position.
    Added(usize),
    /// The ssid was new and the list was full; nothing changed.
    Full,
}

/// How `reorder_network` changed the list.
#[derive(Clone, Copy, Debug, PartialEq, Eq, Structural)]
pub enum ReorderOutcome {
    /// The ssid was not in the list; nothing changed.
    NotFound,
    /// The requested index was not below the list length; nothing changed.
    OutOfRange,
    /// The entry now stands at this position.
    Moved(usize),
}

/// The shared provisioning state.  One instance exists per process; the
/// runtime guards it with a single lock and calls every method here inside
/// one critical section.
pub struct WifiContext {
    /// Known credentials; insertion order is the priority order that the
    /// protocol's network index speaks of.
    pub networks: Vec<WifiCredentials>,
    /// Outcome of the last connect attempt; absent until the first attempt.
    pub status: Option<ConnectionStatus>,
    /// Pending connect request: intent, not committed state.
    pub connect_requested: Option<Vec<u8>>,
    /// True whenever `networks` differs from the last persisted snapshot.
    pub changed: bool,
    /// Single-slot, last-write-wins wake signal for the network manager.
    pub connect_signal: bool,
    /// Capacity bound of `networks`.
    pub capacity: usize,
    /// The last snapshot handed to storage (ghost; tracks the durability
    /// boundary).
    pub saved: Ghost<Seq<(Seq<u8>, Seq<u8>)>>,
}

impl WifiContext {
    /// The mathematical value of the credential list.
    pub open spec fn nets(self) -> Seq<(Seq<u8>, Seq<u8>)> {
        nets_view(self.networks@)
    }

    /// The pending connect request, as plain bytes.
    pub open spec fn connect_req(self) -> Option<Seq<u8>> {
        match self.connect_requested {
            Some(v) => Some(v@),
            None => None,
        }
    }

    /// All invariants of the shared state: the list is bounded by the
    /// capacity, entries fit their wire bounds, ssids are unique, and a
    /// cleared dirty flag means the list equals the last persisted snapshot.
    pub open spec fn wf(self) -> bool {
        &&& self.networks@.len() <= self.capacity
        &&& views_wf(self.nets())
        &&& view_unique(self.nets())
        &&& (self.status matches Some(s) ==> s.wf())
        &&& (self.connect_requested matches Some(id) ==> id@.len() <= MAX_SSID_LEN)
        &&& (!self.changed ==> self.nets() == self.saved@)
    }

    /// The position of the first (and, with unique ssids, only) entry whose
    /// ssid equals `network_id`.
    pub fn find_network(&self, network_id: &Vec<u8>) -> (r: Option<usize>)
        ensures
            match r {
                Some(i) => i < self.nets().len() && self.nets()[i as int].0 == network_id@
                    && view_has_ssid(self.nets(), network_id@),
                None => !view_has_ssid(self.nets(), network_id@),
            },
    {
        let mut i: usize = 0;
        while i < self.networks.len()
            invariant
                i <= self.networks@.len(),
                forall|j: int| 0 <= j < i ==> (#[trigger] nets_view(self.networks@)[j]).0 != network_id@,
            decreases self.networks@.len() - i,
        {
            if bytes_eq(&self.networks[i].ssid, network_id) {
                proof {
                    assert(nets_view(self.networks@)[i as int] == cred_view(self.networks@[i as int]));
                }
                return Some(i);
            }
            i += 1;
        }
        None
    }

    /// Fresh, unprovisioned state: empty list, no status, no request.
    pub fn new(capacity: usize) -> (r: WifiContext)
        ensures
            r.wf(),
            r.nets() == Seq::<(Seq<u8>, Seq<u8>)>::empty(),
            r.status is None,
            r.connect_req() is None,
            !r.changed,
            !r.connect_signal,
            r.capacity == capacity,
    {
        let networks: Vec<WifiCredentials> = Vec::new();
        proof {
            assert(nets_view(networks@) =~= Seq::<(Seq<u8>, Seq<u8>)>::empty());
        }
        WifiContext {
            networks,
            status: None,
            connect_requested: None,
            changed: false,
            connect_signal: false,
            capacity,
            saved: Ghost(Seq::empty()),
        }
    }

    /// Seed the state from a persisted snapshot.  The snapshot is accepted
    /// only when it respects every invariant: entries within their wire
    /// bounds, unique ssids, and no more entries than the capacity.  The
    /// seeded state starts clean: the list equals what storage holds.
    pub fn load(networks: Vec<WifiCredentials>, capacity: usize) -> (r: Option<WifiContext>)
        ensures
            r is Some <==> (networks@.len() <= capacity && views_wf(nets_view(networks@))
                && view_unique(nets_view(networks@))),
            match r {
                Some(ctx) => {
                    &&& ctx.wf()
                    &&& ctx.nets() == nets_view(networks@)
                    &&& ctx.status is None
                    &&& ctx.connect_req() is None
                    &&& !ctx.changed
                    &&& !ctx.connect_signal
                    &&& ctx.capacity == capacity
                },
                None => true,
            },
    {
        if networks.len() > capacity {
            return None;
        }
        let ghost v = nets_view(networks@);
        let mut i: usize = 0;
        while i < networks.len()
            invariant
                i <= networks@.len(),
                v == nets_view(networks@),
                forall|a: int| 0 <= a < i ==> pair_wf(#[trigger] v[a]),
                forall|a: int, b: int| 0 <= a < b < i ==> (#[trigger] v[a]).0 != (#[trigger] v[b]).0,
            decreases networks@.len() - i,
        {
            if networks[i].ssid.len() > MAX_SSID_LEN || networks[i].password.len()
                > MAX_PASSWORD_LEN {
                proof {
                    assert(!pair_wf(v[i as int]));
                }
                return None;
            }
            let mut j: usize = 0;
            while j < i
                invariant
                    j <= i < networks@.len(),
                    v == nets_view(networks@),
                    forall|k: int| 0 <= k < j ==> (#[trigger] v[k]).0 != v[i as int].0,
                decreases i - j,
            {
                if bytes_eq(&networks[j].ssid, &networks[i].ssid) {
                    proof {
                        assert(v[j as int].0 == v[i as int].0);
                        assert(!view_unique(v));
                    }
                    return None;
                }
                j += 1;
            }
            i += 1;
        }
        Some(
            WifiContext {
                networks,
                status: None,
                connect_requested: None,
                changed: false,
                connect_signal: false,
                capacity,
                saved: Ghost(v),
            },
        )
    }

    /// Overwrite the password of a present ssid in place, or append a new
    /// credential when there is room; a full list stays untouched.  Every
    /// change to the list raises the dirty flag.
    pub fn add_or_update_network(&mut self, ssid: &Vec<u8>, password: &Vec<u8>) -> (r: AddOutcome)
        requires
            old(self).wf(),
            ssid@.len() <= MAX_SSID_LEN,
            password@.len() <= MAX_PASSWORD_LEN,
        ensures
            final(self).wf(),
            final(self).nets() == model_add(
                old(self).nets(),
                old(self).capacity as nat,
                ssid@,
                password@,
            ),
            final(self).capacity == old(self).capacity,
            final(self).status == old(self).status,
            final(self).connect_requested == old(self).connect_requested,
            final(self).connect_signal == old(self).connect_signal,
            final(self).saved == old(self).saved,
            match r {
                AddOutcome::Updated(i) => {
                    &&& view_has_ssid(old(self).nets(), ssid@)
                    &&& i == view_index_of(old(self).nets(), ssid@)
                    &&& final(self).nets() =~= old(self).nets().update(i as int, (ssid@, password@))
                    &&& final(self).changed
                },
                AddOutcome::Added(i) => {
                    &&& !view_has_ssid(old(self).nets(), ssid@)
                    &&& old(self).nets().len() < old(self).capacity
                    &&& i == old(self).nets().len()
                    &&& final(self).nets() =~= old(self).nets().push((ssid@, password@))
                    &&& final(self).changed
                },
                AddOutcome::Full => {
                    &&& !view_has_ssid(old(self).nets(), ssid@)
                    &&& old(self).nets().len() >= old(self).capacity
                    &&& *final(self) == *old(self)
                },
            },
    {
        let found = self.find_network(ssid);
        match found {
            Some(i) => {
                let ghost pre = self.networks@;
                let cred = WifiCredentials { ssid: copy_bytes(ssid), password: copy_bytes(password) };
                self.networks.set(i, cred);
                self.changed = true;
                proof {
                    lemma_index_of_unique(nets_view(pre), ssid@, i as int);
                    lemma_view_update(
                        pre,
                        i as int,
                        WifiCredentials { ssid: self.networks@[i as int].ssid, password: self.networks@[i as int].password },
                    );
                    assert(self.networks@ =~= pre.update(i as int, self.networks@[i as int]));
                    assert(nets_view(self.networks@) =~= nets_view(pre).update(i as int, (ssid@, password@)));
                    let newv = nets_view(self.networks@);
                    let oldv = nets_view(pre);
                    assert forall|a: int| 0 <= a < newv.len() implies pair_wf(#[trigger] newv[a]) by {
                        if a != i as int {
                            assert(newv[a] == oldv[a]);
                        }
                    }
                    assert forall|a: int, b: int| 0 <= a < b < newv.len() implies (
                    #[trigger] newv[a]).0 != (#[trigger] newv[b]).0 by {
                        assert(newv[a].0 == oldv[a].0);
                        assert(newv[b].0 == oldv[b].0);
                        assert(oldv[a].0 != oldv[b].0);
                    }
                }
                AddOutcome::Updated(i)
            },
            None => {
                if self.networks.len() < self.capacity {
                    let ghost pre = self.networks@;
                    let pos = self.networks.len();
                    let cred = WifiCredentials {
                        ssid: copy_bytes(ssid),
                        password: copy_bytes(password),
                    };
                    self.networks.push(cred);
                    self.changed = true;
                    proof {
                        lemma_view_push(pre, self.networks@.last());
                        assert(nets_view(self.networks@) =~= nets_view(pre).push((ssid@, password@)));
                        lemma_insert_keeps_invariants(
                            nets_view(pre),
                            pre.len() as int,
                            (ssid@, password@),
                        );
                        assert(nets_view(pre).insert(pre.len() as int, (ssid@, password@)) =~= nets_view(
                            pre,
                        ).push((ssid@, password@)));
                    }
                    AddOutcome::Added(pos)
                } else {
                    AddOutcome::Full
                }
            },
        }
    }

    /// Remove the entry with this ssid, if present, and raise the dirty
    /// flag; an absent ssid leaves the state untouched.  Returns the removed
    /// position.
    pub fn remove_network(&mut self, network_id: &Vec<u8>) -> (r: Option<usize>)
        requires
            old(self).wf(),
        ensures
            final(self).wf(),
            final(self).nets() == model_remove(old(self).nets(), network_id@),
            final(self).capacity == old(self).capacity,
            final(self).status == old(self).status,
            final(self).connect_requested == old(self).connect_requested,
            final(self).connect_signal == old(self).connect_signal,
            final(self).saved == old(self).saved,
            match r {
                Some(i) => {
                    &&& view_has_ssid(old(self).nets(), network_id@)
                    &&& i == view_index_of(old(self).nets(), network_id@)
                    &&& final(self).nets() =~= old(self).nets().remove(i as int)
                    &&& final(self).changed
                },
                None => {
                    &&& !view_has_ssid(old(self).nets(), network_id@)
                    &&& *final(self) == *old(self)
                },
            },
    {
        let found = self.find_network(network_id);
        match found {
            Some(i) => {
                let ghost pre = self.networks@;
                self.networks.remove(i);
                self.changed = true;
                proof {
                    lemma_index_of_unique(nets_view(pre), network_id@, i as int);
                    lemma_view_remove(pre, i as int);
                    lemma_remove_keeps_invariants(nets_view(pre), i as int);
                }
                Some(i)
            },
            None => None,
        }
    }

    /// Move the entry with this ssid to `new_index`, raising the dirty
    /// flag.  An absent ssid or an index at or past the current length
    /// leaves the state untouched.
    pub fn reorder_network(&mut self, network_id: &Vec<u8>, new_index: usize) -> (r:
        ReorderOutcome)
        requires
            old(self).wf(),
        ensures
            final(self).wf(),
            final(self).nets() == model_reorder(old(self).nets(), network_id@, new_index as int),
            final(self).capacity == old(self).capacity,
            final(self).status == old(self).status,
            final(self).connect_requested == old(self).connect_requested,
            final(self).connect_signal == old(self).connect_signal,
            final(self).saved == old(self).saved,
            match r {
                ReorderOutcome::NotFound => {
                    &&& !view_has_ssid(old(self).nets(), network_id@)
                    &&& *final(self) == *old(self)
                },
                ReorderOutcome::OutOfRange => {
                    &&& view_has_ssid(old(self).nets(), network_id@)
                    &&& new_index >= old(self).nets().len()
                    &&& *final(self) == *old(self)
                },
                ReorderOutcome::Moved(i) => {
                    &&& view_has_ssid(old(self).nets(), network_id@)
                    &&& new_index < old(self).nets().len()
                    &&& i == new_index
                    &&& final(self).nets() =~= old(self).nets().remove(
                        view_index_of(old(self).nets(), network_id@),
                    ).insert(
                        new_index as int,
                        old(self).nets()[view_index_of(old(self).nets(), network_id@)],
                    )
                    &&& final(self).changed
                },
            },
    {
        let found = self.find_network(network_id);
        match found {
            None => ReorderOutcome::NotFound,
            Some(i) => {
                if new_index >= self.networks.len() {
                    ReorderOutcome::OutOfRange
                } else {
                    let ghost pre = self.networks@;
                    let cred = self.networks.remove(i);
                    let ghost mid = self.networks@;
                    self.networks.insert(new_index, cred);
                    self.changed = true;
                    proof {
                        lemma_index_of_unique(nets_view(pre), network_id@, i as int);
                        lemma_view_remove(pre, i as int);
                        lemma_remove_keeps_invariants(nets_view(pre), i as int);
                        lemma_view_insert(mid, new_index as int, pre[i as int]);
                        assert(cred_view(pre[i as int]) == nets_view(pre)[i as int]);
                        lemma_insert_keeps_invariants(
                            nets_view(mid),
                            new_index as int,
                            nets_view(pre)[i as int],
                        );
                        assert(nets_view(self.networks@) =~= nets_view(pre).remove(i as int).insert(
                            new_index as int,
                            nets_view(pre)[i as int],
                        ));
                    }
                    ReorderOutcome::Moved(new_index)
                }
            },
        }
    }

    /// Record the intent to connect to this ssid and raise the wake signal,
    /// whether or not the ssid is in the list.  The request is transient:
    /// it is not persisted and does not touch the dirty flag.
    pub fn request_connect(&mut self, network_id: &Vec<u8>)
        requires
            old(self).wf(),
            network_id@.len() <= MAX_SSID_LEN,
        ensures
            final(self).wf(),
            final(self).connect_req() == Some(network_id@),
            final(self).connect_signal,
            final(self).networks == old(self).networks,
            final(self).status == old(self).status,
            final(self).changed == old(self).changed,
            final(self).capacity == old(self).capacity,
            final(self).saved == old(self).saved,
    {
        self.connect_requested = Some(copy_bytes(network_id));
        self.connect_signal = true;
    }

    /// Whether a connect request is pending.  The supervisor polls this to
    /// short-circuit commissioning when credentials are already known.
    pub fn connect_pending(&self) -> (r: bool)
        ensures
            r == (self.connect_req() is Some),
    {
        self.connect_requested.is_some()
    }

    /// Take the pending connect request and clear the wake signal.  The
    /// decision depends on the stored request alone, never on the signal:
    /// a signal that fired early is a hint, not the state.
    pub fn take_connect_request(&mut self) -> (r: Option<Vec<u8>>)
        requires
            old(self).wf(),
        ensures
            final(self).wf(),
            match r {
                Some(v) => old(self).connect_req() == Some(v@) && v@.len() <= MAX_SSID_LEN,
                None => old(self).connect_req() is None,
            },
            final(self).connect_req() is None,
            !final(self).connect_signal,
            final(self).networks == old(self).networks,
            final(self).status == old(self).status,
            final(self).changed == old(self).changed,
            final(self).capacity == old(self).capacity,
            final(self).saved == old(self).saved,
    {
        self.connect_signal = false;
        let mut taken: Option<Vec<u8>> = None;
        core::mem::swap(&mut taken, &mut self.connect_requested);
        taken
    }

    /// The stored credential for this ssid, as a fresh value.
    pub fn credential_for(&self, network_id: &Vec<u8>) -> (r: Option<WifiCredentials>)
        requires
            self.wf(),
        ensures
            match r {
                Some(c) => view_has_ssid(self.nets(), network_id@) && c.ssid@ == network_id@
                    && cred_view(c) == self.nets()[view_index_of(self.nets(), network_id@)]
                    && c.wf(),
                None => !view_has_ssid(self.nets(), network_id@),
            },
    {
        let found = self.find_network(network_id);
        match found {
            Some(i) => {
                proof {
                    lemma_index_of_unique(self.nets(), network_id@, i as int);
                    assert(self.nets()[i as int] == cred_view(self.networks@[i as int]));
                }
                let c = &self.networks[i];
                Some(WifiCredentials { ssid: copy_bytes(&c.ssid), password: copy_bytes(&c.password) })
            },
            None => None,
        }
    }

    /// Record the outcome of a connect attempt.  The network manager is the
    /// sole caller.
    pub fn set_status(&mut self, status: ConnectionStatus)
        requires
            old(self).wf(),
            status.wf(),
        ensures
            final(self).wf(),
            final(self).status == Some(status),
            final(self).networks == old(self).networks,
            final(self).connect_requested == old(self).connect_requested,
            final(self).connect_signal == old(self).connect_signal,
            final(self).changed == old(self).changed,
            final(self).capacity == old(self).capacity,
            final(self).saved == old(self).saved,
    {
        self.status = Some(status);
    }

    /// Whether the list differs from the last persisted snapshot and a
    /// storage write is due.
    pub fn needs_save(&self) -> (r: bool)
        ensures
            r == self.changed,
    {
        self.changed
    }

    /// Clear the dirty flag after a successful storage write of the current
    /// list.  This is the only operation that lowers the flag: the
    /// durability boundary sits at the write, not at the mutation.
    pub fn mark_saved(&mut self)
        requires
            old(self).wf(),
        ensures
            final(self).wf(),
            !final(self).changed,
            final(self).saved@ == final(self).nets(),
            final(self).networks == old(self).networks,
            final(self).status == old(self).status,
            final(self).connect_requested == old(self).connect_requested,
            final(self).connect_signal == old(self).connect_signal,
            final(self).capacity == old(self).capacity,
    {
        self.changed = false;
        proof {
            self.saved@ = self.nets();
        }
    }
}

} // verus!
