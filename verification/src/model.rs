use vstd::prelude::*;
use vstd::string::*;

use crate::connection::{
    clone_opt_string, clone_string_list, ActivationState, ActiveConnection, ActiveConnectionView,
    ConnectionProfile, MasterFilter, MasterFilterView, StoredConnection, StoredConnectionView,
};
use crate::error::NmError;
use crate::util::str_seq_view;

verus! {

/// One request a reconciliation state machine asks its driver to carry out
/// against the backend, or the machine's final verdict.
#[derive(Debug)]
pub enum BackendOp {
    /// Fetch all stored connections.
    ListConnections,
    /// Fetch all active connections.
    ListActiveConnections,
    /// Ask whether a device with this interface name exists.
    GetDevice(String),
    /// Store a new connection built from this profile.
    AddConnection(ConnectionProfile),
    /// Activate the stored connection `connection` on the named device.
    ActivateConnection { connection: u64, device: String },
    /// Deactivate the active connection with this handle.
    DeactivateConnection(u64),
    /// Delete the stored connection with this handle.
    DeleteConnection(u64),
    /// Subscribe to state changes of the active connection with this handle.
    Subscribe(u64),
    /// Keep listening for the next state-change notification.
    AwaitState,
    /// The machine is done; no further request follows.
    Finish(Result<(), NmError>),
}

/// The backend's answer to one [`BackendOp`].
#[derive(Debug)]
pub enum BackendEvent {
    Connections(Vec<StoredConnection>),
    ActiveConnections(Vec<ActiveConnection>),
    /// Whether the asked-for device exists.
    Device(bool),
    /// The stored connection just added, or nothing when the backend refused.
    Added(Option<StoredConnection>),
    /// The resulting active connection, or nothing when the backend refused.
    Activated(Option<ActiveConnection>),
    /// Whether the deactivation took place.
    Deactivated(bool),
    /// Whether the deletion took place.
    Deleted(bool),
    /// One state-change notification for the subscribed connection.
    StateChanged(ActivationState),
}

/// The shape of an event, used to align a machine's expectation with the
/// request it issued.
#[derive(Clone, Copy, Debug, PartialEq, Eq, Structural)]
pub enum EventTag {
    Connections,
    ActiveConnections,
    Device,
    Added,
    Activated,
    Deactivated,
    Deleted,
    StateChanged,
}

pub open spec fn event_tag(ev: BackendEvent) -> EventTag {
    match ev {
        BackendEvent::Connections(_) => EventTag::Connections,
        BackendEvent::ActiveConnections(_) => EventTag::ActiveConnections,
        BackendEvent::Device(_) => EventTag::Device,
        BackendEvent::Added(_) => EventTag::Added,
        BackendEvent::Activated(_) => EventTag::Activated,
        BackendEvent::Deactivated(_) => EventTag::Deactivated,
        BackendEvent::Deleted(_) => EventTag::Deleted,
        BackendEvent::StateChanged(_) => EventTag::StateChanged,
    }
}

/// The shape of the event that answers a request; a finished machine awaits
/// none.
pub open spec fn op_event_tag(op: BackendOp) -> Option<EventTag> {
    match op {
        BackendOp::ListConnections => Some(EventTag::Connections),
        BackendOp::ListActiveConnections => Some(EventTag::ActiveConnections),
        BackendOp::GetDevice(_) => Some(EventTag::Device),
        BackendOp::AddConnection(_) => Some(EventTag::Added),
        BackendOp::ActivateConnection { .. } => Some(EventTag::Activated),
        BackendOp::DeactivateConnection(_) => Some(EventTag::Deactivated),
        BackendOp::DeleteConnection(_) => Some(EventTag::Deleted),
        BackendOp::Subscribe(_) => Some(EventTag::StateChanged),
        BackendOp::AwaitState => Some(EventTag::StateChanged),
        BackendOp::Finish(_) => None,
    }
}

/// The values of a list of stored connections.
pub open spec fn stored_list_view(v: Seq<StoredConnection>) -> Seq<StoredConnectionView> {
    Seq::new(v.len(), |i: int| v[i]@)
}

/// The values of a list of active connections.
pub open spec fn active_list_view(v: Seq<ActiveConnection>) -> Seq<ActiveConnectionView> {
    Seq::new(v.len(), |i: int| v[i]@)
}

pub fn clone_stored_list(v: &Vec<StoredConnection>) -> (r: Vec<StoredConnection>)
    ensures
        stored_list_view(r@) == stored_list_view(v@),
{
    let mut out: Vec<StoredConnection> = Vec::new();
    let mut i: usize = 0;
    while i < v.len()
        invariant
            i <= v@.len(),
            out@.len() == i,
            forall|j: int| 0 <= j < i ==> out@[j]@ == v@[j]@,
        decreases v@.len() - i,
    {
        out.push(v[i].clone());
        i += 1;
    }
    proof {
        assert(stored_list_view(out@) =~= stored_list_view(v@));
    }
    out
}

pub fn clone_active_list(v: &Vec<ActiveConnection>) -> (r: Vec<ActiveConnection>)
    ensures
        active_list_view(r@) == active_list_view(v@),
{
    let mut out: Vec<ActiveConnection> = Vec::new();
    let mut i: usize = 0;
    while i < v.len()
        invariant
            i <= v@.len(),
            out@.len() == i,
            forall|j: int| 0 <= j < i ==> out@[j]@ == v@[j]@,
        decreases v@.len() - i,
    {
        out.push(v[i].clone());
        i += 1;
    }
    proof {
        assert(active_list_view(out@) =~= active_list_view(v@));
    }
    out
}

/// First stored connection with this handle, from index `i` on.
pub open spec fn spec_find_stored_by_handle(
    conns: Seq<StoredConnection>,
    h: u64,
    i: int,
) -> Option<int>
    decreases conns.len() - i,
{
    if i < 0 || i >= conns.len() {
        None
    } else if conns[i]@.handle == h {
        Some(i)
    } else {
        spec_find_stored_by_handle(conns, h, i + 1)
    }
}

/// First active connection whose underlying stored connection has this
/// handle, from index `i` on.
pub open spec fn spec_find_active_for(
    actives: Seq<ActiveConnection>,
    h: u64,
    i: int,
) -> Option<int>
    decreases actives.len() - i,
{
    if i < 0 || i >= actives.len() {
        None
    } else if actives[i]@.connection.handle == h {
        Some(i)
    } else {
        spec_find_active_for(actives, h, i + 1)
    }
}

/// First active connection with this handle of its own, from index `i` on.
pub open spec fn spec_find_active_by_handle(
    actives: Seq<ActiveConnection>,
    h: u64,
    i: int,
) -> Option<int>
    decreases actives.len() - i,
{
    if i < 0 || i >= actives.len() {
        None
    } else if actives[i]@.handle == h {
        Some(i)
    } else {
        spec_find_active_by_handle(actives, h, i + 1)
    }
}

/// Whether this active connection is enslaved to a master with the given
/// interface name.
pub open spec fn spec_enslaved_to(a: ActiveConnectionView, master: Option<Seq<char>>) -> bool {
    match master {
        Some(m) => a.connection.profile.master == MasterFilterView::Named(m),
        None => false,
    }
}

/// An executable model of the network-configuration backend: the set of
/// stored connections, the set of active connections, the devices that
/// exist, and how activations behave. It answers the same requests the real
/// backend does, which lets whole reconciliations run against it.
#[derive(Debug)]
pub struct BackendModel {
    pub connections: Vec<StoredConnection>,
    pub active: Vec<ActiveConnection>,
    /// Interface names of the devices that exist.
    pub devices: Vec<String>,
    /// The next unused handle.
    pub next_handle: u64,
    /// The state a newly created activation starts in.
    pub new_active_state: ActivationState,
    /// The state every subscription notification reports.
    pub notified_state: ActivationState,
}

/// Everything of the model except the connection and active lists.
pub open spec fn model_rest_unchanged(a: &BackendModel, b: &BackendModel) -> bool {
    &&& a.devices@ == b.devices@
    &&& a.next_handle == b.next_handle
    &&& a.new_active_state == b.new_active_state
    &&& a.notified_state == b.notified_state
}

/// The whole model, compared by value.
pub open spec fn model_unchanged(a: &BackendModel, b: &BackendModel) -> bool {
    &&& a.connections@ == b.connections@
    &&& a.active@ == b.active@
    &&& model_rest_unchanged(a, b)
}

/// Handle sanity: every handle the model has given out lies below its
/// next-handle counter, and no two records share one. Holds of a fresh
/// model and is kept by every operation.
pub open spec fn spec_handles_ok(m: &BackendModel) -> bool {
    &&& forall|i: int|
        0 <= i < m.connections@.len() ==> #[trigger] m.connections@[i]@.handle < m.next_handle
    &&& forall|i: int|
        0 <= i < m.active@.len() ==> #[trigger] m.active@[i]@.handle < m.next_handle
            && m.active@[i]@.connection.handle < m.next_handle
    &&& forall|i: int, j: int|
        0 <= i < j < m.connections@.len() ==> #[trigger] m.connections@[i]@.handle != #[trigger] m.connections@[j]@.handle
    &&& forall|i: int, j: int|
        0 <= i < j < m.active@.len() ==> #[trigger] m.active@[i]@.handle != #[trigger] m.active@[j]@.handle
}

/// Pins the first-stored-by-handle search to its defining properties.
pub proof fn lemma_find_stored_by_handle_props(conns: Seq<StoredConnection>, h: u64, i: int)
    requires
        0 <= i <= conns.len(),
    ensures
        match spec_find_stored_by_handle(conns, h, i) {
            Some(k) => i <= k < conns.len() && conns[k]@.handle == h && (forall|j: int|
                i <= j < k ==> conns[j]@.handle != h),
            None => forall|j: int| i <= j < conns.len() ==> conns[j]@.handle != h,
        },
    decreases conns.len() - i,
{
    if i < conns.len() {
        if conns[i]@.handle != h {
            lemma_find_stored_by_handle_props(conns, h, i + 1);
        }
    }
}

/// Pins the first-active-for-a-stored-handle search to its defining
/// properties.
pub proof fn lemma_find_active_for_props(actives: Seq<ActiveConnection>, h: u64, i: int)
    requires
        0 <= i <= actives.len(),
    ensures
        match spec_find_active_for(actives, h, i) {
            Some(k) => i <= k < actives.len() && actives[k]@.connection.handle == h && (forall|
                j: int,
            |
                i <= j < k ==> actives[j]@.connection.handle != h),
            None => forall|j: int| i <= j < actives.len() ==> actives[j]@.connection.handle != h,
        },
    decreases actives.len() - i,
{
    if i < actives.len() {
        if actives[i]@.connection.handle != h {
            lemma_find_active_for_props(actives, h, i + 1);
        }
    }
}

/// Pins the first-active-by-handle search to its defining properties.
pub proof fn lemma_find_active_by_handle_props(actives: Seq<ActiveConnection>, h: u64, i: int)
    requires
        0 <= i <= actives.len(),
    ensures
        match spec_find_active_by_handle(actives, h, i) {
            Some(k) => i <= k < actives.len() && actives[k]@.handle == h && (forall|j: int|
                i <= j < k ==> actives[j]@.handle != h),
            None => forall|j: int| i <= j < actives.len() ==> actives[j]@.handle != h,
        },
    decreases actives.len() - i,
{
    if i < actives.len() {
        if actives[i]@.handle != h {
            lemma_find_active_by_handle_props(actives, h, i + 1);
        }
    }
}

fn find_stored_by_handle(conns: &Vec<StoredConnection>, h: u64) -> (r: Option<usize>)
    ensures
        match r {
            Some(i) => i < conns@.len() && spec_find_stored_by_handle(conns@, h, 0) == Some(
                i as int,
            ),
            None => spec_find_stored_by_handle(conns@, h, 0) is None,
        },
{
    let mut i: usize = 0;
    while i < conns.len()
        invariant
            i <= conns@.len(),
            spec_find_stored_by_handle(conns@, h, 0) == spec_find_stored_by_handle(
                conns@,
                h,
                i as int,
            ),
        decreases conns@.len() - i,
    {
        if conns[i].handle == h {
            return Some(i);
        }
        i += 1;
    }
    None
}

fn find_active_for(actives: &Vec<ActiveConnection>, h: u64) -> (r: Option<usize>)
    ensures
        match r {
            Some(i) => i < actives@.len() && spec_find_active_for(actives@, h, 0) == Some(i as int),
            None => spec_find_active_for(actives@, h, 0) is None,
        },
{
    let mut i: usize = 0;
    while i < actives.len()
        invariant
            i <= actives@.len(),
            spec_find_active_for(actives@, h, 0) == spec_find_active_for(actives@, h, i as int),
        decreases actives@.len() - i,
    {
        if actives[i].connection.handle == h {
            return Some(i);
        }
        i += 1;
    }
    None
}

fn find_active_by_handle(actives: &Vec<ActiveConnection>, h: u64) -> (r: Option<usize>)
    ensures
        match r {
            Some(i) => i < actives@.len() && spec_find_active_by_handle(actives@, h, 0) == Some(
                i as int,
            ),
            None => spec_find_active_by_handle(actives@, h, 0) is None,
        },
{
    let mut i: usize = 0;
    while i < actives.len()
        invariant
            i <= actives@.len(),
            spec_find_active_by_handle(actives@, h, 0) == spec_find_active_by_handle(
                actives@,
                h,
                i as int,
            ),
        decreases actives@.len() - i,
    {
        if actives[i].handle == h {
            return Some(i);
        }
        i += 1;
    }
    None
}

impl BackendModel {
    /// An empty backend with the given devices, whose activations come up in
    /// state `new_active_state` and whose notifications report
    /// `notified_state`.
    pub fn new(
        devices: Vec<String>,
        new_active_state: ActivationState,
        notified_state: ActivationState,
    ) -> (r: BackendModel)
        ensures
            r.connections@.len() == 0,
            r.active@.len() == 0,
            str_seq_view(r.devices@) == str_seq_view(devices@),
            r.next_handle == 1,
            r.new_active_state == new_active_state,
            r.notified_state == notified_state,
    {
        BackendModel {
            connections: Vec::new(),
            active: Vec::new(),
            devices,
            next_handle: 1,
            new_active_state,
            notified_state,
        }
    }

    /// Carries out one request and produces its answer, mirroring the
    /// backend's documented behavior: adding stores a profile under a fresh
    /// handle and auto-activates it when it wants to autoconnect; activating
    /// an already-active connection returns the existing activation;
    /// deactivating a connection also deactivates its slaves; deleting
    /// removes the stored record and its activations.
    pub fn answer(&mut self, op: &BackendOp) -> (ev: BackendEvent)
        requires
            op_event_tag(*op) is Some,
        ensures
            event_tag(ev) == op_event_tag(*op).unwrap(),
            match *op {
                BackendOp::ListConnections => model_unchanged(old(self), final(self)) && (
                ev matches BackendEvent::Connections(v) && stored_list_view(v@)
                    == stored_list_view(old(self).connections@)),
                BackendOp::ListActiveConnections => model_unchanged(old(self), final(self)) && (
                ev matches BackendEvent::ActiveConnections(v) && active_list_view(v@)
                    == active_list_view(old(self).active@)),
                BackendOp::GetDevice(ref name) => model_unchanged(old(self), final(self)) && (
                ev matches BackendEvent::Device(b) && b == str_seq_view(
                    old(self).devices@,
                ).contains(name@)),
                BackendOp::AddConnection(ref p) => spec_add_effect(old(self), final(self), p@, ev),
                BackendOp::ActivateConnection { connection, device: _ } => spec_activate_effect(
                    old(self),
                    final(self),
                    connection,
                    ev,
                ),
                BackendOp::DeactivateConnection(h) => spec_deactivate_effect(
                    old(self),
                    final(self),
                    h,
                    ev,
                ),
                BackendOp::DeleteConnection(h) => spec_delete_effect(old(self), final(self), h, ev),
                BackendOp::Subscribe(_) => model_unchanged(old(self), final(self)) && ev
                    == BackendEvent::StateChanged(old(self).notified_state),
                BackendOp::AwaitState => model_unchanged(old(self), final(self)) && ev
                    == BackendEvent::StateChanged(old(self).notified_state),
                BackendOp::Finish(_) => false,
            },
    {
        match op {
            BackendOp::ListConnections => BackendEvent::Connections(
                clone_stored_list(&self.connections),
            ),
            BackendOp::ListActiveConnections => BackendEvent::ActiveConnections(
                clone_active_list(&self.active),
            ),
            BackendOp::GetDevice(name) => BackendEvent::Device(
                crate::util::contains_string(&self.devices, name),
            ),
            BackendOp::AddConnection(p) => self.do_add(p),
            BackendOp::ActivateConnection { connection, device: _ } => self.do_activate(
                *connection,
            ),
            BackendOp::DeactivateConnection(h) => self.do_deactivate(*h),
            BackendOp::DeleteConnection(h) => self.do_delete(*h),
            BackendOp::Subscribe(_) => BackendEvent::StateChanged(self.notified_state),
            BackendOp::AwaitState => BackendEvent::StateChanged(self.notified_state),
            BackendOp::Finish(_) => {
                proof {
                    assert(false);
                }
                BackendEvent::Deleted(false)
            },
        }
    }

    fn do_add(&mut self, p: &ConnectionProfile) -> (ev: BackendEvent)
        ensures
            spec_add_effect(old(self), final(self), p@, ev),
            event_tag(ev) == EventTag::Added,
    {
        if self.next_handle > u64::MAX - 2 {
            return BackendEvent::Added(None);
        }
        let handle = self.next_handle;
        let stored = StoredConnection { handle, profile: p.clone() };
        let answer = stored.clone();
        let ghost pre_conns = stored_list_view(self.connections@);
        self.connections.push(stored);
        proof {
            assert(stored_list_view(self.connections@) =~= pre_conns.push(
                StoredConnectionView { handle, profile: p@ },
            ));
        }
        if p.autoconnect {
            let active = ActiveConnection {
                handle: handle + 1,
                connection: answer.clone(),
                state: self.new_active_state,
                ip4_addresses: Vec::new(),
            };
            let ghost pre_active = active_list_view(self.active@);
            let ghost av = active@;
            self.active.push(active);
            self.next_handle = handle + 2;
            proof {
                assert(active_list_view(self.active@) =~= pre_active.push(av));
                assert(av.ip4_addresses =~= Seq::<Seq<char>>::empty());
            }
        } else {
            self.next_handle = handle + 1;
        }
        BackendEvent::Added(Some(answer))
    }

    fn do_activate(&mut self, h: u64) -> (ev: BackendEvent)
        ensures
            spec_activate_effect(old(self), final(self), h, ev),
            event_tag(ev) == EventTag::Activated,
    {
        match find_active_for(&self.active, h) {
            Some(j) => BackendEvent::Activated(Some(self.active[j].clone())),
            None => match find_stored_by_handle(&self.connections, h) {
                None => BackendEvent::Activated(None),
                Some(k) => {
                    if self.next_handle > u64::MAX - 1 {
                        return BackendEvent::Activated(None);
                    }
                    let active = ActiveConnection {
                        handle: self.next_handle,
                        connection: self.connections[k].clone(),
                        state: self.new_active_state,
                        ip4_addresses: Vec::new(),
                    };
                    let answer = active.clone();
                    let ghost pre_active = active_list_view(self.active@);
                    let ghost av = active@;
                    self.active.push(active);
                    self.next_handle = self.next_handle + 1;
                    proof {
                        assert(active_list_view(self.active@) =~= pre_active.push(av));
                        assert(av.ip4_addresses =~= Seq::<Seq<char>>::empty());
                    }
                    BackendEvent::Activated(Some(answer))
                },
            },
        }
    }

    #[verifier::rlimit(100)]
    fn do_deactivate(&mut self, h: u64) -> (ev: BackendEvent)
        ensures
            spec_deactivate_effect(old(self), final(self), h, ev),
            event_tag(ev) == EventTag::Deactivated,
    {
        let j = match find_active_by_handle(&self.active, h) {
            Some(j) => j,
            None => {
                return BackendEvent::Deactivated(false);
            },
        };
        let master = clone_opt_string(&self.active[j].connection.profile.interface_name);
        let ghost m = crate::connection::opt_str_view(master);
        let ghost pred = |a: ActiveConnectionView| a.handle != h && !spec_enslaved_to(a, m);
        let ghost w = active_list_view(self.active@);
        let mut kept: Vec<ActiveConnection> = Vec::new();
        let mut i: usize = 0;
        proof {
            reveal(Seq::filter);
            assert(active_list_view(kept@) =~= w.take(0).filter(pred));
        }
        while i < self.active.len()
            invariant
                i <= self.active@.len(),
                w == active_list_view(self.active@),
                m == crate::connection::opt_str_view(master),
                pred == (|a: ActiveConnectionView| a.handle != h && !spec_enslaved_to(a, m)),
                active_list_view(kept@) == w.take(i as int).filter(pred),
            decreases self.active@.len() - i,
        {
            let a = &self.active[i];
            let keep = if a.handle == h {
                false
            } else {
                let enslaved = match (&master, &a.connection.profile.master) {
                    (Some(mname), MasterFilter::Named(am)) => *am == *mname,
                    _ => false,
                };
                !enslaved
            };
            proof {
                reveal(Seq::filter);
                let t1 = w.take(i as int + 1);
                assert(t1.drop_last() =~= w.take(i as int));
                assert(t1.last() == w[i as int]);
                assert(keep == pred(w[i as int]));
                assert(t1.filter(pred) == if pred(w[i as int]) {
                    w.take(i as int).filter(pred).push(w[i as int])
                } else {
                    w.take(i as int).filter(pred)
                });
            }
            let ghost pre_kept = active_list_view(kept@);
            if keep {
                kept.push(a.clone());
                proof {
                    assert(active_list_view(kept@) =~= pre_kept.push(w[i as int]));
                }
            }
            i += 1;
        }
        proof {
            assert(w.take(w.len() as int) =~= w);
        }
        self.active = kept;
        BackendEvent::Deactivated(true)
    }

    #[verifier::rlimit(100)]
    fn do_delete(&mut self, h: u64) -> (ev: BackendEvent)
        ensures
            spec_delete_effect(old(self), final(self), h, ev),
            event_tag(ev) == EventTag::Deleted,
    {
        if find_stored_by_handle(&self.connections, h).is_none() {
            return BackendEvent::Deleted(false);
        }
        let ghost cpred = |c: StoredConnectionView| c.handle != h;
        let ghost cw = stored_list_view(self.connections@);
        let mut kept: Vec<StoredConnection> = Vec::new();
        let mut i: usize = 0;
        proof {
            reveal(Seq::filter);
            assert(stored_list_view(kept@) =~= cw.take(0).filter(cpred));
        }
        while i < self.connections.len()
            invariant
                i <= self.connections@.len(),
                cw == stored_list_view(self.connections@),
                cpred == (|c: StoredConnectionView| c.handle != h),
                stored_list_view(kept@) == cw.take(i as int).filter(cpred),
            decreases self.connections@.len() - i,
        {
            let c = &self.connections[i];
            proof {
                reveal(Seq::filter);
                let t1 = cw.take(i as int + 1);
                assert(t1.drop_last() =~= cw.take(i as int));
                assert(t1.last() == cw[i as int]);
                assert((c.handle != h) == cpred(cw[i as int]));
                assert(t1.filter(cpred) == if cpred(cw[i as int]) {
                    cw.take(i as int).filter(cpred).push(cw[i as int])
                } else {
                    cw.take(i as int).filter(cpred)
                });
            }
            let ghost pre_kept = stored_list_view(kept@);
            if c.handle != h {
                kept.push(c.clone());
                proof {
                    assert(stored_list_view(kept@) =~= pre_kept.push(cw[i as int]));
                }
            }
            i += 1;
        }
        proof {
            assert(cw.take(cw.len() as int) =~= cw);
        }
        self.connections = kept;

        let ghost apred = |a: ActiveConnectionView| a.connection.handle != h;
        let ghost aw = active_list_view(self.active@);
        let mut akept: Vec<ActiveConnection> = Vec::new();
        let mut i2: usize = 0;
        proof {
            reveal(Seq::filter);
            assert(active_list_view(akept@) =~= aw.take(0).filter(apred));
        }
        while i2 < self.active.len()
            invariant
                i2 <= self.active@.len(),
                aw == active_list_view(self.active@),
                apred == (|a: ActiveConnectionView| a.connection.handle != h),
                active_list_view(akept@) == aw.take(i2 as int).filter(apred),
            decreases self.active@.len() - i2,
        {
            let a = &self.active[i2];
            proof {
                reveal(Seq::filter);
                let t1 = aw.take(i2 as int + 1);
                assert(t1.drop_last() =~= aw.take(i2 as int));
                assert(t1.last() == aw[i2 as int]);
                assert((a.connection.handle != h) == apred(aw[i2 as int]));
                assert(t1.filter(apred) == if apred(aw[i2 as int]) {
                    aw.take(i2 as int).filter(apred).push(aw[i2 as int])
                } else {
                    aw.take(i2 as int).filter(apred)
                });
            }
            let ghost pre_kept = active_list_view(akept@);
            if a.connection.handle != h {
                akept.push(a.clone());
                proof {
                    assert(active_list_view(akept@) =~= pre_kept.push(aw[i2 as int]));
                }
            }
            i2 += 1;
        }
        proof {
            assert(aw.take(aw.len() as int) =~= aw);
        }
        self.active = akept;
        BackendEvent::Deleted(true)
    }
}

/// How a driver waits on the activation it just issued.
#[derive(Clone, Copy, Debug, PartialEq, Eq, Structural)]
pub enum WaitPolicy {
    /// Watch the notifications whatever the activation reports now.
    Always,
    /// Succeed at once when the activation already reports activated,
    /// otherwise watch the notifications.
    SettleFirst,
    /// Do not wait at all; the caller resolves the outcome later.
    Never,
}

/// The premise under which [`add_activate_and_wait`] pins its outcome: a
/// fresh handle is available and every handle the backend has given out so
/// far lies below the counter.
pub open spec fn spec_room_for_two(m: &BackendModel) -> bool {
    &&& m.next_handle <= u64::MAX - 2
    &&& forall|x: int|
        0 <= x < m.connections@.len() ==> (#[trigger] m.connections@[x]@).handle < m.next_handle
    &&& forall|x: int|
        0 <= x < m.active@.len() ==> (#[trigger] m.active@[x]@).connection.handle < m.next_handle
}

/// Adds a profile, activates the stored record on the named device, and
/// waits the activation out under the given policy. When a fresh handle is
/// available, the stored list gains the profile under it, exactly one
/// activation for it appears, and the result follows the activation's state
/// and the first notification, which must decide.
#[verifier::rlimit(100)]
pub fn add_activate_and_wait(
    client: &mut BackendModel,
    profile: ConnectionProfile,
    device: String,
    wait: WaitPolicy,
) -> (r: Result<(), NmError>)
    requires
        crate::connection::spec_activation_step(old(client).notified_state) is Some,
    ensures
        final(client).notified_state == old(client).notified_state,
        final(client).new_active_state == old(client).new_active_state,
        final(client).devices@ == old(client).devices@,
        spec_room_for_two(old(client)) ==> ({
            let stored = StoredConnectionView { handle: old(client).next_handle, profile: profile@ };
            let activation = ActiveConnectionView {
                handle: (old(client).next_handle + 1) as u64,
                connection: stored,
                state: old(client).new_active_state,
                ip4_addresses: Seq::empty(),
            };
            &&& stored_list_view(final(client).connections@) == stored_list_view(
                old(client).connections@,
            ).push(stored)
            &&& active_list_view(final(client).active@) == active_list_view(
                old(client).active@,
            ).push(activation)
            &&& final(client).next_handle == old(client).next_handle + 2
            &&& final(client).devices@ == old(client).devices@
            &&& final(client).new_active_state == old(client).new_active_state
            &&& final(client).notified_state == old(client).notified_state
            &&& r == (match wait {
                WaitPolicy::Never => Ok::<(), NmError>(()),
                WaitPolicy::SettleFirst => if old(client).new_active_state
                    == ActivationState::Activated {
                    Ok::<(), NmError>(())
                } else {
                    crate::connection::spec_activation_step(old(client).notified_state).unwrap()
                },
                WaitPolicy::Always => crate::connection::spec_activation_step(
                    old(client).notified_state,
                ).unwrap(),
            })
        }),
{
    let ghost n0 = old(client).next_handle;
    let ghost prem = spec_room_for_two(old(client));
    let added = match client.answer(&BackendOp::AddConnection(profile)) {
        BackendEvent::Added(Some(sc)) => sc,
        _ => {
            proof {
                if prem {
                    assert(false);
                }
            }
            return Err(NmError::BackendOperationFailed);
        },
    };
    proof {
        if prem {
            assert(added@.handle == n0);
            lemma_find_active_for_props(client.active@, added.handle, 0);
            match spec_find_active_for(client.active@, added.handle, 0) {
                Some(k) => {
                    if profile@.autoconnect {
                        let av = active_list_view(client.active@);
                        assert(av[k] == client.active@[k]@);
                        if k < av.len() - 1 {
                            assert(av[k] == active_list_view(old(client).active@)[k]);
                            assert(old(client).active@[k]@.connection.handle < n0);
                            assert(false);
                        }
                    } else {
                        assert(client.active@[k]@ == old(client).active@[k]@);
                        assert(old(client).active@[k]@.connection.handle < n0);
                        assert(false);
                    }
                },
                None => {
                    if profile@.autoconnect {
                        let av = active_list_view(client.active@);
                        let last = av.len() - 1;
                        assert(client.active@[last]@ == av[last]);
                        assert(client.active@[last]@.connection.handle == n0);
                        assert(false);
                    }
                },
            }
            lemma_find_stored_by_handle_props(client.connections@, added.handle, 0);
            let sv = stored_list_view(client.connections@);
            match spec_find_stored_by_handle(client.connections@, added.handle, 0) {
                Some(k) => {
                    assert(client.connections@[k]@ == sv[k]);
                    if k < sv.len() - 1 {
                        assert(sv[k] == stored_list_view(old(client).connections@)[k]);
                        assert(old(client).connections@[k]@.handle < n0);
                        assert(false);
                    }
                },
                None => {
                    let last = sv.len() - 1;
                    assert(client.connections@[last]@ == sv[last]);
                    assert(client.connections@[last]@.handle == added@.handle);
                    assert(false);
                },
            }
        }
    }
    let activated = match client.answer(
        &BackendOp::ActivateConnection { connection: added.handle, device },
    ) {
        BackendEvent::Activated(Some(a)) => a,
        _ => {
            proof {
                if prem {
                    assert(false);
                }
            }
            return Err(NmError::BackendOperationFailed);
        },
    };
    proof {
        if prem {
            let a1 = ActiveConnectionView {
                handle: (n0 + 1) as u64,
                connection: StoredConnectionView { handle: n0, profile: profile@ },
                state: old(client).new_active_state,
                ip4_addresses: Seq::empty(),
            };
            assert(active_list_view(client.active@) =~= active_list_view(
                old(client).active@,
            ).push(a1));
            assert(stored_list_view(client.connections@) =~= stored_list_view(
                old(client).connections@,
            ).push(StoredConnectionView { handle: n0, profile: profile@ }));
            assert(activated@.state == old(client).new_active_state);
        }
    }
    let skip_wait = match wait {
        WaitPolicy::Never => true,
        WaitPolicy::SettleFirst => match activated.state {
            ActivationState::Activated => true,
            _ => false,
        },
        WaitPolicy::Always => false,
    };
    if skip_wait {
        return Ok(());
    }
    match client.answer(&BackendOp::Subscribe(activated.handle)) {
        BackendEvent::StateChanged(st) => match crate::connection::activation_step(st) {
            Some(res) => res,
            None => {
                proof {
                    assert(false);
                }
                Err(NmError::ActivationFailed)
            },
        },
        _ => {
            proof {
                assert(false);
            }
            Err(NmError::ActivationFailed)
        },
    }
}

/// Handles stay bounded across any step that only keeps existing
/// activations: when every remaining activation is one of the originals and
/// the originals' handles lie below the bound, so do the remainders'.
pub proof fn lemma_members_keep_bounds(
    pre: Seq<ActiveConnection>,
    post: Seq<ActiveConnection>,
    bound: u64,
)
    requires
        forall|x: int|
            0 <= x < post.len() ==> exists|y: int| 0 <= y < pre.len() && #[trigger] post[x]@
                == pre[y]@,
        forall|y: int|
            0 <= y < pre.len() ==> (#[trigger] pre[y]@).handle < bound
                && pre[y]@.connection.handle < bound,
    ensures
        forall|x: int|
            0 <= x < post.len() ==> (#[trigger] post[x]@).handle < bound
                && post[x]@.connection.handle < bound,
{
    assert forall|x: int| 0 <= x < post.len() implies (#[trigger] post[x]@).handle < bound
        && post[x]@.connection.handle < bound by {
        let y = choose|y: int| 0 <= y < pre.len() && post[x]@ == pre[y]@;
        assert(pre[y]@.handle < bound);
    }
}

/// Whether this stored-connection value occurs in the list.
pub open spec fn spec_stored_member(c: StoredConnectionView, v: Seq<StoredConnection>) -> bool {
    exists|y: int| 0 <= y < v.len() && c == v[y]@
}

/// Whether this active-connection value occurs in the list.
pub open spec fn spec_active_member(a: ActiveConnectionView, v: Seq<ActiveConnection>) -> bool {
    exists|y: int| 0 <= y < v.len() && a == v[y]@
}

/// What surviving a filter means, element by element: every survivor
/// satisfies the filter's test and is one of the original activations, and
/// every original activation that passes the test survives.
pub proof fn lemma_active_filter_members(
    pre: Seq<ActiveConnection>,
    post: Seq<ActiveConnection>,
    pred: spec_fn(ActiveConnectionView) -> bool,
)
    requires
        active_list_view(post) == active_list_view(pre).filter(pred),
    ensures
        forall|x: int|
            0 <= x < post.len() ==> pred(#[trigger] post[x]@) && (exists|y: int|
                0 <= y < pre.len() && post[x]@ == pre[y]@),
        forall|y: int|
            0 <= y < pre.len() && pred(#[trigger] pre[y]@) ==> (exists|x: int|
                0 <= x < post.len() && post[x]@ == pre[y]@),
{
    let w = active_list_view(pre);
    let fw = active_list_view(post);
    assert forall|x: int| 0 <= x < post.len() implies pred(#[trigger] post[x]@) && (exists|y: int|
        0 <= y < pre.len() && post[x]@ == pre[y]@) by {
        assert(fw[x] == post[x]@);
        Seq::lemma_filter_pred(w, pred, x);
        assert(fw.contains(fw[x]));
        w.lemma_filter_contains_rev(pred, fw[x]);
        let y = choose|y: int| 0 <= y < w.len() && w[y] == fw[x];
        assert(pre[y]@ == post[x]@);
    }
    assert forall|y: int| 0 <= y < pre.len() && pred(#[trigger] pre[y]@) implies (exists|x: int|
        0 <= x < post.len() && post[x]@ == pre[y]@) by {
        assert(w[y] == pre[y]@);
        Seq::lemma_filter_contains(w, pred, y);
        assert(fw.contains(w[y]));
        let x = choose|x: int| 0 <= x < fw.len() && fw[x] == w[y];
        assert(post[x]@ == pre[y]@);
    }
}

/// Companion of [`lemma_active_filter_members`] for stored connections.
pub proof fn lemma_stored_filter_members(
    pre: Seq<StoredConnection>,
    post: Seq<StoredConnection>,
    pred: spec_fn(StoredConnectionView) -> bool,
)
    requires
        stored_list_view(post) == stored_list_view(pre).filter(pred),
    ensures
        forall|x: int|
            0 <= x < post.len() ==> pred(#[trigger] post[x]@) && (exists|y: int|
                0 <= y < pre.len() && post[x]@ == pre[y]@),
        forall|y: int|
            0 <= y < pre.len() && pred(#[trigger] pre[y]@) ==> (exists|x: int|
                0 <= x < post.len() && post[x]@ == pre[y]@),
{
    let w = stored_list_view(pre);
    let fw = stored_list_view(post);
    assert forall|x: int| 0 <= x < post.len() implies pred(#[trigger] post[x]@) && (exists|y: int|
        0 <= y < pre.len() && post[x]@ == pre[y]@) by {
        assert(fw[x] == post[x]@);
        Seq::lemma_filter_pred(w, pred, x);
        assert(fw.contains(fw[x]));
        w.lemma_filter_contains_rev(pred, fw[x]);
        let y = choose|y: int| 0 <= y < w.len() && w[y] == fw[x];
        assert(pre[y]@ == post[x]@);
    }
    assert forall|y: int| 0 <= y < pre.len() && pred(#[trigger] pre[y]@) implies (exists|x: int|
        0 <= x < post.len() && post[x]@ == pre[y]@) by {
        assert(w[y] == pre[y]@);
        Seq::lemma_filter_contains(w, pred, y);
        assert(fw.contains(w[y]));
        let x = choose|x: int| 0 <= x < fw.len() && fw[x] == w[y];
        assert(post[x]@ == pre[y]@);
    }
}

/// Searching two stored-connection lists with the same values finds the
/// same thing.
pub proof fn lemma_first_match_congruence(
    dt: crate::connection::ConnectionKind,
    d: crate::connection::ProfileView,
    a: Seq<StoredConnection>,
    b: Seq<StoredConnection>,
    i: int,
)
    requires
        stored_list_view(a) == stored_list_view(b),
    ensures
        crate::connection::spec_first_match(dt, d, a, i) == crate::connection::spec_first_match(
            dt,
            d,
            b,
            i,
        ),
    decreases a.len() - i,
{
    assert(a.len() == stored_list_view(a).len());
    assert(b.len() == stored_list_view(b).len());
    if 0 <= i < a.len() {
        assert(a[i]@ == stored_list_view(a)[i]);
        assert(b[i]@ == stored_list_view(b)[i]);
        lemma_first_match_congruence(dt, d, a, b, i + 1);
    }
}

/// Companion of [`lemma_first_match_congruence`] for the whole search.
pub proof fn lemma_get_connection_congruence(
    dt: crate::connection::ConnectionKind,
    d: crate::connection::ProfileView,
    a: Seq<StoredConnection>,
    b: Seq<StoredConnection>,
)
    requires
        stored_list_view(a) == stored_list_view(b),
    ensures
        crate::connection::spec_get_connection(dt, d, a) == crate::connection::spec_get_connection(
            dt,
            d,
            b,
        ),
{
    lemma_first_match_congruence(dt, d, a, b, 0);
}

/// Searching two active-connection lists with the same values finds the
/// same thing.
pub proof fn lemma_first_active_match_congruence(
    dt: crate::connection::ConnectionKind,
    d: crate::connection::ProfileView,
    a: Seq<ActiveConnection>,
    b: Seq<ActiveConnection>,
    i: int,
)
    requires
        active_list_view(a) == active_list_view(b),
    ensures
        crate::connection::spec_first_active_match(dt, d, a, i)
            == crate::connection::spec_first_active_match(dt, d, b, i),
    decreases a.len() - i,
{
    assert(a.len() == active_list_view(a).len());
    assert(b.len() == active_list_view(b).len());
    if 0 <= i < a.len() {
        assert(a[i]@ == active_list_view(a)[i]);
        assert(b[i]@ == active_list_view(b)[i]);
        lemma_first_active_match_congruence(dt, d, a, b, i + 1);
    }
}

/// Creating twice conflicts: once some stored connection carries the
/// profile's own value — as it does right after a successful creation — the
/// existence check that every creation performs first finds a match, so the
/// second creation is refused instead of silently duplicating.
pub proof fn lemma_create_twice_conflicts(
    dt: crate::connection::ConnectionKind,
    p: crate::connection::ProfileView,
    conns: Seq<StoredConnection>,
    k: int,
)
    requires
        crate::connection::spec_kind_match(dt, p, p),
        0 <= k < conns.len(),
        conns[k]@.profile == p,
    ensures
        crate::connection::spec_get_connection(dt, p, conns) is Some,
{
    crate::connection::lemma_first_match_props(dt, p, conns, 0);
    match crate::connection::spec_first_match(dt, p, conns, 0) {
        Some(_) => {},
        None => {
            assert(!crate::connection::spec_kind_match(dt, p, conns[k]@.profile));
        },
    }
}

/// Composes [`lemma_create_twice_conflicts`] with the effect of an addition:
/// the stored-connection list a successful addition leaves behind, which
/// [`spec_add_effect`] describes as the old list with the new profile pushed,
/// makes any later existence check for that profile find a match.
pub proof fn lemma_create_conflict_after_add(
    dt: crate::connection::ConnectionKind,
    p: crate::connection::ProfileView,
    before: Seq<StoredConnectionView>,
    h: u64,
    conns: Seq<StoredConnection>,
)
    requires
        crate::connection::spec_kind_match(dt, p, p),
        stored_list_view(conns) == before.push(StoredConnectionView { handle: h, profile: p }),
    ensures
        crate::connection::spec_get_connection(dt, p, conns) is Some,
{
    let k = conns.len() - 1;
    assert(conns.len() == stored_list_view(conns).len());
    assert(conns[k]@ == stored_list_view(conns)[k]);
    lemma_create_twice_conflicts(dt, p, conns, k);
}

/// A fully built bond profile matches itself under the bond equivalence, the
/// premise [`lemma_create_twice_conflicts`] needs.
pub proof fn lemma_bond_profile_self_match(p: crate::connection::ProfileView)
    requires
        p.kind == Some(crate::connection::ConnectionKind::Bond),
        p.id is Some,
    ensures
        crate::connection::spec_matching_bond(p, p),
{
}

/// A fully built wireless profile matches itself under the wireless
/// equivalence, the premise [`lemma_create_twice_conflicts`] needs.
pub proof fn lemma_wifi_profile_self_match(p: crate::connection::ProfileView)
    requires
        p.kind == Some(crate::connection::ConnectionKind::Wifi),
        p.id is Some,
        p.wifi is Some,
    ensures
        crate::connection::spec_matching_wifi(p, p),
{
}

/// Deleting the sole match removes every match: when exactly one stored
/// connection matches the profile and deletion filters its handle out — the
/// effect [`spec_delete_effect`] gives a deletion — no stored connection in
/// what remains matches the profile, so a later search finds nothing.
pub proof fn lemma_delete_removes_only_match(
    dt: crate::connection::ConnectionKind,
    p: crate::connection::ProfileView,
    conns: Seq<StoredConnection>,
    conns2: Seq<StoredConnection>,
    k: int,
    h: u64,
)
    requires
        0 <= k < conns.len(),
        conns[k]@.handle == h,
        forall|j: int|
            0 <= j < conns.len() && crate::connection::spec_kind_match(
                dt,
                p,
                #[trigger] conns[j]@.profile,
            ) ==> j == k,
        stored_list_view(conns2) == stored_list_view(conns).filter(
            |c: StoredConnectionView| c.handle != h,
        ),
    ensures
        crate::connection::spec_get_connection(dt, p, conns2) is None,
{
    let pred = |c: StoredConnectionView| c.handle != h;
    crate::connection::lemma_first_match_props(dt, p, conns2, 0);
    match crate::connection::spec_first_match(dt, p, conns2, 0) {
        None => {},
        Some(k2) => {
            let elem = conns2[k2]@;
            assert(stored_list_view(conns2)[k2] == elem);
            assert(stored_list_view(conns).filter(pred).contains(elem));
            Seq::lemma_filter_pred(stored_list_view(conns), pred, stored_list_view(conns2).index_of(elem));
            stored_list_view(conns).lemma_filter_contains_rev(pred, elem);
            let j = choose|j: int|
                0 <= j < stored_list_view(conns).len() && stored_list_view(conns)[j] == elem;
            assert(conns[j]@ == elem);
            assert(crate::connection::spec_kind_match(dt, p, conns[j]@.profile));
            assert(j == k);
            assert(elem.handle == h);
            assert(pred(elem));
            // elem survived a filter that removes handle h, yet carries h
            assert forall|i: int|
                0 <= i < stored_list_view(conns2).len() implies pred(
                #[trigger] stored_list_view(conns2)[i],
            ) by {
                Seq::lemma_filter_pred(stored_list_view(conns), pred, i);
            }
            assert(false);
        },
    }
}

/// Effect of adding a profile: when handles remain, the profile is stored
/// under a fresh handle and, when it autoconnects, an activation for it
/// appears; the answer carries the stored record. Without handles the
/// backend refuses.
pub open spec fn spec_add_effect(
    pre: &BackendModel,
    post: &BackendModel,
    p: crate::connection::ProfileView,
    ev: BackendEvent,
) -> bool {
    if pre.next_handle <= u64::MAX - 2 {
        let stored = StoredConnectionView { handle: pre.next_handle, profile: p };
        &&& (ev matches BackendEvent::Added(Some(sc)) && sc@ == stored)
        &&& stored_list_view(post.connections@) == stored_list_view(pre.connections@).push(stored)
        &&& if p.autoconnect {
            &&& active_list_view(post.active@) == active_list_view(pre.active@).push(
                ActiveConnectionView {
                    handle: (pre.next_handle + 1) as u64,
                    connection: stored,
                    state: pre.new_active_state,
                    ip4_addresses: Seq::empty(),
                },
            )
            &&& post.next_handle == pre.next_handle + 2
        } else {
            &&& post.active@ == pre.active@
            &&& post.next_handle == pre.next_handle + 1
        }
        &&& post.devices@ == pre.devices@
        &&& post.new_active_state == pre.new_active_state
        &&& post.notified_state == pre.notified_state
    } else {
        ev == BackendEvent::Added(None::<StoredConnection>) && model_unchanged(pre, post)
    }
}

/// Effect of activating a stored connection: an existing activation is
/// answered as it stands; otherwise a fresh activation of the stored record
/// appears, in the model's initial activation state; an unknown handle or
/// handle exhaustion is refused.
pub open spec fn spec_activate_effect(
    pre: &BackendModel,
    post: &BackendModel,
    h: u64,
    ev: BackendEvent,
) -> bool {
    match spec_find_active_for(pre.active@, h, 0) {
        Some(j) => model_unchanged(pre, post) && (ev matches BackendEvent::Activated(Some(a)) && a@
            == pre.active@[j]@),
        None => match spec_find_stored_by_handle(pre.connections@, h, 0) {
            None => model_unchanged(pre, post) && ev == BackendEvent::Activated(
                None::<ActiveConnection>,
            ),
            Some(k) => {
                if pre.next_handle <= u64::MAX - 1 {
                    let fresh = ActiveConnectionView {
                        handle: pre.next_handle,
                        connection: pre.connections@[k]@,
                        state: pre.new_active_state,
                        ip4_addresses: Seq::empty(),
                    };
                    &&& (ev matches BackendEvent::Activated(Some(a)) && a@ == fresh)
                    &&& active_list_view(post.active@) == active_list_view(pre.active@).push(fresh)
                    &&& post.connections@ == pre.connections@
                    &&& post.next_handle == pre.next_handle + 1
                    &&& post.devices@ == pre.devices@
                    &&& post.new_active_state == pre.new_active_state
                    &&& post.notified_state == pre.notified_state
                } else {
                    ev == BackendEvent::Activated(None::<ActiveConnection>) && model_unchanged(
                        pre,
                        post,
                    )
                }
            },
        },
    }
}

/// Effect of deactivating an active connection: it disappears, and so do the
/// activations enslaved to its interface, mirroring the backend's cascading
/// deactivation of slaves; an unknown handle is refused.
pub open spec fn spec_deactivate_effect(
    pre: &BackendModel,
    post: &BackendModel,
    h: u64,
    ev: BackendEvent,
) -> bool {
    match spec_find_active_by_handle(pre.active@, h, 0) {
        None => model_unchanged(pre, post) && ev == BackendEvent::Deactivated(false),
        Some(j) => {
            let m = pre.active@[j]@.connection.profile.interface_name;
            &&& ev == BackendEvent::Deactivated(true)
            &&& active_list_view(post.active@) == active_list_view(pre.active@).filter(
                |a: ActiveConnectionView| a.handle != h && !spec_enslaved_to(a, m),
            )
            &&& post.connections@ == pre.connections@
            &&& model_rest_unchanged(pre, post)
        },
    }
}

/// Effect of deleting a stored connection: the record disappears together
/// with every activation of it; an unknown handle is refused.
pub open spec fn spec_delete_effect(
    pre: &BackendModel,
    post: &BackendModel,
    h: u64,
    ev: BackendEvent,
) -> bool {
    match spec_find_stored_by_handle(pre.connections@, h, 0) {
        None => model_unchanged(pre, post) && ev == BackendEvent::Deleted(false),
        Some(_) => {
            &&& ev == BackendEvent::Deleted(true)
            &&& stored_list_view(post.connections@) == stored_list_view(pre.connections@).filter(
                |c: StoredConnectionView| c.handle != h,
            )
            &&& active_list_view(post.active@) == active_list_view(pre.active@).filter(
                |a: ActiveConnectionView| a.connection.handle != h,
            )
            &&& model_rest_unchanged(pre, post)
        },
    }
}

} // verus!
