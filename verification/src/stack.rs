//! The supervisor: it composes the long-running tasks — persistence,
//! protocol responder, transport, service discovery, network manager,
//! out-of-band commissioning channel — into race groups, one per phase,
//! and restarts a phase when its race settles or the interface changes.
//!
//! The async runtime, the sockets and the radio live outside; this module
//! holds the decisions: which phase follows which event, which race
//! member wins, and the bounded buffer pool whose exhaustion is the
//! resource error that ends a session.

use vstd::prelude::*;

use crate::wifi::WifiContext;

verus! {

/// Capacity of the credential list of the wifi network.
pub const MAX_WIFI_NETWORKS: usize = 3;

/// How many protocol exchange buffers a stack owns.
pub const EXCHANGE_BUFFERS: usize = 10;

/// What ends a task or a session, beyond protocol-level command errors.
#[derive(Clone, Copy, Debug, PartialEq, Eq, Structural)]
pub enum Error {
    /// The buffer pool was empty: fatal to the current session.
    ResourceExhausted,
    /// A storage write failed: fatal to the persistence loop.
    Storage,
    /// The network layer or the transport failed.
    Network,
}

/// The network side a stack is built for.
pub trait Network {
    /// Fresh network-side state.
    fn init() -> Self where Self: core::marker::Sized;
}

/// Plain wired networking: no commissioning transport, no wifi state.
pub struct Eth(());

impl Network for Eth {
    fn init() -> (r: Self) {
        Eth(())
    }
}

/// Wifi networking commissioned over a short-range out-of-band channel:
/// carries the shared provisioning state.
pub struct WifiBle {
    pub wifi_context: WifiContext,
}

impl WifiBle {
    fn new() -> (r: Self)
        ensures
            r.wifi_context.wf(),
            r.wifi_context.capacity == MAX_WIFI_NETWORKS,
            !r.wifi_context.changed,
    {
        WifiBle { wifi_context: WifiContext::new(MAX_WIFI_NETWORKS) }
    }
}

impl Network for WifiBle {
    fn init() -> (r: Self)
        ensures
            r.wifi_context.wf(),
            r.wifi_context.capacity == MAX_WIFI_NETWORKS,
    {
        WifiBle::new()
    }
}

/// The "state changed" slot consumed by the protocol responder's
/// subscription handling: single-slot, last-write-wins.
pub struct Subscriptions {
    pub notified: bool,
}

impl Subscriptions {
    pub fn new() -> (r: Subscriptions)
        ensures
            !r.notified,
    {
        Subscriptions { notified: false }
    }

    /// Record that attribute state changed.
    pub fn notify_changed(&mut self)
        ensures
            final(self).notified,
    {
        self.notified = true;
    }

    /// Consume the pending notification, if any.
    pub fn take_notification(&mut self) -> (r: bool)
        ensures
            r == old(self).notified,
            !final(self).notified,
    {
        let r = self.notified;
        self.notified = false;
        r
    }
}

/// A bounded pool of buffers.  Acquiring may fail when every buffer is
/// out; exhaustion is a resource error, never silent blocking forever.
pub struct BufferPool {
    pub available: usize,
    pub capacity: usize,
}

impl BufferPool {
    /// All invariants: never more buffers free than exist.
    pub open spec fn wf(self) -> bool {
        self.available <= self.capacity
    }

    pub fn new(capacity: usize) -> (r: BufferPool)
        ensures
            r.wf(),
            r.available == capacity,
            r.capacity == capacity,
    {
        BufferPool { available: capacity, capacity }
    }

    /// Claim a buffer; an empty pool yields the resource error that ends
    /// the enclosing session.
    pub fn acquire(&mut self) -> (r: Result<(), Error>)
        requires
            old(self).wf(),
        ensures
            final(self).wf(),
            final(self).capacity == old(self).capacity,
            match r {
                Ok(_) => old(self).available > 0 && final(self).available == old(self).available
                    - 1,
                Err(e) => e == Error::ResourceExhausted && old(self).available == 0 && *final(self)
                    == *old(self),
            },
    {
        if self.available == 0 {
            Err(Error::ResourceExhausted)
        } else {
            self.available = self.available - 1;
            Ok(())
        }
    }

    /// Hand a claimed buffer back.
    pub fn release(&mut self)
        requires
            old(self).wf(),
            old(self).available < old(self).capacity,
        ensures
            final(self).wf(),
            final(self).capacity == old(self).capacity,
            final(self).available == old(self).available + 1,
    {
        self.available = self.available + 1;
    }
}

/// The two top-level phases the supervisor loops through.
#[derive(Clone, Copy, Debug, PartialEq, Eq, Structural)]
pub enum Phase {
    /// Advertise the out-of-band channel and run the commissioning
    /// session, racing it against a direct connect request.
    Commissioning,
    /// Bring up the network interface and run the operating session,
    /// racing it against the network manager and interface changes.
    Operating,
}

/// What settles a phase's race group.
#[derive(Clone, Copy, Debug, PartialEq, Eq, Structural)]
pub enum PhaseEvent {
    /// The commissioning race settled: its session completed or failed.
    CommissioningEnded,
    /// A direct connect request arrived: credentials are already known,
    /// so commissioning is short-circuited.
    NetworkConnectRequested,
    /// The operating session's inner race settled (an error of
    /// persistence, responder or transport).
    OperatingEnded,
    /// The interface's addresses changed: the running session is stale.
    InterfaceChanged,
}

/// Which phase follows a settled race.
pub open spec fn spec_next_phase(commissioned: bool, event: PhaseEvent) -> Phase {
    match event {
        PhaseEvent::NetworkConnectRequested => Phase::Operating,
        PhaseEvent::CommissioningEnded => if commissioned {
            Phase::Operating
        } else {
            Phase::Commissioning
        },
        PhaseEvent::InterfaceChanged => Phase::Operating,
        PhaseEvent::OperatingEnded => if commissioned {
            Phase::Operating
        } else {
            Phase::Commissioning
        },
    }
}

/// Decide the phase that follows a settled race group.  A connect request
/// short-circuits commissioning; a failed or finished session restarts
/// its phase from the commissioned check; an interface change restarts
/// the interface wait of the operating phase.
pub fn next_phase(commissioned: bool, event: PhaseEvent) -> (r: Phase)
    ensures
        r == spec_next_phase(commissioned, event),
{
    match event {
        PhaseEvent::NetworkConnectRequested => Phase::Operating,
        PhaseEvent::CommissioningEnded => {
            if commissioned {
                Phase::Operating
            } else {
                Phase::Commissioning
            }
        },
        PhaseEvent::InterfaceChanged => Phase::Operating,
        PhaseEvent::OperatingEnded => {
            if commissioned {
                Phase::Operating
            } else {
                Phase::Commissioning
            }
        },
    }
}

/// The first settled member of a race group wins: the runtime records in
/// `members` what each concurrent task has settled to, in the group's
/// settlement order at the front, and the winner's result is the group's.
/// `None` means the member still runs; the group has settled exactly when
/// some member has.
pub fn race_winner(members: &Vec<Option<Result<(), Error>>>) -> (r: Option<(
    usize,
    Result<(), Error>,
)>)
    ensures
        match r {
            Some((i, o)) => i < members@.len() && members@[i as int] == Some(o) && (forall|j: int|
                0 <= j < i ==> members@[j] is None),
            None => forall|j: int| 0 <= j < members@.len() ==> members@[j] is None,
        },
{
    let mut i: usize = 0;
    while i < members.len()
        invariant
            i <= members@.len(),
            forall|j: int| 0 <= j < i ==> members@[j] is None,
        decreases members@.len() - i,
    {
        match members[i] {
            Some(o) => {
                return Some((i, o));
            },
            None => {},
        }
        i += 1;
    }
    None
}

/// The protocol-engine side of the device, generic over its network
/// side: the shared buffers, the subscription slot, and the network
/// state.  The engine itself (session security, message codec) is an
/// external collaborator.
pub struct MatterStack<T> where T: Network {
    pub network: T,
    pub subscriptions: Subscriptions,
    pub buffers: BufferPool,
    pub psm_buffer: BufferPool,
}

impl<T> MatterStack<T> where T: Network {
    pub fn new() -> (r: MatterStack<T>)
        ensures
            !r.subscriptions.notified,
            r.buffers.wf(),
            r.buffers.capacity == EXCHANGE_BUFFERS,
            r.buffers.available == EXCHANGE_BUFFERS,
            r.psm_buffer.wf(),
            r.psm_buffer.capacity == 1,
            r.psm_buffer.available == 1,
    {
        MatterStack {
            network: T::init(),
            subscriptions: Subscriptions::new(),
            buffers: BufferPool::new(EXCHANGE_BUFFERS),
            psm_buffer: BufferPool::new(1),
        }
    }

    /// Raise the "state changed" notification for subscribers.
    pub fn notify_changed(&mut self)
        ensures
            final(self).subscriptions.notified,
            final(self).network == old(self).network,
            final(self).buffers == old(self).buffers,
            final(self).psm_buffer == old(self).psm_buffer,
    {
        self.subscriptions.notify_changed();
    }
}

} // verus!
