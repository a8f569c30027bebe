//! The background network manager: it turns a recorded connect request
//! into an instruction for the platform network layer and writes the
//! attempt's outcome back.  It is the sole writer of the connection
//! status.
//!
//! The runtime sleeps on the wake signal and calls [`WifiManager::on_wake`]
//! whenever it fires; the signal is only a hint, and the decision is made
//! from the stored request alone, so a signal that fired before the
//! manager started waiting loses nothing.

use vstd::prelude::*;

use crate::wifi::{
    cred_view, view_has_ssid, view_index_of, ConnectionStatus, NetworkCommissioningStatus,
    WifiContext, WifiCredentials, MAX_SSID_LEN,
};

verus! {

/// Where the manager stands.
pub enum ManagerState {
    /// Waiting for a wake signal.
    Idle,
    /// A connect attempt for this ssid is under way at the platform layer.
    Connecting(Vec<u8>),
}

/// The manager's own state machine: `Idle` until a request arrives, then
/// `Connecting` until the platform reports the attempt's outcome.
pub struct WifiManager {
    pub state: ManagerState,
}

impl WifiManager {
    pub fn new() -> (r: WifiManager)
        ensures
            r.state is Idle,
    {
        WifiManager { state: ManagerState::Idle }
    }

    /// React to the wake signal: take the stored request, and hand back
    /// the credential to associate with.  Without a stored request nothing
    /// happens (the signal coalesces).  A request whose ssid is not in the
    /// list is answered by a not-found status, and the manager stays idle.
    pub fn on_wake(&mut self, ctx: &mut WifiContext) -> (r: Option<WifiCredentials>)
        requires
            old(self).state is Idle,
            old(ctx).wf(),
        ensures
            final(ctx).wf(),
            final(ctx).connect_req() is None,
            !final(ctx).connect_signal,
            final(ctx).networks == old(ctx).networks,
            final(ctx).changed == old(ctx).changed,
            final(ctx).capacity == old(ctx).capacity,
            final(ctx).saved == old(ctx).saved,
            match old(ctx).connect_req() {
                None => r is None && final(self).state is Idle && final(ctx).status == old(
                    ctx,
                ).status,
                Some(id) => {
                    if view_has_ssid(old(ctx).nets(), id) {
                        &&& r matches Some(c) && c.ssid@ == id && cred_view(c) == old(
                            ctx,
                        ).nets()[view_index_of(old(ctx).nets(), id)]
                        &&& final(self).state matches ManagerState::Connecting(s) && s@ == id
                        &&& final(ctx).status == old(ctx).status
                    } else {
                        &&& r is None
                        &&& final(self).state is Idle
                        &&& final(ctx).status matches Some(st) && st.ssid@ == id && st.status
                            == NetworkCommissioningStatus::NetworkNotFound && st.value == 0
                    }
                },
            },
    {
        let taken = ctx.take_connect_request();
        match taken {
            None => None,
            Some(id) => {
                let cred = ctx.credential_for(&id);
                match cred {
                    Some(c) => {
                        self.state = ManagerState::Connecting(id);
                        Some(c)
                    },
                    None => {
                        ctx.set_status(
                            ConnectionStatus {
                                ssid: id,
                                status: NetworkCommissioningStatus::NetworkNotFound,
                                value: 0,
                            },
                        );
                        None
                    },
                }
            },
        }
    }

    /// Record the outcome that the platform network layer reported for the
    /// running attempt, and return to idle.  A success is written as the
    /// success status with a zero diagnostic; a failure carries the
    /// platform's status code and diagnostic value.
    pub fn on_connect_result(
        &mut self,
        ctx: &mut WifiContext,
        outcome: Result<(), (NetworkCommissioningStatus, i32)>,
    )
        requires
            old(self).state matches ManagerState::Connecting(s) && s@.len() <= MAX_SSID_LEN,
            old(ctx).wf(),
        ensures
            final(self).state is Idle,
            final(ctx).wf(),
            final(ctx).networks == old(ctx).networks,
            final(ctx).connect_requested == old(ctx).connect_requested,
            final(ctx).connect_signal == old(ctx).connect_signal,
            final(ctx).changed == old(ctx).changed,
            final(ctx).capacity == old(ctx).capacity,
            final(ctx).saved == old(ctx).saved,
            old(self).state matches ManagerState::Connecting(s) ==> match outcome {
                Ok(_) => final(ctx).status matches Some(st) && st.ssid@ == s@ && st.status
                    == NetworkCommissioningStatus::Success && st.value == 0,
                Err((code, value)) => final(ctx).status matches Some(st) && st.ssid@ == s@
                    && st.status == code && st.value == value,
            },
    {
        let mut state = ManagerState::Idle;
        core::mem::swap(&mut state, &mut self.state);
        match state {
            ManagerState::Connecting(ssid) => {
                match outcome {
                    Ok(_) => {
                        ctx.set_status(
                            ConnectionStatus {
                                ssid,
                                status: NetworkCommissioningStatus::Success,
                                value: 0,
                            },
                        );
                    },
                    Err((code, value)) => {
                        ctx.set_status(ConnectionStatus { ssid, status: code, value });
                    },
                }
            },
            ManagerState::Idle => {},
        }
    }
}

} // verus!
