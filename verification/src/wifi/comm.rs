//! The network-commissioning cluster: attribute reads and the five
//! commands, mapped onto the shared provisioning state.
//!
//! The protocol codec (message framing, attribute and command encoding) is
//! an external collaborator: the runtime decodes a command into plain
//! values, calls [`WifiCommCluster::invoke`] inside the state lock, and
//! encodes what comes back.  Inputs past their wire bounds are rejected
//! here with a constraint error and leave the state untouched.

use vstd::prelude::*;

use crate::wifi::{
    bytes_eq, copy_bytes, cred_view, model_remove, model_reorder, model_step, spec_status_code,
    status_code, view_has_ssid, view_index_of, AddOutcome, NetworkCommand,
    NetworkCommissioningStatus, ReorderOutcome, WifiContext, MAX_PASSWORD_LEN, MAX_SSID_LEN,
};

verus! {

/// Seconds a scan may take, as advertised to clients.
pub const SCAN_MAX_TIME_SECS: u8 = 30;

/// Seconds a connect attempt may take, as advertised to clients.
pub const CONNECT_MAX_TIME_SECS: u8 = 60;

/// Protocol-level status codes this cluster reports outside the
/// network-config response.
#[derive(Clone, Copy, Debug, PartialEq, Eq, Structural)]
pub enum IMStatusCode {
    /// Scanning is not implemented; the cluster is always busy.
    Busy,
    /// An input exceeded its wire bound.
    ConstraintError,
}

/// The response of the add, remove and reorder commands.
#[derive(Clone, Debug, PartialEq, Eq)]
pub struct NetworkConfigResponse {
    pub status: NetworkCommissioningStatus,
    pub debug_text: Option<Vec<u8>>,
    pub network_index: Option<u8>,
}

/// What a command answers.
#[derive(Clone, Debug, PartialEq, Eq)]
pub enum ClusterResponse {
    /// A network-config response.
    Config(NetworkConfigResponse),
    /// A bare protocol status.
    Status(IMStatusCode),
}

/// One decoded command of this cluster.
#[derive(Clone, Debug)]
pub enum Command {
    ScanNetworks,
    AddOrUpdateWifiNetwork { ssid: Vec<u8>, credentials: Vec<u8> },
    RemoveNetwork { network_id: Vec<u8> },
    ConnectNetwork { network_id: Vec<u8> },
    ReorderNetwork { network_id: Vec<u8>, index: u8 },
}

/// What invoking a command yields.
#[derive(Clone, Debug)]
pub enum InvokeOutcome {
    /// Send this response; `notify` says whether subscribers must learn of
    /// a state change.
    Respond { response: ClusterResponse, notify: bool },
    /// Deliberately never respond: a connect request was recorded and the
    /// device is expected to restart; the session will be torn down from
    /// outside.
    Suspend,
}

/// The attributes this cluster exposes.
#[derive(Clone, Copy, Debug, PartialEq, Eq, Structural)]
pub enum Attribute {
    MaxNetworks,
    Networks,
    ScanMaxTimeSecs,
    ConnectMaxTimeSecs,
    InterfaceEnabled,
    LastNetworkingStatus,
    LastNetworkID,
    LastConnectErrorValue,
}

/// One entry of the `Networks` attribute.
#[derive(Clone, Debug, PartialEq, Eq)]
pub struct NwInfo {
    pub network_id: Vec<u8>,
    pub connected: bool,
}

/// The value of one attribute, as plain data for the codec.
#[derive(Clone, Debug, PartialEq, Eq)]
pub enum AttrValue {
    Uint8(u8),
    Bool(bool),
    Networks(Vec<NwInfo>),
    OptUint8(Option<u8>),
    OptBytes(Option<Vec<u8>>),
    OptInt32(Option<i32>),
}

/// The successor of a data version, wrapping at the top.
pub open spec fn spec_next_ver(v: u32) -> u32 {
    if v == 0xffff_ffffu32 {
        0u32
    } else {
        (v + 1) as u32
    }
}

/// Monotonically wrapping data version, exposed to clients so they can
/// detect attribute changes.  The starting value comes from the caller
/// (drawn from the platform's randomness).
#[derive(Clone, Copy, Debug, PartialEq, Eq, Structural)]
pub struct Dataver {
    pub ver: u32,
}

impl Dataver {
    pub fn new(initial: u32) -> (r: Dataver)
        ensures
            r.ver == initial,
    {
        Dataver { ver: initial }
    }

    /// The current version.
    pub fn get(&self) -> (r: u32)
        ensures
            r == self.ver,
    {
        self.ver
    }

    /// Step the version after a state change.
    pub fn changed(&mut self)
        ensures
            final(self).ver == spec_next_ver(old(self).ver),
    {
        if self.ver == 0xffff_ffffu32 {
            self.ver = 0;
        } else {
            self.ver = self.ver + 1;
        }
    }
}

/// What the add-or-update command answers, given the list it found.  The
/// update path reports the entry's position; the add path reports the
/// post-insertion length, as the wire convention of this cluster has it.
pub open spec fn spec_add_reply(
    nets: Seq<(Seq<u8>, Seq<u8>)>,
    cap: nat,
    ssid: Seq<u8>,
    pw: Seq<u8>,
) -> (ClusterResponse, bool) {
    if !(ssid.len() <= MAX_SSID_LEN && pw.len() <= MAX_PASSWORD_LEN) {
        (ClusterResponse::Status(IMStatusCode::ConstraintError), false)
    } else if view_has_ssid(nets, ssid) {
        (
            ClusterResponse::Config(
                NetworkConfigResponse {
                    status: NetworkCommissioningStatus::Success,
                    debug_text: None,
                    network_index: Some(view_index_of(nets, ssid) as u8),
                },
            ),
            true,
        )
    } else if nets.len() < cap {
        (
            ClusterResponse::Config(
                NetworkConfigResponse {
                    status: NetworkCommissioningStatus::Success,
                    debug_text: None,
                    network_index: Some((nets.len() + 1) as u8),
                },
            ),
            true,
        )
    } else {
        (
            ClusterResponse::Config(
                NetworkConfigResponse {
                    status: NetworkCommissioningStatus::BoundsExceeded,
                    debug_text: None,
                    network_index: None,
                },
            ),
            false,
        )
    }
}

/// What the remove command answers.
pub open spec fn spec_remove_reply(nets: Seq<(Seq<u8>, Seq<u8>)>, id: Seq<u8>) -> (
    ClusterResponse,
    bool,
) {
    if view_has_ssid(nets, id) {
        (
            ClusterResponse::Config(
                NetworkConfigResponse {
                    status: NetworkCommissioningStatus::Success,
                    debug_text: None,
                    network_index: Some(view_index_of(nets, id) as u8),
                },
            ),
            true,
        )
    } else {
        (
            ClusterResponse::Config(
                NetworkConfigResponse {
                    status: NetworkCommissioningStatus::NetworkIdNotFound,
                    debug_text: None,
                    network_index: None,
                },
            ),
            false,
        )
    }
}

/// What the reorder command answers.
pub open spec fn spec_reorder_reply(
    nets: Seq<(Seq<u8>, Seq<u8>)>,
    id: Seq<u8>,
    index: u8,
) -> (ClusterResponse, bool) {
    if !view_has_ssid(nets, id) {
        (
            ClusterResponse::Config(
                NetworkConfigResponse {
                    status: NetworkCommissioningStatus::NetworkIdNotFound,
                    debug_text: None,
                    network_index: None,
                },
            ),
            false,
        )
    } else if index >= nets.len() {
        (
            ClusterResponse::Config(
                NetworkConfigResponse {
                    status: NetworkCommissioningStatus::OutOfRange,
                    debug_text: None,
                    network_index: Some(index),
                },
            ),
            false,
        )
    } else {
        (
            ClusterResponse::Config(
                NetworkConfigResponse {
                    status: NetworkCommissioningStatus::Success,
                    debug_text: None,
                    network_index: Some(index),
                },
            ),
            true,
        )
    }
}

/// The command/attribute handler of the network-commissioning cluster.
/// The runtime holds the state lock for the duration of each call.
pub struct WifiCommCluster {
    pub data_ver: Dataver,
}

impl WifiCommCluster {
    /// A fresh handler; `initial_ver` seeds the data version (the runtime
    /// draws it from the platform's randomness).
    pub fn new(initial_ver: u32) -> (r: WifiCommCluster)
        ensures
            r.data_ver.ver == initial_ver,
    {
        WifiCommCluster { data_ver: Dataver::new(initial_ver) }
    }

    /// Scanning is deliberately not implemented: the network list is fixed
    /// by commissioning, so the cluster always reports itself busy.
    pub fn scan_networks(&self, ctx: &WifiContext) -> (r: (ClusterResponse, bool))
        ensures
            r.0 == ClusterResponse::Status(IMStatusCode::Busy),
            !r.1,
    {
        let _ = ctx;
        (ClusterResponse::Status(IMStatusCode::Busy), false)
    }

    /// Add a new network or overwrite the password of a present one.  An
    /// oversized ssid or password yields a constraint error and leaves the
    /// state untouched; a full list yields the bounds error.
    pub fn add_network(&self, ctx: &mut WifiContext, ssid: &Vec<u8>, credentials: &Vec<u8>) -> (r:
        (ClusterResponse, bool))
        requires
            old(ctx).wf(),
            old(ctx).capacity <= 255,
        ensures
            final(ctx).wf(),
            r == spec_add_reply(old(ctx).nets(), old(ctx).capacity as nat, ssid@, credentials@),
            final(ctx).nets() == model_step(
                old(ctx).nets(),
                old(ctx).capacity as nat,
                NetworkCommand::AddOrUpdate { ssid: ssid@, password: credentials@ },
            ),
            r.1 ==> final(ctx).changed,
            !r.1 ==> final(ctx).changed == old(ctx).changed,
            final(ctx).capacity == old(ctx).capacity,
            final(ctx).status == old(ctx).status,
            final(ctx).connect_requested == old(ctx).connect_requested,
            final(ctx).connect_signal == old(ctx).connect_signal,
    {
        if ssid.len() > MAX_SSID_LEN || credentials.len() > MAX_PASSWORD_LEN {
            return (ClusterResponse::Status(IMStatusCode::ConstraintError), false);
        }
        let outcome = ctx.add_or_update_network(ssid, credentials);
        match outcome {
            AddOutcome::Updated(i) => {
                (
                    ClusterResponse::Config(
                        NetworkConfigResponse {
                            status: NetworkCommissioningStatus::Success,
                            debug_text: None,
                            network_index: Some(i as u8),
                        },
                    ),
                    true,
                )
            },
            AddOutcome::Added(i) => {
                (
                    ClusterResponse::Config(
                        NetworkConfigResponse {
                            status: NetworkCommissioningStatus::Success,
                            debug_text: None,
                            network_index: Some((i + 1) as u8),
                        },
                    ),
                    true,
                )
            },
            AddOutcome::Full => {
                (
                    ClusterResponse::Config(
                        NetworkConfigResponse {
                            status: NetworkCommissioningStatus::BoundsExceeded,
                            debug_text: None,
                            network_index: None,
                        },
                    ),
                    false,
                )
            },
        }
    }

    /// Remove the network with this id; an absent id yields the not-found
    /// status and leaves the state untouched.
    pub fn remove_network(&self, ctx: &mut WifiContext, network_id: &Vec<u8>) -> (r: (
        ClusterResponse,
        bool,
    ))
        requires
            old(ctx).wf(),
            old(ctx).capacity <= 255,
        ensures
            final(ctx).wf(),
            r == spec_remove_reply(old(ctx).nets(), network_id@),
            final(ctx).nets() == model_remove(old(ctx).nets(), network_id@),
            r.1 ==> final(ctx).changed,
            !r.1 ==> *final(ctx) == *old(ctx),
            final(ctx).capacity == old(ctx).capacity,
            final(ctx).status == old(ctx).status,
            final(ctx).connect_requested == old(ctx).connect_requested,
            final(ctx).connect_signal == old(ctx).connect_signal,
    {
        let removed = ctx.remove_network(network_id);
        match removed {
            Some(i) => {
                (
                    ClusterResponse::Config(
                        NetworkConfigResponse {
                            status: NetworkCommissioningStatus::Success,
                            debug_text: None,
                            network_index: Some(i as u8),
                        },
                    ),
                    true,
                )
            },
            None => {
                (
                    ClusterResponse::Config(
                        NetworkConfigResponse {
                            status: NetworkCommissioningStatus::NetworkIdNotFound,
                            debug_text: None,
                            network_index: None,
                        },
                    ),
                    false,
                )
            },
        }
    }

    /// Record the intent to connect to this ssid — whether or not it is in
    /// the list — and raise the manager's wake signal.  The caller must
    /// then suspend the session indefinitely instead of responding: the
    /// device is expected to restart.  An oversized ssid yields a
    /// constraint error instead.
    pub fn connect_network(&self, ctx: &mut WifiContext, network_id: &Vec<u8>) -> (r: InvokeOutcome)
        requires
            old(ctx).wf(),
        ensures
            final(ctx).wf(),
            final(ctx).nets() == old(ctx).nets(),
            final(ctx).networks == old(ctx).networks,
            final(ctx).changed == old(ctx).changed,
            final(ctx).status == old(ctx).status,
            final(ctx).capacity == old(ctx).capacity,
            if network_id@.len() > MAX_SSID_LEN {
                r == (InvokeOutcome::Respond {
                    response: ClusterResponse::Status(IMStatusCode::ConstraintError),
                    notify: false,
                }) && *final(ctx) == *old(ctx)
            } else {
                r == InvokeOutcome::Suspend && final(ctx).connect_req() == Some(network_id@)
                    && final(ctx).connect_signal
            },
    {
        if network_id.len() > MAX_SSID_LEN {
            return InvokeOutcome::Respond {
                response: ClusterResponse::Status(IMStatusCode::ConstraintError),
                notify: false,
            };
        }
        ctx.request_connect(network_id);
        InvokeOutcome::Suspend
    }

    /// Move the network with this id to the requested index.  An absent id
    /// yields not-found; an index at or past the current length yields
    /// out-of-range; both leave the state untouched.
    pub fn reorder_network(&self, ctx: &mut WifiContext, network_id: &Vec<u8>, index: u8) -> (r: (
        ClusterResponse,
        bool,
    ))
        requires
            old(ctx).wf(),
            old(ctx).capacity <= 255,
        ensures
            final(ctx).wf(),
            r == spec_reorder_reply(old(ctx).nets(), network_id@, index),
            final(ctx).nets() == model_reorder(old(ctx).nets(), network_id@, index as int),
            r.1 ==> final(ctx).changed,
            !r.1 ==> *final(ctx) == *old(ctx),
            final(ctx).capacity == old(ctx).capacity,
            final(ctx).status == old(ctx).status,
            final(ctx).connect_requested == old(ctx).connect_requested,
            final(ctx).connect_signal == old(ctx).connect_signal,
    {
        let moved = ctx.reorder_network(network_id, index as usize);
        match moved {
            ReorderOutcome::NotFound => {
                (
                    ClusterResponse::Config(
                        NetworkConfigResponse {
                            status: NetworkCommissioningStatus::NetworkIdNotFound,
                            debug_text: None,
                            network_index: None,
                        },
                    ),
                    false,
                )
            },
            ReorderOutcome::OutOfRange => {
                (
                    ClusterResponse::Config(
                        NetworkConfigResponse {
                            status: NetworkCommissioningStatus::OutOfRange,
                            debug_text: None,
                            network_index: Some(index),
                        },
                    ),
                    false,
                )
            },
            ReorderOutcome::Moved(_) => {
                (
                    ClusterResponse::Config(
                        NetworkConfigResponse {
                            status: NetworkCommissioningStatus::Success,
                            debug_text: None,
                            network_index: Some(index),
                        },
                    ),
                    true,
                )
            },
        }
    }

    /// Dispatch one decoded command.  Every command that completes steps
    /// the data version; the connect command never completes, so the
    /// version stands until the expected restart.
    pub fn invoke(&mut self, ctx: &mut WifiContext, cmd: &Command) -> (r: InvokeOutcome)
        requires
            old(ctx).wf(),
            old(ctx).capacity <= 255,
        ensures
            final(ctx).wf(),
            final(ctx).capacity == old(ctx).capacity,
            match *cmd {
                Command::ScanNetworks => {
                    &&& r == (InvokeOutcome::Respond {
                        response: ClusterResponse::Status(IMStatusCode::Busy),
                        notify: false,
                    })
                    &&& *final(ctx) == *old(ctx)
                    &&& final(self).data_ver.ver == spec_next_ver(old(self).data_ver.ver)
                },
                Command::AddOrUpdateWifiNetwork { ref ssid, ref credentials } => {
                    &&& r == (InvokeOutcome::Respond {
                        response: spec_add_reply(
                            old(ctx).nets(),
                            old(ctx).capacity as nat,
                            ssid@,
                            credentials@,
                        ).0,
                        notify: spec_add_reply(
                            old(ctx).nets(),
                            old(ctx).capacity as nat,
                            ssid@,
                            credentials@,
                        ).1,
                    })
                    &&& final(ctx).nets() == model_step(
                        old(ctx).nets(),
                        old(ctx).capacity as nat,
                        NetworkCommand::AddOrUpdate { ssid: ssid@, password: credentials@ },
                    )
                    &&& final(ctx).status == old(ctx).status
                    &&& final(ctx).connect_requested == old(ctx).connect_requested
                    &&& final(self).data_ver.ver == spec_next_ver(old(self).data_ver.ver)
                },
                Command::RemoveNetwork { ref network_id } => {
                    &&& r == (InvokeOutcome::Respond {
                        response: spec_remove_reply(old(ctx).nets(), network_id@).0,
                        notify: spec_remove_reply(old(ctx).nets(), network_id@).1,
                    })
                    &&& final(ctx).nets() == model_remove(old(ctx).nets(), network_id@)
                    &&& final(ctx).status == old(ctx).status
                    &&& final(ctx).connect_requested == old(ctx).connect_requested
                    &&& final(self).data_ver.ver == spec_next_ver(old(self).data_ver.ver)
                },
                Command::ConnectNetwork { ref network_id } => {
                    if network_id@.len() > MAX_SSID_LEN {
                        &&& r == (InvokeOutcome::Respond {
                            response: ClusterResponse::Status(IMStatusCode::ConstraintError),
                            notify: false,
                        })
                        &&& *final(ctx) == *old(ctx)
                        &&& final(self).data_ver.ver == spec_next_ver(old(self).data_ver.ver)
                    } else {
                        &&& r == InvokeOutcome::Suspend
                        &&& final(ctx).connect_req() == Some(network_id@)
                        &&& final(ctx).connect_signal
                        &&& final(ctx).networks == old(ctx).networks
                        &&& final(ctx).changed == old(ctx).changed
                        &&& final(ctx).status == old(ctx).status
                        &&& *final(self) == *old(self)
                    }
                },
                Command::ReorderNetwork { ref network_id, index } => {
                    &&& r == (InvokeOutcome::Respond {
                        response: spec_reorder_reply(old(ctx).nets(), network_id@, index).0,
                        notify: spec_reorder_reply(old(ctx).nets(), network_id@, index).1,
                    })
                    &&& final(ctx).nets() == model_reorder(
                        old(ctx).nets(),
                        network_id@,
                        index as int,
                    )
                    &&& final(ctx).status == old(ctx).status
                    &&& final(ctx).connect_requested == old(ctx).connect_requested
                    &&& final(self).data_ver.ver == spec_next_ver(old(self).data_ver.ver)
                },
            },
    {
        let outcome = match cmd {
            Command::ScanNetworks => {
                let (response, notify) = self.scan_networks(ctx);
                InvokeOutcome::Respond { response, notify }
            },
            Command::AddOrUpdateWifiNetwork { ssid, credentials } => {
                let (response, notify) = self.add_network(ctx, ssid, credentials);
                InvokeOutcome::Respond { response, notify }
            },
            Command::RemoveNetwork { network_id } => {
                let (response, notify) = self.remove_network(ctx, network_id);
                InvokeOutcome::Respond { response, notify }
            },
            Command::ConnectNetwork { network_id } => {
                let connect = self.connect_network(ctx, network_id);
                match connect {
                    InvokeOutcome::Suspend => {
                        return InvokeOutcome::Suspend;
                    },
                    other => other,
                }
            },
            Command::ReorderNetwork { network_id, index } => {
                let (response, notify) = self.reorder_network(ctx, network_id, *index);
                InvokeOutcome::Respond { response, notify }
            },
        };
        self.data_ver.changed();
        outcome
    }

    /// Whether the last connect attempt succeeded for this ssid.
    pub open spec fn spec_connected(ctx: WifiContext, id: Seq<u8>) -> bool {
        ctx.status matches Some(st) && st.ssid@ == id && st.status
            == NetworkCommissioningStatus::Success
    }

    /// Read one attribute of the cluster, as the value the codec encodes.
    pub fn read(&self, ctx: &WifiContext, attr: Attribute) -> (r: AttrValue)
        requires
            ctx.wf(),
            ctx.capacity <= 255,
        ensures
            match attr {
                Attribute::MaxNetworks => r == AttrValue::Uint8(ctx.capacity as u8),
                Attribute::Networks => r matches AttrValue::Networks(v) && v@.len()
                    == ctx.nets().len() && forall|i: int|
                    0 <= i < v@.len() ==> (#[trigger] v@[i]).network_id@ == ctx.nets()[i].0
                        && v@[i].connected == Self::spec_connected(*ctx, ctx.nets()[i].0),
                Attribute::ScanMaxTimeSecs => r == AttrValue::Uint8(SCAN_MAX_TIME_SECS),
                Attribute::ConnectMaxTimeSecs => r == AttrValue::Uint8(CONNECT_MAX_TIME_SECS),
                Attribute::InterfaceEnabled => r == AttrValue::Bool(true),
                Attribute::LastNetworkingStatus => r == AttrValue::OptUint8(
                    match ctx.status {
                        Some(st) => Some(spec_status_code(st.status)),
                        None => None,
                    },
                ),
                Attribute::LastNetworkID => match ctx.status {
                    Some(st) => r matches AttrValue::OptBytes(Some(v)) && v@ == st.ssid@,
                    None => r == AttrValue::OptBytes(None),
                },
                Attribute::LastConnectErrorValue => r == AttrValue::OptInt32(
                    match ctx.status {
                        Some(st) => Some(st.value),
                        None => None,
                    },
                ),
            },
    {
        match attr {
            Attribute::MaxNetworks => AttrValue::Uint8(ctx.capacity as u8),
            Attribute::Networks => {
                let mut out: Vec<NwInfo> = Vec::new();
                let mut i: usize = 0;
                while i < ctx.networks.len()
                    invariant
                        ctx.wf(),
                        i <= ctx.networks@.len(),
                        out@.len() == i,
                        forall|j: int|
                            0 <= j < i ==> (#[trigger] out@[j]).network_id@ == ctx.nets()[j].0
                                && out@[j].connected == Self::spec_connected(*ctx, ctx.nets()[j].0),
                    decreases ctx.networks@.len() - i,
                {
                    let c = &ctx.networks[i];
                    let connected = match &ctx.status {
                        Some(st) => (st.status == NetworkCommissioningStatus::Success) && bytes_eq(
                            &st.ssid,
                            &c.ssid,
                        ),
                        None => false,
                    };
                    out.push(NwInfo { network_id: copy_bytes(&c.ssid), connected });
                    proof {
                        assert(ctx.nets()[i as int] == cred_view(ctx.networks@[i as int]));
                    }
                    i += 1;
                }
                AttrValue::Networks(out)
            },
            Attribute::ScanMaxTimeSecs => AttrValue::Uint8(SCAN_MAX_TIME_SECS),
            Attribute::ConnectMaxTimeSecs => AttrValue::Uint8(CONNECT_MAX_TIME_SECS),
            Attribute::InterfaceEnabled => AttrValue::Bool(true),
            Attribute::LastNetworkingStatus => {
                match &ctx.status {
                    Some(st) => AttrValue::OptUint8(Some(status_code(st.status))),
                    None => AttrValue::OptUint8(None),
                }
            },
            Attribute::LastNetworkID => {
                match &ctx.status {
                    Some(st) => AttrValue::OptBytes(Some(copy_bytes(&st.ssid))),
                    None => AttrValue::OptBytes(None),
                }
            },
            Attribute::LastConnectErrorValue => {
                match &ctx.status {
                    Some(st) => AttrValue::OptInt32(Some(st.value)),
                    None => AttrValue::OptInt32(None),
                }
            },
        }
    }
}

} // verus!
