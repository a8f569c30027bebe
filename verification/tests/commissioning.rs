//! Command semantics of the network-commissioning cluster.

use net_provision::wifi::comm::{
    Attribute, AttrValue, ClusterResponse, Command, IMStatusCode, InvokeOutcome,
    NetworkConfigResponse, WifiCommCluster, CONNECT_MAX_TIME_SECS, SCAN_MAX_TIME_SECS,
};
use net_provision::wifi::{status_code, NetworkCommissioningStatus, WifiContext};

fn ctx3() -> WifiContext {
    WifiContext::new(3)
}

fn config(
    status: NetworkCommissioningStatus,
    network_index: Option<u8>,
) -> ClusterResponse {
    ClusterResponse::Config(NetworkConfigResponse { status, debug_text: None, network_index })
}

fn networks_of(cluster: &WifiCommCluster, ctx: &WifiContext) -> Vec<Vec<u8>> {
    match cluster.read(ctx, Attribute::Networks) {
        AttrValue::Networks(v) => v.into_iter().map(|n| n.network_id).collect(),
        other => panic!("unexpected attribute value {:?}", other),
    }
}

#[test]
fn scan_is_always_busy() {
    let ctx = ctx3();
    let cluster = WifiCommCluster::new(0);
    let (resp, notify) = cluster.scan_networks(&ctx);
    assert_eq!(resp, ClusterResponse::Status(IMStatusCode::Busy));
    assert!(!notify);
}

#[test]
fn add_reports_post_insertion_length_and_update_reports_position() {
    let mut ctx = ctx3();
    let cluster = WifiCommCluster::new(0);
    let (resp, notify) = cluster.add_network(&mut ctx, &b"Home".to_vec(), &b"pw1".to_vec());
    assert_eq!(resp, config(NetworkCommissioningStatus::Success, Some(1)));
    assert!(notify);
    let (resp, notify) = cluster.add_network(&mut ctx, &b"Home".to_vec(), &b"pw2".to_vec());
    assert_eq!(resp, config(NetworkCommissioningStatus::Success, Some(0)));
    assert!(notify);
    let cred = ctx.credential_for(&b"Home".to_vec()).expect("present");
    assert_eq!(cred.password, b"pw2".to_vec());
    assert_eq!(networks_of(&cluster, &ctx), vec![b"Home".to_vec()]);
}

#[test]
fn add_when_full_is_bounds_exceeded_and_mutates_nothing() {
    let mut ctx = ctx3();
    let cluster = WifiCommCluster::new(0);
    for (i, ssid) in [b"a".to_vec(), b"b".to_vec(), b"c".to_vec()].iter().enumerate() {
        let (resp, _) = cluster.add_network(&mut ctx, ssid, &b"pw".to_vec());
        assert_eq!(resp, config(NetworkCommissioningStatus::Success, Some(i as u8 + 1)));
    }
    let before = networks_of(&cluster, &ctx);
    let (resp, notify) = cluster.add_network(&mut ctx, &b"d".to_vec(), &b"pw".to_vec());
    assert_eq!(resp, config(NetworkCommissioningStatus::BoundsExceeded, None));
    assert!(!notify);
    assert_eq!(networks_of(&cluster, &ctx), before);
    // updating a present entry still succeeds on a full list
    let (resp, _) = cluster.add_network(&mut ctx, &b"b".to_vec(), &b"new".to_vec());
    assert_eq!(resp, config(NetworkCommissioningStatus::Success, Some(1)));
}

#[test]
fn remove_then_remove_again() {
    let mut ctx = ctx3();
    let cluster = WifiCommCluster::new(0);
    cluster.add_network(&mut ctx, &b"A".to_vec(), &b"pw".to_vec());
    let (resp, notify) = cluster.remove_network(&mut ctx, &b"A".to_vec());
    assert_eq!(resp, config(NetworkCommissioningStatus::Success, Some(0)));
    assert!(notify);
    let (resp, notify) = cluster.remove_network(&mut ctx, &b"A".to_vec());
    assert_eq!(resp, config(NetworkCommissioningStatus::NetworkIdNotFound, None));
    assert!(!notify);
}

#[test]
fn reorder_to_current_length_is_out_of_range() {
    let mut ctx = ctx3();
    let cluster = WifiCommCluster::new(0);
    cluster.add_network(&mut ctx, &b"A".to_vec(), &b"pw".to_vec());
    cluster.add_network(&mut ctx, &b"B".to_vec(), &b"pw".to_vec());
    let before = networks_of(&cluster, &ctx);
    let (resp, notify) = cluster.reorder_network(&mut ctx, &b"A".to_vec(), 2);
    assert_eq!(resp, config(NetworkCommissioningStatus::OutOfRange, Some(2)));
    assert!(!notify);
    assert_eq!(networks_of(&cluster, &ctx), before);
}

#[test]
fn reorder_moves_the_entry() {
    let mut ctx = ctx3();
    let cluster = WifiCommCluster::new(0);
    cluster.add_network(&mut ctx, &b"A".to_vec(), &b"pw".to_vec());
    cluster.add_network(&mut ctx, &b"B".to_vec(), &b"pw".to_vec());
    cluster.add_network(&mut ctx, &b"C".to_vec(), &b"pw".to_vec());
    let (resp, notify) = cluster.reorder_network(&mut ctx, &b"C".to_vec(), 0);
    assert_eq!(resp, config(NetworkCommissioningStatus::Success, Some(0)));
    assert!(notify);
    assert_eq!(
        networks_of(&cluster, &ctx),
        vec![b"C".to_vec(), b"A".to_vec(), b"B".to_vec()]
    );
    let (resp, _) = cluster.reorder_network(&mut ctx, &b"missing".to_vec(), 0);
    assert_eq!(resp, config(NetworkCommissioningStatus::NetworkIdNotFound, None));
}

#[test]
fn oversized_inputs_yield_constraint_error_and_change_nothing() {
    let mut ctx = ctx3();
    let cluster = WifiCommCluster::new(0);
    let long_ssid = vec![b'x'; 33];
    let long_pw = vec![b'y'; 65];
    let (resp, notify) = cluster.add_network(&mut ctx, &long_ssid, &b"pw".to_vec());
    assert_eq!(resp, ClusterResponse::Status(IMStatusCode::ConstraintError));
    assert!(!notify);
    let (resp, _) = cluster.add_network(&mut ctx, &b"ok".to_vec(), &long_pw);
    assert_eq!(resp, ClusterResponse::Status(IMStatusCode::ConstraintError));
    assert!(networks_of(&cluster, &ctx).is_empty());
    assert!(!ctx.needs_save());
    let outcome = cluster.connect_network(&mut ctx, &long_ssid);
    match outcome {
        InvokeOutcome::Respond { response, notify } => {
            assert_eq!(response, ClusterResponse::Status(IMStatusCode::ConstraintError));
            assert!(!notify);
        }
        InvokeOutcome::Suspend => panic!("oversized connect must not suspend"),
    }
    assert!(!ctx.connect_pending());
    // boundary values are accepted
    let edge_ssid = vec![b'x'; 32];
    let edge_pw = vec![b'y'; 64];
    let (resp, _) = cluster.add_network(&mut ctx, &edge_ssid, &edge_pw);
    assert_eq!(resp, config(NetworkCommissioningStatus::Success, Some(1)));
}

#[test]
fn end_to_end_provisioning_sequence() {
    let mut ctx = ctx3();
    let cluster = WifiCommCluster::new(0);
    let (resp, _) = cluster.add_network(&mut ctx, &b"Home".to_vec(), &b"pw1".to_vec());
    // the add path reports the post-insertion length, the wire convention
    // this cluster keeps
    assert_eq!(resp, config(NetworkCommissioningStatus::Success, Some(1)));
    let (resp, _) = cluster.add_network(&mut ctx, &b"Home".to_vec(), &b"pw2".to_vec());
    assert_eq!(resp, config(NetworkCommissioningStatus::Success, Some(0)));
    let cred = ctx.credential_for(&b"Home".to_vec()).expect("present");
    assert_eq!(cred.password, b"pw2".to_vec());
    let (resp, _) = cluster.remove_network(&mut ctx, &b"Office".to_vec());
    assert_eq!(resp, config(NetworkCommissioningStatus::NetworkIdNotFound, None));
    let (resp, _) = cluster.reorder_network(&mut ctx, &b"Home".to_vec(), 5);
    assert_eq!(resp, config(NetworkCommissioningStatus::OutOfRange, Some(5)));
    assert_eq!(networks_of(&cluster, &ctx), vec![b"Home".to_vec()]);
}

#[test]
fn command_sequences_keep_the_list_bounded_and_unique() {
    let mut ctx = ctx3();
    let cluster = WifiCommCluster::new(0);
    let script: Vec<Command> = vec![
        Command::AddOrUpdateWifiNetwork { ssid: b"a".to_vec(), credentials: b"1".to_vec() },
        Command::AddOrUpdateWifiNetwork { ssid: b"b".to_vec(), credentials: b"2".to_vec() },
        Command::AddOrUpdateWifiNetwork { ssid: b"a".to_vec(), credentials: b"3".to_vec() },
        Command::AddOrUpdateWifiNetwork { ssid: b"c".to_vec(), credentials: b"4".to_vec() },
        Command::AddOrUpdateWifiNetwork { ssid: b"d".to_vec(), credentials: b"5".to_vec() },
        Command::ReorderNetwork { network_id: b"c".to_vec(), index: 0 },
        Command::RemoveNetwork { network_id: b"b".to_vec() },
        Command::AddOrUpdateWifiNetwork { ssid: b"e".to_vec(), credentials: b"6".to_vec() },
        Command::ReorderNetwork { network_id: b"e".to_vec(), index: 9 },
        Command::RemoveNetwork { network_id: b"zz".to_vec() },
    ];
    let mut cluster = cluster;
    for cmd in &script {
        cluster.invoke(&mut ctx, cmd);
        let nets = networks_of(&cluster, &ctx);
        assert!(nets.len() <= 3);
        for i in 0..nets.len() {
            for j in i + 1..nets.len() {
                assert_ne!(nets[i], nets[j]);
            }
        }
    }
}

#[test]
fn invoke_steps_the_data_version_except_for_suspended_connect() {
    let mut ctx = ctx3();
    let mut cluster = WifiCommCluster::new(41);
    assert_eq!(cluster.data_ver.get(), 41);
    let out = cluster.invoke(&mut ctx, &Command::ScanNetworks);
    match out {
        InvokeOutcome::Respond { response, notify } => {
            assert_eq!(response, ClusterResponse::Status(IMStatusCode::Busy));
            assert!(!notify);
        }
        InvokeOutcome::Suspend => panic!("scan must respond"),
    }
    assert_eq!(cluster.data_ver.get(), 42);
    let out = cluster.invoke(
        &mut ctx,
        &Command::ConnectNetwork { network_id: b"Home".to_vec() },
    );
    assert!(matches!(out, InvokeOutcome::Suspend));
    assert_eq!(cluster.data_ver.get(), 42);
    assert!(ctx.connect_pending());
}

#[test]
fn data_version_wraps_at_the_top() {
    let mut cluster = WifiCommCluster::new(u32::MAX);
    let mut ctx = ctx3();
    cluster.invoke(&mut ctx, &Command::ScanNetworks);
    assert_eq!(cluster.data_ver.get(), 0);
}

#[test]
fn status_codes_match_the_wire_values() {
    assert_eq!(status_code(NetworkCommissioningStatus::Success), 0);
    assert_eq!(status_code(NetworkCommissioningStatus::OutOfRange), 1);
    assert_eq!(status_code(NetworkCommissioningStatus::BoundsExceeded), 2);
    assert_eq!(status_code(NetworkCommissioningStatus::NetworkIdNotFound), 3);
    assert_eq!(status_code(NetworkCommissioningStatus::DuplicateNetworkId), 4);
    assert_eq!(status_code(NetworkCommissioningStatus::NetworkNotFound), 5);
    assert_eq!(status_code(NetworkCommissioningStatus::RegulatoryError), 6);
    assert_eq!(status_code(NetworkCommissioningStatus::AuthFailure), 7);
    assert_eq!(status_code(NetworkCommissioningStatus::UnsupportedSecurity), 8);
    assert_eq!(status_code(NetworkCommissioningStatus::OtherConnectionFailure), 9);
    assert_eq!(status_code(NetworkCommissioningStatus::Ipv6Failed), 10);
    assert_eq!(status_code(NetworkCommissioningStatus::IpBindFailed), 11);
    assert_eq!(status_code(NetworkCommissioningStatus::UnknownError), 12);
}

#[test]
fn attributes_report_the_advertised_constants() {
    let ctx = ctx3();
    let cluster = WifiCommCluster::new(0);
    assert_eq!(cluster.read(&ctx, Attribute::MaxNetworks), AttrValue::Uint8(3));
    assert_eq!(
        cluster.read(&ctx, Attribute::ScanMaxTimeSecs),
        AttrValue::Uint8(SCAN_MAX_TIME_SECS)
    );
    assert_eq!(SCAN_MAX_TIME_SECS, 30);
    assert_eq!(
        cluster.read(&ctx, Attribute::ConnectMaxTimeSecs),
        AttrValue::Uint8(CONNECT_MAX_TIME_SECS)
    );
    assert_eq!(CONNECT_MAX_TIME_SECS, 60);
    assert_eq!(cluster.read(&ctx, Attribute::InterfaceEnabled), AttrValue::Bool(true));
    assert_eq!(
        cluster.read(&ctx, Attribute::LastNetworkingStatus),
        AttrValue::OptUint8(None)
    );
    assert_eq!(cluster.read(&ctx, Attribute::LastNetworkID), AttrValue::OptBytes(None));
    assert_eq!(
        cluster.read(&ctx, Attribute::LastConnectErrorValue),
        AttrValue::OptInt32(None)
    );
}
