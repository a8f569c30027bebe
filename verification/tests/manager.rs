//! The network manager's state machine against the shared context.

use net_provision::wifi::comm::{Attribute, AttrValue, InvokeOutcome, WifiCommCluster};
use net_provision::wifi::mgmt::{ManagerState, WifiManager};
use net_provision::wifi::{NetworkCommissioningStatus, WifiContext};

#[test]
fn signal_before_waiting_loses_no_request() {
    let mut ctx = WifiContext::new(3);
    let cluster = WifiCommCluster::new(0);
    cluster.add_network(&mut ctx, &b"A".to_vec(), &b"pw".to_vec());
    // the connect command fires the signal before the manager ever waits
    let outcome = cluster.connect_network(&mut ctx, &b"A".to_vec());
    assert!(matches!(outcome, InvokeOutcome::Suspend));
    assert!(ctx.connect_pending());
    // the manager starts only now, and must still observe the request
    let mut mgr = WifiManager::new();
    let cred = mgr.on_wake(&mut ctx).expect("request observed");
    assert_eq!(cred.ssid, b"A".to_vec());
    assert_eq!(cred.password, b"pw".to_vec());
    assert!(matches!(mgr.state, ManagerState::Connecting(_)));
    assert!(!ctx.connect_pending());
}

#[test]
fn wake_without_request_does_nothing() {
    let mut ctx = WifiContext::new(3);
    let mut mgr = WifiManager::new();
    assert!(mgr.on_wake(&mut ctx).is_none());
    assert!(matches!(mgr.state, ManagerState::Idle));
}

#[test]
fn connect_success_writes_the_status() {
    let mut ctx = WifiContext::new(3);
    let cluster = WifiCommCluster::new(0);
    cluster.add_network(&mut ctx, &b"A".to_vec(), &b"pw".to_vec());
    cluster.connect_network(&mut ctx, &b"A".to_vec());
    let mut mgr = WifiManager::new();
    mgr.on_wake(&mut ctx).expect("request observed");
    mgr.on_connect_result(&mut ctx, Ok(()));
    assert!(matches!(mgr.state, ManagerState::Idle));
    assert_eq!(
        cluster.read(&ctx, Attribute::LastNetworkingStatus),
        AttrValue::OptUint8(Some(0))
    );
    assert_eq!(
        cluster.read(&ctx, Attribute::LastNetworkID),
        AttrValue::OptBytes(Some(b"A".to_vec()))
    );
    assert_eq!(
        cluster.read(&ctx, Attribute::LastConnectErrorValue),
        AttrValue::OptInt32(Some(0))
    );
    // the networks attribute now shows the entry as connected
    match cluster.read(&ctx, Attribute::Networks) {
        AttrValue::Networks(v) => {
            assert_eq!(v.len(), 1);
            assert!(v[0].connected);
        }
        other => panic!("unexpected attribute value {:?}", other),
    }
}

#[test]
fn connect_failure_carries_the_platform_code() {
    let mut ctx = WifiContext::new(3);
    let cluster = WifiCommCluster::new(0);
    cluster.add_network(&mut ctx, &b"A".to_vec(), &b"pw".to_vec());
    cluster.connect_network(&mut ctx, &b"A".to_vec());
    let mut mgr = WifiManager::new();
    mgr.on_wake(&mut ctx).expect("request observed");
    mgr.on_connect_result(&mut ctx, Err((NetworkCommissioningStatus::AuthFailure, -7)));
    assert_eq!(
        cluster.read(&ctx, Attribute::LastNetworkingStatus),
        AttrValue::OptUint8(Some(7))
    );
    assert_eq!(
        cluster.read(&ctx, Attribute::LastConnectErrorValue),
        AttrValue::OptInt32(Some(-7))
    );
    match cluster.read(&ctx, Attribute::Networks) {
        AttrValue::Networks(v) => assert!(!v[0].connected),
        other => panic!("unexpected attribute value {:?}", other),
    }
}

#[test]
fn connect_request_for_unknown_ssid_reports_network_not_found() {
    let mut ctx = WifiContext::new(3);
    let cluster = WifiCommCluster::new(0);
    cluster.connect_network(&mut ctx, &b"nowhere".to_vec());
    let mut mgr = WifiManager::new();
    assert!(mgr.on_wake(&mut ctx).is_none());
    assert!(matches!(mgr.state, ManagerState::Idle));
    assert_eq!(
        cluster.read(&ctx, Attribute::LastNetworkingStatus),
        AttrValue::OptUint8(Some(net_provision::wifi::status_code(
            NetworkCommissioningStatus::NetworkNotFound
        )))
    );
    assert_eq!(
        cluster.read(&ctx, Attribute::LastNetworkID),
        AttrValue::OptBytes(Some(b"nowhere".to_vec()))
    );
}
