//! Phase decisions, race groups and the bounded buffer pool.

use net_provision::stack::{
    next_phase, race_winner, BufferPool, Error, Eth, MatterStack, Network, Phase, PhaseEvent,
    Subscriptions, WifiBle, EXCHANGE_BUFFERS, MAX_WIFI_NETWORKS,
};

#[test]
fn connect_request_short_circuits_commissioning() {
    assert_eq!(next_phase(false, PhaseEvent::NetworkConnectRequested), Phase::Operating);
    assert_eq!(next_phase(true, PhaseEvent::NetworkConnectRequested), Phase::Operating);
}

#[test]
fn failed_commissioning_advertises_again() {
    assert_eq!(next_phase(false, PhaseEvent::CommissioningEnded), Phase::Commissioning);
    assert_eq!(next_phase(true, PhaseEvent::CommissioningEnded), Phase::Operating);
}

#[test]
fn operating_restarts_on_session_end_or_interface_change() {
    assert_eq!(next_phase(true, PhaseEvent::OperatingEnded), Phase::Operating);
    assert_eq!(next_phase(false, PhaseEvent::OperatingEnded), Phase::Commissioning);
    assert_eq!(next_phase(true, PhaseEvent::InterfaceChanged), Phase::Operating);
    assert_eq!(next_phase(false, PhaseEvent::InterfaceChanged), Phase::Operating);
}

#[test]
fn first_settled_race_member_wins() {
    let members: Vec<Option<Result<(), Error>>> = vec![None, None, None];
    assert_eq!(race_winner(&members), None);
    let members: Vec<Option<Result<(), Error>>> =
        vec![None, Some(Err(Error::Storage)), Some(Ok(()))];
    assert_eq!(race_winner(&members), Some((1, Err(Error::Storage))));
    let members: Vec<Option<Result<(), Error>>> = vec![Some(Ok(())), Some(Err(Error::Network))];
    assert_eq!(race_winner(&members), Some((0, Ok(()))));
    let empty: Vec<Option<Result<(), Error>>> = vec![];
    assert_eq!(race_winner(&empty), None);
}

#[test]
fn buffer_pool_exhaustion_is_the_resource_error() {
    let mut pool = BufferPool::new(2);
    assert_eq!(pool.acquire(), Ok(()));
    assert_eq!(pool.acquire(), Ok(()));
    assert_eq!(pool.acquire(), Err(Error::ResourceExhausted));
    pool.release();
    assert_eq!(pool.acquire(), Ok(()));
}

#[test]
fn stack_owns_its_pools_and_notification_slot() {
    let mut stack: MatterStack<WifiBle> = MatterStack::new();
    assert_eq!(stack.buffers.capacity, EXCHANGE_BUFFERS);
    assert_eq!(stack.psm_buffer.capacity, 1);
    assert_eq!(stack.network.wifi_context.capacity, MAX_WIFI_NETWORKS);
    assert!(!stack.subscriptions.notified);
    stack.notify_changed();
    assert!(stack.subscriptions.notified);
    assert!(stack.subscriptions.take_notification());
    assert!(!stack.subscriptions.take_notification());
}

#[test]
fn notification_slot_coalesces() {
    let mut subs = Subscriptions::new();
    subs.notify_changed();
    subs.notify_changed();
    assert!(subs.take_notification());
    assert!(!subs.take_notification());
}

#[test]
fn eth_stack_builds() {
    let stack: MatterStack<Eth> = MatterStack::new();
    assert_eq!(stack.buffers.available, EXCHANGE_BUFFERS);
    let _eth = Eth::init();
}
