//! The storage codec and the durability boundary of the dirty flag.

use net_provision::persist::{
    decode_networks, encode_networks, restore_context, snapshot_if_changed,
};
use net_provision::wifi::{WifiContext, WifiCredentials};

fn cred(ssid: &[u8], password: &[u8]) -> WifiCredentials {
    WifiCredentials { ssid: ssid.to_vec(), password: password.to_vec() }
}

#[test]
fn encode_layout_is_count_then_length_prefixed_fields() {
    let nets = vec![cred(b"AB", b"C"), cred(b"D", b"")];
    let blob = encode_networks(&nets);
    assert_eq!(
        blob,
        vec![2, 2, b'A', b'B', 1, b'C', 1, b'D', 0]
    );
}

#[test]
fn decode_inverts_encode() {
    let nets = vec![cred(b"Home", b"pw1"), cred(b"Office", b""), cred(&[0u8; 32], &[7u8; 64])];
    let blob = encode_networks(&nets);
    assert!(blob.len() <= 4096);
    let back = decode_networks(&blob).expect("valid blob");
    assert_eq!(back.len(), nets.len());
    for (a, b) in nets.iter().zip(back.iter()) {
        assert_eq!(a.ssid, b.ssid);
        assert_eq!(a.password, b.password);
    }
}

#[test]
fn decode_rejects_malformed_blobs() {
    // empty
    assert!(decode_networks(&vec![]).is_none());
    // count says one entry, nothing follows
    assert!(decode_networks(&vec![1]).is_none());
    // ssid length prefix past the wire bound
    assert!(decode_networks(&vec![1, 33, 0]).is_none());
    // password length prefix past the wire bound
    assert!(decode_networks(&vec![1, 1, b'A', 65]).is_none());
    // truncated password
    assert!(decode_networks(&vec![1, 1, b'A', 2, b'x']).is_none());
    // trailing bytes
    assert!(decode_networks(&vec![0, 9]).is_none());
    // the empty list encodes to the bare count byte
    assert!(decode_networks(&vec![0]).is_some());
}

#[test]
fn restore_seeds_from_a_valid_blob_and_falls_back_to_empty() {
    let nets = vec![cred(b"Home", b"pw")];
    let blob = encode_networks(&nets);
    let ctx = restore_context(Some(blob), 3);
    assert!(!ctx.needs_save());
    let c = ctx.credential_for(&b"Home".to_vec()).expect("restored");
    assert_eq!(c.password, b"pw".to_vec());
    // garbage falls back to the empty state
    let ctx = restore_context(Some(vec![9, 9, 9]), 3);
    assert!(ctx.credential_for(&b"Home".to_vec()).is_none());
    // more entries than the capacity are rejected as a whole
    let big = encode_networks(&vec![
        cred(b"a", b""),
        cred(b"b", b""),
        cred(b"c", b""),
        cred(b"d", b""),
    ]);
    let ctx = restore_context(Some(big), 3);
    assert!(ctx.credential_for(&b"a".to_vec()).is_none());
    // no blob at all
    let ctx = restore_context(None, 3);
    assert!(!ctx.needs_save());
    assert!(ctx.credential_for(&b"Home".to_vec()).is_none());
}

#[test]
fn dirty_flag_clears_only_at_the_write() {
    let mut ctx = WifiContext::new(3);
    assert!(snapshot_if_changed(&ctx).is_none());
    ctx.add_or_update_network(&b"Home".to_vec(), &b"pw".to_vec());
    assert!(ctx.needs_save());
    let blob = snapshot_if_changed(&ctx).expect("dirty state yields a blob");
    // still dirty until the write is confirmed
    assert!(ctx.needs_save());
    ctx.mark_saved();
    assert!(!ctx.needs_save());
    assert!(snapshot_if_changed(&ctx).is_none());
    // the written blob restores the same list
    let restored = restore_context(Some(blob), 3);
    assert!(restored.credential_for(&b"Home".to_vec()).is_some());
}

#[test]
fn crash_before_write_keeps_the_flag_and_loses_only_the_tail() {
    // boot with one persisted network
    let blob_v1 = encode_networks(&vec![cred(b"Home", b"pw1")]);
    let mut ctx = restore_context(Some(blob_v1.clone()), 3);
    assert!(!ctx.needs_save());
    // mutate; the watcher has not written yet
    ctx.add_or_update_network(&b"Office".to_vec(), &b"pw2".to_vec());
    assert!(ctx.needs_save(), "divergence from storage must show as a raised flag");
    // the process dies here: storage still holds the old blob, and a
    // reboot sees exactly the last completed write
    let rebooted = restore_context(Some(blob_v1), 3);
    assert!(rebooted.credential_for(&b"Home".to_vec()).is_some());
    assert!(rebooted.credential_for(&b"Office".to_vec()).is_none());
}
