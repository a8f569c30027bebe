//! Persistence of the provisioning state: a bounded blob under a fixed
//! storage namespace, written only by the persistence watcher and read
//! once at startup to seed the context.
//!
//! The layout is one count byte followed by the entries, each a
//! length-prefixed ssid and a length-prefixed password.  Decoding an
//! encoded snapshot yields the snapshot exactly (`lemma_round_trip`), so
//! the blob determines the list.  The storage primitive itself is an
//! external collaborator: the runtime writes the blob this module hands
//! out and confirms the write with `WifiContext::mark_saved`.

use vstd::prelude::*;

use crate::wifi::{
    cred_view, lemma_view_push, nets_view, pair_wf, view_unique, views_wf, WifiContext,
    WifiCredentials, MAX_PASSWORD_LEN, MAX_SSID_LEN,
};

verus! {

/// Largest persisted blob, in bytes.
pub const MAX_BLOB_LEN: usize = 4096;

/// Most entries a snapshot may hold: each entry takes at most 98 bytes
/// beside the one count byte, so 41 entries stay within the blob bound.
pub const MAX_SAVED_NETWORKS: usize = 41;

/// The bytes of one entry: length-prefixed ssid, length-prefixed password.
pub open spec fn spec_encode_entry(p: (Seq<u8>, Seq<u8>)) -> Seq<u8> {
    seq![p.0.len() as u8] + p.0 + seq![p.1.len() as u8] + p.1
}

/// The bytes of all entries, in list order.
pub open spec fn spec_encode_entries(nets: Seq<(Seq<u8>, Seq<u8>)>) -> Seq<u8>
    decreases nets.len(),
{
    if nets.len() == 0 {
        Seq::empty()
    } else {
        spec_encode_entry(nets[0]) + spec_encode_entries(nets.drop_first())
    }
}

/// The whole blob: count byte, then the entries.
pub open spec fn spec_encode(nets: Seq<(Seq<u8>, Seq<u8>)>) -> Seq<u8> {
    seq![nets.len() as u8] + spec_encode_entries(nets)
}

/// What decoding `n` entries from `bytes` yields; trailing bytes are an
/// error, as are length prefixes past the wire bounds.
pub open spec fn spec_decode_entries(bytes: Seq<u8>, n: nat) -> Option<Seq<(Seq<u8>, Seq<u8>)>>
    decreases n,
{
    if n == 0 {
        if bytes.len() == 0 {
            Some(Seq::empty())
        } else {
            None
        }
    } else if bytes.len() < 1 {
        None
    } else {
        let sl = bytes[0] as int;
        if sl > MAX_SSID_LEN || bytes.len() < 2 + sl {
            None
        } else {
            let ssid = bytes.subrange(1, 1 + sl);
            let pl = bytes[1 + sl] as int;
            if pl > MAX_PASSWORD_LEN || bytes.len() < 2 + sl + pl {
                None
            } else {
                let password = bytes.subrange(2 + sl, 2 + sl + pl);
                match spec_decode_entries(bytes.skip(2 + sl + pl), (n - 1) as nat) {
                    Some(rest) => Some(seq![(ssid, password)] + rest),
                    None => None,
                }
            }
        }
    }
}

/// What decoding a blob yields.
pub open spec fn spec_decode(bytes: Seq<u8>) -> Option<Seq<(Seq<u8>, Seq<u8>)>> {
    if bytes.len() < 1 {
        None
    } else {
        spec_decode_entries(bytes.drop_first(), bytes[0] as nat)
    }
}

/// The entries' bytes take at most 98 bytes per entry.
pub proof fn lemma_encode_entries_len(nets: Seq<(Seq<u8>, Seq<u8>)>)
    requires
        views_wf(nets),
    ensures
        spec_encode_entries(nets).len() <= 98 * nets.len(),
    decreases nets.len(),
{
    if nets.len() > 0 {
        let rest = nets.drop_first();
        assert forall|a: int| 0 <= a < rest.len() implies pair_wf(#[trigger] rest[a]) by {
            assert(rest[a] == nets[a + 1]);
        }
        lemma_encode_entries_len(rest);
        assert(pair_wf(nets[0]));
    }
}

/// Appending an entry appends its bytes.
proof fn lemma_entries_snoc(nets: Seq<(Seq<u8>, Seq<u8>)>, p: (Seq<u8>, Seq<u8>))
    ensures
        spec_encode_entries(nets.push(p)) == spec_encode_entries(nets) + spec_encode_entry(p),
    decreases nets.len(),
{
    if nets.len() == 0 {
        assert(nets.push(p)[0] == p);
        assert(nets.push(p).drop_first() =~= Seq::<(Seq<u8>, Seq<u8>)>::empty());
        assert(spec_encode_entries(Seq::<(Seq<u8>, Seq<u8>)>::empty()) == Seq::<u8>::empty());
        assert(spec_encode_entries(nets.push(p)) == spec_encode_entry(p) + Seq::<u8>::empty());
        assert(spec_encode_entries(nets) == Seq::<u8>::empty());
        assert(spec_encode_entries(nets) + spec_encode_entry(p) =~= spec_encode_entry(p)
            + Seq::<u8>::empty());
    } else {
        lemma_entries_snoc(nets.drop_first(), p);
        assert(nets.push(p)[0] == nets[0]);
        assert(nets.push(p).drop_first() =~= nets.drop_first().push(p));
        assert(spec_encode_entry(nets[0]) + (spec_encode_entries(nets.drop_first())
            + spec_encode_entry(p)) =~= (spec_encode_entry(nets[0]) + spec_encode_entries(
            nets.drop_first(),
        )) + spec_encode_entry(p));
    }
}

/// Law: decoding the encoded entries yields the entries.
proof fn lemma_entries_round_trip(nets: Seq<(Seq<u8>, Seq<u8>)>)
    requires
        views_wf(nets),
    ensures
        spec_decode_entries(spec_encode_entries(nets), nets.len() as nat) == Some(nets),
    decreases nets.len(),
{
    if nets.len() == 0 {
        assert(spec_encode_entries(nets).len() == 0);
    } else {
        let p = nets[0];
        let rest = nets.drop_first();
        assert forall|a: int| 0 <= a < rest.len() implies pair_wf(#[trigger] rest[a]) by {
            assert(rest[a] == nets[a + 1]);
        }
        lemma_entries_round_trip(rest);
        assert(pair_wf(p));
        let bytes = spec_encode_entries(nets);
        let sl = p.0.len() as int;
        let pl = p.1.len() as int;
        assert(bytes =~= spec_encode_entry(p) + spec_encode_entries(rest));
        assert(spec_encode_entry(p).len() == 2 + sl + pl);
        assert(bytes[0] == sl as u8);
        assert(bytes.subrange(1, 1 + sl) =~= p.0);
        assert(bytes[1 + sl] == pl as u8);
        assert(bytes.subrange(2 + sl, 2 + sl + pl) =~= p.1);
        assert(bytes.skip(2 + sl + pl) =~= spec_encode_entries(rest));
        assert(seq![(bytes.subrange(1, 1 + sl), bytes.subrange(2 + sl, 2 + sl + pl))] + rest
            =~= nets);
    }
}

/// Law: decoding an encoded snapshot yields the snapshot.  The persisted
/// blob determines the credential list exactly, so a reload after a crash
/// restores precisely what the last completed write held.
pub proof fn lemma_round_trip(nets: Seq<(Seq<u8>, Seq<u8>)>)
    requires
        views_wf(nets),
        nets.len() <= 255,
    ensures
        spec_decode(spec_encode(nets)) == Some(nets),
{
    lemma_entries_round_trip(nets);
    assert(spec_encode(nets)[0] == nets.len() as u8);
    assert(spec_encode(nets).drop_first() =~= spec_encode_entries(nets));
}

/// Serialize a credential list into the blob layout.
pub fn encode_networks(networks: &Vec<WifiCredentials>) -> (r: Vec<u8>)
    requires
        views_wf(nets_view(networks@)),
        networks@.len() <= MAX_SAVED_NETWORKS,
    ensures
        r@ == spec_encode(nets_view(networks@)),
        r@.len() <= MAX_BLOB_LEN,
{
    let ghost v = nets_view(networks@);
    let mut out: Vec<u8> = Vec::new();
    out.push(networks.len() as u8);
    proof {
        assert(out@ =~= seq![v.len() as u8] + spec_encode_entries(v.take(0)));
    }
    let mut i: usize = 0;
    while i < networks.len()
        invariant
            i <= networks@.len(),
            networks@.len() <= MAX_SAVED_NETWORKS,
            v == nets_view(networks@),
            views_wf(v),
            out@ == seq![v.len() as u8] + spec_encode_entries(v.take(i as int)),
        decreases networks@.len() - i,
    {
        proof {
            assert(v[i as int] == cred_view(networks@[i as int]));
            assert(pair_wf(v[i as int]));
        }
        let ghost entry_base = out@;
        let c = &networks[i];
        out.push(c.ssid.len() as u8);
        let mut k: usize = 0;
        let ghost ssid_base = out@;
        while k < c.ssid.len()
            invariant
                k <= c.ssid@.len(),
                out@ == ssid_base + c.ssid@.take(k as int),
            decreases c.ssid@.len() - k,
        {
            out.push(c.ssid[k]);
            proof {
                assert(ssid_base + c.ssid@.take(k as int + 1) =~= (ssid_base + c.ssid@.take(
                    k as int,
                )).push(c.ssid@[k as int]));
            }
            k += 1;
        }
        out.push(c.password.len() as u8);
        let mut m: usize = 0;
        let ghost pw_base = out@;
        while m < c.password.len()
            invariant
                m <= c.password@.len(),
                out@ == pw_base + c.password@.take(m as int),
            decreases c.password@.len() - m,
        {
            out.push(c.password[m]);
            proof {
                assert(pw_base + c.password@.take(m as int + 1) =~= (pw_base + c.password@.take(
                    m as int,
                )).push(c.password@[m as int]));
            }
            m += 1;
        }
        proof {
            assert(c.ssid@.take(c.ssid@.len() as int) =~= c.ssid@);
            assert(c.password@.take(c.password@.len() as int) =~= c.password@);
            assert(out@ =~= entry_base + spec_encode_entry(v[i as int]));
            lemma_entries_snoc(v.take(i as int), v[i as int]);
            assert(v.take(i as int + 1) =~= v.take(i as int).push(v[i as int]));
            assert(out@ =~= seq![v.len() as u8] + spec_encode_entries(v.take(i as int + 1)));
        }
        i += 1;
    }
    proof {
        assert(v.take(v.len() as int) =~= v);
        lemma_encode_entries_len(v);
    }
    out
}

/// A fresh vector holding `bytes[start .. start + n]`.
fn copy_range(bytes: &Vec<u8>, start: usize, n: usize) -> (r: Vec<u8>)
    requires
        start + n <= bytes@.len(),
    ensures
        r@ == bytes@.subrange(start as int, start as int + n as int),
{
    let mut r: Vec<u8> = Vec::new();
    let total = bytes.len();
    let mut k: usize = 0;
    while k < n
        invariant
            k <= n,
            total == bytes@.len(),
            start + n <= total,
            r@ == bytes@.subrange(start as int, start as int + k as int),
        decreases n - k,
    {
        r.push(bytes[start + k]);
        proof {
            assert(bytes@.subrange(start as int, start as int + k as int + 1) =~= bytes@.subrange(
                start as int,
                start as int + k as int,
            ).push(bytes@[start as int + k as int]));
        }
        k += 1;
    }
    r
}

/// Parse a blob back into a credential list.  The result is exactly what
/// `spec_decode` says: the count and every length prefix must be
/// consistent, within the wire bounds, and leave no trailing bytes.
pub fn decode_networks(bytes: &Vec<u8>) -> (r: Option<Vec<WifiCredentials>>)
    ensures
        match r {
            Some(v) => spec_decode(bytes@) == Some(nets_view(v@)) && views_wf(nets_view(v@))
                && v@.len() <= 255,
            None => spec_decode(bytes@) is None,
        },
{
    if bytes.len() == 0 {
        return None;
    }
    let count = bytes[0] as usize;
    let mut out: Vec<WifiCredentials> = Vec::new();
    let mut pos: usize = 1;
    let mut i: usize = 0;
    proof {
        assert(bytes@.skip(1) =~= bytes@.drop_first());
    }
    while i < count
        invariant
            i <= count,
            count <= 255,
            count == bytes@[0] as int,
            1 <= pos <= bytes@.len(),
            out@.len() == i,
            views_wf(nets_view(out@)),
            spec_decode_entries(bytes@.drop_first(), count as nat) == (match spec_decode_entries(
                bytes@.skip(pos as int),
                (count - i) as nat,
            ) {
                Some(rest) => Some(nets_view(out@) + rest),
                None => None::<Seq<(Seq<u8>, Seq<u8>)>>,
            }),
        decreases count - i,
    {
        let ghost s = bytes@.skip(pos as int);
        let ghost k = (count - i) as nat;
        if pos >= bytes.len() {
            proof {
                assert(s.len() < 1);
                assert(spec_decode_entries(s, k) is None);
            }
            return None;
        }
        let sl = bytes[pos] as usize;
        proof {
            assert(s[0] == bytes@[pos as int]);
        }
        if sl > MAX_SSID_LEN {
            proof {
                assert(spec_decode_entries(s, k) is None);
            }
            return None;
        }
        if bytes.len() - pos < 2 + sl {
            proof {
                assert(s.len() < 2 + sl);
                assert(spec_decode_entries(s, k) is None);
            }
            return None;
        }
        let ssid = copy_range(bytes, pos + 1, sl);
        proof {
            assert(s.subrange(1, 1 + sl as int) =~= bytes@.subrange(
                pos as int + 1,
                pos as int + 1 + sl as int,
            ));
        }
        let pl = bytes[pos + 1 + sl] as usize;
        proof {
            assert(s[1 + sl as int] == bytes@[pos as int + 1 + sl as int]);
        }
        if pl > MAX_PASSWORD_LEN {
            proof {
                assert(spec_decode_entries(s, k) is None);
            }
            return None;
        }
        if bytes.len() - pos < 2 + sl + pl {
            proof {
                assert(s.len() < 2 + sl + pl);
                assert(spec_decode_entries(s, k) is None);
            }
            return None;
        }
        let password = copy_range(bytes, pos + 2 + sl, pl);
        proof {
            assert(s.subrange(2 + sl as int, 2 + sl as int + pl as int) =~= bytes@.subrange(
                pos as int + 2 + sl as int,
                pos as int + 2 + sl as int + pl as int,
            ));
        }
        let ghost prev = out@;
        let cred = WifiCredentials { ssid, password };
        out.push(cred);
        pos = pos + 2 + sl + pl;
        i = i + 1;
        proof {
            let s2 = bytes@.skip(pos as int);
            assert(s.skip(2 + sl as int + pl as int) =~= s2);
            let pair = (s.subrange(1, 1 + sl as int), s.subrange(
                2 + sl as int,
                2 + sl as int + pl as int,
            ));
            assert(spec_decode_entries(s, k) == (match spec_decode_entries(s2, (k - 1) as nat) {
                Some(rest) => Some(seq![pair] + rest),
                None => None::<Seq<(Seq<u8>, Seq<u8>)>>,
            }));
            lemma_view_push(prev, out@.last());
            assert(nets_view(out@) =~= nets_view(prev).push(pair));
            assert forall|a: int| 0 <= a < nets_view(out@).len() implies pair_wf(
                #[trigger] nets_view(out@)[a],
            ) by {
                if a < nets_view(prev).len() {
                    assert(nets_view(out@)[a] == nets_view(prev)[a]);
                } else {
                    assert(nets_view(out@)[a] == pair);
                }
            }
            match spec_decode_entries(s2, (k - 1) as nat) {
                Some(rest) => {
                    assert(nets_view(prev) + (seq![pair] + rest) =~= nets_view(out@) + rest);
                },
                None => {},
            }
        }
    }
    if pos != bytes.len() {
        proof {
            assert(bytes@.skip(pos as int).len() > 0);
            assert(spec_decode_entries(bytes@.skip(pos as int), 0) is None);
        }
        return None;
    }
    proof {
        assert(bytes@.skip(pos as int).len() == 0);
        assert(bytes@.skip(pos as int) =~= Seq::<u8>::empty());
        assert(spec_decode_entries(bytes@.skip(pos as int), 0) == Some(
            Seq::<(Seq<u8>, Seq<u8>)>::empty(),
        ));
        assert(nets_view(out@) + Seq::<(Seq<u8>, Seq<u8>)>::empty() =~= nets_view(out@));
    }
    Some(out)
}

/// One poll of the persistence watcher: when the state is dirty, the blob
/// to write; when it is clean, nothing.  The watcher's loop is: poll,
/// write the blob under the storage namespace, then confirm the write
/// with [`WifiContext::mark_saved`] — never before, so a crash between a
/// mutation and the write leaves the dirty flag standing.
pub fn snapshot_if_changed(ctx: &WifiContext) -> (r: Option<Vec<u8>>)
    requires
        ctx.wf(),
        ctx.capacity <= MAX_SAVED_NETWORKS,
    ensures
        match r {
            Some(b) => ctx.changed && b@ == spec_encode(ctx.nets()) && b@.len() <= MAX_BLOB_LEN,
            None => !ctx.changed,
        },
{
    if ctx.needs_save() {
        Some(encode_networks(&ctx.networks))
    } else {
        None
    }
}

/// Seed the context from what storage held at startup: the decoded
/// snapshot when the blob is a valid encoding that fits the capacity,
/// else a fresh empty state.  The seeded state is clean either way.
pub fn restore_context(blob: Option<Vec<u8>>, capacity: usize) -> (r: WifiContext)
    ensures
        r.wf(),
        r.capacity == capacity,
        !r.changed,
        !r.connect_signal,
        r.status is None,
        r.connect_req() is None,
        match blob {
            Some(b) => match spec_decode(b@) {
                Some(m) => {
                    if m.len() <= capacity && views_wf(m) && view_unique(m) {
                        r.nets() == m
                    } else {
                        r.nets() == Seq::<(Seq<u8>, Seq<u8>)>::empty()
                    }
                },
                None => r.nets() == Seq::<(Seq<u8>, Seq<u8>)>::empty(),
            },
            None => r.nets() == Seq::<(Seq<u8>, Seq<u8>)>::empty(),
        },
{
    match blob {
        None => WifiContext::new(capacity),
        Some(b) => {
            let decoded = decode_networks(&b);
            match decoded {
                None => WifiContext::new(capacity),
                Some(v) => {
                    let loaded = WifiContext::load(v, capacity);
                    match loaded {
                        Some(ctx) => ctx,
                        None => WifiContext::new(capacity),
                    }
                },
            }
        },
    }
}

} // verus!
