//! Peer seeds: the startup list of peers, one `<public_key_hex>::<address>`
//! entry per seed. Malformed entries are skipped; valid entries produce peers
//! with default flags and empty features. The network address grammar belongs
//! to the transport collaborator; here an address is its non-empty byte
//! string.

use vstd::prelude::*;

verus! {

use crate::hashing::{digest, digest_of, HashOutput};

/// The seed separator byte `:`.
pub const SEED_SEPARATOR: u8 = 58;

/// A peer assembled from a seed entry.
#[derive(Clone, Debug, PartialEq, Eq)]
pub struct Peer {
    /// The peer's public key, decoded from hex.
    pub public_key: Vec<u8>,
    /// The node id derived from the public key: its hash, at the node-id
    /// width of the model.
    pub node_id: HashOutput,
    /// The peer's network address, as the seed spelt it.
    pub address: Vec<u8>,
    /// Default peer flags.
    pub flags: u8,
    /// Empty feature set.
    pub features: u64,
}

/// The position of the first `::` at or after `i`, if any.
pub open spec fn spec_find_separator(s: Seq<u8>, i: int) -> Option<int>
    decreases s.len() - i,
{
    if i < 0 || i + 2 > s.len() {
        None
    } else if s[i] == SEED_SEPARATOR && s[i + 1] == SEED_SEPARATOR {
        Some(i)
    } else {
        spec_find_separator(s, i + 1)
    }
}

/// The value of a hex digit, if the byte is one.
pub open spec fn spec_hex_val(b: u8) -> Option<u8> {
    if 48 <= b <= 57 {
        Some((b - 48) as u8)
    } else if 97 <= b <= 102 {
        Some((b - 87) as u8)
    } else if 65 <= b <= 70 {
        Some((b - 55) as u8)
    } else {
        None
    }
}

/// The bytes encoded by the first `i` hex digits (`i` even), or nothing when
/// a non-digit appears among them.
pub open spec fn spec_hex_decode(s: Seq<u8>, i: int) -> Option<Seq<u8>>
    decreases i,
{
    if i < 2 {
        Some(Seq::empty())
    } else {
        match spec_hex_decode(s, i - 2) {
            None => None,
            Some(rest) => match (spec_hex_val(s[i - 2]), spec_hex_val(s[i - 1])) {
                (Some(hi), Some(lo)) => Some(rest.push((16 * hi + lo) as u8)),
                _ => None,
            },
        }
    }
}

/// A well-formed seed entry: a separator splits it into a non-empty
/// even-length hex public key and a non-empty address.
pub open spec fn spec_seed_valid(s: Seq<u8>) -> bool {
    match spec_find_separator(s, 0) {
        None => false,
        Some(p) => {
            &&& p > 0
            &&& p % 2 == 0
            &&& spec_hex_decode(s, p) is Some
            &&& p + 2 < s.len()
        },
    }
}

/// A failed decode at any even position fails every longer decode.
proof fn lemma_hex_decode_none_propagates(s: Seq<u8>, j: int, k: int)
    requires
        spec_hex_decode(s, j) is None,
        j <= k,
        (k - j) % 2 == 0,
    ensures
        spec_hex_decode(s, k) is None,
    decreases k - j,
{
    if k > j {
        lemma_hex_decode_none_propagates(s, j, k - 2);
    }
}

/// The value of a hex digit.
fn hex_val(b: u8) -> (r: Option<u8>)
    ensures
        r == spec_hex_val(b),
{
    if 48 <= b && b <= 57 {
        Some(b - 48)
    } else if 97 <= b && b <= 102 {
        Some(b - 87)
    } else if 65 <= b && b <= 70 {
        Some(b - 55)
    } else {
        None
    }
}

/// Find the first `::` in the seed.
fn find_separator(s: &Vec<u8>) -> (r: Option<usize>)
    ensures
        r is Some ==> (Some(r->0 as int) == spec_find_separator(s@, 0) && r->0 + 2 <= s@.len()),
        r is None ==> spec_find_separator(s@, 0) is None,
{
    let mut i: usize = 0;
    while i < s.len()
        invariant
            i <= s@.len(),
            spec_find_separator(s@, 0) == spec_find_separator(s@, i as int),
        decreases s@.len() - i,
    {
        if i + 1 >= s.len() {
            return None;
        }
        if s[i] == SEED_SEPARATOR && s[i + 1] == SEED_SEPARATOR {
            return Some(i);
        }
        i += 1;
    }
    None
}

/// Decode the first `len` bytes of the seed as hex (`len` even).
fn hex_decode_prefix(s: &Vec<u8>, len: usize) -> (r: Option<Vec<u8>>)
    requires
        len <= s@.len(),
        len % 2 == 0,
    ensures
        (r matches Some(v) ==> Some(v@) == spec_hex_decode(s@, len as int)),
        r is None ==> spec_hex_decode(s@, len as int) is None,
{
    let mut out: Vec<u8> = Vec::new();
    let mut i: usize = 0;
    while i < len
        invariant
            i <= len <= s@.len(),
            i % 2 == 0,
            len % 2 == 0,
            Some(out@) == spec_hex_decode(s@, i as int),
        decreases len - i,
    {
        let hi = match hex_val(s[i]) {
            Some(v) => v,
            None => {
                proof {
                    lemma_hex_decode_none_propagates(s@, i + 2, len as int);
                }
                return None;
            },
        };
        let lo = match hex_val(s[i + 1]) {
            Some(v) => v,
            None => {
                proof {
                    lemma_hex_decode_none_propagates(s@, i + 2, len as int);
                }
                return None;
            },
        };
        out.push(16 * hi + lo);
        i += 2;
    }
    Some(out)
}

/// Parse one peer seed. Returns the peer exactly when the entry is
/// well-formed: the public key decoded, the node id derived as the key's
/// hash, the address taken verbatim, default flags and empty features.
pub fn parse_peer_seed(seed: &Vec<u8>) -> (r: Option<Peer>)
    ensures
        (r is Some) == spec_seed_valid(seed@),
        (r matches Some(p) ==> {
            let sep = spec_find_separator(seed@, 0)->0;
            &&& Some(p.public_key@) == spec_hex_decode(seed@, sep)
            &&& p.node_id == digest_of(p.public_key@)
            &&& p.address@ == seed@.skip(sep + 2)
            &&& p.flags == 0
            &&& p.features == 0
        }),
{
    let sep = match find_separator(seed) {
        Some(p) => p,
        None => {
            return None;
        },
    };
    let n = seed.len();
    proof {
        assert(sep + 2 <= n);
    }
    if sep == 0 || sep % 2 != 0 || sep + 2 == n {
        return None;
    }
    let public_key = match hex_decode_prefix(seed, sep) {
        Some(k) => k,
        None => {
            return None;
        },
    };
    let mut address: Vec<u8> = Vec::new();
    let mut i: usize = sep + 2;
    while i < seed.len()
        invariant
            sep + 2 <= i <= seed@.len(),
            address@ == seed@.subrange(sep + 2, i as int),
        decreases seed@.len() - i,
    {
        address.push(seed[i]);
        proof {
            assert(address@ =~= seed@.subrange(sep + 2, i + 1));
        }
        i += 1;
    }
    proof {
        assert(address@ =~= seed@.skip(sep + 2));
    }
    let node_id = digest(&public_key);
    Some(Peer { public_key, node_id, address, flags: 0, features: 0 })
}

/// What one well-formed seed entry yields: the decoded public key, the node
/// id derived as the key's hash, and the address after the separator.
pub open spec fn spec_peer_view(s: Seq<u8>) -> (Seq<u8>, HashOutput, Seq<u8>) {
    let sep = spec_find_separator(s, 0)->0;
    let key = spec_hex_decode(s, sep)->0;
    (key, digest_of(key), s.skip(sep + 2))
}

/// The peers the first `i` seed entries yield: one per well-formed entry, in
/// input order, each as its (public key, node id, address) view.
pub open spec fn spec_assigned_peers(seeds: Seq<Vec<u8>>, i: int) -> Seq<
    (Seq<u8>, HashOutput, Seq<u8>),
>
    decreases i,
{
    if i <= 0 {
        Seq::empty()
    } else {
        let rest = spec_assigned_peers(seeds, i - 1);
        if spec_seed_valid(seeds[i - 1]@) {
            rest.push(spec_peer_view(seeds[i - 1]@))
        } else {
            rest
        }
    }
}

/// Assemble peers from the seed list: one peer per well-formed entry, in
/// input order, skipping malformed entries. Each peer carries the decoded
/// public key, the node id derived as the key's hash, the entry's address,
/// default flags and empty features.
pub fn assign_peers(seeds: &Vec<Vec<u8>>) -> (r: Vec<Peer>)
    ensures
        r@.len() == spec_assigned_peers(seeds@, seeds@.len() as int).len(),
        forall|j: int| #![trigger r@[j]]
            0 <= j < r@.len() ==> {
                let expected = spec_assigned_peers(seeds@, seeds@.len() as int)[j];
                &&& r@[j].public_key@ == expected.0
                &&& r@[j].node_id == expected.1
                &&& r@[j].address@ == expected.2
                &&& r@[j].flags == 0
                &&& r@[j].features == 0
            },
{
    let mut out: Vec<Peer> = Vec::new();
    let mut i: usize = 0;
    while i < seeds.len()
        invariant
            i <= seeds@.len(),
            out@.len() == spec_assigned_peers(seeds@, i as int).len(),
            forall|j: int| #![trigger out@[j]]
                0 <= j < out@.len() ==> {
                    let expected = spec_assigned_peers(seeds@, i as int)[j];
                    &&& out@[j].public_key@ == expected.0
                    &&& out@[j].node_id == expected.1
                    &&& out@[j].address@ == expected.2
                    &&& out@[j].flags == 0
                    &&& out@[j].features == 0
                },
        decreases seeds@.len() - i,
    {
        match parse_peer_seed(&seeds[i]) {
            Some(peer) => {
                out.push(peer);
            },
            None => {},
        }
        i += 1;
    }
    out
}

} // verus!
