//! The node identity record.
//!
//! A node's identity is stored as a record of five fields: private key,
//! public key, node id, features and public address. The production encoding
//! is a JSON object with those keys; the model's canonical encoding keeps the
//! same fields and order, one `key=value` line each, with the features as
//! canonical decimal. Parsing and rendering are exact inverses: the parser
//! accepts precisely the canonical renderings, and rendering a record and
//! parsing it back returns the record — stated as [`lemma_identity_round_trip`]
//! over the spec-level parser.

use vstd::prelude::*;

verus! {

/// The line terminator of the record encoding.
pub const NEWLINE: u8 = 10;

/// A node identity: the keys as the record spells them (hex text), the
/// feature bits, and the network address.
#[derive(Clone, Debug, PartialEq, Eq)]
pub struct NodeIdentity {
    pub private_key: Vec<u8>,
    pub public_key: Vec<u8>,
    pub node_id: Vec<u8>,
    pub features: u64,
    pub public_address: Vec<u8>,
}

/// The label of the private-key line: `private_key=`.
pub open spec fn spec_private_key_prefix() -> Seq<u8> {
    seq![112u8, 114, 105, 118, 97, 116, 101, 95, 107, 101, 121, 61]
}

/// The label of the public-key line: `public_key=`.
pub open spec fn spec_public_key_prefix() -> Seq<u8> {
    seq![112u8, 117, 98, 108, 105, 99, 95, 107, 101, 121, 61]
}

/// The label of the node-id line: `node_id=`.
pub open spec fn spec_node_id_prefix() -> Seq<u8> {
    seq![110u8, 111, 100, 101, 95, 105, 100, 61]
}

/// The label of the features line: `features=`.
pub open spec fn spec_features_prefix() -> Seq<u8> {
    seq![102u8, 101, 97, 116, 117, 114, 101, 115, 61]
}

/// The label of the address line: `public_address=`.
pub open spec fn spec_public_address_prefix() -> Seq<u8> {
    seq![112u8, 117, 98, 108, 105, 99, 95, 97, 100, 100, 114, 101, 115, 115, 61]
}

/// One line of the record: label, value, terminator.
pub open spec fn spec_record_line(prefix: Seq<u8>, value: Seq<u8>) -> Seq<u8> {
    prefix + value + seq![NEWLINE]
}

/// The canonical decimal digits of `x`, most significant first, no leading
/// zeros.
pub open spec fn spec_u64_digits(x: u64) -> Seq<u8>
    decreases x,
{
    if x < 10 {
        seq![(x + 48) as u8]
    } else {
        spec_u64_digits((x / 10) as u64).push(((x % 10) + 48) as u8)
    }
}

/// The canonical encoding of an identity record: the five labeled lines in
/// fixed order.
pub open spec fn spec_render_identity(
    private_key: Seq<u8>,
    public_key: Seq<u8>,
    node_id: Seq<u8>,
    features: u64,
    public_address: Seq<u8>,
) -> Seq<u8> {
    spec_record_line(spec_private_key_prefix(), private_key) + spec_record_line(
        spec_public_key_prefix(),
        public_key,
    ) + spec_record_line(spec_node_id_prefix(), node_id) + spec_record_line(
        spec_features_prefix(),
        spec_u64_digits(features),
    ) + spec_record_line(spec_public_address_prefix(), public_address)
}

/// The position of the first line terminator at or after `i`, if any.
pub open spec fn spec_find_newline(s: Seq<u8>, i: int) -> Option<int>
    decreases s.len() - i,
{
    if i < 0 || i >= s.len() {
        None
    } else if s[i] == NEWLINE {
        Some(i)
    } else {
        spec_find_newline(s, i + 1)
    }
}

/// Read one labeled line at `pos`: the label must match and a terminator must
/// follow; yields the value between them and the position after the line.
pub open spec fn spec_read_line(s: Seq<u8>, pos: int, prefix: Seq<u8>) -> Option<(Seq<u8>, int)> {
    if pos < 0 || pos + prefix.len() > s.len() {
        None
    } else if s.subrange(pos, pos + prefix.len()) != prefix {
        None
    } else {
        match spec_find_newline(s, pos + prefix.len()) {
            None => None,
            Some(e) => Some((s.subrange(pos + prefix.len(), e), e + 1)),
        }
    }
}

/// The numeric value of the first `i` bytes read as decimal digits.
pub open spec fn spec_digits_value(s: Seq<u8>, i: int) -> int
    decreases i,
{
    if i <= 0 {
        0
    } else {
        10 * spec_digits_value(s, i - 1) + (s[i - 1] - 48)
    }
}

/// Every one of the first `i` bytes is a decimal digit.
pub open spec fn spec_all_digits(s: Seq<u8>, i: int) -> bool {
    forall|t: int| 0 <= t < i ==> 48 <= #[trigger] s[t] <= 57
}

/// Parse a canonical decimal `u64`: digits only, no leading zero, value in
/// range.
pub open spec fn spec_parse_u64(v: Seq<u8>) -> Option<u64> {
    if v.len() == 0 || !spec_all_digits(v, v.len() as int) {
        None
    } else if v.len() > 1 && v[0] == 48 {
        None
    } else if spec_digits_value(v, v.len() as int) > u64::MAX {
        None
    } else {
        Some(spec_digits_value(v, v.len() as int) as u64)
    }
}

/// Parse a canonical identity record: the five labeled lines in order, the
/// features as canonical decimal, and nothing after the last line.
pub open spec fn spec_parse_identity(s: Seq<u8>) -> Option<(Seq<u8>, Seq<u8>, Seq<u8>, u64, Seq<u8>)> {
    match spec_read_line(s, 0, spec_private_key_prefix()) {
        None => None,
        Some((private_key, p1)) => match spec_read_line(s, p1, spec_public_key_prefix()) {
            None => None,
            Some((public_key, p2)) => match spec_read_line(s, p2, spec_node_id_prefix()) {
                None => None,
                Some((node_id, p3)) => match spec_read_line(s, p3, spec_features_prefix()) {
                    None => None,
                    Some((digits, p4)) => match spec_parse_u64(digits) {
                        None => None,
                        Some(features) => match spec_read_line(
                            s,
                            p4,
                            spec_public_address_prefix(),
                        ) {
                            None => None,
                            Some((public_address, p5)) => if p5 == s.len() {
                                Some((private_key, public_key, node_id, features, public_address))
                            } else {
                                None
                            },
                        },
                    },
                },
            },
        },
    }
}

/// The first line terminator at or after `i` is the one the bytes show.
proof fn lemma_find_newline_at(s: Seq<u8>, i: int, e: int)
    requires
        0 <= i <= e < s.len(),
        s[e] == NEWLINE,
        forall|t: int| i <= t < e ==> s[t] != NEWLINE,
    ensures
        spec_find_newline(s, i) == Some(e),
    decreases e - i,
{
    if i < e {
        lemma_find_newline_at(s, i + 1, e);
    }
}

/// Reading at the start of a well-formed line yields exactly its value and
/// the position after its terminator.
proof fn lemma_read_line_exact(s: Seq<u8>, pos: int, prefix: Seq<u8>, v: Seq<u8>)
    requires
        0 <= pos,
        pos + prefix.len() + v.len() + 1 <= s.len(),
        s.subrange(pos, pos + prefix.len()) == prefix,
        s.subrange(pos + prefix.len(), pos + prefix.len() + v.len()) == v,
        s[pos + prefix.len() + v.len()] == NEWLINE,
        !v.contains(NEWLINE),
    ensures
        spec_read_line(s, pos, prefix) == Some((v, pos + prefix.len() + v.len() + 1)),
{
    let vstart = pos + prefix.len();
    let e = vstart + v.len();
    assert forall|t: int| vstart <= t < e implies s[t] != NEWLINE by {
        assert(s[t] == v[t - vstart]);
        if s[t] == NEWLINE {
            assert(v.contains(NEWLINE));
        }
    }
    lemma_find_newline_at(s, vstart, e);
    assert(s.subrange(vstart, e) =~= v);
}

/// The canonical digits of `x` are decimal digits, at least one of them, and
/// the first is not zero unless `x` is.
proof fn lemma_u64_digits_shape(x: u64)
    ensures
        spec_u64_digits(x).len() >= 1,
        spec_all_digits(spec_u64_digits(x), spec_u64_digits(x).len() as int),
        x >= 1 ==> spec_u64_digits(x)[0] != 48,
        x < 10 ==> spec_u64_digits(x).len() == 1,
    decreases x,
{
    if x >= 10 {
        lemma_u64_digits_shape(x / 10);
    }
}

/// The decimal value reads only the bytes before `i`.
proof fn lemma_digits_value_prefix(a: Seq<u8>, b: Seq<u8>, i: int)
    requires
        forall|t: int| 0 <= t < i ==> a[t] == b[t],
    ensures
        spec_digits_value(a, i) == spec_digits_value(b, i),
    decreases i,
{
    if i > 0 {
        lemma_digits_value_prefix(a, b, i - 1);
    }
}

/// The canonical digits of `x` read back as `x`.
proof fn lemma_digits_value_of_u64_digits(x: u64)
    ensures
        spec_digits_value(spec_u64_digits(x), spec_u64_digits(x).len() as int) == x,
    decreases x,
{
    if x < 10 {
        let whole = spec_u64_digits(x);
        assert(whole == seq![(x + 48) as u8]);
        assert(spec_digits_value(whole, 1) == 10 * spec_digits_value(whole, 0) + (whole[0] - 48));
        assert(spec_digits_value(whole, whole.len() as int) == x);
    } else {
        lemma_digits_value_of_u64_digits(x / 10);
        let rest = spec_u64_digits(x / 10);
        let whole = spec_u64_digits(x);
        assert(whole == rest.push(((x % 10) + 48) as u8));
        assert(rest.len() == whole.len() - 1);
        lemma_digits_value_prefix(whole, rest, rest.len() as int);
        assert(spec_digits_value(whole, whole.len() - 1) == spec_digits_value(
            rest,
            rest.len() as int,
        ));
        assert(whole[whole.len() - 1] == ((x % 10) + 48) as u8);
        assert(spec_digits_value(whole, whole.len() as int) == 10 * spec_digits_value(
            whole,
            whole.len() - 1,
        ) + (whole[whole.len() - 1] - 48));
        vstd::arithmetic::div_mod::lemma_fundamental_div_mod(x as int, 10);
        assert(spec_digits_value(whole, whole.len() - 1) == x / 10);
        assert(whole[whole.len() - 1] - 48 == x % 10);
        assert(spec_digits_value(whole, whole.len() as int) == x);
    }
}

/// Canonical decimal parses back to the number it renders.
pub proof fn lemma_parse_u64_round_trip(x: u64)
    ensures
        spec_parse_u64(spec_u64_digits(x)) == Some(x),
{
    lemma_u64_digits_shape(x);
    lemma_digits_value_of_u64_digits(x);
}

/// The round trip of the identity record: rendering a record and parsing the
/// rendering returns exactly the record's fields. The fields must be free of
/// line terminators, which the record encoding reserves.
#[verifier::rlimit(100)]
pub proof fn lemma_identity_round_trip(
    private_key: Seq<u8>,
    public_key: Seq<u8>,
    node_id: Seq<u8>,
    features: u64,
    public_address: Seq<u8>,
)
    requires
        !private_key.contains(NEWLINE),
        !public_key.contains(NEWLINE),
        !node_id.contains(NEWLINE),
        !public_address.contains(NEWLINE),
    ensures
        spec_parse_identity(
            spec_render_identity(private_key, public_key, node_id, features, public_address),
        ) == Some((private_key, public_key, node_id, features, public_address)),
{
    let digits = spec_u64_digits(features);
    lemma_u64_digits_shape(features);
    assert(!digits.contains(NEWLINE)) by {
        if digits.contains(NEWLINE) {
            let w = choose|t: int| 0 <= t < digits.len() && digits[t] == NEWLINE;
            assert(48 <= digits[w] <= 57);
        }
    }
    let s = spec_render_identity(private_key, public_key, node_id, features, public_address);
    let p1 = spec_private_key_prefix();
    let p2 = spec_public_key_prefix();
    let p3 = spec_node_id_prefix();
    let p4 = spec_features_prefix();
    let p5 = spec_public_address_prefix();
    let q1: int = (p1.len() + private_key.len() + 1) as int;
    let q2: int = (q1 + p2.len() + public_key.len() + 1) as int;
    let q3: int = (q2 + p3.len() + node_id.len() + 1) as int;
    let q4: int = (q3 + p4.len() + digits.len() + 1) as int;
    let q5: int = (q4 + p5.len() + public_address.len() + 1) as int;
    assert(s.len() == q5);
    assert(s.subrange(0, p1.len() as int) =~= p1);
    assert(s.subrange(p1.len() as int, p1.len() + private_key.len() as int) =~= private_key);
    assert(s[p1.len() + private_key.len() as int] == NEWLINE);
    lemma_read_line_exact(s, 0, p1, private_key);
    assert(s.subrange(q1, q1 + p2.len() as int) =~= p2);
    assert(s.subrange(q1 + p2.len() as int, q1 + p2.len() + public_key.len() as int) =~= public_key);
    assert(s[q1 + p2.len() + public_key.len() as int] == NEWLINE);
    lemma_read_line_exact(s, q1, p2, public_key);
    assert(s.subrange(q2, q2 + p3.len() as int) =~= p3);
    assert(s.subrange(q2 + p3.len() as int, q2 + p3.len() + node_id.len() as int) =~= node_id);
    assert(s[q2 + p3.len() + node_id.len() as int] == NEWLINE);
    lemma_read_line_exact(s, q2, p3, node_id);
    assert(s.subrange(q3, q3 + p4.len() as int) =~= p4);
    assert(s.subrange(q3 + p4.len() as int, q3 + p4.len() + digits.len() as int) =~= digits);
    assert(s[q3 + p4.len() + digits.len() as int] == NEWLINE);
    lemma_read_line_exact(s, q3, p4, digits);
    lemma_parse_u64_round_trip(features);
    assert(s.subrange(q4, q4 + p5.len() as int) =~= p5);
    assert(s.subrange(q4 + p5.len() as int, q4 + p5.len() + public_address.len() as int) =~= public_address);
    assert(s[q4 + p5.len() + public_address.len() as int] == NEWLINE);
    lemma_read_line_exact(s, q4, p5, public_address);
}

/// Append a copy of `v` to `out`.
fn push_bytes(out: &mut Vec<u8>, v: &Vec<u8>)
    ensures
        final(out)@ == old(out)@ + v@,
{
    let mut i: usize = 0;
    while i < v.len()
        invariant
            i <= v@.len(),
            out@ == old(out)@ + v@.take(i as int),
        decreases v@.len() - i,
    {
        out.push(v[i]);
        proof {
            assert(out@ =~= old(out)@ + v@.take(i + 1));
        }
        i += 1;
    }
    proof {
        assert(old(out)@ + v@.take(v@.len() as int) =~= old(out)@ + v@);
    }
}

/// The private-key label.
fn private_key_prefix() -> (r: Vec<u8>)
    ensures
        r@ == spec_private_key_prefix(),
{
    let out: Vec<u8> = vec![112u8, 114, 105, 118, 97, 116, 101, 95, 107, 101, 121, 61];
    proof {
        assert(out@ =~= spec_private_key_prefix());
    }
    out
}

/// The public-key label.
fn public_key_prefix() -> (r: Vec<u8>)
    ensures
        r@ == spec_public_key_prefix(),
{
    let out: Vec<u8> = vec![112u8, 117, 98, 108, 105, 99, 95, 107, 101, 121, 61];
    proof {
        assert(out@ =~= spec_public_key_prefix());
    }
    out
}

/// The node-id label.
fn node_id_prefix() -> (r: Vec<u8>)
    ensures
        r@ == spec_node_id_prefix(),
{
    let out: Vec<u8> = vec![110u8, 111, 100, 101, 95, 105, 100, 61];
    proof {
        assert(out@ =~= spec_node_id_prefix());
    }
    out
}

/// The features label.
fn features_prefix() -> (r: Vec<u8>)
    ensures
        r@ == spec_features_prefix(),
{
    let out: Vec<u8> = vec![102u8, 101, 97, 116, 117, 114, 101, 115, 61];
    proof {
        assert(out@ =~= spec_features_prefix());
    }
    out
}

/// The address label.
fn public_address_prefix() -> (r: Vec<u8>)
    ensures
        r@ == spec_public_address_prefix(),
{
    let out: Vec<u8> = vec![112u8, 117, 98, 108, 105, 99, 95, 97, 100, 100, 114, 101, 115, 115,
        61];
    proof {
        assert(out@ =~= spec_public_address_prefix());
    }
    out
}

/// Render `x` as its canonical decimal digits.
fn render_u64(x: u64) -> (r: Vec<u8>)
    ensures
        r@ == spec_u64_digits(x),
    decreases x,
{
    if x < 10 {
        let out: Vec<u8> = vec![(x as u8) + 48];
        proof {
            assert(out@ =~= spec_u64_digits(x));
        }
        out
    } else {
        let mut out = render_u64(x / 10);
        out.push(((x % 10) as u8) + 48);
        out
    }
}

/// Render an identity record into its canonical encoding.
pub fn render_identity(id: &NodeIdentity) -> (r: Vec<u8>)
    ensures
        r@ == spec_render_identity(
            id.private_key@,
            id.public_key@,
            id.node_id@,
            id.features,
            id.public_address@,
        ),
{
    let mut out: Vec<u8> = Vec::new();
    let p1 = private_key_prefix();
    push_bytes(&mut out, &p1);
    push_bytes(&mut out, &id.private_key);
    out.push(NEWLINE);
    let p2 = public_key_prefix();
    push_bytes(&mut out, &p2);
    push_bytes(&mut out, &id.public_key);
    out.push(NEWLINE);
    let p3 = node_id_prefix();
    push_bytes(&mut out, &p3);
    push_bytes(&mut out, &id.node_id);
    out.push(NEWLINE);
    let p4 = features_prefix();
    push_bytes(&mut out, &p4);
    let digits = render_u64(id.features);
    push_bytes(&mut out, &digits);
    out.push(NEWLINE);
    let p5 = public_address_prefix();
    push_bytes(&mut out, &p5);
    push_bytes(&mut out, &id.public_address);
    out.push(NEWLINE);
    proof {
        assert(out@ =~= spec_render_identity(
            id.private_key@,
            id.public_key@,
            id.node_id@,
            id.features,
            id.public_address@,
        ));
    }
    out
}

/// Read one labeled line starting at `pos`.
fn read_line(s: &Vec<u8>, pos: usize, prefix: &Vec<u8>) -> (r: Option<(Vec<u8>, usize)>)
    ensures
        (r matches Some(pair) ==> (Some((pair.0@, pair.1 as int)) == spec_read_line(
            s@,
            pos as int,
            prefix@,
        ) && pos < pair.1 <= s@.len())),
        r is None ==> spec_read_line(s@, pos as int, prefix@) is None,
{
    let n = s.len();
    let plen = prefix.len();
    if pos > n {
        return None;
    }
    if plen > n - pos {
        return None;
    }
    let mut k: usize = 0;
    while k < plen
        invariant
            k <= plen,
            plen == prefix@.len(),
            n == s@.len(),
            pos + plen <= n,
            forall|t: int| 0 <= t < k ==> s@[pos + t] == prefix@[t],
        decreases plen - k,
    {
        if s[pos + k] != prefix[k] {
            proof {
                assert(s@.subrange(pos as int, pos + plen) != prefix@) by {
                    assert(s@.subrange(pos as int, pos + plen)[k as int] != prefix@[k as int]);
                }
            }
            return None;
        }
        k += 1;
    }
    proof {
        assert(s@.subrange(pos as int, pos + plen) =~= prefix@);
    }
    let vstart = pos + plen;
    let mut e = vstart;
    while e < n
        invariant
            plen == prefix@.len(),
            vstart == pos + plen,
            vstart <= e <= s@.len(),
            n == s@.len(),
            s@.subrange(pos as int, pos + plen) == prefix@,
            spec_find_newline(s@, vstart as int) == spec_find_newline(s@, e as int),
        decreases s@.len() - e,
    {
        if s[e] == NEWLINE {
            let mut value: Vec<u8> = Vec::new();
            let mut i = vstart;
            while i < e
                invariant
                    vstart <= i <= e <= s@.len(),
                    value@ == s@.subrange(vstart as int, i as int),
                decreases e - i,
            {
                value.push(s[i]);
                proof {
                    assert(value@ =~= s@.subrange(vstart as int, i + 1));
                }
                i += 1;
            }
            return Some((value, e + 1));
        }
        e += 1;
    }
    None
}

/// Parse a canonical decimal `u64`: digits only, no leading zero, in range.
fn parse_u64(v: &Vec<u8>) -> (r: Option<u64>)
    ensures
        r == spec_parse_u64(v@),
{
    if v.len() == 0 {
        return None;
    }
    if v.len() > 1 && v[0] == 48 {
        return None;
    }
    let mut acc: u128 = 0;
    let mut i: usize = 0;
    while i < v.len()
        invariant
            i <= v@.len(),
            spec_all_digits(v@, i as int),
            acc == spec_digits_value(v@, i as int),
            acc <= 0xFFFF_FFFF_FFFF_FFFF,
        decreases v@.len() - i,
    {
        let b = v[i];
        if b < 48 || b > 57 {
            return None;
        }
        acc = acc * 10 + ((b - 48) as u128);
        i += 1;
        if acc > 0xFFFF_FFFF_FFFF_FFFF {
            proof {
                if spec_all_digits(v@, v@.len() as int) {
                    lemma_digits_value_grows(v@, i as int, v@.len() as int);
                }
            }
            return None;
        }
    }
    Some(acc as u64)
}

/// With digits only, the decimal value never shrinks as more digits are read.
proof fn lemma_digits_value_grows(s: Seq<u8>, i: int, j: int)
    requires
        0 <= i <= j,
        spec_all_digits(s, j),
    ensures
        spec_digits_value(s, i) <= spec_digits_value(s, j),
    decreases j - i,
{
    if i < j {
        lemma_digits_value_grows(s, i, j - 1);
        lemma_digits_value_nonneg(s, j - 1);
    }
}

/// With digits only, the decimal value is non-negative.
proof fn lemma_digits_value_nonneg(s: Seq<u8>, i: int)
    requires
        spec_all_digits(s, i),
    ensures
        spec_digits_value(s, i) >= 0,
    decreases i,
{
    if i > 0 {
        lemma_digits_value_nonneg(s, i - 1);
    }
}

/// Parse a canonical identity record. Succeeds exactly on the canonical
/// renderings, returning the rendered record.
pub fn parse_identity(bytes: &Vec<u8>) -> (r: Option<NodeIdentity>)
    ensures
        (r matches Some(id) ==> Some(
            (id.private_key@, id.public_key@, id.node_id@, id.features, id.public_address@),
        ) == spec_parse_identity(bytes@)),
        r is None ==> spec_parse_identity(bytes@) is None,
{
    let p1 = private_key_prefix();
    let (private_key, pos1) = match read_line(bytes, 0, &p1) {
        Some(pair) => pair,
        None => {
            return None;
        },
    };
    let p2 = public_key_prefix();
    let (public_key, pos2) = match read_line(bytes, pos1, &p2) {
        Some(pair) => pair,
        None => {
            return None;
        },
    };
    let p3 = node_id_prefix();
    let (node_id, pos3) = match read_line(bytes, pos2, &p3) {
        Some(pair) => pair,
        None => {
            return None;
        },
    };
    let p4 = features_prefix();
    let (digits, pos4) = match read_line(bytes, pos3, &p4) {
        Some(pair) => pair,
        None => {
            return None;
        },
    };
    let features = match parse_u64(&digits) {
        Some(x) => x,
        None => {
            return None;
        },
    };
    let p5 = public_address_prefix();
    let (public_address, pos5) = match read_line(bytes, pos4, &p5) {
        Some(pair) => pair,
        None => {
            return None;
        },
    };
    if pos5 != bytes.len() {
        return None;
    }
    Some(NodeIdentity { private_key, public_key, node_id, features, public_address })
}

} // verus!
