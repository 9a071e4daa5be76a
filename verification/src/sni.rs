use vstd::prelude::*;

verus! {

/// What `sni_shuffle::encode` produces: the bytes at even positions, then
/// the bytes at odd positions.
pub open spec fn shuffled(s: Seq<u8>) -> Seq<u8> {
    let h = (s.len() + 1) / 2;
    Seq::new(s.len(), |j: int| if j < h { s[2 * j] } else { s[2 * (j - h) + 1] })
}

/// What `sni_shuffle::decode` produces: the first half back at even
/// positions, the second half back at odd positions.
pub open spec fn unshuffled(s: Seq<u8>) -> Seq<u8> {
    let h = (s.len() + 1) / 2;
    Seq::new(s.len(), |i: int| if i % 2 == 0 { s[i / 2] } else { s[h + i / 2] })
}

/// Calls `sni_shuffle::encode`: the bytes at even positions of `input`,
/// followed by the bytes at odd positions.
#[verifier::external_body]
pub(crate) fn encode(input: &[u8]) -> (r: Vec<u8>)
    ensures
        r@ == shuffled(input@),
{
    sni_shuffle::encode(input)
}

/// Calls `sni_shuffle::decode`: the first ceil(n/2) bytes of `input` go to
/// the even positions of the result, the rest to the odd positions.
#[verifier::external_body]
pub(crate) fn decode(input: &[u8]) -> (r: Vec<u8>)
    ensures
        r@ == unshuffled(input@),
{
    sni_shuffle::decode(input)
}

/// Decoding an encoded byte string gives it back, and the other way round.
pub proof fn lemma_shuffle_roundtrip(s: Seq<u8>)
    ensures
        unshuffled(shuffled(s)) =~= s,
        shuffled(unshuffled(s)) =~= s,
{
    let h = (s.len() + 1) / 2;
    let e = shuffled(s);
    let d = unshuffled(s);
    assert forall|i: int| 0 <= i < s.len() implies #[trigger] unshuffled(e)[i] == s[i] by {
        if i % 2 == 0 {
            assert(i / 2 < h);
            assert(2 * (i / 2) == i);
        } else {
            assert(h + i / 2 < s.len());
            assert(2 * ((h + i / 2) - h) + 1 == i);
        }
    }
    assert forall|j: int| 0 <= j < s.len() implies #[trigger] shuffled(d)[j] == s[j] by {
        if j < h {
            assert((2 * j) % 2 == 0);
            assert((2 * j) / 2 == j);
            assert(2 * j < s.len());
        } else {
            let i = 2 * (j - h) + 1;
            assert(i % 2 == 1);
            assert(i / 2 == j - h);
            assert(i < s.len());
        }
    }
}

/// The eight big-endian bytes of `x`.
pub open spec fn be_bytes(x: u64) -> Seq<u8> {
    seq![
        (x >> 56u64) as u8,
        (x >> 48u64) as u8,
        (x >> 40u64) as u8,
        (x >> 32u64) as u8,
        (x >> 24u64) as u8,
        (x >> 16u64) as u8,
        (x >> 8u64) as u8,
        x as u8,
    ]
}

/// The number whose big-endian bytes are the first eight of `b`.
pub open spec fn be_value(b: Seq<u8>) -> u64 {
    ((b[0] as u64) << 56u64) | ((b[1] as u64) << 48u64) | ((b[2] as u64) << 40u64) | ((
    b[3] as u64) << 32u64) | ((b[4] as u64) << 24u64) | ((b[5] as u64) << 16u64) | ((
    b[6] as u64) << 8u64) | (b[7] as u64)
}

/// Reading back the big-endian bytes of a number gives the number.
pub proof fn lemma_be_roundtrip(x: u64)
    ensures
        be_value(be_bytes(x)) == x,
{
    let b = be_bytes(x);
    let (b0, b1, b2, b3, b4, b5, b6, b7) = (b[0], b[1], b[2], b[3], b[4], b[5], b[6], b[7]);
    assert(b0 == (x >> 56u64) as u8 && b1 == (x >> 48u64) as u8 && b2 == (x >> 40u64) as u8
        && b3 == (x >> 32u64) as u8 && b4 == (x >> 24u64) as u8 && b5 == (x >> 16u64) as u8
        && b6 == (x >> 8u64) as u8 && b7 == x as u8);
    assert(((b0 as u64) << 56u64) | ((b1 as u64) << 48u64) | ((b2 as u64) << 40u64) | ((
    b3 as u64) << 32u64) | ((b4 as u64) << 24u64) | ((b5 as u64) << 16u64) | ((b6 as u64)
        << 8u64) | (b7 as u64) == x) by (bit_vector)
        requires
            b0 == (x >> 56u64) as u8,
            b1 == (x >> 48u64) as u8,
            b2 == (x >> 40u64) as u8,
            b3 == (x >> 32u64) as u8,
            b4 == (x >> 24u64) as u8,
            b5 == (x >> 16u64) as u8,
            b6 == (x >> 8u64) as u8,
            b7 == x as u8,
    ;
}

/// The eight big-endian bytes of `x`.
pub fn u64_to_be_bytes(x: u64) -> (r: Vec<u8>)
    ensures
        r@ == be_bytes(x),
{
    let mut v: Vec<u8> = Vec::new();
    v.push((x >> 56u64) as u8);
    v.push((x >> 48u64) as u8);
    v.push((x >> 40u64) as u8);
    v.push((x >> 32u64) as u8);
    v.push((x >> 24u64) as u8);
    v.push((x >> 16u64) as u8);
    v.push((x >> 8u64) as u8);
    v.push(x as u8);
    assert(v@ =~= be_bytes(x));
    v
}

/// The number whose big-endian bytes are `b`.
pub fn u64_from_be_bytes(b: &[u8]) -> (r: u64)
    requires
        b@.len() == 8,
    ensures
        r == be_value(b@),
{
    ((b[0] as u64) << 56u64) | ((b[1] as u64) << 48u64) | ((b[2] as u64) << 40u64) | ((
    b[3] as u64) << 32u64) | ((b[4] as u64) << 24u64) | ((b[5] as u64) << 16u64) | ((
    b[6] as u64) << 8u64) | (b[7] as u64)
}

/// The clear frame a browser-facing line sends once it knows its target:
/// one length byte, the host name, the line id, then the first payload.
pub open spec fn sni_frame(host: Seq<u8>, id: u64, payload: Seq<u8>) -> Seq<u8> {
    seq![host.len() as u8] + host + be_bytes(id) + payload
}

/// A clear frame long enough for the host name and id it announces.
pub open spec fn sni_frame_well_formed(d: Seq<u8>) -> bool {
    d.len() >= 1 && d.len() >= d[0] + 9
}

/// Host name bytes announced by a clear frame.
pub open spec fn sni_frame_host(d: Seq<u8>) -> Seq<u8> {
    d.subrange(1, d[0] + 1)
}

/// Line id announced by a clear frame.
pub open spec fn sni_frame_tag(d: Seq<u8>) -> u64 {
    be_value(d.subrange(d[0] + 1, d[0] + 9))
}

/// Payload carried by a clear frame after its header.
pub open spec fn sni_frame_payload(d: Seq<u8>) -> Seq<u8> {
    d.subrange(d[0] + 9, d.len() as int)
}

/// Reading a frame back gives the host, id and payload it was built from.
pub proof fn lemma_sni_frame_roundtrip(host: Seq<u8>, id: u64, payload: Seq<u8>)
    requires
        host.len() <= 255,
    ensures
        sni_frame_well_formed(sni_frame(host, id, payload)),
        sni_frame_host(sni_frame(host, id, payload)) == host,
        sni_frame_tag(sni_frame(host, id, payload)) == id,
        sni_frame_payload(sni_frame(host, id, payload)) == payload,
{
    let d = sni_frame(host, id, payload);
    let n: int = host.len() as int;
    assert(d[0] as int == n);
    assert(d.subrange(1, n + 1) =~= host);
    assert(d.subrange(n + 1, n + 9) =~= be_bytes(id));
    assert(d.subrange(n + 9, d.len() as int) =~= payload);
    lemma_be_roundtrip(id);
}

/// Appends the bytes of `s` to `v`.
pub fn extend_bytes(v: &mut Vec<u8>, s: &[u8])
    ensures
        final(v)@ == old(v)@ + s@,
{
    let ghost start = v@;
    let n = s.len();
    let mut i: usize = 0;
    while i < n
        invariant
            n == s@.len(),
            i <= n,
            v@ == start + s@.subrange(0, i as int),
        decreases n - i,
    {
        v.push(s[i]);
        i = i + 1;
        assert(s@.subrange(0, i as int) =~= s@.subrange(0, (i - 1) as int).push(s@[i - 1]));
    }
    assert(s@.subrange(0, n as int) =~= s@);
}

/// Builds the clear frame for `host`, `id` and `payload`.
pub fn frame_sni(host: &[u8], id: u64, payload: &[u8]) -> (r: Vec<u8>)
    requires
        host@.len() <= 255,
    ensures
        r@ == sni_frame(host@, id, payload@),
{
    let mut v: Vec<u8> = Vec::new();
    v.push(host.len() as u8);
    extend_bytes(&mut v, host);
    let idb = u64_to_be_bytes(id);
    extend_bytes(&mut v, idb.as_slice());
    extend_bytes(&mut v, payload);
    assert(v@ =~= sni_frame(host@, id, payload@));
    v
}

} // verus!
