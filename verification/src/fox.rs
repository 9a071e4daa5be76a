use vstd::prelude::*;
use vstd::string::*;
use crate::line::{Line, LineView};
use crate::sni::{encode, frame_sni, shuffled, sni_frame};
use crate::text::{decimal, decimal_string, from_utf8_lossy, push_decimal, utf8_lossy};

verus! {

/// A SOCKS5 connect request long enough for what the line reads from it:
/// the address type at byte 3, the address from byte 4 on, the port in the
/// last two bytes.
pub open spec fn socks5_request_ok(buf: Seq<u8>) -> bool {
    &&& buf.len() >= 6
    &&& buf[3] == 1 ==> buf.len() >= 10
    &&& buf[3] == 3 ==> buf.len() >= 7
}

/// The port named by a SOCKS5 connect request (its last two bytes, big-endian).
pub open spec fn socks5_port(buf: Seq<u8>) -> nat {
    (buf[buf.len() - 2] * 256 + buf[buf.len() - 1]) as nat
}

/// The address bytes of a SOCKS5 connect request.
pub open spec fn socks5_addr(buf: Seq<u8>) -> Seq<u8> {
    buf.subrange(4, buf.len() - 2)
}

/// The host text a line records for address type `atyp`, address bytes
/// `addr` and `port`.
pub open spec fn host_text(atyp: u8, addr: Seq<u8>, port: nat) -> Seq<char> {
    if atyp == 1 {
        decimal(addr[0] as nat) + seq!['.'] + decimal(addr[1] as nat) + seq!['.'] + decimal(
            addr[2] as nat,
        ) + seq!['.'] + decimal(addr[3] as nat) + seq![':'] + decimal(port)
    } else if atyp == 2 {
        seq!['i', 'p', 'v', '6', ':'] + decimal(port)
    } else if atyp == 3 {
        utf8_lossy(addr.drop_first()) + seq![':'] + decimal(port)
    } else {
        seq!['u', 'n', 'e', 'x', 'p', 'e', 'c', 't', 'e', 'd', ':'] + decimal(atyp as nat)
    }
}

/// The SOCKS5 greeting answer: version 5, no authentication.
pub open spec fn handshake_reply() -> Seq<u8> {
    seq![0x05u8, 0x00u8]
}

/// The SOCKS5 connect answer: success, IPv4 0.0.0.0 port 0.
pub open spec fn connect_reply() -> Seq<u8> {
    seq![0x05u8, 0x00u8, 0x00u8, 0x01u8, 0x00u8, 0x00u8, 0x00u8, 0x00u8, 0x00u8, 0x00u8]
}

/// The UTF-8 bytes of a line's host text.
pub open spec fn host_bytes(v: LineView) -> Seq<u8> {
    vstd::utf8::encode_utf8(v.host)
}

/// Whether `fox_data` can take `buf` in the line's current stage.
pub open spec fn fox_data_ok(v: LineView, buf: Seq<u8>) -> bool {
    &&& v.stage == 1 ==> socks5_request_ok(buf)
    &&& v.stage == 2 ==> host_bytes(v).len() <= 255
}

/// The line after `fox_data` took `buf`, and the bytes it hands on.
pub open spec fn fox_step(v: LineView, buf: Seq<u8>) -> (LineView, Option<Seq<u8>>) {
    if v.stage == 0 {
        (LineView { stage: 1, queue: v.queue + handshake_reply(), ..v }, None)
    } else if v.stage == 1 {
        (
            LineView {
                stage: 2,
                queue: v.queue + connect_reply(),
                host: host_text(buf[3], socks5_addr(buf), socks5_port(buf)),
                ..v
            },
            None,
        )
    } else if v.stage == 2 {
        (LineView { stage: 3, ..v }, Some(shuffled(sni_frame(host_bytes(v), v.id, buf))))
    } else {
        (v, Some(buf))
    }
}

/// The SOCKS5 exchange moves through stages 0, 1, 2 one step per read and
/// then stays at stage 3; only stage 1 sets the host, and nothing but the
/// stage, the queue and the host ever changes.
pub proof fn lemma_fox_stages(v: LineView, buf: Seq<u8>)
    ensures
        fox_step(v, buf).0.stage == if v.stage < 3 {
            v.stage + 1
        } else {
            v.stage as int
        },
        v.stage != 1 ==> fox_step(v, buf).0.host == v.host,
        fox_step(v, buf).0.id == v.id && fox_step(v, buf).0.partner_id == v.partner_id
            && fox_step(v, buf).0.status == v.status && fox_step(v, buf).0.kind == v.kind,
        fox_step(v, buf).1 is None <==> v.stage < 2,
{
}

/// A SOCKS5 CONNECT to an IPv4 address, read in stage 1, is accepted; the
/// line then records the four address bytes in dotted decimal and the
/// big-endian port after a colon, answers with the connect reply, and
/// moves to stage 2.
pub proof fn lemma_socks5_ipv4_request(v: LineView, a: u8, b: u8, c: u8, d: u8, p1: u8, p2: u8)
    requires
        v.stage == 1,
    ensures
        ({
            let buf = seq![5u8, 1u8, 0u8, 1u8, a, b, c, d, p1, p2];
            &&& fox_data_ok(v, buf)
            &&& fox_step(v, buf).1 is None
            &&& fox_step(v, buf).0.host == decimal(a as nat) + seq!['.'] + decimal(b as nat)
                + seq!['.'] + decimal(c as nat) + seq!['.'] + decimal(d as nat) + seq![':']
                + decimal(p1 as nat * 256 + p2 as nat)
            &&& fox_step(v, buf).0.queue == v.queue + connect_reply()
            &&& fox_step(v, buf).0.stage == 2
        }),
{
    let buf = seq![5u8, 1u8, 0u8, 1u8, a, b, c, d, p1, p2];
    assert(socks5_addr(buf) =~= seq![a, b, c, d]);
}

/// A SOCKS5 CONNECT to a domain name of any length up to 255 bytes, read in
/// stage 1, is accepted; the line then records the name (decoded as UTF-8)
/// and the big-endian port after a colon, and moves to stage 2.
pub proof fn lemma_socks5_domain_request(v: LineView, name: Seq<u8>, p1: u8, p2: u8)
    requires
        v.stage == 1,
        name.len() <= 255,
    ensures
        ({
            let buf = seq![5u8, 1u8, 0u8, 3u8, name.len() as u8] + name + seq![p1, p2];
            &&& fox_data_ok(v, buf)
            &&& fox_step(v, buf).1 is None
            &&& fox_step(v, buf).0.host == utf8_lossy(name) + seq![':'] + decimal(
                p1 as nat * 256 + p2 as nat,
            )
            &&& fox_step(v, buf).0.queue == v.queue + connect_reply()
            &&& fox_step(v, buf).0.stage == 2
        }),
{
    let buf = seq![5u8, 1u8, 0u8, 3u8, name.len() as u8] + name + seq![p1, p2];
    assert(buf[3] == 3u8);
    assert(buf[buf.len() - 2] == p1 && buf[buf.len() - 1] == p2);
    assert(socks5_addr(buf).drop_first() =~= name);
}

//Fox
impl Line {
    /// One step of the browser-facing SOCKS5 exchange. Stage 0 answers the
    /// greeting, stage 1 reads the connect request and answers it, stage 2
    /// wraps the first payload (the TLS hello) into the shuffled frame for
    /// the remote side, and later payloads pass through unchanged.
    pub fn fox_data(&mut self, buf: Vec<u8>) -> (r: Option<Vec<u8>>)
        requires
            fox_data_ok(old(self)@, buf@),
        ensures
            old(self)@.stage == 0 ==> r is None && final(self)@ == (LineView {
                stage: 1,
                queue: old(self)@.queue + handshake_reply(),
                ..old(self)@
            }),
            old(self)@.stage == 1 ==> r is None && final(self)@ == (LineView {
                stage: 2,
                queue: old(self)@.queue + connect_reply(),
                host: host_text(buf@[3], socks5_addr(buf@), socks5_port(buf@)),
                ..old(self)@
            }),
            old(self)@.stage == 2 ==> r is Some && r->0@ == shuffled(
                sni_frame(host_bytes(old(self)@), old(self)@.id, buf@),
            ) && final(self)@ == (LineView { stage: 3, ..old(self)@ }),
            old(self)@.stage > 2 ==> r == Some(buf) && final(self)@ == old(self)@,
            final(self)@ == fox_step(old(self)@, buf@).0,
            match r {
                Some(d) => fox_step(old(self)@, buf@).1 == Some(d@),
                None => fox_step(old(self)@, buf@).1 is None,
            },
    {
        let stage = self.stage();
        if stage == 0 {
            self.hand_shake();
            None
        } else if stage == 1 {
            self.decode_socks5_cmd(buf);
            None
        } else if stage == 2 {
            Some(self.sni_encrypt(buf))
        } else {
            Some(buf)
        }
    }
}

impl Line {
    /// Whether `fox_data` can take `buf` now (a shorter connect request, or
    /// a host name over 255 bytes when the frame is built, is refused).
    pub fn fox_data_accepts(&self, buf: &[u8]) -> (r: bool)
        ensures
            r == fox_data_ok(self@, buf@),
    {
        let stage = self.stage();
        if stage == 1 {
            let n = buf.len();
            if n < 6 {
                return false;
            }
            if buf[3] == 1 && n < 10 {
                return false;
            }
            if buf[3] == 3 && n < 7 {
                return false;
            }
            true
        } else if stage == 2 {
            self.host().as_str().as_bytes().len() <= 255
        } else {
            true
        }
    }
}

//[Private]
impl Line {
    fn hand_shake(&mut self)
        requires
            old(self)@.stage < 255,
        ensures
            final(self)@ == (LineView {
                stage: (old(self)@.stage + 1) as u8,
                queue: old(self)@.queue + handshake_reply(),
                ..old(self)@
            }),
    {
        self.next_stage();
        let mut reply: Vec<u8> = Vec::new();
        reply.push(0x05);
        reply.push(0x00);
        assert(reply@ =~= handshake_reply());
        self.add_queue(reply);
    }

    fn decode_socks5_cmd(&mut self, buf: Vec<u8>)
        requires
            old(self)@.stage < 255,
            socks5_request_ok(buf@),
        ensures
            final(self)@ == (LineView {
                stage: (old(self)@.stage + 1) as u8,
                queue: old(self)@.queue + connect_reply(),
                host: host_text(buf@[3], socks5_addr(buf@), socks5_port(buf@)),
                ..old(self)@
            }),
    {
        self.next_stage();
        let n = buf.len();
        let atyp = buf[3];
        let port: u16 = (buf[n - 2] as u16) * 256 + (buf[n - 1] as u16);
        let addr = &buf.as_slice()[4..n - 2];
        let host = decode_host(atyp, addr, port);
        self.set_host(host, 0);
        let mut reply: Vec<u8> = Vec::new();
        reply.push(0x05);
        reply.push(0x00);
        reply.push(0x00);
        reply.push(0x01);
        reply.push(0x00);
        reply.push(0x00);
        reply.push(0x00);
        reply.push(0x00);
        reply.push(0x00);
        reply.push(0x00);
        assert(reply@ =~= connect_reply());
        self.add_queue(reply);
    }

    fn sni_encrypt(&mut self, buf: Vec<u8>) -> (r: Vec<u8>)
        requires
            old(self)@.stage < 255,
            host_bytes(old(self)@).len() <= 255,
        ensures
            r@ == shuffled(sni_frame(host_bytes(old(self)@), old(self)@.id, buf@)),
            final(self)@ == (LineView { stage: (old(self)@.stage + 1) as u8, ..old(self)@ }),
    {
        self.next_stage();
        let id = self.id();
        let host = self.host().as_str().as_bytes();
        let input = frame_sni(host, id, buf.as_slice());
        encode(input.as_slice())
    }
}

/// The host text for address type `atyp`, address bytes `buf` and `port`.
fn decode_host(atyp: u8, buf: &[u8], port: u16) -> (r: String)
    requires
        atyp == 1 ==> buf@.len() >= 4,
        atyp == 3 ==> buf@.len() >= 1,
    ensures
        r@ == host_text(atyp, buf@, port as nat),
{
    if atyp == 1 {
        let mut s = decimal_string(buf[0] as u64);
        s.append(".");
        push_decimal(&mut s, buf[1] as u64);
        s.append(".");
        push_decimal(&mut s, buf[2] as u64);
        s.append(".");
        push_decimal(&mut s, buf[3] as u64);
        s.append(":");
        push_decimal(&mut s, port as u64);
        proof {
            reveal_strlit(".");
            reveal_strlit(":");
        }
        s
    } else if atyp == 2 {
        let mut s = String::from_str("ipv6:");
        push_decimal(&mut s, port as u64);
        proof {
            reveal_strlit("ipv6:");
        }
        s
    } else if atyp == 3 {
        let mut s = from_utf8_lossy(&buf[1..buf.len()]);
        s.append(":");
        push_decimal(&mut s, port as u64);
        proof {
            reveal_strlit(":");
            assert(buf@.subrange(1, buf@.len() as int) =~= buf@.drop_first());
        }
        s
    } else {
        let mut s = String::from_str("unexpected:");
        push_decimal(&mut s, atyp as u64);
        proof {
            reveal_strlit("unexpected:");
        }
        s
    }
}

} // verus!
