use vstd::prelude::*;
use crate::line::{Line, LineView};
use crate::sni::{
    decode, extend_bytes, lemma_sni_frame_roundtrip, lemma_shuffle_roundtrip, shuffled,
    sni_frame, sni_frame_host, sni_frame_payload, sni_frame_tag, sni_frame_well_formed,
    u64_from_be_bytes, unshuffled,
};
use crate::text::{from_utf8_lossy, utf8_lossy};

verus! {

//Operator
impl Line {
    /// Opens a shuffled frame received from a browser-facing line: records
    /// the announced host and returns the payload that follows the header.
    pub fn decrypt_sni(&mut self, buf: &Vec<u8>) -> (r: Option<Vec<u8>>)
        requires
            sni_frame_well_formed(unshuffled(buf@)),
        ensures
            r is Some,
            r->0@ == sni_frame_payload(unshuffled(buf@)),
            final(self)@ == (LineView {
                host: utf8_lossy(sni_frame_host(unshuffled(buf@))),
                ..old(self)@
            }),
            vstd::utf8::valid_utf8(sni_frame_host(unshuffled(buf@))) ==> final(self)@.host
                == vstd::utf8::decode_utf8(sni_frame_host(unshuffled(buf@))),
    {
        let data = decode(buf.as_slice());
        let len = data[0] as usize;
        let pos = len + 9;
        let tag = u64_from_be_bytes(&data.as_slice()[len + 1..pos]);
        let host = from_utf8_lossy(&data.as_slice()[1..len + 1]);
        self.set_host(host, tag);
        let mut rest: Vec<u8> = Vec::new();
        extend_bytes(&mut rest, &data.as_slice()[pos..data.len()]);
        Some(rest)
    }
}

/// The id of the sending line announced by a shuffled frame (the tag that
/// goes with the host into the `Establish` log).
pub fn sni_tag(buf: &Vec<u8>) -> (r: u64)
    requires
        sni_frame_well_formed(unshuffled(buf@)),
    ensures
        r == sni_frame_tag(unshuffled(buf@)),
{
    let data = decode(buf.as_slice());
    let len = data[0] as usize;
    u64_from_be_bytes(&data.as_slice()[len + 1..len + 9])
}

/// What a browser-facing line sends is what the remote line reads back:
/// after shuffling and unshuffling, the frame announces the same host
/// text, the sender's id, and carries the same payload.
pub proof fn lemma_tunnel_roundtrip(host: Seq<char>, id: u64, payload: Seq<u8>)
    requires
        vstd::utf8::encode_utf8(host).len() <= 255,
    ensures
        ({
            let received = unshuffled(
                shuffled(sni_frame(vstd::utf8::encode_utf8(host), id, payload)),
            );
            &&& sni_frame_well_formed(received)
            &&& vstd::utf8::valid_utf8(sni_frame_host(received))
            &&& vstd::utf8::decode_utf8(sni_frame_host(received)) == host
            &&& sni_frame_tag(received) == id
            &&& sni_frame_payload(received) == payload
        }),
{
    let bytes = vstd::utf8::encode_utf8(host);
    lemma_shuffle_roundtrip(sni_frame(bytes, id, payload));
    lemma_sni_frame_roundtrip(bytes, id, payload);
    vstd::utf8::encode_utf8_valid_utf8(host);
    vstd::utf8::encode_utf8_decode_utf8(host);
}

} // verus!
