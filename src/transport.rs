use vstd::prelude::*;
use vstd::string::StringSliceAdditionalSpecFns;

use crate::attribute::{attribute_of, change_request_value, Attribute};
use crate::consts::{ATTRIBUTE_CHANGE_REQUEST, ATTRIBUTE_SOFTWARE, MAGIC_COOKIE, TYPE_BINDING_REQUEST};
use crate::packet::{decode, packet_wf, with_fingerprint, Packet, PacketView};
use crate::utils::align4;
use crate::wire::be32;

verus! {

/// Sends of one request, the first included.
pub const NUM_RETRANSMIT: u32 = 9;

/// Milliseconds to wait after the first send.
pub const DEFAULT_TIMEOUT: u64 = 100;

/// The wait never grows past this many milliseconds.
pub const MAX_TIMEOUT: u64 = 1600;

/// Bytes of the receive buffer; a datagram that fills it may have been cut.
pub const MAX_PACKET_SIZE: usize = 1024;

/// Milliseconds to wait for a reply after send number `k` (from zero):
/// 100, doubled after each send, at most 1600.
pub open spec fn timeout_for(k: nat) -> nat
    decreases k,
{
    if k == 0 {
        DEFAULT_TIMEOUT as nat
    } else if 2 * timeout_for((k - 1) as nat) < MAX_TIMEOUT {
        2 * timeout_for((k - 1) as nat)
    } else {
        MAX_TIMEOUT as nat
    }
}

/// The retransmission schedule of one request: how many sends were made and
/// how long to wait after the next one.
pub struct Retransmit {
    pub sent: u32,
    pub timeout_ms: u64,
}

impl Retransmit {
    pub open spec fn wf(&self) -> bool {
        &&& self.sent <= NUM_RETRANSMIT
        &&& self.timeout_ms as nat == timeout_for(self.sent as nat)
    }

    /// A schedule before the first send.
    pub fn new() -> (r: Retransmit)
        ensures
            r.wf(),
            r.sent == 0,
    {
        Retransmit { sent: 0, timeout_ms: DEFAULT_TIMEOUT }
    }

    /// Before a send: the milliseconds to wait for a reply after it, or
    /// none once all sends are spent.
    pub fn next_send(&mut self) -> (r: Option<u64>)
        requires
            old(self).wf(),
        ensures
            final(self).wf(),
            old(self).sent < NUM_RETRANSMIT ==> r == Some(timeout_for(old(self).sent as nat) as u64)
                && final(self).sent == old(self).sent + 1,
            old(self).sent >= NUM_RETRANSMIT ==> r is None && *final(self) == *old(self),
    {
        if self.sent >= NUM_RETRANSMIT {
            return None;
        }
        let wait = self.timeout_ms;
        proof {
            lemma_timeout_bound(self.sent as nat);
        }
        if self.timeout_ms < MAX_TIMEOUT / 2 {
            self.timeout_ms = self.timeout_ms * 2;
        } else {
            self.timeout_ms = MAX_TIMEOUT;
        }
        self.sent = self.sent + 1;
        Some(wait)
    }
}

/// Every wait of the schedule lies between 100 and 1600 milliseconds.
pub proof fn lemma_timeout_bound(k: nat)
    ensures
        DEFAULT_TIMEOUT <= timeout_for(k) <= MAX_TIMEOUT,
    decreases k,
{
    if k > 0 {
        lemma_timeout_bound((k - 1) as nat);
    }
}

/// The waits of the nine sends add up to 9.5 seconds.
pub proof fn lemma_schedule_total()
    ensures
        timeout_for(0) + timeout_for(1) + timeout_for(2) + timeout_for(3) + timeout_for(4)
            + timeout_for(5) + timeout_for(6) + timeout_for(7) + timeout_for(8) == 9500,
{
    assert(timeout_for(0) == 100);
    assert(timeout_for(1) == 200);
    assert(timeout_for(2) == 400);
    assert(timeout_for(3) == 800);
    assert(timeout_for(4) == 1600);
    assert(timeout_for(5) == 1600);
    assert(timeout_for(6) == 1600);
    assert(timeout_for(7) == 1600);
    assert(timeout_for(8) == 1600);
}

/// The reply to `sent` held in `datagram`: the decoded message, if the
/// datagram did not fill the receive buffer, decodes, and carries the same
/// transaction ID.
pub fn match_reply(sent: &Packet, datagram: &[u8]) -> (r: Option<Packet>)
    ensures
        r matches Some(p) ==> datagram@.len() < MAX_PACKET_SIZE && decode(datagram@) == Some(p@)
            && p@.trans_id == sent@.trans_id,
        r is None ==> datagram@.len() >= MAX_PACKET_SIZE || match decode(datagram@) {
            Some(q) => q.trans_id != sent@.trans_id,
            None => true,
        },
{
    if datagram.len() >= MAX_PACKET_SIZE {
        return None;
    }
    let mut bytes: Vec<u8> = Vec::new();
    let mut i: usize = 0;
    while i < datagram.len()
        invariant
            i <= datagram@.len(),
            bytes@ == datagram@.subrange(0, i as int),
        decreases datagram@.len() - i,
    {
        bytes.push(datagram[i]);
        i += 1;
    }
    assert(bytes@ =~= datagram@);
    match Packet::new_packet_form_bytes(bytes) {
        Ok(p) => {
            let mut k: usize = 0;
            while k < 16
                invariant
                    k <= 16,
                    decode(datagram@) == Some(p@),
                    p@.trans_id.len() == 16 && sent@.trans_id.len() == 16,
                    forall|j: int| 0 <= j < k ==> p@.trans_id[j] == sent@.trans_id[j],
                decreases 16 - k,
            {
                if p.trans_id[k] != sent.trans_id[k] {
                    return None;
                }
                k += 1;
            }
            assert(p@.trans_id =~= sent@.trans_id);
            Some(p)
        },
        Err(_) => None,
    }
}

/// The message of an empty binding request under transaction ID `trans_id`.
pub open spec fn empty_request(trans_id: Seq<u8>) -> PacketView {
    PacketView { types: TYPE_BINDING_REQUEST, length: 0, trans_id, attributes: Seq::empty() }
}

/// `p` with attribute `a` appended and counted in the length.
pub open spec fn with_attribute(p: PacketView, a: crate::attribute::AttributeView) -> PacketView {
    PacketView {
        length: (p.length + 4 + align4(a.length as nat)) as u16,
        attributes: p.attributes.push(a),
        ..p
    }
}

/// A binding request: SOFTWARE carrying `name`, then a CHANGE-REQUEST if
/// either flag is set, then a FINGERPRINT.
pub open spec fn binding_request_of(name: Seq<u8>, change_ip: bool, change_port: bool, trans_id: Seq<u8>) -> PacketView {
    let p = with_attribute(empty_request(trans_id), attribute_of(ATTRIBUTE_SOFTWARE, name));
    let p = if change_ip || change_port {
        with_attribute(p, attribute_of(ATTRIBUTE_CHANGE_REQUEST, change_request_value(change_ip, change_port)))
    } else {
        p
    };
    with_fingerprint(p)
}

/// The binding request of the given flags whose transaction ID is the
/// magic cookie followed by `tail`.
pub fn binding_request(software_name: &str, change_ip: bool, change_port: bool, tail: [u8; 12]) -> (r: Packet)
    requires
        software_name.spec_bytes().len() <= 65512,
    ensures
        r@ == binding_request_of(software_name.spec_bytes(), change_ip, change_port, be32(MAGIC_COOKIE) + tail@),
        packet_wf(r@),
{
    let mut pkt = Packet::with_transaction(tail);
    pkt.types = TYPE_BINDING_REQUEST;
    let ghost p0 = pkt@;
    let software = Attribute::new_software_attribute(software_name);
    pkt.add_attribute(software);
    let ghost p1 = pkt@;
    if change_ip || change_port {
        let change = Attribute::new_change_req_attribute(change_ip, change_port);
        pkt.add_attribute(change);
    }
    let ghost p2 = pkt@;
    pkt.add_fingerprint();
    proof {
        let tid = be32(MAGIC_COOKIE) + tail@;
        assert(p0.attributes =~= Seq::<crate::attribute::AttributeView>::empty());
        assert(p0 == empty_request(tid));
        assert(packet_wf(p0));
        lemma_attribute_of_wf(ATTRIBUTE_SOFTWARE, software_name.spec_bytes());
        crate::packet::lemma_push_wf(p0, attribute_of(ATTRIBUTE_SOFTWARE, software_name.spec_bytes()));
        if change_ip || change_port {
            lemma_attribute_of_wf(ATTRIBUTE_CHANGE_REQUEST, change_request_value(change_ip, change_port));
            crate::packet::lemma_push_wf(p1, attribute_of(ATTRIBUTE_CHANGE_REQUEST, change_request_value(change_ip, change_port)));
        }
        crate::packet::lemma_fingerprint_wf(p2);
    }
    pkt
}

/// The attribute built for `v` is well formed.
proof fn lemma_attribute_of_wf(t: u16, v: Seq<u8>)
    requires
        v.len() <= 65535,
    ensures
        crate::attribute::attribute_wf(attribute_of(t, v)),
{
    crate::utils::lemma_padded(v);
}


/// A binding request of the given flags with a fresh random transaction ID
/// that starts with the magic cookie.
pub fn new_binding_request(software_name: &str, change_ip: bool, change_port: bool) -> (r: Packet)
    requires
        software_name.spec_bytes().len() <= 65512,
    ensures
        r@.trans_id.len() == 16,
        r@.trans_id.subrange(0, 4) == be32(MAGIC_COOKIE),
        r@ == binding_request_of(software_name.spec_bytes(), change_ip, change_port, r@.trans_id),
        packet_wf(r@),
{
    let fresh = Packet::new();
    let tail: [u8; 12] = [
        fresh.trans_id[4], fresh.trans_id[5], fresh.trans_id[6], fresh.trans_id[7],
        fresh.trans_id[8], fresh.trans_id[9], fresh.trans_id[10], fresh.trans_id[11],
        fresh.trans_id[12], fresh.trans_id[13], fresh.trans_id[14], fresh.trans_id[15],
    ];
    let r = binding_request(software_name, change_ip, change_port, tail);
    assert(r@.trans_id.subrange(0, 4) =~= be32(MAGIC_COOKIE));
    r
}

} // verus!
