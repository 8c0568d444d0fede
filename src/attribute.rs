use vstd::prelude::*;
use vstd::string::StringSliceAdditionalSpecFns;

use crate::consts::{
    ATTRIBUTE_CHANGE_REQUEST, ATTRIBUTE_FAMILY_IPV4, ATTRIBUTE_FAMILY_IPV6,
    ATTRIBUTE_FINGERPRINT, ATTRIBUTE_SOFTWARE, ATTRIBUTE_XOR_MAPPED_ADDRESS, FINGERPRINT,
};
use crate::host::{Host, HostView};
use crate::packet::{encode, Packet};
use crate::text::{ipv4_string, ipv4_text, ipv6_string, ipv6_text};
use crate::utils::{align4, padded, padding};
use crate::wire::{be16, be16_at, be32, write_u16, write_u32};

verus! {

/// A type-length-value attribute of a STUN message. `length` is the length
/// of the value before padding; `value` holds it padded with zeros to a
/// multiple of four bytes.
#[derive(Debug, Clone)]
pub struct Attribute {
    pub s_type: u16,
    pub length: u16,
    pub value: Vec<u8>,
}

/// What an `Attribute` stands for.
pub struct AttributeView {
    pub s_type: u16,
    pub length: u16,
    pub value: Seq<u8>,
}

impl View for Attribute {
    type V = AttributeView;

    open spec fn view(&self) -> AttributeView {
        AttributeView { s_type: self.s_type, length: self.length, value: self.value@ }
    }
}

/// The attribute of type `t` that carries `v`.
pub open spec fn attribute_of(t: u16, v: Seq<u8>) -> AttributeView {
    AttributeView { s_type: t, length: v.len() as u16, value: padded(v) }
}

/// The value holds `length` bytes followed by zero padding to a multiple of four.
pub open spec fn attribute_wf(a: AttributeView) -> bool {
    &&& a.length as nat <= a.value.len()
    &&& a.value == padded(a.value.subrange(0, a.length as int))
}

/// The value of a change request: bit 2 of the last byte asks for another
/// IP address, bit 1 for another port.
pub open spec fn change_request_value(change_ip: bool, change_port: bool) -> Seq<u8> {
    seq![0u8, 0u8, 0u8, ((if change_ip { 4u8 } else { 0u8 }) + (if change_port { 2u8 } else { 0u8 })) as u8]
}

/// The checksum that `crc32fast` computes over `b`.
pub uninterp spec fn crc32_of(b: Seq<u8>) -> u32;

/// Relies on `crc32fast::hash`: the CRC-32 (IEEE) checksum of the bytes,
/// which depends on the bytes alone.
#[verifier::external_body]
fn crc32(b: &[u8]) -> (r: u32)
    ensures
        r == crc32_of(b@),
{
    crc32fast::hash(b)
}

/// `b` with each of its first `n` bytes XORed with the byte at the same
/// place in `key`, starting at offset `from` of `b`.
pub open spec fn xor_bytes(b: Seq<u8>, from: int, key: Seq<u8>, n: nat) -> Seq<u8> {
    Seq::new(n, |k: int| b[from + k] ^ key[k])
}

/// Address bytes of an address attribute's value: four for IPv4, sixteen
/// for IPv6.
pub open spec fn address_len(family: u16) -> nat {
    if family == ATTRIBUTE_FAMILY_IPV4 { 4 } else { 16 }
}

/// The endpoint of an address value `[_, family, port:2, address]` whose
/// port is XORed with `port_key` and address bytes with `key`; none where the
/// family is unknown or the value is short.
pub open spec fn address_host(value: Seq<u8>, port_key: u16, key: Seq<u8>) -> Option<HostView> {
    if value.len() < 4 {
        None
    } else {
        let family = value[1] as u16;
        let port = be16_at(value, 2) ^ port_key;
        if family != ATTRIBUTE_FAMILY_IPV4 && family != ATTRIBUTE_FAMILY_IPV6 {
            None
        } else if value.len() < 4 + address_len(family) {
            None
        } else {
            let addr = xor_bytes(value, 4, key, address_len(family));
            let ip = if family == ATTRIBUTE_FAMILY_IPV4 { ipv4_text(addr) } else { ipv6_text(addr) };
            Some(HostView { family, ip, port })
        }
    }
}

/// Endpoint of a plain address value.
pub open spec fn raw_host(value: Seq<u8>) -> Option<HostView> {
    address_host(value, 0, Seq::new(16, |k: int| 0u8))
}

/// The key of an XOR-mapped port: bytes two and three of the transaction ID.
pub open spec fn port_key(trans_id: Seq<u8>) -> u16 {
    be16_at(trans_id, 2)
}

/// Endpoint of an XOR-mapped address value under transaction ID `trans_id`.
pub open spec fn xor_host(value: Seq<u8>, trans_id: Seq<u8>) -> Option<HostView> {
    address_host(value, port_key(trans_id), trans_id)
}

/// The value of an XOR-mapped address attribute for `addr` and `port`.
pub open spec fn xor_address_value(family: u16, addr: Seq<u8>, port: u16, trans_id: Seq<u8>) -> Seq<u8> {
    seq![0u8, family as u8] + be16(port ^ port_key(trans_id)) + xor_bytes(addr, 0, trans_id, addr.len())
}

/// The address bytes fit the family.
pub open spec fn address_fits(family: u16, addr: Seq<u8>) -> bool {
    ||| family == ATTRIBUTE_FAMILY_IPV4 && addr.len() == 4
    ||| family == ATTRIBUTE_FAMILY_IPV6 && addr.len() == 16
}

/// Text of address bytes of the given family.
pub open spec fn ip_text(family: u16, addr: Seq<u8>) -> Seq<char> {
    if family == ATTRIBUTE_FAMILY_IPV4 { ipv4_text(addr) } else { ipv6_text(addr) }
}

/// The endpoint of an address value, with `port_key` and `key` as the XOR keys.
fn decode_address(value: &Vec<u8>, port_key: u16, key: &[u8]) -> (r: Option<Host>)
    requires
        key@.len() == 16,
    ensures
        r matches Some(h) ==> address_host(value@, port_key, key@) == Some(h@),
        r is None ==> address_host(value@, port_key, key@) is None,
{
    if value.len() < 4 {
        return None;
    }
    let family = value[1] as u16;
    let port = (value[2] as u16 * 256 + value[3] as u16) ^ port_key;
    let n: usize = if family == ATTRIBUTE_FAMILY_IPV4 {
        4
    } else if family == ATTRIBUTE_FAMILY_IPV6 {
        16
    } else {
        return None;
    };
    if value.len() < 4 + n {
        return None;
    }
    let mut addr: Vec<u8> = Vec::new();
    let mut i: usize = 0;
    while i < n
        invariant
            i <= n,
            n <= 16,
            key@.len() == 16,
            value@.len() >= 4 + n,
            addr@ == xor_bytes(value@, 4, key@, i as nat),
        decreases n - i,
    {
        addr.push(value[4 + i] ^ key[i]);
        i += 1;
        assert(addr@ =~= xor_bytes(value@, 4, key@, i as nat));
    }
    let ip = if family == ATTRIBUTE_FAMILY_IPV4 {
        ipv4_string(addr.as_slice())
    } else {
        ipv6_string(addr.as_slice())
    };
    assert(be16_at(value@, 2) == value[2] as u16 * 256 + value[3] as u16);
    Some(Host { family, ip, port })
}

impl Attribute {
    /// The attribute of type `s_type` carrying `value`, padded to a multiple
    /// of four bytes.
    pub fn new(s_type: u16, value: &[u8]) -> (r: Attribute)
        requires
            value@.len() <= 65535,
        ensures
            r@ == attribute_of(s_type, value@),
            attribute_wf(r@),
    {
        let padded_value = padding(value);
        proof {
            crate::utils::lemma_padded(value@);
        }
        Attribute { s_type, length: value.len() as u16, value: padded_value }
    }

    /// A SOFTWARE attribute carrying the UTF-8 bytes of `name`.
    pub fn new_software_attribute(name: &str) -> (r: Attribute)
        requires
            name.spec_bytes().len() <= 65535,
        ensures
            r@ == attribute_of(ATTRIBUTE_SOFTWARE, name.spec_bytes()),
            attribute_wf(r@),
    {
        Attribute::new(ATTRIBUTE_SOFTWARE, name.as_bytes())
    }

    /// A FINGERPRINT attribute whose value is `crc` XORed with the
    /// fingerprint constant, big-endian.
    pub fn fingerprint_from_crc(crc: u32) -> (r: Attribute)
        ensures
            r@ == attribute_of(ATTRIBUTE_FINGERPRINT, be32(crc ^ FINGERPRINT)),
            attribute_wf(r@),
    {
        let buf = write_u32(crc ^ FINGERPRINT);
        Attribute::new(ATTRIBUTE_FINGERPRINT, buf.as_slice())
    }

    /// A FINGERPRINT attribute over the encoding of `pkt`.
    pub fn new_fingerprint_attribute(pkt: &Packet) -> (r: Attribute)
        ensures
            r@ == attribute_of(ATTRIBUTE_FINGERPRINT, be32(crc32_of(encode(pkt@)) ^ FINGERPRINT)),
            attribute_wf(r@),
    {
        let bytes = pkt.bytes();
        let crc = crc32(bytes.as_slice());
        Attribute::fingerprint_from_crc(crc)
    }

    /// A CHANGE-REQUEST attribute asking the server to answer from another
    /// IP address and/or port.
    pub fn new_change_req_attribute(change_ip: bool, change_port: bool) -> (r: Attribute)
        ensures
            r@ == attribute_of(ATTRIBUTE_CHANGE_REQUEST, change_request_value(change_ip, change_port)),
            attribute_wf(r@),
    {
        let mut last: u8 = 0;
        if change_ip {
            last = last + 4;
        }
        if change_port {
            last = last + 2;
        }
        let value: Vec<u8> = vec![0u8, 0u8, 0u8, last];
        assert(value@ =~= change_request_value(change_ip, change_port));
        Attribute::new(ATTRIBUTE_CHANGE_REQUEST, value.as_slice())
    }

    /// An XOR-MAPPED-ADDRESS attribute for `addr` and `port` under `trans_id`.
    pub fn new_xor_mapped_attribute(family: u16, addr: &[u8], port: u16, trans_id: &[u8; 16]) -> (r: Attribute)
        requires
            address_fits(family, addr@),
        ensures
            r@ == attribute_of(ATTRIBUTE_XOR_MAPPED_ADDRESS, xor_address_value(family, addr@, port, trans_id@)),
            attribute_wf(r@),
    {
        let key: u16 = trans_id[2] as u16 * 256 + trans_id[3] as u16;
        let mut value: Vec<u8> = vec![0u8, family as u8];
        let p = write_u16(port ^ key);
        value.push(p[0]);
        value.push(p[1]);
        let mut i: usize = 0;
        while i < addr.len()
            invariant
                i <= addr@.len() <= 16,
                trans_id@.len() == 16,
                key == port_key(trans_id@),
                value@ == seq![0u8, family as u8] + be16(port ^ key) + xor_bytes(addr@, 0, trans_id@, i as nat),
            decreases addr@.len() - i,
        {
            value.push(addr[i] ^ trans_id[i]);
            i += 1;
            assert(xor_bytes(addr@, 0, trans_id@, i as nat) =~= xor_bytes(addr@, 0, trans_id@, (i - 1) as nat).push(addr@[i - 1] ^ trans_id@[i - 1]));
        }
        proof {
            assert(value@.len() <= 20);
        }
        Attribute::new(ATTRIBUTE_XOR_MAPPED_ADDRESS, value.as_slice())
    }

    /// The endpoint of an XOR-mapped address value under `trans_id`; none
    /// where the family is unknown or the value is too short.
    pub fn get_xor_addr(&self, trans_id: &[u8; 16]) -> (r: Option<Host>)
        ensures
            r matches Some(h) ==> xor_host(self.value@, trans_id@) == Some(h@),
            r is None ==> xor_host(self.value@, trans_id@) is None,
    {
        let key: u16 = trans_id[2] as u16 * 256 + trans_id[3] as u16;
        decode_address(&self.value, key, trans_id.as_slice())
    }

    /// The endpoint of a plain address value; none where the family is
    /// unknown or the value is too short.
    pub fn raw_addr(&self) -> (r: Option<Host>)
        ensures
            r matches Some(h) ==> raw_host(self.value@) == Some(h@),
            r is None ==> raw_host(self.value@) is None,
    {
        let zeros: Vec<u8> = vec![0u8; 16];
        assert(zeros@ =~= Seq::new(16, |k: int| 0u8));
        decode_address(&self.value, 0, zeros.as_slice())
    }
}

/// Decoding an XOR-mapped address attribute built for `family`, `addr`
/// and `port` under `trans_id` gives back that family, the text of `addr`
/// and that port.
pub proof fn lemma_xor_round_trip(family: u16, addr: Seq<u8>, port: u16, trans_id: Seq<u8>)
    requires
        address_fits(family, addr),
        trans_id.len() == 16,
    ensures
        xor_host(
            attribute_of(ATTRIBUTE_XOR_MAPPED_ADDRESS, xor_address_value(family, addr, port, trans_id)).value,
            trans_id,
        ) == Some(HostView { family, ip: ip_text(family, addr), port }),
{
    let key = port_key(trans_id);
    let v = xor_address_value(family, addr, port, trans_id);
    assert(padded(v) =~= v);
    crate::wire::lemma_be16(port ^ key);
    assert(be16_at(v, 2) == be16_at(be16(port ^ key), 0));
    assert((port ^ key) ^ key == port) by (bit_vector);
    assert(v[1] as u16 == family);
    let n = address_len(family);
    assert forall|k: int| 0 <= k < n implies #[trigger] xor_bytes(v, 4, trans_id, n)[k] == addr[k] by {
        let x = addr[k];
        let y = trans_id[k];
        assert(v[4 + k] == x ^ y);
        assert((x ^ y) ^ y == x) by (bit_vector);
    }
    assert(xor_bytes(v, 4, trans_id, n) =~= addr);
}

} // verus!
