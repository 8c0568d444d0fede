use vstd::prelude::*;
use vstd::slice::slice_subrange;

use crate::attribute::{
    attribute_of, attribute_wf, crc32_of, raw_host, xor_host, Attribute, AttributeView,
};
use crate::consts::{
    ATTRIBUTE_CHANGED_ADDRESS, ATTRIBUTE_FINGERPRINT, ATTRIBUTE_MAPPED_ADDRESS,
    ATTRIBUTE_OTHER_ADDRESS, ATTRIBUTE_XOR_MAPPED_ADDRESS, FINGERPRINT, MAGIC_COOKIE,
};
use crate::host::{host_opt_view, Host, HostView};
use crate::utils::{align4, padded};
use crate::wire::{be16, be16_at, be32, read_u16, write_u16};

verus! {

/// A STUN message: type, length of the attribute section, 16-byte
/// transaction ID (magic cookie and 12 random bytes) and attributes.
#[derive(Debug, Clone)]
pub struct Packet {
    pub types: u16,
    pub length: u16,
    pub trans_id: [u8; 16],
    pub attributes: Vec<Attribute>,
}

/// What a `Packet` stands for.
pub struct PacketView {
    pub types: u16,
    pub length: u16,
    pub trans_id: Seq<u8>,
    pub attributes: Seq<AttributeView>,
}

impl View for Packet {
    type V = PacketView;

    open spec fn view(&self) -> PacketView {
        PacketView {
            types: self.types,
            length: self.length,
            trans_id: self.trans_id@,
            attributes: self.attributes@.map_values(|a: Attribute| a@),
        }
    }
}

/// Wire bytes of one attribute: type, length, padded value.
pub open spec fn encode_attr(a: AttributeView) -> Seq<u8> {
    be16(a.s_type) + be16(a.length) + a.value
}

/// Wire bytes of a sequence of attributes, in order.
pub open spec fn encode_attrs(s: Seq<AttributeView>) -> Seq<u8>
    decreases s.len(),
{
    if s.len() == 0 {
        Seq::empty()
    } else {
        encode_attrs(s.drop_last()) + encode_attr(s.last())
    }
}

/// Wire bytes of a message: 20-byte header, then the attributes.
pub open spec fn encode(p: PacketView) -> Seq<u8> {
    be16(p.types) + be16(p.length) + p.trans_id + encode_attrs(p.attributes)
}

/// Bytes that a sequence of attributes takes on the wire.
pub open spec fn payload_len(s: Seq<AttributeView>) -> nat
    decreases s.len(),
{
    if s.len() == 0 {
        0
    } else {
        payload_len(s.drop_last()) + 4 + align4(s.last().length as nat)
    }
}

/// A message whose length field counts its attributes and whose
/// attributes are padded with zeros.
pub open spec fn packet_wf(p: PacketView) -> bool {
    &&& p.trans_id.len() == 16
    &&& p.length as nat == payload_len(p.attributes)
    &&& forall|i: int| 0 <= i < p.attributes.len() ==> attribute_wf(#[trigger] p.attributes[i])
}

/// Attributes parsed from `b`: each one is type, length and `length` value
/// bytes, and the next starts after the value rounded up to four bytes;
/// none where a header or a rounded value runs past the end.
pub open spec fn parse_attrs(b: Seq<u8>) -> Option<Seq<AttributeView>>
    decreases b.len(),
{
    if b.len() == 0 {
        Some(Seq::empty())
    } else if b.len() < 4 {
        None
    } else {
        let l = be16_at(b, 2);
        let end = 4 + align4(l as nat);
        if end > b.len() {
            None
        } else {
            match parse_attrs(b.subrange(end as int, b.len() as int)) {
                Some(rest) => Some(seq![attribute_of(be16_at(b, 0), b.subrange(4, 4 + l))] + rest),
                None => None,
            }
        }
    }
}

/// The message in `b`, if `b` holds a header and well-framed attributes.
pub open spec fn decode(b: Seq<u8>) -> Option<PacketView> {
    if b.len() < 20 || b.len() - 20 > 65535 {
        None
    } else {
        match parse_attrs(b.subrange(20, b.len() as int)) {
            Some(attributes) => Some(PacketView {
                types: be16_at(b, 0),
                length: be16_at(b, 2),
                trans_id: b.subrange(4, 20),
                attributes,
            }),
            None => None,
        }
    }
}

/// `acc` followed by the attributes of `o`, if any.
pub open spec fn prepend(acc: Seq<AttributeView>, o: Option<Seq<AttributeView>>) -> Option<Seq<AttributeView>> {
    match o {
        Some(r) => Some(acc + r),
        None => None,
    }
}

/// The first attribute of type `t`.
pub open spec fn find_attr(s: Seq<AttributeView>, t: u16) -> Option<AttributeView>
    decreases s.len(),
{
    if s.len() == 0 {
        None
    } else if s[0].s_type == t {
        Some(s[0])
    } else {
        find_attr(s.skip(1), t)
    }
}

/// The plain address carried by the first attribute of type `t`.
pub open spec fn raw_addr_of(p: PacketView, t: u16) -> Option<HostView> {
    match find_attr(p.attributes, t) {
        Some(a) => raw_host(a.value),
        None => None,
    }
}

/// The XOR-mapped address carried by the first attribute of type `t`.
pub open spec fn xor_addr_of(p: PacketView, t: u16) -> Option<HostView> {
    match find_attr(p.attributes, t) {
        Some(a) => xor_host(a.value, p.trans_id),
        None => None,
    }
}

/// The mapped address of a reply: its XOR-MAPPED-ADDRESS where it has one,
/// else its MAPPED-ADDRESS.
pub open spec fn mapped_addr_of(p: PacketView) -> Option<HostView> {
    if find_attr(p.attributes, ATTRIBUTE_XOR_MAPPED_ADDRESS) is Some {
        xor_addr_of(p, ATTRIBUTE_XOR_MAPPED_ADDRESS)
    } else {
        raw_addr_of(p, ATTRIBUTE_MAPPED_ADDRESS)
    }
}

/// `p` with its length raised by the eight bytes of a fingerprint attribute.
pub open spec fn with_fingerprint_length(p: PacketView) -> PacketView {
    PacketView { length: (p.length + 8) as u16, ..p }
}

/// `p` with a fingerprint attribute appended, whose checksum covers `p`
/// with the length that includes the fingerprint.
pub open spec fn with_fingerprint(p: PacketView) -> PacketView {
    let q = with_fingerprint_length(p);
    PacketView {
        attributes: p.attributes.push(
            attribute_of(ATTRIBUTE_FINGERPRINT, be32(crc32_of(encode(q)) ^ FINGERPRINT)),
        ),
        ..q
    }
}

/// Relies on `rand::Rng::fill` on `rand::thread_rng()`: twelve bytes of
/// which nothing is promised.
#[verifier::external_body]
fn random_bytes() -> (r: [u8; 12]) {
    let mut buf = [0u8; 12];
    rand::Rng::fill(&mut rand::thread_rng(), &mut buf);
    buf
}

fn extend(out: &mut Vec<u8>, b: &[u8])
    ensures
        final(out)@ == old(out)@ + b@,
{
    let mut i: usize = 0;
    while i < b.len()
        invariant
            i <= b@.len(),
            out@ == old(out)@ + b@.subrange(0, i as int),
        decreases b@.len() - i,
    {
        out.push(b[i]);
        i += 1;
        assert(out@ =~= old(out)@ + b@.subrange(0, i as int));
    }
    assert(b@.subrange(0, b@.len() as int) =~= b@);
}

impl Packet {
    /// An empty message of type zero whose transaction ID is the magic
    /// cookie followed by `tail`.
    pub fn with_transaction(tail: [u8; 12]) -> (r: Packet)
        ensures
            r@ == (PacketView {
                types: 0,
                length: 0,
                trans_id: be32(MAGIC_COOKIE) + tail@,
                attributes: Seq::empty(),
            }),
    {
        let trans_id: [u8; 16] = [
            0x21, 0x12, 0xA4, 0x42, tail[0], tail[1], tail[2], tail[3], tail[4], tail[5],
            tail[6], tail[7], tail[8], tail[9], tail[10], tail[11],
        ];
        let r = Packet { types: 0, length: 0, trans_id, attributes: Vec::new() };
        assert(r@.trans_id =~= be32(MAGIC_COOKIE) + tail@);
        assert(r@.attributes =~= Seq::empty());
        r
    }

    /// An empty message of type zero with the magic cookie and a fresh
    /// random transaction ID.
    pub fn new() -> (r: Packet)
        ensures
            r@.types == 0,
            r@.length == 0,
            r@.attributes.len() == 0,
            r@.trans_id.len() == 16,
            r@.trans_id.subrange(0, 4) == be32(MAGIC_COOKIE),
    {
        let r = Packet::with_transaction(random_bytes());
        assert(r@.trans_id.subrange(0, 4) =~= be32(MAGIC_COOKIE));
        r
    }

    /// Appends `a` and counts its header and padded value in the length.
    pub fn add_attribute(&mut self, a: Attribute)
        requires
            old(self).length as nat + 4 + align4(a.length as nat) <= 65535,
        ensures
            final(self)@ == (PacketView {
                length: (old(self).length + 4 + align4(a.length as nat)) as u16,
                attributes: old(self)@.attributes.push(a@),
                ..old(self)@
            }),
    {
        let add: u16 = (a.length as u32 + 3) as u16 / 4 * 4;
        self.length = self.length + add + 4;
        self.attributes.push(a);
        assert(final(self)@.attributes =~= old(self)@.attributes.push(a@));
    }

    /// The wire bytes of the message.
    pub fn bytes(&self) -> (r: Vec<u8>)
        ensures
            r@ == encode(self@),
    {
        let mut out = write_u16(self.types);
        let l = write_u16(self.length);
        extend(&mut out, l.as_slice());
        extend(&mut out, self.trans_id.as_slice());
        let ghost head = out@;
        let mut i: usize = 0;
        while i < self.attributes.len()
            invariant
                i <= self@.attributes.len(),
                out@ == head + encode_attrs(self@.attributes.subrange(0, i as int)),
            decreases self@.attributes.len() - i,
        {
            let a = &self.attributes[i];
            let t = write_u16(a.s_type);
            extend(&mut out, t.as_slice());
            let l = write_u16(a.length);
            extend(&mut out, l.as_slice());
            extend(&mut out, a.value.as_slice());
            proof {
                let s = self@.attributes.subrange(0, i + 1);
                assert(s.drop_last() =~= self@.attributes.subrange(0, i as int));
            }
            i += 1;
        }
        assert(self@.attributes.subrange(0, i as int) =~= self@.attributes);
        assert(out@ =~= encode(self@));
        out
    }

    /// The message held in `packet_bytes`: a 20-byte header and attributes
    /// framed as `parse_attrs` says; an error where the bytes are too short,
    /// too long, or an attribute runs past the end.
    pub fn new_packet_form_bytes(packet_bytes: Vec<u8>) -> (r: Result<Packet, String>)
        ensures
            r matches Ok(p) ==> decode(packet_bytes@) == Some(p@),
            r is Err ==> decode(packet_bytes@) is None,
    {
        let b = packet_bytes.as_slice();
        let n = b.len();
        if n < 20 {
            return Err(String::from_str("Received data length too short"));
        }
        if n - 20 > 65535 {
            return Err(String::from_str("Received data length too long"));
        }
        let types = read_u16(b, 0);
        let length = read_u16(b, 2);
        let trans_id: [u8; 16] = [
            b[4], b[5], b[6], b[7], b[8], b[9], b[10], b[11], b[12], b[13], b[14], b[15], b[16],
            b[17], b[18], b[19],
        ];
        let mut attributes: Vec<Attribute> = Vec::new();
        let mut i: usize = 20;
        while i < n
            invariant
                20 <= i <= n,
                n == b@.len(),
                b@ == packet_bytes@,
                n - 20 <= 65535,
                parse_attrs(b@.subrange(20, n as int)) == prepend(
                    attributes@.map_values(|a: Attribute| a@),
                    parse_attrs(b@.subrange(i as int, n as int)),
                ),
            decreases n - i,
        {
            let ghost rest = b@.subrange(i as int, n as int);
            if n - i < 4 {
                assert(parse_attrs(rest) is None);
                assert(b@.subrange(20, n as int) == packet_bytes@.subrange(20, packet_bytes@.len() as int));
                return Err(String::from_str("Received data format mismatch"));
            }
            let t = read_u16(b, i);
            let l = read_u16(b, i + 2);
            assert(t == be16_at(rest, 0) && l == be16_at(rest, 2));
            let end: usize = i + 4 + (l as usize + 3) / 4 * 4;
            if end > n {
                assert(parse_attrs(rest) is None);
                assert(b@.subrange(20, n as int) == packet_bytes@.subrange(20, packet_bytes@.len() as int));
                return Err(String::from_str("Received data format mismatch"));
            }
            let value = slice_subrange(b, i + 4, i + 4 + l as usize);
            let a = Attribute::new(t, value);
            proof {
                assert(rest.subrange(4, 4 + l) =~= value@);
                assert(rest.subrange((end - i) as int, rest.len() as int) =~= b@.subrange(end as int, n as int));
            }
            let ghost before = attributes@.map_values(|a: Attribute| a@);
            attributes.push(a);
            assert(attributes@.map_values(|a: Attribute| a@) =~= before.push(a@));
            proof {
                match parse_attrs(b@.subrange(end as int, n as int)) {
                    Some(r) => {
                        assert(before + (seq![a@] + r) =~= before.push(a@) + r);
                    },
                    None => {},
                }
            }
            i = end;
        }
        assert(b@.subrange(i as int, n as int) =~= Seq::<u8>::empty());
        let p = Packet { types, length, trans_id, attributes };
        assert(p@.trans_id =~= b@.subrange(4, 20));
        assert(attributes@.map_values(|a: Attribute| a@) + Seq::<AttributeView>::empty()
            =~= attributes@.map_values(|a: Attribute| a@));
        Ok(p)
    }

    /// Index of the first attribute of type `t`, if any.
    fn find(&self, t: u16) -> (r: Option<usize>)
        ensures
            r matches Some(i) ==> i < self@.attributes.len() && find_attr(self@.attributes, t) == Some(self@.attributes[i as int]),
            r is None ==> find_attr(self@.attributes, t) is None,
    {
        let ghost s = self@.attributes;
        assert(s.subrange(0, s.len() as int) =~= s);
        let mut i: usize = 0;
        while i < self.attributes.len()
            invariant
                i <= s.len(),
                s == self@.attributes,
                find_attr(s, t) == find_attr(s.subrange(i as int, s.len() as int), t),
            decreases s.len() - i,
        {
            assert(s.subrange(i as int, s.len() as int)[0] == s[i as int]);
            if self.attributes[i].s_type == t {
                return Some(i);
            }
            assert(s.subrange(i as int, s.len() as int).skip(1) =~= s.subrange(i + 1, s.len() as int));
            i += 1;
        }
        None
    }

    /// The plain address carried by the first attribute of type `attribute`.
    pub fn get_raw_addr(&self, attribute: u16) -> (r: Option<Host>)
        ensures
            host_opt_view(r) == raw_addr_of(self@, attribute),
    {
        match self.find(attribute) {
            Some(i) => self.attributes[i].raw_addr(),
            None => None,
        }
    }

    /// The XOR-mapped address carried by the first attribute of type
    /// `attribute`, decoded under this message's transaction ID.
    pub fn get_xor_addr(&self, attribute: u16) -> (r: Option<Host>)
        ensures
            host_opt_view(r) == xor_addr_of(self@, attribute),
    {
        match self.find(attribute) {
            Some(i) => self.attributes[i].get_xor_addr(&self.trans_id),
            None => None,
        }
    }

    /// The mapped address: XOR-MAPPED-ADDRESS where present, else
    /// MAPPED-ADDRESS.
    pub fn get_xor_mapped_addr(&self) -> (r: Option<Host>)
        ensures
            host_opt_view(r) == mapped_addr_of(self@),
    {
        match self.find(ATTRIBUTE_XOR_MAPPED_ADDRESS) {
            Some(i) => self.attributes[i].get_xor_addr(&self.trans_id),
            None => self.get_raw_addr(ATTRIBUTE_MAPPED_ADDRESS),
        }
    }

    /// The CHANGED-ADDRESS of the message.
    pub fn get_change_addr(&self) -> (r: Option<Host>)
        ensures
            host_opt_view(r) == raw_addr_of(self@, ATTRIBUTE_CHANGED_ADDRESS),
    {
        self.get_raw_addr(ATTRIBUTE_CHANGED_ADDRESS)
    }

    /// The OTHER-ADDRESS of the message.
    pub fn get_other_addr(&self) -> (r: Option<Host>)
        ensures
            host_opt_view(r) == raw_addr_of(self@, ATTRIBUTE_OTHER_ADDRESS),
    {
        self.get_raw_addr(ATTRIBUTE_OTHER_ADDRESS)
    }

    /// Appends a FINGERPRINT attribute whose checksum covers the message
    /// with its length already counting the fingerprint.
    pub fn add_fingerprint(&mut self)
        requires
            old(self).length as nat + 8 <= 65535,
        ensures
            final(self)@ == with_fingerprint(old(self)@),
    {
        self.length = self.length + 8;
        let a = Attribute::new_fingerprint_attribute(self);
        self.length = self.length - 8;
        proof {
            crate::utils::lemma_padded(be32(crc32_of(encode(with_fingerprint_length(old(self)@)))
                ^ FINGERPRINT));
        }
        self.add_attribute(a);
        assert(final(self)@ =~= with_fingerprint(old(self)@));
    }
}

/// The encoding of a non-empty sequence of attributes is that of its first
/// attribute followed by that of the rest.
proof fn lemma_encode_attrs_cons(s: Seq<AttributeView>)
    requires
        s.len() > 0,
    ensures
        encode_attrs(s) == encode_attr(s[0]) + encode_attrs(s.skip(1)),
    decreases s.len(),
{
    if s.len() == 1 {
        assert(s.drop_last() =~= Seq::<AttributeView>::empty());
        assert(s.skip(1) =~= Seq::<AttributeView>::empty());
        assert(encode_attrs(s) =~= encode_attr(s[0]) + encode_attrs(s.skip(1)));
    } else {
        lemma_encode_attrs_cons(s.drop_last());
        assert(s.skip(1).drop_last() =~= s.drop_last().skip(1));
        assert(s.skip(1).last() == s.last());
        assert(s.drop_last()[0] == s[0]);
        assert(encode_attrs(s) =~= encode_attr(s[0]) + encode_attrs(s.skip(1)));
    }
}

/// Well-formed attributes take `payload_len` bytes on the wire.
proof fn lemma_encode_attrs_len(s: Seq<AttributeView>)
    requires
        forall|i: int| 0 <= i < s.len() ==> attribute_wf(#[trigger] s[i]),
    ensures
        encode_attrs(s).len() == payload_len(s),
    decreases s.len(),
{
    if s.len() > 0 {
        let a = s.last();
        assert(attribute_wf(s[s.len() - 1]));
        crate::utils::lemma_padded(a.value.subrange(0, a.length as int));
        assert(forall|i: int| 0 <= i < s.drop_last().len() ==> s.drop_last()[i] == s[i]);
        lemma_encode_attrs_len(s.drop_last());
    }
}

/// Parsing the encoding of well-formed attributes gives them back.
proof fn lemma_parse_encode(s: Seq<AttributeView>)
    requires
        forall|i: int| 0 <= i < s.len() ==> attribute_wf(#[trigger] s[i]),
    ensures
        parse_attrs(encode_attrs(s)) == Some(s),
    decreases s.len(),
{
    if s.len() == 0 {
        assert(encode_attrs(s) =~= Seq::<u8>::empty());
    } else {
        let a = s[0];
        let rest = s.skip(1);
        assert(attribute_wf(s[0]));
        assert(forall|i: int| 0 <= i < rest.len() ==> rest[i] == s[i + 1]);
        lemma_encode_attrs_cons(s);
        lemma_parse_encode(rest);
        let v = a.value.subrange(0, a.length as int);
        crate::utils::lemma_padded(v);
        let b = encode_attrs(s);
        let r = encode_attrs(rest);
        assert(b == be16(a.s_type) + be16(a.length) + a.value + r);
        crate::wire::lemma_be16(a.s_type);
        crate::wire::lemma_be16(a.length);
        assert(be16_at(b, 0) == be16_at(be16(a.s_type), 0));
        assert(be16_at(b, 2) == be16_at(be16(a.length), 0));
        let end = 4 + align4(a.length as nat);
        assert(a.value.len() == align4(a.length as nat));
        assert(b.subrange(end as int, b.len() as int) =~= r);
        assert(b.subrange(4, 4 + a.length) =~= v);
        assert(attribute_of(a.s_type, v) == a);
        assert(seq![a] + rest =~= s);
    }
}

/// The encoding of a well-formed message is its 20-byte header and
/// `length` bytes of attributes.
pub proof fn lemma_encode_len(p: PacketView)
    requires
        packet_wf(p),
    ensures
        encode(p).len() == 20 + p.length,
{
    lemma_encode_attrs_len(p.attributes);
}

/// Decoding the encoding of a well-formed message gives the message back.
pub proof fn lemma_round_trip(p: PacketView)
    requires
        packet_wf(p),
    ensures
        decode(encode(p)) == Some(p),
{
    lemma_encode_len(p);
    lemma_parse_encode(p.attributes);
    let e = encode(p);
    crate::wire::lemma_be16(p.types);
    crate::wire::lemma_be16(p.length);
    assert(be16_at(e, 0) == be16_at(be16(p.types), 0));
    assert(be16_at(e, 2) == be16_at(be16(p.length), 0));
    assert(e.subrange(4, 20) =~= p.trans_id);
    assert(e.subrange(20, e.len() as int) =~= encode_attrs(p.attributes));
}

/// After a fingerprint is appended, its value is the checksum of every
/// byte of the encoded message before the fingerprint attribute, XORed with
/// the fingerprint constant.
pub proof fn lemma_fingerprint(p: PacketView)
    requires
        p.length as nat + 8 <= 65535,
    ensures
        ({
            let q = with_fingerprint(p);
            let e = encode(q);
            &&& e.len() >= 8
            &&& q.attributes.last().value == be32(crc32_of(e.subrange(0, e.len() - 8)) ^ FINGERPRINT)
        }),
{
    let q = with_fingerprint(p);
    let fp = q.attributes.last();
    let c = be32(crc32_of(encode(with_fingerprint_length(p))) ^ FINGERPRINT);
    assert(padded(c) =~= c);
    assert(q.attributes.drop_last() =~= p.attributes);
    let e = encode(q);
    assert(e =~= encode(with_fingerprint_length(p)) + encode_attr(fp));
    assert(e.subrange(0, e.len() - 8) =~= encode(with_fingerprint_length(p)));
}

/// Appending a well-formed attribute that fits keeps a message well formed.
pub(crate) proof fn lemma_push_wf(p: PacketView, a: AttributeView)
    requires
        packet_wf(p),
        attribute_wf(a),
        p.length as nat + 4 + align4(a.length as nat) <= 65535,
    ensures
        packet_wf(PacketView {
            length: (p.length + 4 + align4(a.length as nat)) as u16,
            attributes: p.attributes.push(a),
            ..p
        }),
{
    let s = p.attributes.push(a);
    assert(s.drop_last() =~= p.attributes);
    assert forall|i: int| 0 <= i < s.len() implies attribute_wf(#[trigger] s[i]) by {
        if i < p.attributes.len() {
            assert(s[i] == p.attributes[i]);
        }
    }
}

/// Appending a fingerprint keeps a message well formed.
pub(crate) proof fn lemma_fingerprint_wf(p: PacketView)
    requires
        packet_wf(p),
        p.length as nat + 8 <= 65535,
    ensures
        packet_wf(with_fingerprint(p)),
{
    let c = be32(crc32_of(encode(with_fingerprint_length(p))) ^ FINGERPRINT);
    crate::utils::lemma_padded(c);
    lemma_push_wf(p, attribute_of(ATTRIBUTE_FINGERPRINT, c));
}

} // verus!
