use vstd::prelude::*;

use crate::consts::{ATTRIBUTE_CHANGED_ADDRESS, ATTRIBUTE_OTHER_ADDRESS};
use crate::host::{host_opt_view, Host, HostView};
use crate::packet::{mapped_addr_of, raw_addr_of, Packet};
use crate::text::{ipv4_string, ipv4_text, ipv6_string, ipv6_text};

verus! {

/// Four bytes of 127.x.x.x, or sixteen bytes of `::1`.
pub open spec fn is_loopback(o: Seq<u8>) -> bool {
    ||| o.len() == 4 && o[0] == 127
    ||| o.len() == 16 && o[15] == 1 && forall|k: int| 0 <= k < 15 ==> o[k] == 0
}

/// Four or sixteen zero bytes: the wildcard address.
pub open spec fn is_unspecified(o: Seq<u8>) -> bool {
    &&& (o.len() == 4 || o.len() == 16)
    &&& forall|k: int| 0 <= k < o.len() ==> o[k] == 0
}

/// Text of four or sixteen address bytes.
pub open spec fn address_text(o: Seq<u8>) -> Seq<char> {
    if o.len() == 4 { ipv4_text(o) } else { ipv6_text(o) }
}

/// Whether `mapped` is one of this host's addresses: never when the bound
/// address `local` is a loopback; else when `local` is a specific address
/// whose text is `mapped`, or when an interface address has that text.
pub open spec fn local_address_matches(local: Seq<u8>, mapped: Seq<char>, interfaces: Seq<Seq<u8>>) -> bool {
    &&& (local.len() == 4 || local.len() == 16)
    &&& !is_loopback(local)
    &&& {
        ||| !is_unspecified(local) && address_text(local) == mapped
        ||| exists|i: int| 0 <= i < interfaces.len() && (interfaces[i].len() == 4 || interfaces[i].len() == 16)
            && #[trigger] address_text(interfaces[i]) == mapped
    }
}

/// Text of four or sixteen address bytes.
pub fn address_string(o: &[u8]) -> (r: String)
    requires
        o@.len() == 4 || o@.len() == 16,
    ensures
        r@ == address_text(o@),
{
    if o.len() == 4 {
        ipv4_string(o)
    } else {
        ipv6_string(o)
    }
}

fn all_zero(o: &[u8], n: usize) -> (r: bool)
    requires
        n <= o@.len(),
    ensures
        r == forall|k: int| 0 <= k < n ==> o@[k] == 0,
{
    let mut i: usize = 0;
    while i < n
        invariant
            i <= n <= o@.len(),
            forall|k: int| 0 <= k < i ==> o@[k] == 0,
        decreases n - i,
    {
        if o[i] != 0 {
            return false;
        }
        i += 1;
    }
    true
}

/// Whether `mapped` is an address of this host, given the bound local
/// address bytes and the addresses of the host's interfaces.
pub fn is_local_addrss(local: &[u8], mapped: &str, interfaces: &Vec<Vec<u8>>) -> (r: bool)
    ensures
        r == local_address_matches(local@, mapped@, interfaces@.map_values(|v: Vec<u8>| v@)),
{
    let ghost ifs = interfaces@.map_values(|v: Vec<u8>| v@);
    if local.len() != 4 && local.len() != 16 {
        return false;
    }
    let loopback = if local.len() == 4 {
        local[0] == 127
    } else {
        local[15] == 1 && all_zero(local, 15)
    };
    if loopback {
        return false;
    }
    if !all_zero(local, local.len()) {
        let text = address_string(local);
        if str_eq(text.as_str(), mapped) {
            return true;
        }
    }
    let mut i: usize = 0;
    while i < interfaces.len()
        invariant
            i <= interfaces@.len(),
            local@.len() == 4 || local@.len() == 16,
            !is_loopback(local@),
            ifs == interfaces@.map_values(|v: Vec<u8>| v@),
            forall|j: int| 0 <= j < i ==> !((ifs[j].len() == 4 || ifs[j].len() == 16)
                && #[trigger] address_text(ifs[j]) == mapped@),
        decreases interfaces@.len() - i,
    {
        let o = interfaces[i].as_slice();
        if o.len() == 4 || o.len() == 16 {
            let text = address_string(o);
            if str_eq(text.as_str(), mapped) {
                assert(ifs[i as int] == o@);
                assert(address_text(ifs[i as int]) == mapped@);
                return true;
            }
        }
        i += 1;
    }
    false
}

/// Whether two strings hold the same characters.
pub fn str_eq(a: &str, b: &str) -> (r: bool)
    ensures
        r == (a@ == b@),
{
    let n = a.unicode_len();
    if n != b.unicode_len() {
        return false;
    }
    let mut i: usize = 0;
    while i < n
        invariant
            i <= n,
            n == a@.len() == b@.len(),
            forall|k: int| 0 <= k < i ==> a@[k] == b@[k],
        decreases n - i,
    {
        if a.get_char(i) != b.get_char(i) {
            return false;
        }
        i += 1;
    }
    assert(a@ =~= b@);
    true
}

/// A decoded reply: the message, where it came from, the addresses it
/// carries, and whether the mapped address is one of this host's.
#[derive(Debug, Clone)]
pub struct Response {
    pub packet: Packet,
    pub server_addr: Option<Host>,
    pub changed_addr: Option<Host>,
    pub mapped_addr: Option<Host>,
    pub other_addr: Option<Host>,
    pub identical: bool,
}

/// What discovery reads of a reply.
pub struct ResponseView {
    pub server_addr: Option<HostView>,
    pub changed_addr: Option<HostView>,
    pub mapped_addr: Option<HostView>,
    pub other_addr: Option<HostView>,
    pub identical: bool,
}

impl View for Response {
    type V = ResponseView;

    open spec fn view(&self) -> ResponseView {
        ResponseView {
            server_addr: host_opt_view(self.server_addr),
            changed_addr: host_opt_view(self.changed_addr),
            mapped_addr: host_opt_view(self.mapped_addr),
            other_addr: host_opt_view(self.other_addr),
            identical: self.identical,
        }
    }
}

impl Response {
    /// Interprets `packet`, received from `source`, on a socket bound to the
    /// address bytes `local` of a host whose interfaces have the addresses
    /// `interfaces`.
    pub fn new(packet: Packet, source: Host, local: &[u8], interfaces: &Vec<Vec<u8>>) -> (r: Response)
        ensures
            r.packet@ == packet@,
            r@.server_addr == Some(source@),
            r@.mapped_addr == mapped_addr_of(packet@),
            r@.changed_addr == raw_addr_of(packet@, ATTRIBUTE_CHANGED_ADDRESS),
            r@.other_addr == raw_addr_of(packet@, ATTRIBUTE_OTHER_ADDRESS),
            r.identical == match mapped_addr_of(packet@) {
                Some(m) => local_address_matches(local@, m.ip, interfaces@.map_values(|v: Vec<u8>| v@)),
                None => false,
            },
    {
        let mapped_addr = packet.get_xor_mapped_addr();
        let identical = match &mapped_addr {
            Some(m) => is_local_addrss(local, m.ip.as_str(), interfaces),
            None => false,
        };
        let changed_addr = packet.get_change_addr();
        let other_addr = packet.get_other_addr();
        Response { packet, server_addr: Some(source), changed_addr, mapped_addr, other_addr, identical }
    }
}

} // verus!
