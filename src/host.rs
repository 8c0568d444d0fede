use vstd::prelude::*;

use crate::consts::{ATTRIBUTE_FAMILY_IPV4, ATTRIBUTE_FAMILY_IPV6};
use crate::text::{contains_char, host_port_text, join_host_port, number_text, decimal};

verus! {

/// A network endpoint: address family, textual IP address and port.
#[derive(Debug, Clone)]
pub struct Host {
    pub family: u16,
    pub ip: String,
    pub port: u16,
}

/// What a `Host` stands for.
pub struct HostView {
    pub family: u16,
    pub ip: Seq<char>,
    pub port: u16,
}

impl View for Host {
    type V = HostView;

    open spec fn view(&self) -> HostView {
        HostView { family: self.family, ip: self.ip@, port: self.port }
    }
}

/// The family of a textual IP address: IPv6 text always holds a colon,
/// IPv4 text never does.
pub open spec fn family_of(ip: Seq<char>) -> u16 {
    if ip.contains(':') { ATTRIBUTE_FAMILY_IPV6 } else { ATTRIBUTE_FAMILY_IPV4 }
}

impl PartialEq for Host {
    fn eq(&self, o: &Host) -> (r: bool) {
        self.family == o.family && self.port == o.port && self.ip == o.ip
    }
}

impl vstd::std_specs::cmp::PartialEqSpecImpl for Host {
    open spec fn obeys_eq_spec() -> bool {
        true
    }

    open spec fn eq_spec(&self, o: &Host) -> bool {
        self@ == o@
    }
}

impl Host {
    /// The endpoint at textual address `ip` and `port`; the family follows
    /// from the text.
    pub fn new(ip: &str, port: u16) -> (r: Host)
        ensures
            r@ == (HostView { family: family_of(ip@), ip: ip@, port }),
    {
        let family = if contains_char(ip, ':') {
            ATTRIBUTE_FAMILY_IPV6
        } else {
            ATTRIBUTE_FAMILY_IPV4
        };
        Host { family, ip: String::from_str(ip), port }
    }

    /// The endpoint as `ip:port`, with brackets round an IPv6 address.
    pub fn transport_addr(&self) -> (r: String)
        ensures
            r@ == host_port_text(self.ip@, decimal(self.port as nat)),
    {
        let port = number_text(self.port as u32, 10);
        join_host_port(self.ip.as_str(), port.as_str())
    }

    /// Same as `transport_addr`.
    pub fn string(&self) -> (r: String)
        ensures
            r@ == host_port_text(self.ip@, decimal(self.port as nat)),
    {
        self.transport_addr()
    }
}

} // verus!

verus! {

/// What an optional `Host` stands for.
pub open spec fn host_opt_view(o: Option<Host>) -> Option<HostView> {
    match o {
        Some(h) => Some(h@),
        None => None,
    }
}

} // verus!

verus! {

impl Host {
    /// A copy of the endpoint.
    pub fn copied(&self) -> (r: Host)
        ensures
            r@ == self@,
    {
        Host { family: self.family, ip: self.ip.clone(), port: self.port }
    }
}

} // verus!
