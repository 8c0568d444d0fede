use vstd::prelude::*;

verus! {

pub const DEFAULT_SERVER_ADDR: &'static str = "stun.ekiga.net:3478";

pub const MAGIC_COOKIE: u32 = 0x2112A442;

pub const FINGERPRINT: u32 = 0x5354554E;

pub const ATTRIBUTE_FAMILY_IPV4: u16 = 0x01;

pub const ATTRIBUTE_FAMILY_IPV6: u16 = 0x02;

pub const ATTRIBUTE_MAPPED_ADDRESS: u16 = 0x0001;

pub const ATTRIBUTE_CHANGE_REQUEST: u16 = 0x0003;

pub const ATTRIBUTE_CHANGED_ADDRESS: u16 = 0x0005;

pub const ATTRIBUTE_XOR_MAPPED_ADDRESS: u16 = 0x0020;

pub const ATTRIBUTE_SOFTWARE: u16 = 0x8022;

pub const ATTRIBUTE_FINGERPRINT: u16 = 0x8028;

pub const ATTRIBUTE_OTHER_ADDRESS: u16 = 0x802c;

pub const TYPE_BINDING_REQUEST: u16 = 0x0001;

pub const TYPE_BINDING_RESPONSE: u16 = 0x0101;

pub const TYPE_BINDING_ERROR_RESPONSE: u16 = 0x0111;

/// NAT and firewall classifications that discovery can report.
#[derive(Debug, Clone, Copy, PartialEq, Eq, Structural, Hash)]
pub enum NAT {
    NATError,
    NATUnknown,
    NATNone,
    NATBlocked,
    NATFull,
    NATSymmetric,
    NATRestricted,
    NATPortRestricted,
    SymmetricUDPFirewall,
    // Older spellings, kept for callers that still name them.
    NATSymetric,
    NATSymetricUDPFirewall,
    NATSymmetricUDPFirewall,
}

/// Human-readable description of each classification.
pub open spec fn nat_description(n: NAT) -> Seq<char> {
    match n {
        NAT::NATError => "Test failed"@,
        NAT::NATUnknown => "Unexpected response from the STUN server"@,
        NAT::NATNone => "Not behind a NAT"@,
        NAT::NATBlocked => "UDP is blocked"@,
        NAT::NATFull => "Full cone NAT"@,
        NAT::NATSymmetric | NAT::NATSymetric => "Symmetric NAT"@,
        NAT::NATRestricted => "Restricted NAT"@,
        NAT::NATPortRestricted => "Port restricted NAT"@,
        NAT::SymmetricUDPFirewall | NAT::NATSymetricUDPFirewall
        | NAT::NATSymmetricUDPFirewall => "Symmetric UDP firewall"@,
    }
}

impl NAT {
    /// Human-readable description of the classification.
    pub fn description(&self) -> (r: &'static str)
        ensures
            r@ == nat_description(*self),
    {
        match self {
            NAT::NATError => "Test failed",
            NAT::NATUnknown => "Unexpected response from the STUN server",
            NAT::NATNone => "Not behind a NAT",
            NAT::NATBlocked => "UDP is blocked",
            NAT::NATFull => "Full cone NAT",
            NAT::NATSymmetric | NAT::NATSymetric => "Symmetric NAT",
            NAT::NATRestricted => "Restricted NAT",
            NAT::NATPortRestricted => "Port restricted NAT",
            NAT::SymmetricUDPFirewall | NAT::NATSymetricUDPFirewall
            | NAT::NATSymmetricUDPFirewall => "Symmetric UDP firewall",
        }
    }
}

} // verus!
