//! Client-side NAT behaviour discovery over STUN: message codec,
//! retransmission schedule and the classic binding-test decision tree.

pub mod attribute;
pub mod consts;
pub mod discover;
pub mod host;
pub mod packet;
pub mod response;
pub mod text;
pub mod transport;
pub mod utils;
pub mod wire;

pub use attribute::Attribute;
pub use consts::NAT;
pub use discover::{Discovery, Step};
pub use host::Host;
pub use packet::Packet;
pub use response::Response;
