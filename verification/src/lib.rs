//! Wire codec for the BGP "Atomic aggregate" path attribute.
//!
//! The attribute's payload is an address with no tag that tells its family:
//! four bytes are an IPv4 address, sixteen an IPv6 address, and an empty
//! payload stands for `0.0.0.0`. [`BgpAtomicAggregate::decode_from`] reads
//! it, [`BgpAttr::encode_to`] writes it, and [`BgpAttr::attr`] gives the type
//! code and flags under which it travels.

pub mod addr;
pub mod atomicaggregate;
pub mod attr;
pub mod error;
pub mod order;
pub mod session;
pub mod text;
pub mod wire;

pub use addr::{decode_addr_from, encode_addr_to, IpAddr};
pub use atomicaggregate::BgpAtomicAggregate;
pub use attr::{BgpAttr, BgpAttrParams};
pub use error::BgpError;
pub use session::{BgpSessionParams, BgpTransportMode};
