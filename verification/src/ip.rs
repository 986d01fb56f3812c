//! The library's model of an IP address: the 32- or 128-bit value itself.
//!
//! Address values flow through the scanner as plain integers; only name
//! resolution (outside this library) deals in the operating system's own
//! address types.

use vstd::prelude::*;

verus! {

/// A resolved target address, v4 or v6.
#[derive(Clone, Copy, Debug, PartialEq, Eq, Hash, PartialOrd, Ord, Structural)]
pub enum Ip {
    V4(u32),
    V6(u128),
}

impl Ip {
    /// The v4 address `a.b.c.d`.
    pub fn v4_from_octets(a: u8, b: u8, c: u8, d: u8) -> (r: Ip)
        ensures
            r == Ip::V4(
                ((a as u32) << 24u32) | ((b as u32) << 16u32) | ((c as u32) << 8u32) | (d as u32),
            ),
    {
        Ip::V4(((a as u32) << 24u32) | ((b as u32) << 16u32) | ((c as u32) << 8u32) | (d as u32))
    }
}

} // verus!
