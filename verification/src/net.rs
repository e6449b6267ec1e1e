//! IPv4 addresses as plain values.

use vstd::prelude::*;

verus! {

/// An IPv4 address held as its four octets, `a` being the leftmost octet
/// of the dotted form.
#[derive(Debug, Clone, Copy, PartialEq, Eq, Structural)]
pub struct Ipv4 {
    pub a: u8,
    pub b: u8,
    pub c: u8,
    pub d: u8,
}

impl Ipv4 {
    pub fn new(a: u8, b: u8, c: u8, d: u8) -> (r: Ipv4)
        ensures
            r == (Ipv4 { a, b, c, d }),
    {
        Ipv4 { a, b, c, d }
    }

    /// Whether the address lies in 127.0.0.0/8.
    pub open spec fn spec_is_loopback(self) -> bool {
        self.a == 127
    }

    pub fn is_loopback(&self) -> (r: bool)
        ensures
            r == self.spec_is_loopback(),
    {
        self.a == 127
    }
}

/// The address whose kernel hex form (as found in `/proc/net/tcp`) parsed
/// to the 32-bit value `v`: the kernel writes the address in its own
/// little-endian order, so the leftmost octet of the dotted form is the
/// lowest byte of `v`.
pub open spec fn spec_ipv4_from_proc(v: u32) -> Ipv4 {
    Ipv4 {
        a: (v & 0xFF) as u8,
        b: ((v >> 8) & 0xFF) as u8,
        c: ((v >> 16) & 0xFF) as u8,
        d: ((v >> 24) & 0xFF) as u8,
    }
}

pub fn ipv4_from_proc(v: u32) -> (r: Ipv4)
    ensures
        r == spec_ipv4_from_proc(v),
{
    proof {
        assert((v & 0xFF) < 256 && ((v >> 8) & 0xFF) < 256 && ((v >> 16) & 0xFF) < 256 && ((v
            >> 24) & 0xFF) < 256) by (bit_vector);
    }
    Ipv4 {
        a: (v & 0xFF) as u8,
        b: ((v >> 8) & 0xFF) as u8,
        c: ((v >> 16) & 0xFF) as u8,
        d: ((v >> 24) & 0xFF) as u8,
    }
}

} // verus!
