use vstd::prelude::*;

verus! {

/// The 32-bit value of the dotted-quad address `a.b.c.d`, most significant
/// octet first (the order in which the octets travel on the wire).
pub open spec fn ipv4_value(a: u8, b: u8, c: u8, d: u8) -> int {
    a as int * 0x100_0000 + b as int * 0x1_0000 + c as int * 0x100 + d as int
}

/// Builds the address `a.b.c.d` as a `u32`.
pub fn ipv4(a: u8, b: u8, c: u8, d: u8) -> (r: u32)
    ensures
        r as int == ipv4_value(a, b, c, d),
{
    (a as u32) * 0x100_0000 + (b as u32) * 0x1_0000 + (c as u32) * 0x100 + (d as u32)
}

} // verus!
