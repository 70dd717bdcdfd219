//! Little-endian integers on the wire.

use vstd::prelude::*;

verus! {

/// The 16-bit number that stands in `data` at `at`.
pub open spec fn u16_at(data: Seq<u8>, at: int) -> u16 {
    (data[at] + 0x100 * data[at + 1]) as u16
}

/// The 32-bit number that stands in `data` at `at`.
pub open spec fn u32_at(data: Seq<u8>, at: int) -> u32 {
    (data[at] + 0x100 * data[at + 1] + 0x1_0000 * data[at + 2] + 0x100_0000 * data[at + 3]) as u32
}

/// A 16-bit number as it stands on the wire.
pub open spec fn u16_bytes(n: u16) -> Seq<u8> {
    seq![(n % 0x100) as u8, (n / 0x100) as u8]
}

/// A 32-bit number as it stands on the wire.
pub open spec fn u32_bytes(n: u32) -> Seq<u8> {
    seq![
        (n % 0x100) as u8,
        (n / 0x100 % 0x100) as u8,
        (n / 0x1_0000 % 0x100) as u8,
        (n / 0x100_0000) as u8,
    ]
}

/// A number written to the wire is read back as it was.
pub proof fn law_wire_numbers_read_back(short: u16, long: u32)
    ensures
        u16_at(u16_bytes(short), 0) == short,
        u32_at(u32_bytes(long), 0) == long,
{
}

/// Read the 16-bit number at `at`.
pub fn unpack_u16(data: &[u8], at: usize) -> (r: u16)
    requires
        at + 2 <= data@.len(),
    ensures
        r == u16_at(data@, at as int),
{
    data[at] as u16 + 0x100 * (data[at + 1] as u16)
}

/// Read the 32-bit number at `at`.
pub fn unpack_u32(data: &[u8], at: usize) -> (r: u32)
    requires
        at + 4 <= data@.len(),
    ensures
        r == u32_at(data@, at as int),
{
    data[at] as u32 + 0x100 * (data[at + 1] as u32) + 0x1_0000 * (data[at + 2] as u32) + 0x100_0000
        * (data[at + 3] as u32)
}

/// Append a 16-bit number.
pub fn pack_u16(out: &mut Vec<u8>, n: u16)
    ensures
        final(out)@ == old(out)@ + u16_bytes(n),
{
    let ghost before = out@;
    out.push((n % 0x100) as u8);
    out.push((n / 0x100) as u8);
    assert(out@ =~= before + u16_bytes(n));
}

/// Append a 32-bit number.
pub fn pack_u32(out: &mut Vec<u8>, n: u32)
    ensures
        final(out)@ == old(out)@ + u32_bytes(n),
{
    let ghost before = out@;
    out.push((n % 0x100) as u8);
    out.push((n / 0x100 % 0x100) as u8);
    out.push((n / 0x1_0000 % 0x100) as u8);
    out.push((n / 0x100_0000) as u8);
    assert(out@ =~= before + u32_bytes(n));
}

} // verus!
