//! Big- and little-endian integers in a 32-byte HID report.

use vstd::prelude::*;

verus! {

/// Size of a raw HID report exchanged with the host.
pub const REPORT_LEN: usize = 32;

/// `buf` with `v` written big-endian at `at..at + 2`.
pub open spec fn put_u16_be(buf: Seq<u8>, at: int, v: u16) -> Seq<u8> {
    buf.update(at, (v / 256) as u8).update(at + 1, (v % 256) as u8)
}

/// `buf` with `v` written little-endian at `at..at + 2`.
pub open spec fn put_u16_le(buf: Seq<u8>, at: int, v: u16) -> Seq<u8> {
    buf.update(at, (v % 256) as u8).update(at + 1, (v / 256) as u8)
}

/// `buf` with `v` written big-endian at `at..at + 4`.
pub open spec fn put_u32_be(buf: Seq<u8>, at: int, v: u32) -> Seq<u8> {
    buf.update(at, (v / 0x100_0000) as u8)
        .update(at + 1, ((v / 0x1_0000) % 256) as u8)
        .update(at + 2, ((v / 256) % 256) as u8)
        .update(at + 3, (v % 256) as u8)
}

/// The big-endian `u16` at `at..at + 2`.
pub open spec fn get_u16_be(buf: Seq<u8>, at: int) -> u16 {
    (buf[at] * 256 + buf[at + 1]) as u16
}

/// The little-endian `u16` at `at..at + 2`.
pub open spec fn get_u16_le(buf: Seq<u8>, at: int) -> u16 {
    (buf[at] + buf[at + 1] * 256) as u16
}

/// The big-endian `u32` at `at..at + 4`.
pub open spec fn get_u32_be(buf: Seq<u8>, at: int) -> u32 {
    (buf[at] * 0x100_0000 + buf[at + 1] * 0x1_0000 + buf[at + 2] * 256 + buf[at + 3]) as u32
}

pub fn write_u16_be(buf: &mut [u8; 32], at: usize, v: u16)
    requires
        at + 2 <= REPORT_LEN,
    ensures
        final(buf)@ == put_u16_be(old(buf)@, at as int, v),
{
    buf[at] = (v / 256) as u8;
    buf[at + 1] = (v % 256) as u8;
}

pub fn write_u16_le(buf: &mut [u8; 32], at: usize, v: u16)
    requires
        at + 2 <= REPORT_LEN,
    ensures
        final(buf)@ == put_u16_le(old(buf)@, at as int, v),
{
    buf[at] = (v % 256) as u8;
    buf[at + 1] = (v / 256) as u8;
}

pub fn write_u32_be(buf: &mut [u8; 32], at: usize, v: u32)
    requires
        at + 4 <= REPORT_LEN,
    ensures
        final(buf)@ == put_u32_be(old(buf)@, at as int, v),
{
    buf[at] = (v / 0x100_0000) as u8;
    buf[at + 1] = ((v / 0x1_0000) % 256) as u8;
    buf[at + 2] = ((v / 256) % 256) as u8;
    buf[at + 3] = (v % 256) as u8;
}

pub fn read_u16_be(buf: &[u8; 32], at: usize) -> (v: u16)
    requires
        at + 2 <= REPORT_LEN,
    ensures
        v == get_u16_be(buf@, at as int),
{
    (buf[at] as u16) * 256 + (buf[at + 1] as u16)
}

pub fn read_u16_le(buf: &[u8; 32], at: usize) -> (v: u16)
    requires
        at + 2 <= REPORT_LEN,
    ensures
        v == get_u16_le(buf@, at as int),
{
    (buf[at] as u16) + (buf[at + 1] as u16) * 256
}

pub fn read_u32_be(buf: &[u8; 32], at: usize) -> (v: u32)
    requires
        at + 4 <= REPORT_LEN,
    ensures
        v == get_u32_be(buf@, at as int),
{
    (buf[at] as u32) * 0x100_0000 + (buf[at + 1] as u32) * 0x1_0000 + (buf[at + 2] as u32) * 256 + (buf[at + 3] as u32)
}

/// Reading back what was written gives the value (big-endian `u16`).
pub proof fn lemma_u16_be_round_trip(buf: Seq<u8>, at: int, v: u16)
    requires
        0 <= at,
        at + 2 <= buf.len(),
    ensures
        get_u16_be(put_u16_be(buf, at, v), at) == v,
{
}

/// Reading back what was written gives the value (little-endian `u16`).
pub proof fn lemma_u16_le_round_trip(buf: Seq<u8>, at: int, v: u16)
    requires
        0 <= at,
        at + 2 <= buf.len(),
    ensures
        get_u16_le(put_u16_le(buf, at, v), at) == v,
{
}

/// Reading back what was written gives the value (big-endian `u32`).
pub proof fn lemma_u32_be_round_trip(buf: Seq<u8>, at: int, v: u32)
    requires
        0 <= at,
        at + 4 <= buf.len(),
    ensures
        get_u32_be(put_u32_be(buf, at, v), at) == v,
{
}

} // verus!
