//! Report checksums.
use vstd::prelude::*;
use vstd::slice::slice_subrange;

verus! {

/// Polynomial of the CRC-32 of IEEE 802.3, the lowest power in the highest bit.
pub const CRC32_POLYNOMIAL: u32 = 0xEDB8_8320;

/// A remainder once one more bit was divided by the polynomial.
pub open spec fn divided_bit(c: u32) -> u32 {
    if c & 1 == 1 {
        (c >> 1) ^ CRC32_POLYNOMIAL
    } else {
        c >> 1
    }
}

/// A remainder once `n` more bits were divided.
pub open spec fn divided(c: u32, n: nat) -> u32
    decreases n,
{
    if n == 0 {
        c
    } else {
        divided_bit(divided(c, (n - 1) as nat))
    }
}

/// Remainder of a byte sequence, which begins with all bits set.
pub open spec fn remainder(data: Seq<u8>) -> u32
    decreases data.len(),
{
    if data.len() == 0 {
        0xFFFF_FFFF
    } else {
        divided(remainder(data.drop_last()) ^ (data.last() as u32), 8)
    }
}

/// CRC-32 of a byte sequence.
pub open spec fn crc32(data: Seq<u8>) -> u32 {
    !remainder(data)
}

/// Calls `crc32fast::hash`. The contract claims that it is the CRC-32 of IEEE 802.3: bytes enter
/// lowest bit first, and the remainder begins with all bits set and is complemented in the end.
#[verifier::external_body]
pub(crate) fn crc32_of(data: &[u8]) -> (r: u32)
    ensures
        r == crc32(data@),
{
    crc32fast::hash(data)
}

/// Byte `i` of `v`, least significant first.
pub open spec fn le_byte(v: u32, i: int) -> u8 {
    if i == 0 {
        (v % 256) as u8
    } else if i == 1 {
        (v / 256 % 256) as u8
    } else if i == 2 {
        (v / 65536 % 256) as u8
    } else {
        (v / 16777216 % 256) as u8
    }
}

/// `report` with its last four bytes replaced by `crc`, least significant first.
pub open spec fn sealed(report: Seq<u8>, crc: u32) -> Seq<u8> {
    Seq::new(
        report.len(),
        |i: int|
            if i < report.len() - 4 {
                report[i]
            } else {
                le_byte(crc, i - (report.len() - 4))
            },
    )
}

/// Writes `crc` into the last four bytes of `report`, least significant first.
pub fn seal_report(report: Vec<u8>, crc: u32) -> (r: Vec<u8>)
    requires
        report@.len() >= 4,
    ensures
        r@ == sealed(report@, crc),
{
    let mut report = report;
    let ghost before = report@;
    let at: usize = report.len() - 4;
    report.set(at, (crc % 256) as u8);
    report.set(at + 1, (crc / 256 % 256) as u8);
    report.set(at + 2, (crc / 65536 % 256) as u8);
    report.set(at + 3, (crc / 16777216 % 256) as u8);
    assert(report@ =~= sealed(before, crc));
    report
}

/// `seed` followed by everything of `report` but its last four bytes.
pub open spec fn checked_bytes(seed: u8, report: Seq<u8>) -> Seq<u8> {
    seq![seed] + report.take(report.len() - 4)
}

/// Checksum of a report that ends in four checksum bytes.
pub fn report_crc(seed: u8, report: &[u8]) -> (r: u32)
    requires
        report@.len() >= 4,
    ensures
        r == crc32(checked_bytes(seed, report@)),
{
    let mut data: Vec<u8> = Vec::new();
    data.push(seed);
    let body = slice_subrange(report, 0, report.len() - 4);
    let mut i: usize = 0;
    while i < body.len()
        invariant
            i <= body@.len(),
            body@ == report@.subrange(0, report@.len() - 4),
            data@ == seq![seed] + body@.take(i as int),
        decreases body@.len() - i,
    {
        data.push(body[i]);
        assert(body@.take(i + 1) == body@.take(i as int).push(body@[i as int]));
        i = i + 1;
    }
    assert(data@ == checked_bytes(seed, report@));
    crc32_of(data.as_slice())
}

} // verus!
