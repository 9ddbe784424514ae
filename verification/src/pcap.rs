//! The capture file formats the replay back end walks: the legacy format
//! (a fixed global header, then one record header per frame) and its
//! successor (typed blocks, with enhanced and simple packets as frames and
//! interface descriptions carrying the timestamp resolution), both in
//! their little-endian form. Opening the file is I/O and stays outside
//! the verified core.

use vstd::prelude::*;

use crate::ipc::le32;
use crate::packet::Timestamp;

verus! {

/// The length of the global header.
pub const PCAP_GLOBAL_HEADER_LEN: usize = 24;

/// The length of one record header.
pub const PCAP_RECORD_HEADER_LEN: usize = 16;

/// Why a capture file was refused.
#[derive(Clone, Copy, Debug, PartialEq, Eq, Structural)]
pub enum PcapError {
    /// The file is shorter than the global header, or does not carry the
    /// little-endian microsecond magic.
    BadHeader,
    /// A record header or its declared payload runs past the file.
    Truncated,
}

/// Whether the file starts with the little-endian microsecond magic.
pub open spec fn spec_pcap_magic_ok(s: Seq<u8>) -> bool {
    s.len() >= 24 && s[0] == 0xd4 && s[1] == 0xc3 && s[2] == 0xb2 && s[3] == 0xa1
}

/// Check the global header of a capture file.
pub fn check_pcap_header(data: &[u8]) -> (r: Result<(), PcapError>)
    ensures
        r is Ok <==> spec_pcap_magic_ok(data@),
{
    let len = data.len();
    if len < 24 {
        return Err(PcapError::BadHeader);
    }
    if data[0] == 0xd4 && data[1] == 0xc3 && data[2] == 0xb2 && data[3] == 0xa1 {
        Ok(())
    } else {
        Err(PcapError::BadHeader)
    }
}

/// One record of a capture file: its timestamp and where its frame bytes
/// stand.
#[derive(Clone, Copy, Debug, PartialEq, Eq, Structural)]
pub struct PcapRecord {
    /// The capture timestamp.
    pub timestamp: Timestamp,
    /// Where the frame bytes begin.
    pub frame_start: usize,
    /// Where the frame bytes end.
    pub frame_end: usize,
    /// Where the next record header begins.
    pub next: usize,
}

/// What reading the record at `at` yields: its two timestamp words, its
/// captured length, and the bounds of its frame; a header or frame that
/// runs past the file is truncation.
pub open spec fn spec_parse_record(s: Seq<u8>, at: int) -> Result<PcapRecord, PcapError> {
    if at + 16 > s.len() {
        Err(PcapError::Truncated)
    } else {
        let incl_len = le32(s, at + 8);
        if at + 16 + incl_len > s.len() {
            Err(PcapError::Truncated)
        } else {
            Ok(
                PcapRecord {
                    timestamp: Timestamp {
                        secs: le32(s, at) as u64,
                        micros: le32(s, at + 4) as u32,
                    },
                    frame_start: (at + 16) as usize,
                    frame_end: (at + 16 + incl_len) as usize,
                    next: (at + 16 + incl_len) as usize,
                },
            )
        }
    }
}

/// Read the little-endian 32-bit value at `i`.
fn read_le32(data: &[u8], i: usize) -> (r: u32)
    requires
        i + 4 <= data@.len(),
    ensures
        r == le32(data@, i as int),
{
    let len = data.len();
    (data[i] as u32) + (data[i + 1] as u32) * 0x100 + (data[i + 2] as u32) * 0x10000 + (data[i
        + 3] as u32) * 0x1000000
}

/// Read the record at `at`.
pub fn parse_record(data: &[u8], at: usize) -> (r: Result<PcapRecord, PcapError>)
    ensures
        r == spec_parse_record(data@, at as int),
        match r {
            Ok(rec) => at + 16 == rec.frame_start && rec.frame_start <= rec.frame_end
                && rec.frame_end <= data@.len() && rec.next == rec.frame_end && rec.next > at,
            Err(_) => true,
        },
{
    let len = data.len();
    if at > len || len - at < 16 {
        return Err(PcapError::Truncated);
    }
    let incl_len = read_le32(data, at + 8) as usize;
    if len - at - 16 < incl_len {
        return Err(PcapError::Truncated);
    }
    Ok(
        PcapRecord {
            timestamp: Timestamp { secs: read_le32(data, at) as u64, micros: read_le32(data, at + 4) },
            frame_start: at + 16,
            frame_end: at + 16 + incl_len,
            next: at + 16 + incl_len,
        },
    )
}

} // verus!

verus! {

/// The block type of a section header.
pub const PCAPNG_SECTION_HEADER: u32 = 0x0A0D0D0A;

/// The block type of an interface description.
pub const PCAPNG_INTERFACE_DESCRIPTION: u32 = 1;

/// The block type of a simple packet.
pub const PCAPNG_SIMPLE_PACKET: u32 = 3;

/// The block type of an enhanced packet.
pub const PCAPNG_ENHANCED_PACKET: u32 = 6;

/// Whether the file starts with the block type of a section header, the
/// magic of the successor capture format.
pub open spec fn spec_pcapng_magic_ok(s: Seq<u8>) -> bool {
    s.len() >= 4 && s[0] == 0x0a && s[1] == 0x0d && s[2] == 0x0d && s[3] == 0x0a
}

/// Check for the successor capture format's magic.
pub fn check_pcapng_magic(data: &[u8]) -> (r: bool)
    ensures
        r == spec_pcapng_magic_ok(data@),
{
    let len = data.len();
    len >= 4 && data[0] == 0x0a && data[1] == 0x0d && data[2] == 0x0d && data[3] == 0x0a
}

/// The little-endian value of the two bytes at `i`.
pub open spec fn le16(s: Seq<u8>, i: int) -> int {
    s[i] + s[i + 1] * 0x100
}

/// The little-endian value of the eight bytes at `i`.
pub open spec fn le64(s: Seq<u8>, i: int) -> int {
    le32(s, i) + le32(s, i + 4) * 0x100000000
}

/// Read the little-endian 16-bit value at `i`.
fn read_le16(data: &[u8], i: usize) -> (r: u16)
    requires
        i + 2 <= data@.len(),
    ensures
        r == le16(data@, i as int),
{
    let len = data.len();
    (data[i] as u16) + (data[i + 1] as u16) * 0x100
}

/// Read the little-endian 64-bit value at `i`.
fn read_le64(data: &[u8], i: usize) -> (r: u64)
    requires
        i + 8 <= data@.len(),
    ensures
        r == le64(data@, i as int),
{
    let len = data.len();
    let lo = read_le32_at(data, i) as u64;
    let hi = read_le32_at(data, i + 4) as u64;
    lo + hi * 0x100000000
}

/// Read the little-endian 32-bit value at `i`.
fn read_le32_at(data: &[u8], i: usize) -> (r: u32)
    requires
        i + 4 <= data@.len(),
    ensures
        r == le32(data@, i as int),
{
    let len = data.len();
    (data[i] as u32) + (data[i + 1] as u32) * 0x100 + (data[i + 2] as u32) * 0x10000 + (data[i
        + 3] as u32) * 0x1000000
}

/// One block of the successor capture format: its type, the bounds of its
/// body, and where the next block begins.
#[derive(Clone, Copy, Debug, PartialEq, Eq, Structural)]
pub struct NgBlock {
    /// The block type.
    pub block_type: u32,
    /// Where the body begins.
    pub body_start: usize,
    /// Where the body ends, before the trailing length.
    pub body_end: usize,
    /// Where the next block begins.
    pub next: usize,
}

/// What reading the block at `at` yields: its type word, its total length
/// twice (leading and trailing, both four-aligned and at least the fixed
/// twelve bytes), and the body between them.
pub open spec fn spec_parse_ng_block(s: Seq<u8>, at: int) -> Result<NgBlock, PcapError> {
    if at + 12 > s.len() {
        Err(PcapError::Truncated)
    } else {
        let total_len = le32(s, at + 4);
        if total_len < 12 || total_len % 4 != 0 || at + total_len > s.len() {
            Err(PcapError::Truncated)
        } else if le32(s, at + total_len - 4) != total_len {
            Err(PcapError::Truncated)
        } else {
            Ok(
                NgBlock {
                    block_type: le32(s, at) as u32,
                    body_start: (at + 8) as usize,
                    body_end: (at + total_len - 4) as usize,
                    next: (at + total_len) as usize,
                },
            )
        }
    }
}

/// Read the block at `at`.
pub fn parse_ng_block(data: &[u8], at: usize) -> (r: Result<NgBlock, PcapError>)
    ensures
        r == spec_parse_ng_block(data@, at as int),
        match r {
            Ok(b) => at + 8 == b.body_start && b.body_start <= b.body_end && b.body_end + 4
                == b.next && b.next <= data@.len() && b.next > at,
            Err(_) => true,
        },
{
    let len = data.len();
    if at > len || len - at < 12 {
        return Err(PcapError::Truncated);
    }
    let total_len = read_le32_at(data, at + 4) as usize;
    if total_len < 12 || total_len % 4 != 0 || len - at < total_len {
        return Err(PcapError::Truncated);
    }
    if read_le32_at(data, at + total_len - 4) as usize != total_len {
        return Err(PcapError::Truncated);
    }
    Ok(
        NgBlock {
            block_type: read_le32_at(data, at),
            body_start: at + 8,
            body_end: at + total_len - 4,
            next: at + total_len,
        },
    )
}

/// Whether a section header block declares the little-endian byte order
/// this reader speaks.
pub open spec fn spec_section_little_endian(s: Seq<u8>, b: NgBlock) -> bool {
    b.body_start + 4 <= b.body_end && b.body_end <= s.len() && le32(s, b.body_start as int)
        == 0x1A2B3C4D
}

/// Check a section header's byte-order magic.
pub fn section_little_endian(data: &[u8], b: &NgBlock) -> (r: bool)
    ensures
        r == spec_section_little_endian(data@, *b),
{
    let len = data.len();
    if b.body_start > b.body_end || b.body_end > len || b.body_end - b.body_start < 4 {
        return false;
    }
    read_le32_at(data, b.body_start) == 0x1A2B3C4D
}

/// What walking an interface description's options yields: the timestamp
/// resolution byte and the timestamp offset in seconds, each taken from
/// its option where one stands, walking four-aligned options until the
/// end marker, the end of the body, or a malformed option.
pub open spec fn spec_idb_options(
    s: Seq<u8>,
    at: int,
    end: int,
    tsresol: u8,
    ts_offset: u64,
) -> (u8, u64)
    decreases end - at,
{
    if at < 0 || at + 4 > end || end > s.len() {
        (tsresol, ts_offset)
    } else {
        let code = le16(s, at);
        let olen = le16(s, at + 2);
        if code == 0 {
            (tsresol, ts_offset)
        } else {
            let adv = at + 4 + ((olen + 3) / 4) * 4;
            if at + 4 + olen > end || adv > end {
                (tsresol, ts_offset)
            } else {
                let tsresol2 = if code == 9 && olen >= 1 {
                    s[at + 4]
                } else {
                    tsresol
                };
                let ts_offset2 = if code == 14 && olen >= 8 {
                    le64(s, at + 4) as u64
                } else {
                    ts_offset
                };
                spec_idb_options(s, adv, end, tsresol2, ts_offset2)
            }
        }
    }
}

/// The timestamp resolution byte and offset of an interface description:
/// the defaults are microseconds and no offset.
pub open spec fn spec_parse_interface_description(s: Seq<u8>, b: NgBlock) -> (u8, u64) {
    if b.body_start + 8 <= b.body_end && b.body_end <= s.len() {
        spec_idb_options(s, b.body_start + 8, b.body_end as int, 6, 0)
    } else {
        (6, 0)
    }
}

/// Read an interface description's timestamp resolution and offset.
pub fn parse_interface_description(data: &[u8], b: &NgBlock) -> (r: (u8, u64))
    ensures
        r == spec_parse_interface_description(data@, *b),
{
    let len = data.len();
    if b.body_start > b.body_end || b.body_end > len || b.body_end - b.body_start < 8 {
        return (6, 0);
    }
    let end = b.body_end;
    let mut at = b.body_start + 8;
    let mut tsresol: u8 = 6;
    let mut ts_offset: u64 = 0;
    loop
        invariant
            end <= data@.len(),
            spec_parse_interface_description(data@, *b) == spec_idb_options(
                data@,
                at as int,
                end as int,
                tsresol,
                ts_offset,
            ),
        decreases end - at,
    {
        if at > end || end - at < 4 {
            return (tsresol, ts_offset);
        }
        let code = read_le16(data, at);
        let olen = read_le16(data, at + 2) as usize;
        if code == 0 {
            return (tsresol, ts_offset);
        }
        let padded = ((olen + 3) / 4) * 4;
        if end - at - 4 < olen || end - at - 4 < padded {
            return (tsresol, ts_offset);
        }
        if code == 9 && olen >= 1 {
            tsresol = data[at + 4];
        }
        if code == 14 && olen >= 8 {
            ts_offset = read_le64(data, at + 4);
        }
        at = at + 4 + padded;
    }
}

/// One captured frame of the successor format: its raw timestamp, where
/// the frame bytes stand, and whether the timestamp is meaningful.
#[derive(Clone, Copy, Debug, PartialEq, Eq, Structural)]
pub struct NgFrame {
    /// The raw timestamp counter, in units of the interface's resolution.
    pub ts: u64,
    /// Whether the block carried a timestamp.
    pub has_ts: bool,
    /// Where the frame bytes begin.
    pub frame_start: usize,
    /// Where the frame bytes end.
    pub frame_end: usize,
}

/// What reading an enhanced packet block yields: the two timestamp words
/// and the captured-length-bounded frame.
pub open spec fn spec_parse_enhanced_packet(s: Seq<u8>, b: NgBlock) -> Result<NgFrame, PcapError> {
    if !(b.body_start + 20 <= b.body_end && b.body_end <= s.len()) {
        Err(PcapError::Truncated)
    } else {
        let captured = le32(s, b.body_start + 12);
        if b.body_end - b.body_start - 20 < captured {
            Err(PcapError::Truncated)
        } else {
            Ok(
                NgFrame {
                    ts: (le32(s, b.body_start + 4) * 0x100000000 + le32(s, b.body_start + 8)) as u64,
                    has_ts: true,
                    frame_start: (b.body_start + 20) as usize,
                    frame_end: (b.body_start + 20 + captured) as usize,
                },
            )
        }
    }
}

/// Read an enhanced packet block.
pub fn parse_enhanced_packet(data: &[u8], b: &NgBlock) -> (r: Result<NgFrame, PcapError>)
    ensures
        r == spec_parse_enhanced_packet(data@, *b),
        match r {
            Ok(f) => f.frame_start <= f.frame_end && f.frame_end <= data@.len(),
            Err(_) => true,
        },
{
    let len = data.len();
    if b.body_start > b.body_end || b.body_end > len || b.body_end - b.body_start < 20 {
        return Err(PcapError::Truncated);
    }
    let captured = read_le32_at(data, b.body_start + 12) as usize;
    if b.body_end - b.body_start - 20 < captured {
        return Err(PcapError::Truncated);
    }
    let ts_high = read_le32_at(data, b.body_start + 4) as u64;
    let ts_low = read_le32_at(data, b.body_start + 8) as u64;
    Ok(
        NgFrame {
            ts: ts_high * 0x100000000 + ts_low,
            has_ts: true,
            frame_start: b.body_start + 20,
            frame_end: b.body_start + 20 + captured,
        },
    )
}

/// What reading a simple packet block yields: a frame without a
/// timestamp, its length the declared original length bounded by what the
/// block holds.
pub open spec fn spec_parse_simple_packet(s: Seq<u8>, b: NgBlock) -> Result<NgFrame, PcapError> {
    if !(b.body_start + 4 <= b.body_end && b.body_end <= s.len()) {
        Err(PcapError::Truncated)
    } else {
        let original = le32(s, b.body_start as int);
        let room = b.body_end - b.body_start - 4;
        let taken = if original <= room {
            original
        } else {
            room
        };
        Ok(
            NgFrame {
                ts: 0,
                has_ts: false,
                frame_start: (b.body_start + 4) as usize,
                frame_end: (b.body_start + 4 + taken) as usize,
            },
        )
    }
}

/// Read a simple packet block.
pub fn parse_simple_packet(data: &[u8], b: &NgBlock) -> (r: Result<NgFrame, PcapError>)
    ensures
        r == spec_parse_simple_packet(data@, *b),
        match r {
            Ok(f) => f.frame_start <= f.frame_end && f.frame_end <= data@.len(),
            Err(_) => true,
        },
{
    let len = data.len();
    if b.body_start > b.body_end || b.body_end > len || b.body_end - b.body_start < 4 {
        return Err(PcapError::Truncated);
    }
    let original = read_le32_at(data, b.body_start) as usize;
    let room = b.body_end - b.body_start - 4;
    let taken = if original <= room {
        original
    } else {
        room
    };
    Ok(
        NgFrame {
            ts: 0,
            has_ts: false,
            frame_start: b.body_start + 4,
            frame_end: b.body_start + 4 + taken,
        },
    )
}

} // verus!

verus! {

/// The power `base^exp`.
pub open spec fn spec_pow_int(base: int, exp: nat) -> int
    decreases exp,
{
    if exp == 0 {
        1
    } else {
        base * spec_pow_int(base, (exp - 1) as nat)
    }
}

/// Powers of a positive base are positive.
proof fn lemma_pow_int_pos(base: int, exp: nat)
    requires
        base >= 1,
    ensures
        spec_pow_int(base, exp) >= 1,
    decreases exp,
{
    if exp > 0 {
        lemma_pow_int_pos(base, (exp - 1) as nat);
        assert(base * spec_pow_int(base, (exp - 1) as nat) >= spec_pow_int(
            base,
            (exp - 1) as nat,
        )) by (nonlinear_arith)
            requires
                base >= 1,
                spec_pow_int(base, (exp - 1) as nat) >= 1,
        ;
    }
}

/// How many timestamp units make one second under a resolution byte: with
/// the high bit clear the byte is a negative power of ten, with it set a
/// negative power of two.
pub open spec fn spec_ts_units(tsresol: u8) -> int {
    if tsresol & 0x80 == 0 {
        spec_pow_int(10, tsresol as nat)
    } else {
        spec_pow_int(2, (tsresol & 0x7f) as nat)
    }
}

/// Compute the units per second of a resolution byte, saturating at the
/// largest machine value.
fn ts_units(tsresol: u8) -> (r: u128)
    ensures
        r >= 1,
        r as int <= spec_ts_units(tsresol),
        r as int == spec_ts_units(tsresol) || (r == 0xffffffffffffffffffffffffffffffffu128
            && spec_ts_units(tsresol) > 0xffffffffffffffffffffffffffffffff),
{
    let base: u128 = if tsresol & 0x80 == 0 {
        10
    } else {
        2
    };
    let exp: u8 = tsresol & 0x7f;
    proof {
        assert(tsresol & 0x80 == 0 ==> tsresol & 0x7f == tsresol) by (bit_vector);
    }
    let mut r: u128 = 1;
    let mut i: u8 = 0;
    while i < exp
        invariant
            i <= exp,
            base == (if tsresol & 0x80 == 0 {
                10int
            } else {
                2int
            }),
            spec_ts_units(tsresol) == spec_pow_int(base as int, exp as nat),
            r >= 1,
            r as int <= spec_pow_int(base as int, i as nat),
            r as int == spec_pow_int(base as int, i as nat) || (r
                == 0xffffffffffffffffffffffffffffffffu128 && spec_pow_int(base as int, i as nat)
                > 0xffffffffffffffffffffffffffffffff),
        decreases exp - i,
    {
        proof {
            lemma_pow_int_pos(base as int, i as nat);
            assert(spec_pow_int(base as int, (i + 1) as nat) == base * spec_pow_int(
                base as int,
                i as nat,
            ));
            assert(base * spec_pow_int(base as int, i as nat) >= spec_pow_int(
                base as int,
                i as nat,
            )) by (nonlinear_arith)
                requires
                    base >= 1,
                    spec_pow_int(base as int, i as nat) >= 1,
            ;
        }
        if r > 0xffffffffffffffffffffffffffffffffu128 / base {
            proof {
                assert((base as int) * (r as int) > 0xffffffffffffffffffffffffffffffff)
                    by (nonlinear_arith)
                    requires
                        base >= 2,
                        (r as int) > 0xffffffffffffffffffffffffffffffffint / (base as int),
                ;
                assert((base as int) * spec_pow_int(base as int, i as nat) >= (base as int) * (
                r as int)) by (nonlinear_arith)
                    requires
                        base >= 1,
                        spec_pow_int(base as int, i as nat) >= r as int,
                ;
            }
            r = 0xffffffffffffffffffffffffffffffff;
        } else {
            proof {
                assert((base as int) * (r as int) <= 0xffffffffffffffffffffffffffffffff)
                    by (nonlinear_arith)
                    requires
                        base >= 2,
                        r >= 1,
                        (r as int) <= 0xffffffffffffffffffffffffffffffffint / (base as int),
                ;
                assert((base as int) * (r as int) <= (base as int) * spec_pow_int(
                    base as int,
                    i as nat,
                )) by (nonlinear_arith)
                    requires
                        base >= 1,
                        r as int <= spec_pow_int(base as int, i as nat),
                ;
            }
            r = r * base;
        }
        i = i + 1;
    }
    proof {
        lemma_pow_int_pos(base as int, exp as nat);
    }
    r
}

/// The capture timestamp a raw counter means: whole seconds are the
/// counter divided by the units per second, shifted by the interface's
/// offset, saturating at the largest machine value; the fraction is
/// rendered in microseconds.
pub open spec fn spec_ng_timestamp(ts: u64, tsresol: u8, ts_offset: u64) -> Timestamp {
    let units = spec_ts_units(tsresol);
    let total = ts as int / units + ts_offset;
    Timestamp {
        secs: if total > 0xffffffffffffffff {
            0xffffffffffffffffu64
        } else {
            total as u64
        },
        micros: ((ts as int % units) * 1000000 / units) as u32,
    }
}

/// Convert a raw counter to a capture timestamp.
pub fn ng_timestamp(ts: u64, tsresol: u8, ts_offset: u64) -> (r: Timestamp)
    ensures
        r == spec_ng_timestamp(ts, tsresol, ts_offset),
{
    let units = ts_units(tsresol);
    proof {
        let su = spec_ts_units(tsresol);
        lemma_pow_int_pos(10, tsresol as nat);
        lemma_pow_int_pos(2, (tsresol & 0x7f) as nat);
        if units == 0xffffffffffffffffffffffffffffffffu128 && su
            > 0xffffffffffffffffffffffffffffffff {
            // Saturated: both divisors dwarf any counter, so the division
            // and the fraction vanish either way.
            assert(ts as int / su == 0) by (nonlinear_arith)
                requires
                    0 <= ts as int,
                    (ts as int) < su,
                    su >= 1,
            ;
            assert(ts as int % su == ts as int) by (nonlinear_arith)
                requires
                    0 <= ts as int,
                    (ts as int) < su,
                    su >= 1,
            ;
            assert((ts as int) * 1000000 < su) by (nonlinear_arith)
                requires
                    ts <= 0xffffffffffffffffu64,
                    su > 0xffffffffffffffffffffffffffffffff,
            ;
            assert((ts as int) * 1000000 / su == 0) by (nonlinear_arith)
                requires
                    su >= 1,
                    (ts as int) * 1000000 >= 0,
                    (ts as int) * 1000000 < su,
            ;
        }
    }
    if units > 0xffffffffffffffffu128 {
        proof {
            let su = spec_ts_units(tsresol);
            assert(su >= units as int);
            assert((ts as int) < su);
            assert(ts as int / su == 0) by (nonlinear_arith)
                requires
                    0 <= ts as int,
                    (ts as int) < su,
                    su >= 1,
            ;
            assert(ts as int % su == ts as int) by (nonlinear_arith)
                requires
                    0 <= ts as int,
                    (ts as int) < su,
                    su >= 1,
            ;
        }
        let micros128 = (ts as u128) * 1000000 / units;
        proof {
            assert(((ts as u128) * 1000000) as int / (units as int) < 1000000)
                by (nonlinear_arith)
                requires
                    units > 0xffffffffffffffffu128,
                    ts <= 0xffffffffffffffffu64,
            ;
            if units < 0xffffffffffffffffffffffffffffffffu128 {
                assert(units as int == spec_ts_units(tsresol));
            } else {
                if spec_ts_units(tsresol) <= 0xffffffffffffffffffffffffffffffff {
                    assert(units as int == spec_ts_units(tsresol));
                } else {
                    assert(((ts as u128) * 1000000) as int / (units as int) == 0)
                        by (nonlinear_arith)
                        requires
                            units >= 1,
                            ts <= 0xffffffffffffffffu64,
                            units == 0xffffffffffffffffffffffffffffffffu128,
                    ;
                }
            }
        }
        Timestamp { secs: ts_offset, micros: micros128 as u32 }
    } else {
        let units64 = units as u64;
        let secs128 = (ts / units64) as u128 + ts_offset as u128;
        let secs: u64 = if secs128 > 0xffffffffffffffffu128 {
            0xffffffffffffffff
        } else {
            secs128 as u64
        };
        let rem = (ts % units64) as u128;
        let micros128 = rem * 1000000 / units;
        proof {
            assert((rem * 1000000) as int / (units as int) < 1000000) by (nonlinear_arith)
                requires
                    rem < units,
                    units >= 1,
            ;
        }
        Timestamp { secs, micros: micros128 as u32 }
    }
}

/// Convert an enhanced packet's raw counter to a capture timestamp under
/// the interface's resolution and offset; a simple packet has none.
pub fn ng_frame_timestamp(frame: &NgFrame, tsresol: u8, ts_offset: u64) -> (r: Option<Timestamp>)
    ensures
        frame.has_ts ==> r == Some(spec_ng_timestamp(frame.ts, tsresol, ts_offset)),
        !frame.has_ts ==> r is None,
{
    if frame.has_ts {
        Some(ng_timestamp(frame.ts, tsresol, ts_offset))
    } else {
        None
    }
}

} // verus!
