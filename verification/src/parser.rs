//! MYOSA UART packet framing.
//!
//! Wire format:
//!   [0]        magic byte 0xE7
//!   [1]        source_id
//!   [2..10]    timestamp (little-endian u64)
//!   [10..12]   payload_length (little-endian u16)
//!   [12..12+N] payload
//!   [last 2]   CRC-16/CCITT-FALSE of everything before it (little-endian u16)
use vstd::prelude::*;

use crate::errors::{EntropyError, EntropyErrorView};
use crate::models::EntropyPacket;
use crate::text::{decimal, hex2_upper, push_decimal, push_hex2_upper, push_str, string_of};

verus! {

pub const MAGIC: u8 = 0xE7;

pub const HEADER_LEN: usize = 12;

pub const CHECKSUM_LEN: usize = 2;

/// Maximum allowed payload size.
pub const MAX_PAYLOAD_LEN: usize = 4096;

// ---------------------------------------------------------------------------
// Little-endian integers
// ---------------------------------------------------------------------------

/// Little-endian bytes of a `u16`.
pub open spec fn le_bytes_u16(v: u16) -> Seq<u8> {
    seq![v as u8, (v >> 8u16) as u8]
}

/// The `u16` whose little-endian bytes are `s[0], s[1]`.
pub open spec fn u16_from_le(s: Seq<u8>) -> u16 {
    ((s[0] as u16) | ((s[1] as u16) << 8u16)) as u16
}

/// Little-endian bytes of a `u64`.
pub open spec fn le_bytes_u64(v: u64) -> Seq<u8> {
    seq![
        v as u8,
        (v >> 8u64) as u8,
        (v >> 16u64) as u8,
        (v >> 24u64) as u8,
        (v >> 32u64) as u8,
        (v >> 40u64) as u8,
        (v >> 48u64) as u8,
        (v >> 56u64) as u8,
    ]
}

/// The `u64` whose little-endian bytes are `s[0..8]`.
pub open spec fn u64_from_le(s: Seq<u8>) -> u64 {
    le8(s[0], s[1], s[2], s[3], s[4], s[5], s[6], s[7])
}

pub open spec fn le8(b0: u8, b1: u8, b2: u8, b3: u8, b4: u8, b5: u8, b6: u8, b7: u8) -> u64 {
    ((b0 as u64) | ((b1 as u64) << 8u64) | ((b2 as u64) << 16u64) | ((b3 as u64) << 24u64) | ((b4 as u64)
        << 32u64) | ((b5 as u64) << 40u64) | ((b6 as u64) << 48u64) | ((b7 as u64) << 56u64)) as u64
}

proof fn lemma_u16_le_roundtrip(v: u16)
    ensures
        u16_from_le(le_bytes_u16(v)) == v,
{
    let b0 = v as u8;
    let b1 = (v >> 8u16) as u8;
    assert(((b0 as u16) | ((b1 as u16) << 8u16)) as u16 == v) by (bit_vector)
        requires
            b0 == v as u8,
            b1 == (v >> 8u16) as u8,
    ;
}

proof fn lemma_le_u16_roundtrip(s: Seq<u8>)
    requires
        s.len() == 2,
    ensures
        le_bytes_u16(u16_from_le(s)) =~= s,
{
    let b0 = s[0];
    let b1 = s[1];
    let v = ((b0 as u16) | ((b1 as u16) << 8u16)) as u16;
    assert(v as u8 == b0 && (v >> 8u16) as u8 == b1) by (bit_vector)
        requires
            v == ((b0 as u16) | ((b1 as u16) << 8u16)) as u16,
    ;
}

proof fn lemma_u64_le_roundtrip(v: u64)
    ensures
        u64_from_le(le_bytes_u64(v)) == v,
{
    let s = le_bytes_u64(v);
    assert(le8(
        v as u8,
        (v >> 8u64) as u8,
        (v >> 16u64) as u8,
        (v >> 24u64) as u8,
        (v >> 32u64) as u8,
        (v >> 40u64) as u8,
        (v >> 48u64) as u8,
        (v >> 56u64) as u8,
    ) == v) by (bit_vector);
}

proof fn lemma_le_u64_roundtrip(s: Seq<u8>)
    requires
        s.len() == 8,
    ensures
        le_bytes_u64(u64_from_le(s)) =~= s,
{
    let (b0, b1, b2, b3, b4, b5, b6, b7) = (s[0], s[1], s[2], s[3], s[4], s[5], s[6], s[7]);
    let v = le8(b0, b1, b2, b3, b4, b5, b6, b7);
    assert(v as u8 == b0 && (v >> 8u64) as u8 == b1 && (v >> 16u64) as u8 == b2 && (v >> 24u64) as u8 == b3
        && (v >> 32u64) as u8 == b4 && (v >> 40u64) as u8 == b5 && (v >> 48u64) as u8 == b6 && (v >> 56u64) as u8
        == b7) by (bit_vector)
        requires
            v == le8(b0, b1, b2, b3, b4, b5, b6, b7),
    ;
}

// ---------------------------------------------------------------------------
// CRC-16/CCITT-FALSE
// ---------------------------------------------------------------------------

/// One bit step of the CRC register (polynomial 0x1021).
pub open spec fn crc_step(crc: u16) -> u16 {
    if crc & 0x8000u16 != 0 {
        ((crc << 1u16) ^ 0x1021u16) as u16
    } else {
        (crc << 1u16) as u16
    }
}

/// `n` bit steps of the CRC register.
pub open spec fn crc_steps(crc: u16, n: nat) -> u16
    decreases n,
{
    if n == 0 {
        crc
    } else {
        crc_step(crc_steps(crc, (n - 1) as nat))
    }
}

/// The CRC register after absorbing one byte.
pub open spec fn crc_byte(crc: u16, b: u8) -> u16 {
    crc_steps((crc ^ ((b as u16) << 8u16)) as u16, 8)
}

/// The CRC register after absorbing `data`, starting from `init`.
pub open spec fn crc_over(init: u16, data: Seq<u8>) -> u16
    decreases data.len(),
{
    if data.len() == 0 {
        init
    } else {
        crc_byte(crc_over(init, data.drop_last()), data.last())
    }
}

/// CRC-16/CCITT-FALSE of `data` (initial value 0xFFFF, no final xor).
pub open spec fn crc16(data: Seq<u8>) -> u16 {
    crc_over(0xFFFFu16, data)
}

// ---------------------------------------------------------------------------
// Packet model
// ---------------------------------------------------------------------------

/// Abstract content of a parsed packet.
pub struct PacketModel {
    pub source_id: u8,
    pub timestamp: u64,
    pub payload: Seq<u8>,
    pub checksum: u16,
}

/// Abstract value of an `EntropyPacket`.
pub open spec fn packet_model(p: EntropyPacket) -> PacketModel {
    PacketModel { source_id: p.source_id, timestamp: p.timestamp, payload: p.payload@, checksum: p.checksum }
}

/// Why a buffer is not a packet.
pub enum ParseFailure {
    TooShort { len: nat },
    BadMagic { byte: u8 },
    PayloadTooLarge { len: nat },
    ShortForPayload { have: nat, need: nat },
    TrailingBytes { have: nat, expected: nat },
    ChecksumMismatch,
}

/// The parse error message of a failure.
pub open spec fn failure_text(f: ParseFailure) -> Seq<char> {
    match f {
        ParseFailure::TooShort { len } => "buffer too short: "@ + decimal(len) + " bytes, minimum "@ + decimal(
            (HEADER_LEN + CHECKSUM_LEN) as nat,
        ),
        ParseFailure::BadMagic { byte } => "invalid magic byte: 0x"@ + hex2_upper(byte) + ", expected 0xE7"@,
        ParseFailure::PayloadTooLarge { len } => "payload too large: "@ + decimal(len) + " bytes, max "@ + decimal(
            MAX_PAYLOAD_LEN as nat,
        ),
        ParseFailure::ShortForPayload { have, need } => "buffer too short for payload: have "@ + decimal(have)
            + ", need "@ + decimal(need),
        ParseFailure::TrailingBytes { have, expected } => "unexpected trailing bytes: have "@ + decimal(have)
            + ", expected "@ + decimal(expected),
        ParseFailure::ChecksumMismatch => "CRC-16 checksum mismatch"@,
    }
}

/// Packet decoding, check by check in the order the parser applies them.
pub open spec fn parse_spec(raw: Seq<u8>) -> Result<PacketModel, ParseFailure> {
    if raw.len() < HEADER_LEN + CHECKSUM_LEN {
        Err(ParseFailure::TooShort { len: raw.len() })
    } else if raw[0] != MAGIC {
        Err(ParseFailure::BadMagic { byte: raw[0] })
    } else {
        let n = u16_from_le(raw.subrange(10, 12)) as nat;
        let expected = HEADER_LEN + n + CHECKSUM_LEN;
        if n > MAX_PAYLOAD_LEN {
            Err(ParseFailure::PayloadTooLarge { len: n })
        } else if raw.len() < expected {
            Err(ParseFailure::ShortForPayload { have: raw.len(), need: expected as nat })
        } else if raw.len() > expected {
            Err(ParseFailure::TrailingBytes { have: raw.len(), expected: expected as nat })
        } else {
            let checksum = u16_from_le(raw.subrange(HEADER_LEN + n, HEADER_LEN + n + 2));
            if crc16(raw.take(HEADER_LEN + n)) != checksum {
                Err(ParseFailure::ChecksumMismatch)
            } else {
                Ok(
                    PacketModel {
                        source_id: raw[1],
                        timestamp: u64_from_le(raw.subrange(2, 10)),
                        payload: raw.subrange(HEADER_LEN as int, HEADER_LEN + n),
                        checksum,
                    },
                )
            }
        }
    }
}

/// Header and payload of a frame (everything the checksum covers).
pub open spec fn frame_body(source_id: u8, timestamp: u64, payload: Seq<u8>) -> Seq<u8> {
    seq![MAGIC, source_id] + le_bytes_u64(timestamp) + le_bytes_u16(payload.len() as u16) + payload
}

/// The complete frame for a packet.
pub open spec fn frame(source_id: u8, timestamp: u64, payload: Seq<u8>) -> Seq<u8> {
    let body = frame_body(source_id, timestamp, payload);
    body + le_bytes_u16(crc16(body))
}

/// Whether `r` is the parser's answer for `raw`.
pub open spec fn parse_result_matches(raw: Seq<u8>, r: Result<EntropyPacket, EntropyError>) -> bool {
    match parse_spec(raw) {
        Ok(m) => r is Ok && packet_model(r->Ok_0) == m,
        Err(f) => r is Err && r->Err_0@ == (EntropyErrorView::ParseError { reason: failure_text(f) }),
    }
}

// ---------------------------------------------------------------------------
// Executable parser
// ---------------------------------------------------------------------------

fn read_u16_le(raw: &[u8], at: usize) -> (v: u16)
    requires
        at + 2 <= raw@.len(),
    ensures
        v == u16_from_le(raw@.subrange(at as int, at + 2)),
{
    let b0 = raw[at];
    let b1 = raw[at + 1];
    ((b0 as u16) | ((b1 as u16) << 8u16)) as u16
}

fn read_u64_le(raw: &[u8], at: usize) -> (v: u64)
    requires
        at + 8 <= raw@.len(),
    ensures
        v == u64_from_le(raw@.subrange(at as int, at + 8)),
{
    let b0 = raw[at] as u64;
    let b1 = raw[at + 1] as u64;
    let b2 = raw[at + 2] as u64;
    let b3 = raw[at + 3] as u64;
    let b4 = raw[at + 4] as u64;
    let b5 = raw[at + 5] as u64;
    let b6 = raw[at + 6] as u64;
    let b7 = raw[at + 7] as u64;
    (b0 | (b1 << 8u64) | (b2 << 16u64) | (b3 << 24u64) | (b4 << 32u64) | (b5 << 40u64) | (b6 << 48u64) | (b7
        << 56u64)) as u64
}

fn push_u16_le(buf: &mut Vec<u8>, v: u16)
    ensures
        final(buf)@ == old(buf)@ + le_bytes_u16(v),
{
    buf.push(v as u8);
    buf.push((v >> 8u16) as u8);
    assert(buf@ =~= old(buf)@ + le_bytes_u16(v));
}

fn push_u64_le(buf: &mut Vec<u8>, v: u64)
    ensures
        final(buf)@ == old(buf)@ + le_bytes_u64(v),
{
    buf.push(v as u8);
    buf.push((v >> 8u64) as u8);
    buf.push((v >> 16u64) as u8);
    buf.push((v >> 24u64) as u8);
    buf.push((v >> 32u64) as u8);
    buf.push((v >> 40u64) as u8);
    buf.push((v >> 48u64) as u8);
    buf.push((v >> 56u64) as u8);
    assert(buf@ =~= old(buf)@ + le_bytes_u64(v));
}

fn parse_error(reason: String) -> (e: EntropyError)
    ensures
        e@ == (EntropyErrorView::ParseError { reason: reason@ }),
{
    EntropyError::ParseError { reason }
}

/// Packet framing and validation.
pub struct PacketParser;

impl PacketParser {
    /// Parse a raw UART byte buffer into an `EntropyPacket`.
    ///
    /// The buffer must be exactly one packet: trailing bytes are rejected.
    pub fn parse(raw: &[u8]) -> (r: Result<EntropyPacket, EntropyError>)
        ensures
            parse_result_matches(raw@, r),
    {
        let len = raw.len();
        if len < HEADER_LEN + CHECKSUM_LEN {
            let mut reason = string_of("buffer too short: ");
            push_decimal(&mut reason, len as u64);
            push_str(&mut reason, " bytes, minimum ");
            push_decimal(&mut reason, (HEADER_LEN + CHECKSUM_LEN) as u64);
            return Err(parse_error(reason));
        }
        if raw[0] != MAGIC {
            let mut reason = string_of("invalid magic byte: 0x");
            push_hex2_upper(&mut reason, raw[0]);
            push_str(&mut reason, ", expected 0xE7");
            return Err(parse_error(reason));
        }
        let source_id = raw[1];
        let timestamp = read_u64_le(raw, 2);
        let payload_len = read_u16_le(raw, 10) as usize;

        if payload_len > MAX_PAYLOAD_LEN {
            let mut reason = string_of("payload too large: ");
            push_decimal(&mut reason, payload_len as u64);
            push_str(&mut reason, " bytes, max ");
            push_decimal(&mut reason, MAX_PAYLOAD_LEN as u64);
            return Err(parse_error(reason));
        }
        let expected_total = HEADER_LEN + payload_len + CHECKSUM_LEN;
        if len < expected_total {
            let mut reason = string_of("buffer too short for payload: have ");
            push_decimal(&mut reason, len as u64);
            push_str(&mut reason, ", need ");
            push_decimal(&mut reason, expected_total as u64);
            return Err(parse_error(reason));
        }
        if len > expected_total {
            let mut reason = string_of("unexpected trailing bytes: have ");
            push_decimal(&mut reason, len as u64);
            push_str(&mut reason, ", expected ");
            push_decimal(&mut reason, expected_total as u64);
            return Err(parse_error(reason));
        }

        let mut payload: Vec<u8> = Vec::new();
        let mut i: usize = HEADER_LEN;
        while i < HEADER_LEN + payload_len
            invariant
                HEADER_LEN <= i <= HEADER_LEN + payload_len,
                payload_len <= MAX_PAYLOAD_LEN,
                HEADER_LEN + payload_len + CHECKSUM_LEN == raw@.len(),
                payload@ =~= raw@.subrange(HEADER_LEN as int, i as int),
            decreases HEADER_LEN + payload_len - i,
        {
            payload.push(raw[i]);
            i = i + 1;
        }
        let checksum = read_u16_le(raw, HEADER_LEN + payload_len);
        let packet = EntropyPacket { source_id, timestamp, payload, checksum };

        if !Self::checksum_matches(raw, HEADER_LEN + payload_len, checksum) {
            return Err(parse_error(string_of("CRC-16 checksum mismatch")));
        }
        Ok(packet)
    }

    fn checksum_matches(raw: &[u8], body_len: usize, checksum: u16) -> (b: bool)
        requires
            body_len <= raw@.len(),
        ensures
            b == (crc16(raw@.take(body_len as int)) == checksum),
    {
        Self::crc16_prefix(raw, body_len) == checksum
    }

    /// Validate the CRC-16 checksum against the header+payload bytes.
    pub fn validate_checksum(packet: &EntropyPacket, data: &[u8]) -> (b: bool)
        ensures
            b == (crc16(data@) == packet.checksum),
    {
        assert(data@.take(data@.len() as int) =~= data@);
        Self::crc16_prefix(data, data.len()) == packet.checksum
    }

    /// CRC-16/CCITT-FALSE of `data[..n]`, as used by the MYOSA firmware.
    fn crc16_prefix(data: &[u8], n: usize) -> (crc: u16)
        requires
            n <= data@.len(),
        ensures
            crc == crc16(data@.take(n as int)),
    {
        let mut crc: u16 = 0xFFFF;
        let mut i: usize = 0;
        while i < n
            invariant
                i <= n <= data@.len(),
                crc == crc16(data@.take(i as int)),
            decreases n - i,
        {
            let byte = data[i];
            assert(data@.take(i + 1).drop_last() =~= data@.take(i as int));
            crc = crc ^ ((byte as u16) << 8u16);
            let ghost start = crc;
            let mut k: usize = 0;
            while k < 8
                invariant
                    k <= 8,
                    crc == crc_steps(start, k as nat),
                decreases 8 - k,
            {
                if crc & 0x8000 != 0 {
                    crc = (crc << 1u16) ^ 0x1021;
                } else {
                    crc = crc << 1u16;
                }
                k = k + 1;
            }
            i = i + 1;
        }
        crc
    }

    /// Build a raw packet buffer (for testing and simulation).
    pub fn build_raw(source_id: u8, timestamp: u64, payload: &[u8]) -> (buf: Vec<u8>)
        requires
            payload@.len() <= MAX_PAYLOAD_LEN,
        ensures
            buf@ == frame(source_id, timestamp, payload@),
    {
        let mut buf: Vec<u8> = Vec::new();
        buf.push(MAGIC);
        buf.push(source_id);
        push_u64_le(&mut buf, timestamp);
        push_u16_le(&mut buf, payload.len() as u16);
        let ghost header = buf@;
        let mut i: usize = 0;
        while i < payload.len()
            invariant
                i <= payload@.len(),
                buf@ =~= header + payload@.take(i as int),
            decreases payload@.len() - i,
        {
            buf.push(payload[i]);
            i = i + 1;
        }
        assert(payload@.take(payload@.len() as int) =~= payload@);
        assert(buf@ =~= frame_body(source_id, timestamp, payload@));
        let body_len = buf.len();
        assert(buf@.take(body_len as int) =~= buf@);
        let crc = Self::crc16_prefix(&buf, body_len);
        push_u16_le(&mut buf, crc);
        buf
    }
}

// ---------------------------------------------------------------------------
// Laws
// ---------------------------------------------------------------------------

/// A built frame parses back to the packet it was built from: same source,
/// timestamp and payload, and the checksum of its header and payload.
pub proof fn lemma_parse_build_roundtrip(source_id: u8, timestamp: u64, payload: Seq<u8>)
    requires
        payload.len() <= MAX_PAYLOAD_LEN,
    ensures
        parse_spec(frame(source_id, timestamp, payload)) == Ok::<PacketModel, ParseFailure>(
            PacketModel {
                source_id,
                timestamp,
                payload,
                checksum: crc16(frame_body(source_id, timestamp, payload)),
            },
        ),
{
    let body = frame_body(source_id, timestamp, payload);
    let raw = frame(source_id, timestamp, payload);
    let n: int = payload.len() as int;
    lemma_u64_le_roundtrip(timestamp);
    lemma_u16_le_roundtrip(n as u16);
    lemma_u16_le_roundtrip(crc16(body));
    assert(raw.subrange(10, 12) =~= le_bytes_u16(n as u16));
    assert(raw.subrange(2, 10) =~= le_bytes_u64(timestamp));
    assert(raw.subrange(12, 12 + n) =~= payload);
    assert(raw.take(12 + n) =~= body);
    assert(raw.subrange(12 + n, 12 + n + 2) =~= le_bytes_u16(crc16(body)));
}

/// Framing is exact: a buffer that parses is the frame of the packet it
/// parses to, so no two buffers parse to the same packet.
pub proof fn lemma_parse_then_frame(raw: Seq<u8>)
    requires
        parse_spec(raw) is Ok,
    ensures
        ({
            let m = parse_spec(raw)->Ok_0;
            &&& frame(m.source_id, m.timestamp, m.payload) == raw
            &&& m.checksum == crc16(frame_body(m.source_id, m.timestamp, m.payload))
        }),
{
    let m = parse_spec(raw)->Ok_0;
    let n: int = u16_from_le(raw.subrange(10, 12)) as int;
    lemma_le_u16_roundtrip(raw.subrange(10, 12));
    lemma_le_u64_roundtrip(raw.subrange(2, 10));
    lemma_le_u16_roundtrip(raw.subrange(12 + n, 12 + n + 2));
    assert(m.payload.len() == n);
    let body = frame_body(m.source_id, m.timestamp, m.payload);
    assert(body =~= raw.take(12 + n));
    assert(frame(m.source_id, m.timestamp, m.payload) =~= raw);
}

} // verus!
