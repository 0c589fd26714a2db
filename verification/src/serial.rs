//! The serial entropy source.
//!
//! The simulated source is an xorshift64 generator (not cryptographically
//! secure) used for development when no hardware is attached. For a hardware
//! port the byte transport belongs to the application; this module holds the
//! decisions of a hardware read: how a sequence of port reads ends, and how long
//! a packet's tail is once its header has arrived.
use vstd::prelude::*;

use crate::clock::unix_time_nanos;
use crate::errors::{EntropyError, EntropyErrorView};
use crate::models::EntropyPacket;
use crate::parser::{crc16, frame_body, lemma_parse_build_roundtrip, packet_model, u16_from_le, PacketModel, PacketParser};
use crate::text::{decimal, push_decimal, push_str, string_of};

verus! {

/// Maximum bytes that can be requested in a single read (1 MiB).
pub const MAX_READ_LEN: usize = 1048576;

/// Default baud rate of the hardware UART link.
pub const DEFAULT_BAUD_RATE: u32 = 115200;

/// Seed of the simulated generator when the clock reads exactly zero nanoseconds.
pub const FALLBACK_SEED: u64 = 0x5EED_DEAD_BEEF_CAFE;

/// Bytes of simulated payload in one packet.
pub const SIMULATED_PAYLOAD_LEN: usize = 64;

/// One xorshift64 step (shifts 13, 7, 17).
pub open spec fn xorshift_step(s: u64) -> u64 {
    let a = s ^ (s << 13u64);
    let b = a ^ (a >> 7u64);
    b ^ (b << 17u64)
}

/// The generator state after `n` steps from `s`.
pub open spec fn xorshift_iter(s: u64, n: nat) -> u64
    decreases n,
{
    if n == 0 {
        s
    } else {
        xorshift_step(xorshift_iter(s, (n - 1) as nat))
    }
}

/// The `n` bytes the simulated source emits from state `s`: the low byte of the
/// state after each step.
pub open spec fn simulated_stream(s: u64, n: nat) -> Seq<u8> {
    Seq::new(n, |i: int| xorshift_iter(s, (i + 1) as nat) as u8)
}

/// The seed of a simulated source given the clock reading in nanoseconds
/// (`None` when the clock reads before the Unix epoch).
pub open spec fn seed_for_clock(nanos: Option<u64>) -> u64 {
    match nanos {
        Some(n) => if n == 0 { FALLBACK_SEED } else { n },
        None => 1,
    }
}

/// A nonzero state stays nonzero under an xorshift step.
pub proof fn lemma_step_nonzero(s: u64)
    requires
        s != 0,
    ensures
        xorshift_step(s) != 0,
{
    let a = s ^ (s << 13u64);
    assert(a != 0) by (bit_vector)
        requires
            s != 0,
            a == s ^ (s << 13u64),
    ;
    let b = a ^ (a >> 7u64);
    assert(b != 0) by (bit_vector)
        requires
            a != 0,
            b == a ^ (a >> 7u64),
    ;
    let c = b ^ (b << 17u64);
    assert(c != 0) by (bit_vector)
        requires
            b != 0,
            c == b ^ (b << 17u64),
    ;
}

/// The simulated generator never reaches the all-zero state (which it could not
/// leave) from a nonzero state.
pub proof fn lemma_iter_nonzero(s: u64, n: nat)
    requires
        s != 0,
    ensures
        xorshift_iter(s, n) != 0,
    decreases n,
{
    if n > 0 {
        lemma_iter_nonzero(s, (n - 1) as nat);
        lemma_step_nonzero(xorshift_iter(s, (n - 1) as nat));
    }
}

/// Reading `a` bytes and then `b` bytes gives the same bytes as reading `a + b`.
pub proof fn lemma_stream_split(s: u64, a: nat, b: nat)
    ensures
        simulated_stream(s, a) + simulated_stream(xorshift_iter(s, a), b) == simulated_stream(s, a + b),
{
    assert forall|i: nat| #[trigger] xorshift_iter(xorshift_iter(s, a), i) == xorshift_iter(s, a + i) by {
        lemma_iter_add(s, a, i);
    }
    assert forall|j: int| 0 <= j < b implies #[trigger] simulated_stream(xorshift_iter(s, a), b)[j]
        == simulated_stream(s, a + b)[a + j] by {
        lemma_iter_add(s, a, (j + 1) as nat);
    }
    assert(simulated_stream(s, a) + simulated_stream(xorshift_iter(s, a), b) =~= simulated_stream(s, a + b));
}

proof fn lemma_iter_add(s: u64, a: nat, i: nat)
    ensures
        xorshift_iter(xorshift_iter(s, a), i) == xorshift_iter(s, a + i),
    decreases i,
{
    if i > 0 {
        lemma_iter_add(s, a, (i - 1) as nat);
    }
}

fn xorshift_next(s: u64) -> (t: u64)
    ensures
        t == xorshift_step(s),
{
    let a = s ^ (s << 13u64);
    let b = a ^ (a >> 7u64);
    b ^ (b << 17u64)
}

/// The simulated entropy source (xorshift64).
pub struct SerialSource {
    state: u64,
}

impl SerialSource {
    /// Current generator state.
    pub closed spec fn state(&self) -> u64 {
        self.state
    }

    /// A simulated source seeded from `seed`; a zero seed, from which the
    /// generator would only ever emit zeros, is replaced by `FALLBACK_SEED`.
    pub fn simulated_from(seed: u64) -> (s: Self)
        ensures
            s.state() == (if seed == 0 { FALLBACK_SEED } else { seed }),
            s.state() != 0,
    {
        if seed == 0 {
            SerialSource { state: FALLBACK_SEED }
        } else {
            SerialSource { state: seed }
        }
    }

    /// A simulated source seeded from the system clock's nanoseconds since the
    /// Unix epoch (1 when the clock reads before the epoch).
    pub fn simulated() -> (s: Self)
        ensures
            exists|nanos: Option<u64>| s.state() == seed_for_clock(nanos),
            s.state() != 0,
    {
        let nanos = unix_time_nanos();
        let seed = match nanos {
            Some(n) => n,
            None => 1,
        };
        let s = Self::simulated_from(seed);
        assert(s.state() == seed_for_clock(nanos));
        s
    }

    /// Whether the source is simulated; this type only ever is.
    pub fn is_simulated(&self) -> (b: bool)
        ensures
            b,
    {
        true
    }

    /// The next `length` bytes of the generator.
    fn simulate_bytes(&mut self, length: usize) -> (out: Vec<u8>)
        ensures
            out@ == simulated_stream(old(self).state(), length as nat),
            final(self).state() == xorshift_iter(old(self).state(), length as nat),
    {
        let ghost s0 = self.state;
        let mut out: Vec<u8> = Vec::new();
        let mut i: usize = 0;
        while i < length
            invariant
                i <= length,
                self.state == xorshift_iter(s0, i as nat),
                out@ =~= simulated_stream(s0, i as nat),
            decreases length - i,
        {
            self.state = xorshift_next(self.state);
            out.push(self.state as u8);
            i = i + 1;
        }
        out
    }

    /// Read `length` raw bytes from the source; more than `MAX_READ_LEN` is
    /// refused with `InvalidLength` and the source is left as it was.
    pub fn read_raw(&mut self, length: usize) -> (r: Result<Vec<u8>, EntropyError>)
        ensures
            length > MAX_READ_LEN ==> {
                &&& r is Err
                &&& r->Err_0@ == (EntropyErrorView::InvalidLength { requested: length, max: MAX_READ_LEN })
                &&& final(self).state() == old(self).state()
            },
            length <= MAX_READ_LEN ==> {
                &&& r is Ok
                &&& r->Ok_0@ == simulated_stream(old(self).state(), length as nat)
                &&& final(self).state() == xorshift_iter(old(self).state(), length as nat)
            },
    {
        if length > MAX_READ_LEN {
            return Err(EntropyError::InvalidLength { requested: length, max: MAX_READ_LEN });
        }
        Ok(self.simulate_bytes(length))
    }

    /// A packet from source 0x01 stamped `timestamp`, carrying the next 64
    /// simulated bytes: it is framed and parsed back as a hardware packet would be.
    pub fn read_packet_at(&mut self, timestamp: u64) -> (r: Result<EntropyPacket, EntropyError>)
        ensures
            r is Ok,
            packet_model(r->Ok_0) == (PacketModel {
                source_id: 1,
                timestamp,
                payload: simulated_stream(old(self).state(), SIMULATED_PAYLOAD_LEN as nat),
                checksum: crc16(
                    frame_body(1, timestamp, simulated_stream(old(self).state(), SIMULATED_PAYLOAD_LEN as nat)),
                ),
            }),
            final(self).state() == xorshift_iter(old(self).state(), SIMULATED_PAYLOAD_LEN as nat),
    {
        let payload = self.simulate_bytes(SIMULATED_PAYLOAD_LEN);
        let raw = PacketParser::build_raw(1, timestamp, payload.as_slice());
        proof {
            lemma_parse_build_roundtrip(1, timestamp, payload@);
        }
        PacketParser::parse(raw.as_slice())
    }

    /// A packet carrying the next 64 simulated bytes, stamped with the clock's
    /// nanoseconds since the Unix epoch (0 when the clock reads before it).
    pub fn read_packet(&mut self) -> (r: Result<EntropyPacket, EntropyError>)
        ensures
            r is Ok,
            r->Ok_0.source_id == 1,
            r->Ok_0.payload@ == simulated_stream(old(self).state(), SIMULATED_PAYLOAD_LEN as nat),
            final(self).state() == xorshift_iter(old(self).state(), SIMULATED_PAYLOAD_LEN as nat),
    {
        let timestamp = match unix_time_nanos() {
            Some(n) => n,
            None => 0,
        };
        self.read_packet_at(timestamp)
    }
}

// ---------------------------------------------------------------------------
// Hardware reads
// ---------------------------------------------------------------------------

/// What one read from a hardware port gave: bytes (none means end of stream),
/// a timeout, or another I/O failure with its description.
pub enum PortEvent {
    Bytes(Vec<u8>),
    TimedOut,
    Failed(String),
}

/// A hardware read of `length` bytes in progress: `received` holds what has
/// arrived so far, always less than `length`.
pub struct HardwareRead {
    length: usize,
    received: Vec<u8>,
}

/// Where a hardware read stands after an event.
pub enum ReadStep {
    /// More bytes are awaited.
    Pending(HardwareRead),
    /// The read is over, with these bytes or this error.
    Finished(Result<Vec<u8>, EntropyError>),
}

/// Reason text when the port reports end of stream early.
pub open spec fn eof_text(received: nat, length: nat) -> Seq<char> {
    "serial EOF after "@ + decimal(received) + " of "@ + decimal(length) + " bytes"@
}

/// Reason text when the port times out before sending anything.
pub open spec fn timeout_text() -> Seq<char> {
    "serial read timed out — is the hardware sending data?"@
}

/// Reason text for another port failure.
pub open spec fn failure_text(msg: Seq<char>) -> Seq<char> {
    "serial read error: "@ + msg
}

impl HardwareRead {
    pub closed spec fn length(&self) -> nat {
        self.length as nat
    }

    pub closed spec fn received(&self) -> Seq<u8> {
        self.received@
    }

    /// The reader's invariant: less than `length` bytes have arrived.
    pub closed spec fn wf(&self) -> bool {
        self.received@.len() < self.length
    }

    /// Begin reading `length` bytes: more than `MAX_READ_LEN` is refused with
    /// `InvalidLength`, and a read of nothing is finished at once.
    pub fn start(length: usize) -> (step: ReadStep)
        ensures
            length > MAX_READ_LEN ==> (step matches ReadStep::Finished(Err(e))
                && e@ == (EntropyErrorView::InvalidLength { requested: length, max: MAX_READ_LEN })),
            length == 0 ==> (step matches ReadStep::Finished(Ok(v)) && v@.len() == 0),
            0 < length <= MAX_READ_LEN ==> (step matches ReadStep::Pending(h) && h.wf() && h.length() == length
                && h.received().len() == 0),
    {
        if length > MAX_READ_LEN {
            return ReadStep::Finished(Err(EntropyError::InvalidLength { requested: length, max: MAX_READ_LEN }));
        }
        if length == 0 {
            return ReadStep::Finished(Ok(Vec::new()));
        }
        ReadStep::Pending(HardwareRead { length, received: Vec::new() })
    }

    /// Bytes still awaited.
    pub fn remaining(&self) -> (n: usize)
        requires
            self.wf(),
        ensures
            n == self.length() - self.received().len(),
            n > 0,
    {
        self.length - self.received.len()
    }

    /// Take in what one port read gave. Bytes are appended, and the read is
    /// finished once `length` have arrived; an empty read (end of stream) is an
    /// error; a timeout returns what has arrived, or an error if nothing has;
    /// any other failure is an error.
    pub fn on_event(self, event: PortEvent) -> (step: ReadStep)
        requires
            self.wf(),
            event matches PortEvent::Bytes(b) ==> b@.len() <= self.length() - self.received().len(),
        ensures
            match event {
                PortEvent::Bytes(b) => if b@.len() == 0 {
                    step matches ReadStep::Finished(Err(e)) && e@ == (EntropyErrorView::SerialError {
                        reason: eof_text(self.received().len(), self.length()),
                    })
                } else if self.received().len() + b@.len() == self.length() {
                    step matches ReadStep::Finished(Ok(v)) && v@ == self.received() + b@
                } else {
                    step matches ReadStep::Pending(h) && h.wf() && h.length() == self.length()
                        && h.received() == self.received() + b@
                },
                PortEvent::TimedOut => if self.received().len() == 0 {
                    step matches ReadStep::Finished(Err(e)) && e@ == (EntropyErrorView::SerialError {
                        reason: timeout_text(),
                    })
                } else {
                    step matches ReadStep::Finished(Ok(v)) && v@ == self.received()
                },
                PortEvent::Failed(msg) => step matches ReadStep::Finished(Err(e)) && e@
                    == (EntropyErrorView::SerialError { reason: failure_text(msg@) }),
            },
    {
        let HardwareRead { length, received } = self;
        match event {
            PortEvent::Bytes(bytes) => {
                if bytes.len() == 0 {
                    let mut reason = string_of("serial EOF after ");
                    push_decimal(&mut reason, received.len() as u64);
                    push_str(&mut reason, " of ");
                    push_decimal(&mut reason, length as u64);
                    push_str(&mut reason, " bytes");
                    return ReadStep::Finished(Err(EntropyError::SerialError { reason }));
                }
                let mut received = received;
                let mut i: usize = 0;
                let ghost start = received@;
                while i < bytes.len()
                    invariant
                        i <= bytes@.len(),
                        received@ == start + bytes@.take(i as int),
                    decreases bytes@.len() - i,
                {
                    received.push(bytes[i]);
                    i = i + 1;
                    assert(start + bytes@.take(i as int) =~= (start + bytes@.take((i - 1) as int)).push(
                        bytes@[i - 1],
                    ));
                }
                assert(bytes@.take(bytes@.len() as int) =~= bytes@);
                if received.len() == length {
                    ReadStep::Finished(Ok(received))
                } else {
                    ReadStep::Pending(HardwareRead { length, received })
                }
            },
            PortEvent::TimedOut => {
                if received.len() == 0 {
                    ReadStep::Finished(
                        Err(EntropyError::SerialError {
                            reason: string_of("serial read timed out — is the hardware sending data?"),
                        }),
                    )
                } else {
                    ReadStep::Finished(Ok(received))
                }
            },
            PortEvent::Failed(msg) => {
                let mut reason = string_of("serial read error: ");
                push_str(&mut reason, msg.as_str());
                ReadStep::Finished(Err(EntropyError::SerialError { reason }))
            },
        }
    }
}

/// Bytes that follow a 12-byte packet header on the wire: the payload length
/// (little-endian at header bytes 10 and 11) plus the two checksum bytes.
pub fn packet_tail_len(header: &[u8]) -> (n: usize)
    requires
        header@.len() == 12,
    ensures
        n == u16_from_le(header@.subrange(10, 12)) + 2,
{
    let lo = header[10] as u16;
    let hi = header[11] as u16;
    let v: u16 = (lo | (hi << 8u16)) as u16;
    assert(v == u16_from_le(header@.subrange(10, 12)));
    v as usize + 2
}

} // verus!
