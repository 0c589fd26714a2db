//! One-time passwords from hardware random numbers.
//!
//! The hardware publishes 4-digit random numbers as CSV. An OTP is
//!   SHA-256(number (big-endian u16) || timestamp in microseconds (big-endian u128)),
//! read as one big-endian number, reduced modulo 1,000,000 and
//! written as six digits.
use vstd::prelude::*;

use std::collections::VecDeque;

use crate::clock::{unix_time_micros, unix_time_secs};
use crate::primitives::{digest32, sha256_digest};
use crate::text::{chars_of, digit_char, push_char, push_str, push_two_digits, string_of, two_digits};

verus! {

/// Most random numbers kept.
pub const MAX_NUMBERS: usize = 10_000;

/// Most sensor parameter strings kept.
pub const MAX_PARAMS: usize = 1_000;

/// Most OTP records kept in the history.
pub const MAX_HISTORY: usize = 100;

/// Largest random number accepted (four digits).
pub const MAX_ACCEPTED_NUMBER: u16 = 9999;

// ---------------------------------------------------------------------------
// CSV of numbers
// ---------------------------------------------------------------------------

/// Unicode `White_Space` characters, as `char::is_whitespace` and `str::trim` use them.
pub open spec fn is_unicode_whitespace(c: char) -> bool {
    let u = c as u32;
    (9 <= u && u <= 13) || u == 32 || u == 0x85 || u == 0xA0 || u == 0x1680 || (0x2000 <= u && u <= 0x200A)
        || u == 0x2028 || u == 0x2029 || u == 0x202F || u == 0x205F || u == 0x3000
}

/// `t` without leading whitespace.
pub open spec fn trim_start(t: Seq<char>) -> Seq<char>
    decreases t.len(),
{
    if t.len() > 0 && is_unicode_whitespace(t[0]) {
        trim_start(t.drop_first())
    } else {
        t
    }
}

/// `t` without trailing whitespace.
pub open spec fn trim_end(t: Seq<char>) -> Seq<char>
    decreases t.len(),
{
    if t.len() > 0 && is_unicode_whitespace(t.last()) {
        trim_end(t.drop_last())
    } else {
        t
    }
}

/// `t` without leading and trailing whitespace (`str::trim`).
pub open spec fn trim(t: Seq<char>) -> Seq<char> {
    trim_end(trim_start(t))
}

/// ASCII decimal digit.
pub open spec fn is_digit(c: char) -> bool {
    '0' <= c && c <= '9'
}

/// Whether every character is an ASCII decimal digit.
pub open spec fn all_digits(d: Seq<char>) -> bool {
    forall|i: int| 0 <= i < d.len() ==> is_digit(#[trigger] d[i])
}

/// Value of a string of decimal digits.
pub open spec fn digits_value(d: Seq<char>) -> nat
    decreases d.len(),
{
    if d.len() == 0 {
        0
    } else {
        digits_value(d.drop_last()) * 10 + ((d.last() as nat) - 48) as nat
    }
}

/// `u16::from_str`: an optional leading `+`, then one or more decimal digits of
/// value at most 65535.
pub open spec fn parse_u16(t: Seq<char>) -> Option<u16> {
    if t.len() == 0 {
        None
    } else {
        let d = if t[0] == '+' { t.drop_first() } else { t };
        if d.len() == 0 {
            None
        } else if !all_digits(d) {
            None
        } else if digits_value(d) > 65535 {
            None
        } else {
            Some(digits_value(d) as u16)
        }
    }
}

/// The number a CSV field contributes: its trimmed text parsed as `u16`, if at most 9999.
pub open spec fn field_number(t: Seq<char>) -> Option<u16> {
    match parse_u16(trim(t)) {
        Some(n) => if n <= MAX_ACCEPTED_NUMBER { Some(n) } else { None },
        None => None,
    }
}

/// Fields of `s` separated by commas (`str::split(',')`): always at least one.
pub open spec fn split_commas(s: Seq<char>) -> Seq<Seq<char>>
    decreases s.len(),
{
    if s.len() == 0 {
        seq![Seq::empty()]
    } else {
        let prev = split_commas(s.drop_last());
        if s.last() == ',' {
            prev.push(Seq::empty())
        } else {
            prev.update(prev.len() - 1, prev.last().push(s.last()))
        }
    }
}

/// Numbers contributed by a sequence of fields, in order.
pub open spec fn fields_numbers(fields: Seq<Seq<char>>) -> Seq<u16>
    decreases fields.len(),
{
    if fields.len() == 0 {
        Seq::empty()
    } else {
        let prev = fields_numbers(fields.drop_last());
        match field_number(fields.last()) {
            Some(n) => prev.push(n),
            None => prev,
        }
    }
}

/// Numbers accepted from a CSV payload.
pub open spec fn csv_numbers(s: Seq<char>) -> Seq<u16> {
    fields_numbers(split_commas(s))
}

/// The last `n` elements of `s` (all of it when shorter).
pub open spec fn keep_last<T>(s: Seq<T>, n: nat) -> Seq<T> {
    if s.len() > n {
        s.skip(s.len() - n)
    } else {
        s
    }
}

/// The first `n` elements of `s` (all of it when shorter).
pub open spec fn keep_first<T>(s: Seq<T>, n: nat) -> Seq<T> {
    if s.len() > n {
        s.take(n as int)
    } else {
        s
    }
}

proof fn lemma_split_commas_nonempty(s: Seq<char>)
    ensures
        split_commas(s).len() >= 1,
    decreases s.len(),
{
    if s.len() > 0 {
        lemma_split_commas_nonempty(s.drop_last());
    }
}

proof fn lemma_keep_last_push<T>(s: Seq<T>, x: T, n: nat)
    requires
        n > 0,
    ensures
        keep_last(keep_last(s, n).push(x), n) == keep_last(s.push(x), n),
{
    assert(keep_last(keep_last(s, n).push(x), n) =~= keep_last(s.push(x), n));
}

proof fn lemma_trim_start_skip(t: Seq<char>, i: int)
    requires
        0 <= i <= t.len(),
        forall|k: int| 0 <= k < i ==> is_unicode_whitespace(#[trigger] t[k]),
        i == t.len() || !is_unicode_whitespace(t[i]),
    ensures
        trim_start(t) == t.skip(i),
    decreases i,
{
    if i == 0 {
        assert(t.skip(0) =~= t);
    } else {
        lemma_trim_start_skip(t.drop_first(), i - 1);
        assert(t.drop_first().skip(i - 1) =~= t.skip(i));
    }
}

proof fn lemma_trim_end_take(t: Seq<char>, j: int)
    requires
        0 <= j <= t.len(),
        forall|k: int| j <= k < t.len() ==> is_unicode_whitespace(#[trigger] t[k]),
        j == 0 || !is_unicode_whitespace(t[j - 1]),
    ensures
        trim_end(t) == t.take(j),
    decreases t.len() - j,
{
    if j == t.len() {
        assert(t.take(j) =~= t);
    } else {
        lemma_trim_end_take(t.drop_last(), j);
        assert(t.drop_last().take(j) =~= t.take(j));
    }
}

proof fn lemma_digits_value_monotone(d: Seq<char>, m: int)
    requires
        0 <= m <= d.len(),
    ensures
        digits_value(d.take(m)) <= digits_value(d),
    decreases d.len() - m,
{
    if m < d.len() {
        lemma_digits_value_monotone(d.drop_last(), m);
        assert(d.drop_last().take(m) =~= d.take(m));
        assert(digits_value(d.drop_last()) <= digits_value(d)) by (nonlinear_arith)
            requires
                digits_value(d) == digits_value(d.drop_last()) * 10 + ((d.last() as nat) - 48) as nat,
        ;
    } else {
        assert(d.take(m) =~= d);
    }
}

fn is_whitespace_char(c: char) -> (b: bool)
    ensures
        b == is_unicode_whitespace(c),
{
    let u = c as u32;
    (9 <= u && u <= 13) || u == 32 || u == 0x85 || u == 0xA0 || u == 0x1680 || (0x2000 <= u && u <= 0x200A)
        || u == 0x2028 || u == 0x2029 || u == 0x202F || u == 0x205F || u == 0x3000
}

/// Parse `t[from..to]` as a `u16`.
fn parse_u16_range(t: &Vec<char>, from: usize, to: usize) -> (r: Option<u16>)
    requires
        from <= to <= t@.len(),
    ensures
        r == parse_u16(t@.subrange(from as int, to as int)),
{
    let ghost field = t@.subrange(from as int, to as int);
    if from == to {
        return None;
    }
    let mut k = from;
    if t[k] == '+' {
        k = k + 1;
    }
    let ghost d = t@.subrange(k as int, to as int);
    assert(d =~= if field[0] == '+' { field.drop_first() } else { field });
    if k == to {
        return None;
    }
    let start = k;
    let mut v: u32 = 0;
    while k < to
        invariant
            start <= k <= to <= t@.len(),
            d == t@.subrange(start as int, to as int),
            d.len() > 0,
            from < to,
            field == t@.subrange(from as int, to as int),
            d == (if field[0] == '+' { field.drop_first() } else { field }),
            v == digits_value(d.take(k - start)),
            v <= 65535,
            forall|i: int| 0 <= i < k - start ==> is_digit(#[trigger] d[i]),
        decreases to - k,
    {
        let c = t[k];
        assert(d[k - start] == c);
        if !('0' <= c && c <= '9') {
            proof {
                let dd = if field[0] == '+' { field.drop_first() } else { field };
                assert(dd[k - start] == c);
                assert(!is_digit(dd[k - start]));
                assert(!all_digits(dd));
            }
            return None;
        }
        assert(d.take(k - start + 1).drop_last() =~= d.take(k - start));
        v = v * 10 + ((c as u32) - 48);
        k = k + 1;
        if v > 65535 {
            proof {
                lemma_digits_value_monotone(d, k - start);
                assert(digits_value(d) > 65535);
            }
            return None;
        }
    }
    assert(d.take(d.len() as int) =~= d);
    Some(v as u16)
}

/// The number a field contributes, if any.
fn field_number_exec(field: &Vec<char>) -> (r: Option<u16>)
    ensures
        r == field_number(field@),
{
    let len = field.len();
    let mut i: usize = 0;
    while i < len && is_whitespace_char(field[i])
        invariant
            i <= len == field@.len(),
            forall|k: int| 0 <= k < i ==> is_unicode_whitespace(#[trigger] field@[k]),
        decreases len - i,
    {
        i = i + 1;
    }
    proof {
        lemma_trim_start_skip(field@, i as int);
    }
    let mut j: usize = len;
    while j > i && is_whitespace_char(field[j - 1])
        invariant
            i <= j <= len == field@.len(),
            forall|k: int| j <= k < len ==> is_unicode_whitespace(#[trigger] field@[k]),
        decreases j - i,
    {
        j = j - 1;
    }
    proof {
        let rest = field@.skip(i as int);
        assert forall|k: int| j - i <= k < rest.len() implies is_unicode_whitespace(#[trigger] rest[k]) by {
            assert(rest[k] == field@[k + i]);
        }
        if j > i {
            assert(rest[j - i - 1] == field@[j - 1]);
        }
        lemma_trim_end_take(rest, j - i);
        assert(rest.take(j - i) =~= field@.subrange(i as int, j as int));
    }
    match parse_u16_range(field, i, j) {
        Some(n) => if n <= MAX_ACCEPTED_NUMBER {
            Some(n)
        } else {
            None
        },
        None => None,
    }
}

// ---------------------------------------------------------------------------
// OTP computation
// ---------------------------------------------------------------------------

/// Big-endian bytes of a `u16`.
pub open spec fn be_bytes_u16(v: u16) -> Seq<u8> {
    seq![(v >> 8u16) as u8, v as u8]
}

/// Big-endian bytes of a `u128`.
pub open spec fn be_bytes_u128(v: u128) -> Seq<u8> {
    Seq::new(16, |i: int| (v >> ((120 - 8 * i) as u128)) as u8)
}

/// The SHA-256 digest an OTP is derived from.
pub open spec fn otp_digest(source_number: u16, timestamp_micros: u128) -> Seq<u8> {
    digest32(be_bytes_u16(source_number) + be_bytes_u128(timestamp_micros))
}

/// A byte string read as one big-endian number.
pub open spec fn be_value(s: Seq<u8>) -> nat
    decreases s.len(),
{
    if s.len() == 0 {
        0
    } else {
        be_value(s.drop_last()) * 256 + (s.last() as nat)
    }
}

/// The OTP value: the whole digest, read as a big-endian number, modulo 1,000,000.
pub open spec fn otp_value(source_number: u16, timestamp_micros: u128) -> nat {
    be_value(otp_digest(source_number, timestamp_micros)) % 1_000_000
}

proof fn lemma_horner_step(x: nat, b: nat)
    ensures
        ((x % 1_000_000) * 256 + b) % 1_000_000 == (x * 256 + b) % 1_000_000,
{
    let m: int = 1_000_000;
    let q: int = x as int / m;
    let r: int = x as int % m;
    vstd::arithmetic::div_mod::lemma_fundamental_div_mod(x as int, m);
    assert(x * 256 + b == m * (q * 256) + (r * 256 + b)) by (nonlinear_arith)
        requires
            x == m * q + r,
    ;
    vstd::arithmetic::div_mod::lemma_mod_multiples_vanish(q * 256, r * 256 + b, m);
}

/// A number below 1,000,000 as six decimal digits (`{:06}`).
pub open spec fn six_digits(n: nat) -> Seq<char> {
    seq![
        digit_char((n / 100000) % 10),
        digit_char((n / 10000) % 10),
        digit_char((n / 1000) % 10),
        digit_char((n / 100) % 10),
        digit_char((n / 10) % 10),
        digit_char(n % 10),
    ]
}

/// The OTP text for a number and timestamp.
pub open spec fn otp_text(source_number: u16, timestamp_micros: u128) -> Seq<char> {
    six_digits(otp_value(source_number, timestamp_micros))
}

/// The six-digit OTP for `source_number` at `timestamp_micros`.
pub fn otp_code(source_number: u16, timestamp_micros: u128) -> (s: String)
    ensures
        s@ == otp_text(source_number, timestamp_micros),
{
    let mut data: Vec<u8> = Vec::new();
    data.push((source_number >> 8u16) as u8);
    data.push(source_number as u8);
    let mut i: usize = 0;
    while i < 16
        invariant
            i <= 16,
            data@ =~= be_bytes_u16(source_number) + be_bytes_u128(timestamp_micros).take(i as int),
        decreases 16 - i,
    {
        let shift: u128 = (120 - 8 * i) as u128;
        data.push((timestamp_micros >> shift) as u8);
        i = i + 1;
    }
    assert(be_bytes_u128(timestamp_micros).take(16) =~= be_bytes_u128(timestamp_micros));
    let digest = sha256_digest(data.as_slice());
    assert(digest@ =~= otp_digest(source_number, timestamp_micros));
    let mut n: u32 = 0;
    let mut k: usize = 0;
    while k < 32
        invariant
            k <= 32,
            digest@.len() == 32,
            n < 1_000_000,
            n == be_value(digest@.take(k as int)) % 1_000_000,
        decreases 32 - k,
    {
        proof {
            assert(digest@.take(k + 1).drop_last() =~= digest@.take(k as int));
            lemma_horner_step(be_value(digest@.take(k as int)), digest@[k as int] as nat);
        }
        n = (n * 256 + digest[k] as u32) % 1_000_000;
        k = k + 1;
    }
    assert(digest@.take(32) =~= digest@);
    let mut s = String::new();
    push_char(&mut s, (((n / 100000) % 10) as u8 + 48) as char);
    push_char(&mut s, (((n / 10000) % 10) as u8 + 48) as char);
    push_char(&mut s, (((n / 1000) % 10) as u8 + 48) as char);
    push_char(&mut s, (((n / 100) % 10) as u8 + 48) as char);
    push_char(&mut s, (((n / 10) % 10) as u8 + 48) as char);
    push_char(&mut s, ((n % 10) as u8 + 48) as char);
    assert(s@ =~= six_digits(n as nat));
    s
}

/// Clock text `2025-01-01THH:MM:SSZ` for `secs` seconds since the epoch
/// (time of day only; the date part is fixed).
pub open spec fn clock_text(secs: u64) -> Seq<char> {
    "2025-01-01T"@ + two_digits(((secs / 3600) % 24) as nat) + ":"@ + two_digits(((secs / 60) % 60) as nat) + ":"@
        + two_digits((secs % 60) as nat) + "Z"@
}

/// The clock text for `secs`.
pub fn clock_text_of(secs: u64) -> (s: String)
    ensures
        s@ == clock_text(secs),
{
    let mut s = string_of("2025-01-01T");
    push_two_digits(&mut s, (secs / 3600) % 24);
    push_str(&mut s, ":");
    push_two_digits(&mut s, (secs / 60) % 60);
    push_str(&mut s, ":");
    push_two_digits(&mut s, secs % 60);
    push_str(&mut s, "Z");
    s
}

/// The current time as clock text.
pub fn now_iso() -> (s: String)
    ensures
        exists|secs: u64| s@ == clock_text(secs),
{
    clock_text_of(unix_time_secs())
}

// ---------------------------------------------------------------------------
// Service
// ---------------------------------------------------------------------------

/// One generated OTP.
#[derive(Debug, Clone)]
pub struct OtpRecord {
    pub otp: String,
    pub source_number: u16,
    pub timestamp_micros: u128,
    pub created_at: String,
}

/// Abstract value of an `OtpRecord`.
pub struct OtpRecordView {
    pub otp: Seq<char>,
    pub source_number: u16,
    pub timestamp_micros: u128,
    pub created_at: Seq<char>,
}

impl View for OtpRecord {
    type V = OtpRecordView;

    open spec fn view(&self) -> OtpRecordView {
        OtpRecordView {
            otp: self.otp@,
            source_number: self.source_number,
            timestamp_micros: self.timestamp_micros,
            created_at: self.created_at@,
        }
    }
}

/// Views of a sequence of strings.
pub open spec fn strings_view(s: Seq<String>) -> Seq<Seq<char>> {
    s.map_values(|x: String| x@)
}

/// Views of a sequence of records.
pub open spec fn records_view(s: Seq<OtpRecord>) -> Seq<OtpRecordView> {
    s.map_values(|x: OtpRecord| x@)
}

/// Message when no random number has arrived yet.
pub open spec fn no_numbers_text() -> Seq<char> {
    "No random numbers available yet. Wait for MQTT data."@
}

/// The record an OTP request produces from the stored numbers.
pub open spec fn otp_record_for(numbers: Seq<u16>, timestamp_micros: u128, created_at: Seq<char>) -> OtpRecordView {
    let index = ((timestamp_micros as usize) as nat) % numbers.len();
    let n = numbers[index as int];
    OtpRecordView { otp: otp_text(n, timestamp_micros), source_number: n, timestamp_micros, created_at }
}

/// OTP service state: random numbers, sensor parameters, OTP history and the
/// device MAC with its validation result.
pub struct OtpService {
    pub random_numbers: VecDeque<u16>,
    pub sensor_params: VecDeque<String>,
    pub otp_history: VecDeque<OtpRecord>,
    /// The first MAC address received.
    pub mac_address: Option<String>,
    /// Blockchain validation of the MAC: `None` not checked yet, `Some(valid)` after.
    pub mac_validated: Option<bool>,
}

impl OtpService {
    /// An empty service.
    pub fn new() -> (s: Self)
        ensures
            s.random_numbers@ == Seq::<u16>::empty(),
            s.sensor_params@ == Seq::<String>::empty(),
            s.otp_history@ == Seq::<OtpRecord>::empty(),
            s.mac_address is None,
            s.mac_validated is None,
    {
        OtpService {
            random_numbers: VecDeque::new(),
            sensor_params: VecDeque::new(),
            otp_history: VecDeque::new(),
            mac_address: None,
            mac_validated: None,
        }
    }

    fn store_number(&mut self, n: u16)
        ensures
            final(self).random_numbers@ == keep_last(old(self).random_numbers@.push(n), MAX_NUMBERS as nat),
            final(self).sensor_params == old(self).sensor_params,
            final(self).otp_history == old(self).otp_history,
            final(self).mac_address == old(self).mac_address,
            final(self).mac_validated == old(self).mac_validated,
    {
        self.random_numbers.push_back(n);
        let ghost pushed = self.random_numbers@;
        while self.random_numbers.len() > MAX_NUMBERS
            invariant
                keep_last(self.random_numbers@, MAX_NUMBERS as nat) == keep_last(pushed, MAX_NUMBERS as nat),
                self.sensor_params == old(self).sensor_params,
                self.otp_history == old(self).otp_history,
                self.mac_address == old(self).mac_address,
                self.mac_validated == old(self).mac_validated,
            decreases self.random_numbers@.len(),
        {
            let ghost before = self.random_numbers@;
            let _ = self.random_numbers.pop_front();
            assert(keep_last(self.random_numbers@, MAX_NUMBERS as nat) =~= keep_last(before, MAX_NUMBERS as nat));
        }
    }

    /// Parse a CSV payload like "4716,5636,2202,5006" and store every field that
    /// parses as a number up to 9999, keeping only the most recent 10,000 numbers.
    /// Nothing is stored once the MAC has been found invalid.
    pub fn ingest_numbers(&mut self, csv: &str)
        ensures
            final(self).random_numbers@ == if old(self).mac_validated == Some(false) || csv_numbers(csv@).len()
                == 0 {
                old(self).random_numbers@
            } else {
                keep_last(old(self).random_numbers@ + csv_numbers(csv@), MAX_NUMBERS as nat)
            },
            final(self).sensor_params == old(self).sensor_params,
            final(self).otp_history == old(self).otp_history,
            final(self).mac_address == old(self).mac_address,
            final(self).mac_validated == old(self).mac_validated,
    {
        if self.mac_validated == Some(false) {
            return;
        }
        let chars = chars_of(csv);
        let ghost all = chars@;
        let mut field: Vec<char> = Vec::new();
        let ghost mut count: nat = 0;
        let mut i: usize = 0;
        proof {
            lemma_split_commas_nonempty(all.take(0));
            assert(all.take(0) =~= Seq::<char>::empty());
        }
        while i < chars.len()
            invariant
                i <= chars@.len(),
                chars@ == all,
                split_commas(all.take(i as int)).len() >= 1,
                field@ == split_commas(all.take(i as int)).last(),
                count == fields_numbers(split_commas(all.take(i as int)).drop_last()).len(),
                count == 0 ==> self.random_numbers@ == old(self).random_numbers@,
                count > 0 ==> self.random_numbers@ == keep_last(
                    old(self).random_numbers@ + fields_numbers(split_commas(all.take(i as int)).drop_last()),
                    MAX_NUMBERS as nat,
                ),
                self.sensor_params == old(self).sensor_params,
                self.otp_history == old(self).otp_history,
                self.mac_address == old(self).mac_address,
                self.mac_validated == old(self).mac_validated,
            decreases chars@.len() - i,
        {
            let c = chars[i];
            let ghost prev_fields = split_commas(all.take(i as int));
            assert(all.take(i + 1).drop_last() =~= all.take(i as int));
            assert(all.take(i + 1).last() == c);
            if c == ',' {
                let ghost done = prev_fields.drop_last();
                assert(split_commas(all.take(i + 1)).drop_last() =~= prev_fields);
                assert(prev_fields =~= done.push(prev_fields.last()));
                assert(prev_fields.drop_last() =~= done);
                match field_number_exec(&field) {
                    Some(n) => {
                        let ghost before = self.random_numbers@;
                        self.store_number(n);
                        proof {
                            if count > 0 {
                                lemma_keep_last_push(old(self).random_numbers@ + fields_numbers(done), n, MAX_NUMBERS as nat);
                            }
                            assert(fields_numbers(prev_fields) == fields_numbers(done).push(n));
                            assert(old(self).random_numbers@ + fields_numbers(done).push(n) =~= (old(self).random_numbers@
                                + fields_numbers(done)).push(n));
                            count = count + 1;
                        }
                    },
                    None => {
                        assert(fields_numbers(prev_fields) == fields_numbers(done));
                    },
                }
                field = Vec::new();
                assert(field@ =~= split_commas(all.take(i + 1)).last());
            } else {
                field.push(c);
                assert(split_commas(all.take(i + 1)).drop_last() =~= prev_fields.drop_last());
            }
            i = i + 1;
        }
        assert(all.take(chars@.len() as int) =~= all);
        let ghost fields = split_commas(all);
        assert(fields =~= fields.drop_last().push(fields.last()));
        match field_number_exec(&field) {
            Some(n) => {
                self.store_number(n);
                proof {
                    if count > 0 {
                        lemma_keep_last_push(old(self).random_numbers@ + fields_numbers(fields.drop_last()), n, MAX_NUMBERS as nat);
                    }
                    assert(fields_numbers(fields) == fields_numbers(fields.drop_last()).push(n));
                    assert(old(self).random_numbers@ + fields_numbers(fields.drop_last()).push(n) =~= (old(self).random_numbers@
                        + fields_numbers(fields.drop_last())).push(n));
                    if count == 0 {
                        assert(fields_numbers(fields.drop_last()) =~= Seq::<u16>::empty());
                        assert(old(self).random_numbers@ + fields_numbers(fields) =~= old(self).random_numbers@.push(n));
                    }
                }
            },
            None => {
                assert(fields_numbers(fields) == fields_numbers(fields.drop_last()));
            },
        }
    }

    /// Store the MAC address from the MAC topic; only the first one is kept.
    /// Returns whether it was new (and so needs blockchain validation).
    pub fn ingest_mac(&mut self, mac: &str) -> (is_new: bool)
        ensures
            is_new == (old(self).mac_address is None),
            is_new ==> final(self).mac_address is Some && final(self).mac_address->Some_0@ == mac@,
            !is_new ==> final(self).mac_address == old(self).mac_address,
            final(self).random_numbers == old(self).random_numbers,
            final(self).sensor_params == old(self).sensor_params,
            final(self).otp_history == old(self).otp_history,
            final(self).mac_validated == old(self).mac_validated,
    {
        if self.mac_address.is_some() {
            return false;
        }
        self.mac_address = Some(string_of(mac));
        true
    }

    /// Record the MAC validation result; an invalid MAC clears all stored numbers.
    pub fn set_mac_validated(&mut self, valid: bool)
        ensures
            final(self).mac_validated == Some(valid),
            final(self).random_numbers@ == if valid { old(self).random_numbers@ } else { Seq::<u16>::empty() },
            final(self).sensor_params == old(self).sensor_params,
            final(self).otp_history == old(self).otp_history,
            final(self).mac_address == old(self).mac_address,
    {
        self.mac_validated = Some(valid);
        if !valid {
            self.random_numbers.clear();
        }
    }

    /// Store a raw sensor parameter string (empty strings are ignored), keeping
    /// only the most recent 1,000.
    pub fn ingest_params(&mut self, raw: &str)
        ensures
            strings_view(final(self).sensor_params@) == if raw@.len() == 0 {
                strings_view(old(self).sensor_params@)
            } else {
                keep_last(strings_view(old(self).sensor_params@).push(raw@), MAX_PARAMS as nat)
            },
            final(self).random_numbers == old(self).random_numbers,
            final(self).otp_history == old(self).otp_history,
            final(self).mac_address == old(self).mac_address,
            final(self).mac_validated == old(self).mac_validated,
    {
        if raw.is_empty() {
            return;
        }
        let ghost old_view = strings_view(self.sensor_params@);
        self.sensor_params.push_back(string_of(raw));
        assert(strings_view(self.sensor_params@) =~= old_view.push(raw@));
        let ghost pushed = old_view.push(raw@);
        while self.sensor_params.len() > MAX_PARAMS
            invariant
                keep_last(strings_view(self.sensor_params@), MAX_PARAMS as nat) == keep_last(pushed, MAX_PARAMS as nat),
                self.random_numbers == old(self).random_numbers,
                self.otp_history == old(self).otp_history,
                self.mac_address == old(self).mac_address,
                self.mac_validated == old(self).mac_validated,
            decreases self.sensor_params@.len(),
        {
            let ghost before = strings_view(self.sensor_params@);
            let _ = self.sensor_params.pop_front();
            assert(strings_view(self.sensor_params@) =~= before.drop_first());
            assert(keep_last(strings_view(self.sensor_params@), MAX_PARAMS as nat) =~= keep_last(before, MAX_PARAMS as nat));
        }
    }

    /// Generate an OTP from the stored numbers at the given time: the number at
    /// index `timestamp_micros mod count` is hashed with the timestamp. The record
    /// is put at the front of the history, which keeps the latest 100.
    pub fn generate_otp_at(&mut self, timestamp_micros: u128, created_at: String) -> (r: Result<
        OtpRecord,
        String,
    >)
        ensures
            old(self).random_numbers@.len() == 0 ==> r is Err && r->Err_0@ == no_numbers_text() && *final(self)
                == *old(self),
            old(self).random_numbers@.len() > 0 ==> {
                let rec = otp_record_for(old(self).random_numbers@, timestamp_micros, created_at@);
                &&& r is Ok
                &&& r->Ok_0@ == rec
                &&& records_view(final(self).otp_history@) == keep_first(
                    seq![rec] + records_view(old(self).otp_history@),
                    MAX_HISTORY as nat,
                )
                &&& final(self).random_numbers == old(self).random_numbers
                &&& final(self).sensor_params == old(self).sensor_params
                &&& final(self).mac_address == old(self).mac_address
                &&& final(self).mac_validated == old(self).mac_validated
            },
    {
        let count = self.random_numbers.len();
        if count == 0 {
            return Err(string_of("No random numbers available yet. Wait for MQTT data."));
        }
        let index = (timestamp_micros as usize) % count;
        let source_number = self.random_numbers[index];
        let otp = otp_code(source_number, timestamp_micros);
        let record = OtpRecord { otp, source_number, timestamp_micros, created_at };
        let ghost old_view = records_view(self.otp_history@);
        let kept = OtpRecord {
            otp: record.otp.clone(),
            source_number: record.source_number,
            timestamp_micros: record.timestamp_micros,
            created_at: record.created_at.clone(),
        };
        self.otp_history.push_front(kept);
        assert(kept@ == record@);
        assert(records_view(self.otp_history@) =~= seq![record@] + old_view);
        let ghost pushed = seq![record@] + old_view;
        while self.otp_history.len() > MAX_HISTORY
            invariant
                keep_first(records_view(self.otp_history@), MAX_HISTORY as nat) == keep_first(pushed, MAX_HISTORY as nat),
                self.random_numbers == old(self).random_numbers,
                self.sensor_params == old(self).sensor_params,
                self.mac_address == old(self).mac_address,
                self.mac_validated == old(self).mac_validated,
            decreases self.otp_history@.len(),
        {
            let ghost before = records_view(self.otp_history@);
            let _ = self.otp_history.pop_back();
            assert(records_view(self.otp_history@) =~= before.drop_last());
            assert(keep_first(records_view(self.otp_history@), MAX_HISTORY as nat) =~= keep_first(before, MAX_HISTORY as nat));
        }
        Ok(record)
    }

    /// Generate an OTP from the stored numbers at the current time.
    pub fn generate_otp(&mut self) -> (r: Result<OtpRecord, String>)
        ensures
            old(self).random_numbers@.len() == 0 ==> r is Err && r->Err_0@ == no_numbers_text() && *final(self)
                == *old(self),
            old(self).random_numbers@.len() > 0 ==> {
                &&& r is Ok
                &&& r->Ok_0@ == otp_record_for(
                    old(self).random_numbers@,
                    r->Ok_0.timestamp_micros,
                    r->Ok_0.created_at@,
                )
                &&& records_view(final(self).otp_history@) == keep_first(
                    seq![r->Ok_0@] + records_view(old(self).otp_history@),
                    MAX_HISTORY as nat,
                )
                &&& final(self).random_numbers == old(self).random_numbers
                &&& final(self).sensor_params == old(self).sensor_params
                &&& final(self).mac_address == old(self).mac_address
                &&& final(self).mac_validated == old(self).mac_validated
                &&& exists|secs: u64| r->Ok_0.created_at@ == clock_text(secs)
            },
    {
        if self.random_numbers.len() == 0 {
            return Err(string_of("No random numbers available yet. Wait for MQTT data."));
        }
        let timestamp_micros = unix_time_micros();
        let created_at = now_iso();
        self.generate_otp_at(timestamp_micros, created_at)
    }
}

/// At most 10,000 numbers are kept, and every kept number is at most 9999
/// when that held before.
pub proof fn lemma_numbers_bounded(old_numbers: Seq<u16>, csv: Seq<char>)
    requires
        forall|i: int| 0 <= i < old_numbers.len() ==> old_numbers[i] <= MAX_ACCEPTED_NUMBER,
        old_numbers.len() <= MAX_NUMBERS,
    ensures
        ({
            let kept = if csv_numbers(csv).len() == 0 {
                old_numbers
            } else {
                keep_last(old_numbers + csv_numbers(csv), MAX_NUMBERS as nat)
            };
            &&& kept.len() <= MAX_NUMBERS
            &&& forall|i: int| 0 <= i < kept.len() ==> kept[i] <= MAX_ACCEPTED_NUMBER
        }),
{
    lemma_fields_numbers_bounded(split_commas(csv));
    let all = old_numbers + csv_numbers(csv);
    assert forall|i: int| 0 <= i < all.len() implies all[i] <= MAX_ACCEPTED_NUMBER by {
        if i >= old_numbers.len() {
            assert(all[i] == csv_numbers(csv)[i - old_numbers.len()]);
        }
    }
    let kept = keep_last(all, MAX_NUMBERS as nat);
    assert forall|i: int| 0 <= i < kept.len() implies kept[i] <= MAX_ACCEPTED_NUMBER by {
        if all.len() > MAX_NUMBERS {
            assert(kept[i] == all[i + all.len() - MAX_NUMBERS]);
        }
    }
}

proof fn lemma_fields_numbers_bounded(fields: Seq<Seq<char>>)
    ensures
        forall|i: int|
            0 <= i < fields_numbers(fields).len() ==> #[trigger] fields_numbers(fields)[i] <= MAX_ACCEPTED_NUMBER,
    decreases fields.len(),
{
    if fields.len() > 0 {
        lemma_fields_numbers_bounded(fields.drop_last());
        let prev = fields_numbers(fields.drop_last());
        match field_number(fields.last()) {
            Some(n) => {
                assert forall|i: int| 0 <= i < prev.push(n).len() implies #[trigger] prev.push(n)[i]
                    <= MAX_ACCEPTED_NUMBER by {
                    if i < prev.len() {
                        assert(prev.push(n)[i] == prev[i]);
                    }
                }
            },
            None => {},
        }
    }
}

/// Every OTP is six decimal digits.
pub proof fn lemma_otp_six_digits(source_number: u16, timestamp_micros: u128)
    ensures
        otp_text(source_number, timestamp_micros).len() == 6,
        forall|i: int| 0 <= i < 6 ==> is_digit(#[trigger] otp_text(source_number, timestamp_micros)[i]),
{
    let n = otp_value(source_number, timestamp_micros);
    let t = otp_text(source_number, timestamp_micros);
    assert(is_digit(t[0]) && is_digit(t[1]) && is_digit(t[2]) && is_digit(t[3]) && is_digit(t[4]) && is_digit(t[5]));
}

/// An OTP record uses the stored number at index `timestamp mod count` (for any
/// timestamp a `usize` holds), hashes that number with the full timestamp, and
/// keeps the timestamp and creation text it was given.
pub proof fn lemma_otp_record_picks_by_timestamp(numbers: Seq<u16>, t: u128, created_at: Seq<char>)
    requires
        numbers.len() > 0,
        t <= usize::MAX,
    ensures
        ({
            let rec = otp_record_for(numbers, t, created_at);
            let n = numbers[((t as nat) % numbers.len()) as int];
            &&& rec.source_number == n
            &&& rec.otp == six_digits(
                be_value(digest32(be_bytes_u16(n) + be_bytes_u128(t))) % 1_000_000,
            )
            &&& rec.timestamp_micros == t
            &&& rec.created_at == created_at
        }),
{
    assert((t as usize) as nat == t);
}

} // verus!
