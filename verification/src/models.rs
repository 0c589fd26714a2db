//! Plain data types shared across the engine: parsed packets and password settings.
use vstd::prelude::*;

verus! {

/// Raw entropy packet parsed from UART serial data.
#[derive(Debug, Clone)]
pub struct EntropyPacket {
    pub source_id: u8,
    pub timestamp: u64,
    pub payload: Vec<u8>,
    pub checksum: u16,
}

/// Configuration for password generation.
#[derive(Debug, Clone)]
pub struct PasswordConfig {
    pub length: usize,
    pub uppercase: bool,
    pub lowercase: bool,
    pub digits: bool,
    pub symbols: bool,
}

/// The bytes `first, first + 1, ..., first + count - 1`.
pub open spec fn byte_range(first: u8, count: nat) -> Seq<u8> {
    Seq::new(count, |i: int| (first + i) as u8)
}

/// Lower-case ASCII letters.
pub open spec fn lowercase_set() -> Seq<u8> {
    byte_range(97, 26)
}

/// Upper-case ASCII letters.
pub open spec fn uppercase_set() -> Seq<u8> {
    byte_range(65, 26)
}

/// ASCII decimal digits.
pub open spec fn digit_set() -> Seq<u8> {
    byte_range(48, 10)
}

/// The password symbols `!@#$%^&*()-_=+[]{}<>?/~`, in that order.
pub open spec fn symbol_set() -> Seq<u8> {
    seq![33u8, 64, 35, 36, 37, 94, 38, 42, 40, 41, 45, 95, 61, 43, 91, 93, 123, 125, 60, 62, 63, 47, 126]
}

/// Character set of a configuration: lower-case letters, upper-case letters,
/// digits and symbols, each included when enabled, in that order.
pub open spec fn charset_of(lowercase: bool, uppercase: bool, digits: bool, symbols: bool) -> Seq<u8> {
    (if lowercase { lowercase_set() } else { Seq::empty() })
        + (if uppercase { uppercase_set() } else { Seq::empty() })
        + (if digits { digit_set() } else { Seq::empty() })
        + (if symbols { symbol_set() } else { Seq::empty() })
}

fn push_range(set: &mut Vec<u8>, first: u8, count: u8)
    requires
        first as int + count as int <= 256,
    ensures
        final(set)@ == old(set)@ + byte_range(first, count as nat),
{
    let mut i: u8 = 0;
    while i < count
        invariant
            i <= count,
            first as int + count as int <= 256,
            set@ =~= old(set)@ + byte_range(first, i as nat),
        decreases count - i,
    {
        set.push(first + i);
        i = i + 1;
    }
}

impl PasswordConfig {
    /// The character set spelled out by this configuration.
    pub open spec fn spec_charset(&self) -> Seq<u8> {
        charset_of(self.lowercase, self.uppercase, self.digits, self.symbols)
    }

    /// Build the character set from the enabled categories.
    pub fn charset(&self) -> (set: Vec<u8>)
        ensures
            set@ == self.spec_charset(),
    {
        let mut set: Vec<u8> = Vec::new();
        if self.lowercase {
            push_range(&mut set, 97, 26);
        }
        if self.uppercase {
            push_range(&mut set, 65, 26);
        }
        if self.digits {
            push_range(&mut set, 48, 10);
        }
        if self.symbols {
            let symbols: Vec<u8> = vec![33u8, 64, 35, 36, 37, 94, 38, 42, 40, 41, 45, 95, 61, 43, 91, 93, 123, 125, 60, 62, 63, 47, 126];
            let mut i: usize = 0;
            let ghost before = set@;
            while i < symbols.len()
                invariant
                    i <= symbols@.len(),
                    symbols@ == symbol_set(),
                    set@ =~= before + symbols@.take(i as int),
                decreases symbols@.len() - i,
            {
                set.push(symbols[i]);
                i = i + 1;
            }
            assert(symbols@.take(symbols@.len() as int) =~= symbols@);
        }
        assert(set@ =~= self.spec_charset());
        set
    }
}

impl Default for PasswordConfig {
    /// Twenty characters drawn from all four categories.
    fn default() -> (c: Self)
        ensures
            c.length == 20,
            c.uppercase && c.lowercase && c.digits && c.symbols,
    {
        PasswordConfig { length: 20, uppercase: true, lowercase: true, digits: true, symbols: true }
    }
}

} // verus!
