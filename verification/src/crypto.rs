//! Turning random bytes into passwords, keys and hex tokens.
use vstd::prelude::*;

use crate::errors::{EntropyError, EntropyErrorView};
use crate::models::PasswordConfig;
use crate::text::push_char;

verus! {

/// Lower-case hexadecimal digit for a value below 16.
pub open spec fn hex_lower_digit(d: nat) -> char {
    if d < 10 {
        ((d + 48) as u8) as char
    } else {
        ((d + 87) as u8) as char
    }
}

/// Lower-case hexadecimal encoding: two digits per byte, high nibble first.
pub open spec fn hex_lower(bytes: Seq<u8>) -> Seq<char>
    decreases bytes.len(),
{
    if bytes.len() == 0 {
        Seq::empty()
    } else {
        hex_lower(bytes.drop_last()) + seq![
            hex_lower_digit((bytes.last() / 16) as nat),
            hex_lower_digit((bytes.last() % 16) as nat),
        ]
    }
}

/// `hex::encode`: claimed to return the lower-case hexadecimal encoding of
/// `bytes`, two characters per byte from the table `0123456789abcdef`.
#[verifier::external_body]
fn hex_encode(bytes: &[u8]) -> (s: String)
    ensures
        s@ == hex_lower(bytes@),
{
    hex::encode(bytes)
}

/// The hex encoding is twice as long as its input.
pub proof fn lemma_hex_len(bytes: Seq<u8>)
    ensures
        hex_lower(bytes).len() == 2 * bytes.len(),
    decreases bytes.len(),
{
    if bytes.len() > 0 {
        lemma_hex_len(bytes.drop_last());
    }
}

/// Every character of the encoding is a lower-case hexadecimal digit.
pub proof fn lemma_hex_digits(bytes: Seq<u8>)
    ensures
        forall|i: int|
            0 <= i < hex_lower(bytes).len() ==> {
                let c = #[trigger] hex_lower(bytes)[i];
                ('0' <= c <= '9') || ('a' <= c <= 'f')
            },
    decreases bytes.len(),
{
    if bytes.len() > 0 {
        lemma_hex_digits(bytes.drop_last());
        lemma_hex_len(bytes.drop_last());
        let h = hex_lower(bytes);
        let p = hex_lower(bytes.drop_last());
        assert forall|i: int| 0 <= i < h.len() implies {
            let c = #[trigger] h[i];
            ('0' <= c <= '9') || ('a' <= c <= 'f')
        } by {
            if i < p.len() {
                assert(h[i] == p[i]);
            }
        }
    }
}

/// Characters drawn from `bytes` by rejection sampling over `charset`: each byte
/// below `limit` picks `charset[byte % charset.len()]`, other bytes are skipped.
pub open spec fn sampled_chars(bytes: Seq<u8>, charset: Seq<u8>, limit: nat) -> Seq<u8>
    decreases bytes.len(),
{
    if bytes.len() == 0 {
        Seq::empty()
    } else {
        let rest = sampled_chars(bytes.drop_last(), charset, limit);
        let b = bytes.last();
        if (b as nat) < limit {
            rest.push(charset[b as int % charset.len() as int])
        } else {
            rest
        }
    }
}

/// Largest multiple of `n` not above 256: the rejection-sampling limit.
pub open spec fn sampling_limit(n: nat) -> nat {
    (256nat / n) * n
}

/// Password generation result for given random bytes and configuration.
pub open spec fn password_spec(bytes: Seq<u8>, config: PasswordConfig) -> Result<Seq<char>, EntropyErrorView> {
    let charset = config.spec_charset();
    if charset.len() == 0 {
        Err(EntropyErrorView::InvalidLength { requested: config.length, max: 0 })
    } else {
        let chars = sampled_chars(bytes, charset, sampling_limit(charset.len()));
        if chars.len() < config.length {
            Err(EntropyErrorView::InvalidLength { requested: config.length, max: chars.len() as usize })
        } else {
            Ok(chars.take(config.length as int).map_values(|b: u8| b as char))
        }
    }
}

/// Output formatting of random bytes.
pub struct CryptoOutput;

impl CryptoOutput {
    /// Generate a password from random bytes using rejection sampling.
    ///
    /// For a charset of size N only bytes below the largest multiple of N that
    /// fits in a byte are used, which avoids modulo bias; other bytes are skipped.
    pub fn generate_password(random_bytes: &[u8], config: &PasswordConfig) -> (r: Result<String, EntropyError>)
        ensures
            match password_spec(random_bytes@, *config) {
                Ok(s) => r is Ok && r->Ok_0@ == s,
                Err(e) => r is Err && r->Err_0@ == e,
            },
    {
        let charset = config.charset();
        if charset.len() == 0 {
            return Err(EntropyError::InvalidLength { requested: config.length, max: 0 });
        }
        let n = charset.len();
        assert((256int / (n as int)) * (n as int) <= 256) by (nonlinear_arith)
            requires
                n > 0,
        ;
        let limit: usize = (256 / n) * n;
        let ghost set = charset@;
        assert(random_bytes@.take(random_bytes@.len() as int) =~= random_bytes@);
        let mut password: Vec<u8> = Vec::new();
        let mut i: usize = 0;
        while i < random_bytes.len()
            invariant
                i <= random_bytes@.len(),
                n == set.len(),
                n > 0,
                charset@ == set,
                limit == sampling_limit(n as nat),
                password@.len() <= config.length,
                random_bytes@.take(random_bytes@.len() as int) == random_bytes@,
                ({
                    let all = sampled_chars(random_bytes@.take(i as int), set, limit as nat);
                    password@ == if all.len() < config.length { all } else { all.take(config.length as int) }
                }),
            ensures
                ({
                    let all = sampled_chars(random_bytes@, set, limit as nat);
                    password@ == if all.len() < config.length { all } else { all.take(config.length as int) }
                }),
            decreases random_bytes@.len() - i,
        {
            if password.len() >= config.length {
                proof {
                    lemma_sampled_take_stable(random_bytes@, set, limit as nat, i as nat, random_bytes@.len(), config.length as nat);
                    assert(random_bytes@.take(random_bytes@.len() as int) =~= random_bytes@);
                }
                break;
            }
            let byte = random_bytes[i];
            assert(random_bytes@.take(i + 1).drop_last() =~= random_bytes@.take(i as int));
            if (byte as usize) < limit {
                let idx = (byte as usize) % n;
                password.push(charset[idx]);
            }
            i = i + 1;
        }
        if password.len() < config.length {
            return Err(EntropyError::InvalidLength { requested: config.length, max: password.len() });
        }
        let mut s = String::new();
        let mut k: usize = 0;
        while k < password.len()
            invariant
                k <= password@.len(),
                s@ =~= password@.take(k as int).map_values(|b: u8| b as char),
            decreases password@.len() - k,
        {
            push_char(&mut s, password[k] as char);
            k = k + 1;
        }
        assert(password@.take(password@.len() as int) =~= password@);
        Ok(s)
    }

    /// Extract a 32-byte AES-256 key: the first 32 random bytes.
    pub fn generate_aes256_key(random_bytes: &[u8]) -> (r: Result<[u8; 32], EntropyError>)
        ensures
            random_bytes@.len() >= 32 ==> r is Ok && r->Ok_0@ == random_bytes@.take(32),
            random_bytes@.len() < 32 ==> r is Err && r->Err_0@ == (EntropyErrorView::InvalidLength {
                requested: 32,
                max: random_bytes@.len() as usize,
            }),
    {
        if random_bytes.len() < 32 {
            return Err(EntropyError::InvalidLength { requested: 32, max: random_bytes.len() });
        }
        let mut key: [u8; 32] = [0u8; 32];
        let mut i: usize = 0;
        while i < 32
            invariant
                i <= 32,
                random_bytes@.len() >= 32,
                forall|k: int| 0 <= k < i ==> key@[k] == random_bytes@[k],
            decreases 32 - i,
        {
            key[i] = random_bytes[i];
            i = i + 1;
        }
        assert(key@ =~= random_bytes@.take(32));
        Ok(key)
    }

    /// Hex-encoded session token from random bytes.
    pub fn generate_session_token(random_bytes: &[u8]) -> (s: String)
        ensures
            s@ == hex_lower(random_bytes@),
    {
        Self::to_hex(random_bytes)
    }

    /// Lower-case hexadecimal encoding.
    pub fn to_hex(bytes: &[u8]) -> (s: String)
        ensures
            s@ == hex_lower(bytes@),
    {
        hex_encode(bytes)
    }
}

/// Once `len` characters have been sampled from a prefix, sampling further
/// bytes leaves the first `len` characters unchanged.
proof fn lemma_sampled_take_stable(bytes: Seq<u8>, charset: Seq<u8>, limit: nat, i: nat, j: nat, len: nat)
    requires
        i <= j <= bytes.len(),
        sampled_chars(bytes.take(i as int), charset, limit).len() >= len,
    ensures
        sampled_chars(bytes.take(j as int), charset, limit).len() >= len,
        sampled_chars(bytes.take(j as int), charset, limit).take(len as int) == sampled_chars(
            bytes.take(i as int),
            charset,
            limit,
        ).take(len as int),
    decreases j - i,
{
    if i < j {
        lemma_sampled_take_stable(bytes, charset, limit, i, (j - 1) as nat, len);
        assert(bytes.take(j as int).drop_last() =~= bytes.take(j - 1));
        let prev = sampled_chars(bytes.take(j - 1), charset, limit);
        let cur = sampled_chars(bytes.take(j as int), charset, limit);
        assert(cur.take(len as int) =~= prev.take(len as int));
    }
}

proof fn lemma_sampled_in_charset(bytes: Seq<u8>, charset: Seq<u8>, limit: nat)
    requires
        charset.len() > 0,
    ensures
        forall|i: int|
            0 <= i < sampled_chars(bytes, charset, limit).len() ==> charset.contains(
                #[trigger] sampled_chars(bytes, charset, limit)[i],
            ),
    decreases bytes.len(),
{
    if bytes.len() > 0 {
        let rest = sampled_chars(bytes.drop_last(), charset, limit);
        lemma_sampled_in_charset(bytes.drop_last(), charset, limit);
        let b = bytes.last();
        if (b as nat) < limit {
            let k = b as int % charset.len() as int;
            assert(charset[k] == charset[k]);
            assert(charset.contains(charset[k]));
            assert forall|i: int| 0 <= i < rest.len() implies charset.contains(#[trigger] rest.push(charset[k])[i]) by {
                assert(rest.push(charset[k])[i] == rest[i]);
            }
        }
    }
}

/// Every character of a generated password comes from the configuration's
/// character set.
pub proof fn lemma_password_in_charset(bytes: Seq<u8>, config: PasswordConfig)
    requires
        password_spec(bytes, config) is Ok,
    ensures
        forall|i: int|
            0 <= i < password_spec(bytes, config)->Ok_0.len() ==> exists|j: int|
                0 <= j < config.spec_charset().len() && #[trigger] password_spec(bytes, config)->Ok_0[i]
                    == config.spec_charset()[j] as char,
{
    let charset = config.spec_charset();
    let chars = sampled_chars(bytes, charset, sampling_limit(charset.len()));
    lemma_sampled_in_charset(bytes, charset, sampling_limit(charset.len()));
    let p = password_spec(bytes, config)->Ok_0;
    assert forall|i: int| 0 <= i < p.len() implies exists|j: int|
        0 <= j < charset.len() && #[trigger] p[i] == charset[j] as char by {
        assert(p[i] == chars[i] as char);
        assert(charset.contains(chars[i]));
        let j = choose|j: int| 0 <= j < charset.len() && charset[j] == chars[i];
        assert(p[i] == charset[j] as char);
    }
}

/// Number of byte values below `m` that pick character index `k` of an
/// `n`-character set (`b % n == k`).
pub open spec fn residue_count(m: nat, n: nat, k: nat) -> nat
    decreases m,
{
    if m == 0 {
        0
    } else {
        residue_count((m - 1) as nat, n, k) + if ((m - 1) as nat) % n == k { 1nat } else { 0nat }
    }
}

proof fn lemma_residue_count_partial(q: nat, j: nat, n: nat, k: nat)
    requires
        0 < n,
        k < n,
        j <= n,
    ensures
        residue_count(q * n + j, n, k) == q + if k < j { 1nat } else { 0nat },
    decreases q, j,
{
    if j == 0 {
        if q > 0 {
            lemma_residue_count_partial((q - 1) as nat, n, n, k);
            assert((q - 1) * n + n == q * n) by (nonlinear_arith);
        } else {
            assert(q * n == 0) by (nonlinear_arith)
                requires
                    q == 0,
            ;
        }
    } else {
        lemma_residue_count_partial(q, (j - 1) as nat, n, k);
        let m = q * n + j;
        assert(m - 1 == q * n + (j - 1)) by (nonlinear_arith)
            requires
                m == q * n + j,
                j >= 1,
        ;
        vstd::arithmetic::div_mod::lemma_mod_multiples_vanish(q as int, (j - 1) as int, n as int);
        vstd::arithmetic::div_mod::lemma_small_mod((j - 1) as nat, n);
        assert((n * q + (j - 1)) == q * n + (j - 1)) by (nonlinear_arith);
        assert(((m - 1) as nat) % n == j - 1);
    }
}

/// Rejection sampling has no modulo bias: below the sampling limit every index of
/// an `n`-character set is picked by exactly `256 / n` byte values.
pub proof fn lemma_sampling_unbiased(n: nat, k: nat)
    requires
        0 < n <= 256,
        k < n,
    ensures
        residue_count(sampling_limit(n), n, k) == 256nat / n,
{
    lemma_residue_count_partial(256nat / n, 0, n, k);
    assert(sampling_limit(n) == (256nat / n) * n + 0);
}

} // verus!
