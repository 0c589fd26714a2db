//! MAC address validation against a MultiChain "valid-macs" stream.
//!
//! The validator asks the MultiChain JSON-RPC API (`liststreamkeyitems`) whether
//! the stream holds items keyed by the MAC. The HTTP exchange itself belongs to
//! the application; this module holds the validator's settings, the HTTP Basic
//! authorization header, and the verdict drawn from the RPC reply.
use vstd::prelude::*;

use serde_json::Value;

use crate::mqtt::opt_view;
use crate::text::{push_char, push_str, string_of};

verus! {

/// The Base64 alphabet (RFC 4648): `A-Z`, `a-z`, `0-9`, `+`, `/`.
pub open spec fn base64_symbol(i: u32) -> char {
    if i < 26 {
        ((i + 65) as u8) as char
    } else if i < 52 {
        ((i + 71) as u8) as char
    } else if i < 62 {
        ((i - 4) as u8) as char
    } else if i == 62 {
        '+'
    } else {
        '/'
    }
}

/// The 24-bit group of the chunk starting at `3 * c` (missing bytes count as zero).
pub open spec fn base64_group(s: Seq<u8>, c: int) -> u32 {
    let b0 = s[3 * c] as u32;
    let b1 = if 3 * c + 1 < s.len() { s[3 * c + 1] as u32 } else { 0u32 };
    let b2 = if 3 * c + 2 < s.len() { s[3 * c + 2] as u32 } else { 0u32 };
    ((b0 << 16u32) | (b1 << 8u32) | b2) as u32
}

/// Output character `j` of the padded Base64 encoding of `s`.
pub open spec fn base64_char(s: Seq<u8>, j: int) -> char {
    let c = j / 4;
    let k = j % 4;
    let g = base64_group(s, c);
    if k == 2 && 3 * c + 1 >= s.len() {
        '='
    } else if k == 3 && 3 * c + 2 >= s.len() {
        '='
    } else {
        base64_symbol(((g >> ((18 - 6 * k) as u32)) & 0x3Fu32) as u32)
    }
}

/// Padded Base64 encoding (RFC 4648, standard alphabet): four characters for
/// every started group of three bytes.
pub open spec fn base64(s: Seq<u8>) -> Seq<char> {
    Seq::new(4 * ((s.len() + 2) / 3), |j: int| base64_char(s, j))
}

fn base64_symbol_exec(i: u32) -> (c: char)
    requires
        i < 64,
    ensures
        c == base64_symbol(i),
{
    if i < 26 {
        ((i + 65) as u8) as char
    } else if i < 52 {
        ((i + 71) as u8) as char
    } else if i < 62 {
        ((i - 4) as u8) as char
    } else if i == 62 {
        '+'
    } else {
        '/'
    }
}

/// Padded Base64 encoding of the UTF-8 bytes of `input` (for HTTP Basic auth).
pub fn base64_encode(input: &str) -> (out: String)
    ensures
        out@ == base64(vstd::utf8::encode_utf8(input@)),
{
    let bytes = input.as_bytes();
    let n = bytes.len();
    let ghost s = bytes@;
    let mut out = String::new();
    let mut c: usize = 0;
    while c * 3 < n
        invariant
            bytes@ == s,
            n == s.len(),
            c * 3 <= n + 2,
            out@.len() == 4 * c,
            forall|j: int| 0 <= j < 4 * c ==> out@[j] == #[trigger] base64_char(s, j),
        decreases n + 3 - c * 3,
    {
        let i = c * 3;
        let b0 = bytes[i] as u32;
        let b1 = if i + 1 < n { bytes[i + 1] as u32 } else { 0u32 };
        let b2 = if i + 2 < n { bytes[i + 2] as u32 } else { 0u32 };
        let triple: u32 = (b0 << 16u32) | (b1 << 8u32) | b2;
        assert(triple == base64_group(s, c as int));
        let ghost before = out@;
        assert(((triple >> 18u32) & 0x3Fu32) < 64) by (bit_vector);
        assert(((triple >> 12u32) & 0x3Fu32) < 64) by (bit_vector);
        assert(((triple >> 6u32) & 0x3Fu32) < 64) by (bit_vector);
        assert((triple & 0x3Fu32) < 64) by (bit_vector);
        assert(triple & 0x3Fu32 == (triple >> 0u32) & 0x3Fu32) by (bit_vector);
        push_char(&mut out, base64_symbol_exec((triple >> 18u32) & 0x3F));
        push_char(&mut out, base64_symbol_exec((triple >> 12u32) & 0x3F));
        if i + 1 < n {
            push_char(&mut out, base64_symbol_exec((triple >> 6u32) & 0x3F));
        } else {
            push_char(&mut out, '=');
        }
        if i + 2 < n {
            push_char(&mut out, base64_symbol_exec(triple & 0x3F));
        } else {
            push_char(&mut out, '=');
        }
        proof {
            assert forall|j: int| 0 <= j < 4 * (c + 1) implies out@[j] == #[trigger] base64_char(s, j) by {
                if j >= 4 * c {
                    assert(j / 4 == c as int);
                }
            }
        }
        c = c + 1;
    }
    assert(c == (n + 2) / 3);
    assert(out@ =~= base64(s));
    out
}

/// Validator settings for a MultiChain node.
pub struct BlockchainValidator {
    rpc_url: String,
    rpc_user: String,
    rpc_password: String,
    stream_name: String,
}

/// The stream that holds valid MACs.
pub open spec fn valid_macs_stream() -> Seq<char> {
    "valid-macs"@
}

/// `Basic <base64(user:password)>`.
pub open spec fn basic_auth_header(user: Seq<char>, password: Seq<char>) -> Seq<char> {
    "Basic "@ + base64(vstd::utf8::encode_utf8(user + ":"@ + password))
}

/// The verdict of an RPC reply: `Ok(valid)` when the reply holds a `result`
/// array (valid when it is non-empty), an error carrying the `error` text when
/// that is present and not null, and `Ok(false)` otherwise.
pub open spec fn reply_verdict_spec(result_entries: Option<usize>, error: Option<Seq<char>>) -> Result<bool, Seq<char>> {
    match result_entries {
        Some(n) => Ok(n > 0),
        None => match error {
            Some(e) => Err("MultiChain RPC error: "@ + e),
            None => Ok(false),
        },
    }
}

impl BlockchainValidator {
    /// A validator for the node at `rpc_url` with the given credentials,
    /// checking the "valid-macs" stream.
    pub fn new(rpc_url: String, rpc_user: String, rpc_password: String) -> (v: Self)
        ensures
            v.spec_rpc_url() == rpc_url@,
            v.spec_rpc_user() == rpc_user@,
            v.spec_rpc_password() == rpc_password@,
            v.spec_stream_name() == valid_macs_stream(),
    {
        BlockchainValidator { rpc_url, rpc_user, rpc_password, stream_name: string_of("valid-macs") }
    }

    pub closed spec fn spec_rpc_url(&self) -> Seq<char> {
        self.rpc_url@
    }

    pub closed spec fn spec_rpc_user(&self) -> Seq<char> {
        self.rpc_user@
    }

    pub closed spec fn spec_rpc_password(&self) -> Seq<char> {
        self.rpc_password@
    }

    pub closed spec fn spec_stream_name(&self) -> Seq<char> {
        self.stream_name@
    }

    /// JSON-RPC endpoint.
    pub fn rpc_url(&self) -> (s: &str)
        ensures
            s@ == self.spec_rpc_url(),
    {
        self.rpc_url.as_str()
    }

    /// Name of the stream of valid MACs.
    pub fn stream_name(&self) -> (s: &str)
        ensures
            s@ == self.spec_stream_name(),
    {
        self.stream_name.as_str()
    }

    /// The HTTP `Authorization` header for the node.
    pub fn auth_header(&self) -> (h: String)
        ensures
            h@ == basic_auth_header(self.spec_rpc_user(), self.spec_rpc_password()),
    {
        let mut credentials = string_of(self.rpc_user.as_str());
        push_str(&mut credentials, ":");
        push_str(&mut credentials, self.rpc_password.as_str());
        let mut header = string_of("Basic ");
        let encoded = base64_encode(credentials.as_str());
        push_str(&mut header, encoded.as_str());
        header
    }

    /// The verdict of a reply: `result_entries` is the length of the reply's
    /// `result` array if it has one, `error` the text of its `error` member when
    /// that is present and not null.
    pub fn reply_verdict(result_entries: Option<usize>, error: Option<String>) -> (r: Result<bool, String>)
        ensures
            match reply_verdict_spec(result_entries, match error {
                Some(e) => Some(e@),
                None => None,
            }) {
                Ok(b) => r == Ok::<bool, String>(b),
                Err(t) => r is Err && r->Err_0@ == t,
            },
    {
        match result_entries {
            Some(n) => Ok(n > 0),
            None => match error {
                Some(e) => {
                    let mut msg = string_of("MultiChain RPC error: ");
                    push_str(&mut msg, e.as_str());
                    Err(msg)
                },
                None => Ok(false),
            },
        }
    }
}

/// What a MultiChain JSON-RPC reply body holds, as `serde_json` reads it: the
/// length of its `result` member when that is an array, and the JSON text of its
/// `error` member when that is present and not null; or the parser's message
/// when the body is not JSON.
pub uninterp spec fn rpc_reply_fields(body: Seq<char>) -> Result<(Option<usize>, Option<Seq<char>>), Seq<char>>;

/// `serde_json::from_str::<Value>` on a reply body, then the `result` array's
/// length and the `error` member's JSON text (`Value`'s `Display`): claimed to be
/// `rpc_reply_fields` of the body, a function of the body alone. Nothing else
/// about JSON is stated.
#[verifier::external_body]
pub(crate) fn parse_rpc_reply(body: &str) -> (r: Result<(Option<usize>, Option<String>), String>)
    ensures
        match r {
            Ok((n, e)) => rpc_reply_fields(body@) == Ok::<(Option<usize>, Option<Seq<char>>), Seq<char>>((n, opt_view(e))),
            Err(m) => rpc_reply_fields(body@) == Err::<(Option<usize>, Option<Seq<char>>), Seq<char>>(m@),
        },
{
    match serde_json::from_str::<Value>(body) {
        Ok(v) => {
            let n = match v.get("result") {
                Some(Value::Array(a)) => Some(a.len()),
                _ => None,
            };
            let e = match v.get("error") {
                None | Some(Value::Null) => None,
                Some(e) => Some(e.to_string()),
            };
            Ok((n, e))
        },
        Err(e) => Err(e.to_string()),
    }
}

/// The verdict on a reply body: the verdict on its fields when it is JSON, and
/// `Failed to parse MultiChain response: ` with the parser's message when not.
pub fn verdict_from_body(body: &str) -> (r: Result<bool, String>)
    ensures
        match rpc_reply_fields(body@) {
            Ok((n, e)) => match reply_verdict_spec(n, e) {
                Ok(b) => r == Ok::<bool, String>(b),
                Err(t) => r is Err && r->Err_0@ == t,
            },
            Err(m) => r is Err && r->Err_0@ == "Failed to parse MultiChain response: "@ + m,
        },
{
    match parse_rpc_reply(body) {
        Ok((n, e)) => BlockchainValidator::reply_verdict(n, e),
        Err(m) => {
            let mut msg = string_of("Failed to parse MultiChain response: ");
            push_str(&mut msg, m.as_str());
            Err(msg)
        },
    }
}

} // verus!
