//! Text and binary codecs used by the proxy: base64 (standard alphabet,
//! padded), UTF-8, JSON and HTTP method tokens.
//!
//! The functions that call outside code are thin trusted wrappers around
//! one call each; their contracts say what the outside crate's source shows.
use vstd::prelude::*;
use vstd::utf8::{decode_utf8, valid_utf8};
use base64::Engine;

verus! {

/// `serde_json::Value`, carried through the library as an opaque value.
#[verifier::external_type_specification]
#[verifier::external_body]
pub struct ExJsonValue(serde_json::Value);

/// `serde_json::Error`, kept inside the library's own error type.
#[verifier::external_type_specification]
#[verifier::external_body]
pub struct ExJsonError(serde_json::Error);

/// `base64::DecodeError`, kept inside the library's own error type.
#[verifier::external_type_specification]
#[verifier::external_body]
pub struct ExBase64DecodeError(base64::DecodeError);

/// The character of the standard base64 alphabet for a 6-bit value.
pub open spec fn base64_char(v: int) -> char {
    if v < 26 {
        (65 + v) as char  // 'A'..'Z'
    } else if v < 52 {
        (97 + (v - 26)) as char  // 'a'..'z'
    } else if v < 62 {
        (48 + (v - 52)) as char  // '0'..'9'
    } else if v == 62 {
        '+'
    } else {
        '/'
    }
}

/// The padded standard base64 encoding (RFC 4648, section 4) of `data`:
/// each group of three bytes becomes four characters, and a last group of
/// one or two bytes is padded with `=` to four characters.
pub open spec fn base64_encoding(data: Seq<u8>) -> Seq<char>
    decreases data.len(),
{
    if data.len() == 0 {
        Seq::empty()
    } else if data.len() == 1 {
        let b0 = data[0] as int;
        seq![base64_char(b0 / 4), base64_char((b0 % 4) * 16), '=', '=']
    } else if data.len() == 2 {
        let b0 = data[0] as int;
        let b1 = data[1] as int;
        seq![
            base64_char(b0 / 4),
            base64_char((b0 % 4) * 16 + b1 / 16),
            base64_char((b1 % 16) * 4),
            '=',
        ]
    } else {
        let b0 = data[0] as int;
        let b1 = data[1] as int;
        let b2 = data[2] as int;
        seq![
            base64_char(b0 / 4),
            base64_char((b0 % 4) * 16 + b1 / 16),
            base64_char((b1 % 16) * 4 + b2 / 64),
            base64_char(b2 % 64),
        ] + base64_encoding(data.subrange(3, data.len() as int))
    }
}

/// Whether `text` is the padded base64 encoding of some bytes.
pub open spec fn is_base64_encoding(text: Seq<char>) -> bool {
    exists|data: Seq<u8>| #[trigger] base64_encoding(data) == text
}

/// No character of the base64 alphabet is the padding character.
proof fn lemma_base64_char_not_pad(v: int)
    requires
        0 <= v < 64,
    ensures
        base64_char(v) != '=',
{
}

/// Distinct 6-bit values have distinct characters.
proof fn lemma_base64_char_injective(x: int, y: int)
    requires
        0 <= x < 64,
        0 <= y < 64,
        base64_char(x) == base64_char(y),
    ensures
        x == y,
{
}

/// Two bytes or three that give the same characters are the same bytes.
proof fn lemma_base64_group(a: Seq<u8>, b: Seq<u8>, n: int)
    requires
        1 <= n <= 3,
        a.len() >= n,
        b.len() >= n,
        a[0] as int / 4 == b[0] as int / 4,
        (a[0] as int % 4) * 16 + (if n >= 2 { a[1] as int / 16 } else { 0 }) == (b[0] as int % 4)
            * 16 + (if n >= 2 { b[1] as int / 16 } else { 0 }),
        n >= 2 ==> (a[1] as int % 16) * 4 + (if n == 3 { a[2] as int / 64 } else { 0 }) == (b[1] as int
            % 16) * 4 + (if n == 3 { b[2] as int / 64 } else { 0 }),
        n == 3 ==> a[2] as int % 64 == b[2] as int % 64,
    ensures
        forall|i: int| 0 <= i < n ==> a[i] == b[i],
{
}

/// Distinct bytes have distinct padded base64 encodings: a text that
/// decodes at all decodes to exactly the bytes whose encoding it is. So the
/// base64 body of a response decodes back to the very bytes received.
pub proof fn law_base64_decodes_back(a: Seq<u8>, b: Seq<u8>)
    requires
        base64_encoding(a) == base64_encoding(b),
    ensures
        a == b,
    decreases a.len(),
{
    let ea = base64_encoding(a);
    let eb = base64_encoding(b);
    if a.len() == 0 || b.len() == 0 {
        if a.len() != 0 {
            assert(ea.len() >= 4);
        }
        if b.len() != 0 {
            assert(eb.len() >= 4);
        }
        assert(a =~= b);
    } else {
        let na: int = if a.len() >= 3 { 3 } else { a.len() as int };
        let nb: int = if b.len() >= 3 { 3 } else { b.len() as int };
        let a0 = a[0] as int;
        let b0 = b[0] as int;
        // The padding in the first four characters tells the group's size.
        if na >= 2 {
            let a1 = a[1] as int;
            lemma_base64_char_not_pad((a1 % 16) * 4 + (if na == 3 { a[2] as int / 64 } else { 0 }));
        }
        if na == 3 {
            lemma_base64_char_not_pad(a[2] as int % 64);
        }
        if nb >= 2 {
            let b1 = b[1] as int;
            lemma_base64_char_not_pad((b1 % 16) * 4 + (if nb == 3 { b[2] as int / 64 } else { 0 }));
        }
        if nb == 3 {
            lemma_base64_char_not_pad(b[2] as int % 64);
        }
        assert(ea[2] == eb[2]);
        assert(ea[3] == eb[3]);
        assert(na == nb);
        let n = na;
        assert(ea[0] == eb[0]);
        assert(ea[1] == eb[1]);
        lemma_base64_char_injective(a0 / 4, b0 / 4);
        if n == 1 {
            lemma_base64_char_injective((a0 % 4) * 16, (b0 % 4) * 16);
        } else {
            let a1 = a[1] as int;
            let b1 = b[1] as int;
            lemma_base64_char_injective((a0 % 4) * 16 + a1 / 16, (b0 % 4) * 16 + b1 / 16);
            if n == 2 {
                lemma_base64_char_injective((a1 % 16) * 4, (b1 % 16) * 4);
            } else {
                let a2 = a[2] as int;
                let b2 = b[2] as int;
                lemma_base64_char_injective((a1 % 16) * 4 + a2 / 64, (b1 % 16) * 4 + b2 / 64);
                lemma_base64_char_injective(a2 % 64, b2 % 64);
            }
        }
        lemma_base64_group(a, b, n);
        if n == 3 {
            let ra = a.subrange(3, a.len() as int);
            let rb = b.subrange(3, b.len() as int);
            assert(base64_encoding(ra) =~= ea.subrange(4, ea.len() as int));
            assert(base64_encoding(rb) =~= eb.subrange(4, eb.len() as int));
            law_base64_decodes_back(ra, rb);
            assert(a =~= b) by {
                assert forall|i: int| 0 <= i < a.len() implies a[i] == b[i] by {
                    if i >= 3 {
                        assert(a[i] == ra[i - 3]);
                        assert(b[i] == rb[i - 3]);
                    }
                }
            }
        } else {
            assert(a.len() == n);
            assert(a =~= b);
        }
    }
}

/// `reqwest::Method`, the parsed HTTP method a prepared fetch carries.
#[verifier::external_type_specification]
#[verifier::external_body]
pub struct ExMethod(reqwest::Method);

/// Whether `serde_json` accepts `text` as one JSON document.
pub uninterp spec fn json_text_parses(text: Seq<u8>) -> bool;

/// The JSON value that `serde_json` builds from `text`, where it accepts it.
pub uninterp spec fn json_parsed(text: Seq<u8>) -> serde_json::Value;

/// The JSON text that `serde_json` writes for `value`.
pub uninterp spec fn json_serialization(value: serde_json::Value) -> Seq<char>;

/// The method that the `http` crate's parser builds from `bytes`, where it
/// accepts them.
pub uninterp spec fn http_method(bytes: Seq<u8>) -> reqwest::Method;

/// Whether the padded encoding of `n` bytes fits in a `usize`: the
/// base64 engine panics on a longer input.
pub open spec fn base64_encodable_len(n: nat) -> bool {
    (n / 3) * 4 + (if n % 3 == 0 { 0int } else { 4int }) <= usize::MAX
}

/// The padded encoding of `n` bytes is four characters for every started
/// group of three bytes.
pub proof fn law_base64_length(data: Seq<u8>)
    ensures
        base64_encoding(data).len() == 4 * ((data.len() + 2) / 3),
        base64_encodable_len(data.len()) <==> base64_encoding(data).len() <= usize::MAX,
    decreases data.len(),
{
    if data.len() >= 3 {
        law_base64_length(data.subrange(3, data.len() as int));
    }
    law_base64_encodable_len(data.len());
}

/// `n` bytes can be encoded exactly when their padded encoding, of
/// `4 * ceil(n / 3)` characters, fits in a `usize`; every body up to the
/// default 10 MiB limit can.
pub proof fn law_base64_encodable_len(n: nat)
    ensures
        base64_encodable_len(n) <==> 4 * ((n + 2) / 3) <= usize::MAX,
        n <= 10 * 1024 * 1024 ==> base64_encodable_len(n),
{
    assert((n / 3) * 4 + (if n % 3 == 0 { 0int } else { 4int }) == 4 * ((n + 2) / 3));
}

/// A byte that may stand in an HTTP method token (RFC 9110 `tchar`).
pub open spec fn is_method_char(b: u8) -> bool {
    ||| 48 <= b <= 57  // 0-9
    ||| 65 <= b <= 90  // A-Z
    ||| 97 <= b <= 122  // a-z
    ||| b == 33 || b == 35 || b == 36 || b == 37 || b == 38 || b == 39  // ! # $ % & '
    ||| b == 42 || b == 43 || b == 45 || b == 46  // * + - .
    ||| b == 94 || b == 95 || b == 96 || b == 124 || b == 126  // ^ _ ` | ~
}

/// A byte string that names an HTTP method: non-empty, made of token bytes.
pub open spec fn is_method_token(bytes: Seq<u8>) -> bool {
    &&& bytes.len() > 0
    &&& forall|i: int| 0 <= i < bytes.len() ==> #[trigger] is_method_char(bytes[i])
}

/// Whether `n` bytes can be base64-encoded without the engine panicking.
pub fn can_encode_base64(n: usize) -> (res: bool)
    ensures
        res == base64_encodable_len(n as nat),
        res <==> 4 * ((n + 2) / 3) <= usize::MAX,
        n <= 10 * 1024 * 1024 ==> res,
{
    proof {
        law_base64_encodable_len(n as nat);
    }
    let groups: usize = n / 3;
    let tail: usize = if n % 3 == 0 {
        0
    } else {
        4
    };
    groups <= (usize::MAX - tail) / 4
}

/// Calls `base64::engine::general_purpose::STANDARD.encode`, which writes
/// the padded standard encoding. The engine panics when the output length
/// overflows `usize`, which `requires` rules out.
#[verifier::external_body]
pub(crate) fn base64_encode(data: &[u8]) -> (res: String)
    requires
        base64_encodable_len(data@.len()),
    ensures
        res@ == base64_encoding(data@),
{
    base64::engine::general_purpose::STANDARD.encode(data)
}

/// Calls `base64::engine::general_purpose::STANDARD.decode` on the bytes of
/// `text`. The engine requires canonical padding and rejects non-zero
/// trailing bits, so it accepts exactly the texts that its encoder writes,
/// and gives back bytes whose encoding is the text.
#[verifier::external_body]
pub(crate) fn base64_decode(text: &str) -> (res: Result<Vec<u8>, base64::DecodeError>)
    ensures
        match res {
            Ok(bytes) => base64_encoding(bytes@) == text@,
            Err(_) => !is_base64_encoding(text@),
        },
{
    base64::engine::general_purpose::STANDARD.decode(text.as_bytes())
}

/// Calls `String::from_utf8`: the bytes come back as text exactly when they
/// are valid UTF-8, and otherwise are handed back unchanged
/// (`FromUtf8Error::into_bytes`).
#[verifier::external_body]
pub(crate) fn utf8_to_string(bytes: Vec<u8>) -> (res: Result<String, Vec<u8>>)
    ensures
        match res {
            Ok(text) => valid_utf8(bytes@) && text@ == decode_utf8(bytes@),
            Err(back) => !valid_utf8(bytes@) && back@ == bytes@,
        },
{
    String::from_utf8(bytes).map_err(|e| e.into_bytes())
}

/// Calls `serde_json::from_slice::<serde_json::Value>`. It succeeds exactly
/// when `serde_json` accepts the text, and then gives the value named by
/// `json_parsed`.
#[verifier::external_body]
pub(crate) fn parse_json(text: &[u8]) -> (res: Result<serde_json::Value, serde_json::Error>)
    ensures
        res is Ok <==> json_text_parses(text@),
        res is Ok ==> res->Ok_0 == json_parsed(text@),
{
    serde_json::from_slice::<serde_json::Value>(text)
}

/// Calls `serde_json::to_string` on a JSON value. Writing a `Value` into a
/// byte buffer cannot fail (its maps have string keys, its numbers are
/// finite, and a `Vec` never refuses a write), so the call always succeeds;
/// the text is named by `json_serialization`.
#[verifier::external_body]
pub(crate) fn json_to_string(value: &serde_json::Value) -> (res: Result<String, serde_json::Error>)
    ensures
        res is Ok,
        res->Ok_0@ == json_serialization(*value),
{
    serde_json::to_string(value)
}

/// Calls `Clone::clone` on a JSON value, which copies it.
#[verifier::external_body]
pub(crate) fn json_clone(value: &serde_json::Value) -> (res: serde_json::Value)
    ensures
        res == *value,
{
    value.clone()
}

/// Calls `reqwest::Method::from_bytes` (the `http` crate's parser). It
/// accepts exactly a non-empty run of token bytes, and then gives the
/// method named by `http_method`.
#[verifier::external_body]
pub(crate) fn parse_method(bytes: &[u8]) -> (res: Option<reqwest::Method>)
    ensures
        res is Some <==> is_method_token(bytes@),
        res is Some ==> res->Some_0 == http_method(bytes@),
{
    match reqwest::Method::from_bytes(bytes) {
        Ok(method) => Some(method),
        Err(_) => None,
    }
}

} // verus!
