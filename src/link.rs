//! Download links: undoing the service's time-keyed XOR obfuscation, and naming the file in
//! the recovered address.
use vstd::prelude::*;
use base64::Engine as _;
use vstd::utf8::{decode_utf8, encode_utf8, valid_utf8};
use crate::error::EngineError;
use crate::text::{chars_of, push_text, signed_decimal, signed_decimal_chars, string_of};

verus! {

/// The service's answer about a file's download address.
#[derive(Debug, Clone)]
pub struct DownloadResponse {
    pub encrypted: bool,
    pub timestamp: i64,
    pub url: String,
}

/// A recovered download address and the hour bucket its key came from.
#[derive(Debug, Clone)]
pub struct ResolvedLink {
    pub url: String,
    pub bucket: i64,
}

/// The bytes that the standard Base64 alphabet, with padding, decodes a text into; `None`
/// where the text is not such an encoding.
pub uninterp spec fn base64_decoded(s: Seq<char>) -> Option<Seq<u8>>;

/// Relies on `base64`'s `general_purpose::STANDARD.decode`: the decoded bytes, or an error for
/// a text that is not standard padded Base64; the result depends on the text alone.
#[verifier::external_body]
fn decode_base64(s: &str) -> (r: Option<Vec<u8>>)
    ensures
        match r {
            Some(v) => base64_decoded(s@) == Some(v@),
            None => base64_decoded(s@) is None,
        },
{
    base64::engine::general_purpose::STANDARD.decode(s).ok()
}

/// Relies on `String::from_utf8`: the text that valid UTF-8 bytes encode, and an error for
/// any other bytes.
#[verifier::external_body]
fn utf8_text(b: Vec<u8>) -> (r: Option<String>)
    ensures
        match r {
            Some(s) => valid_utf8(b@) && s@ == decode_utf8(b@),
            None => !valid_utf8(b@),
        },
{
    String::from_utf8(b).ok()
}

/// The bytes that `urlencoding` leaves as they are.
pub open spec fn is_unreserved(b: u8) -> bool {
    (48 <= b && b <= 57) || (65 <= b && b <= 90) || (97 <= b && b <= 122) || b == 45 || b == 46
        || b == 95 || b == 126
}

pub open spec fn upper_hex(d: u8) -> char {
    if d < 10 {
        (('0' as u8) + d) as char
    } else {
        (('A' as u8) + d - 10) as char
    }
}

/// Percent-encoding: each byte but the unreserved ones becomes `%` and two upper-case hex
/// digits.
pub open spec fn percent_encoded(b: Seq<u8>) -> Seq<char>
    decreases b.len(),
{
    if b.len() == 0 {
        Seq::empty()
    } else {
        let last = b.last();
        percent_encoded(b.drop_last()) + if is_unreserved(last) {
            seq![last as char]
        } else {
            seq!['%', upper_hex(last >> 4), upper_hex(last & 15)]
        }
    }
}

/// Relies on `urlencoding::encode`: the UTF-8 bytes of `s`, each percent-encoded but
/// ASCII letters, digits and `-`, `.`, `_`, `~`.
#[verifier::external_body]
fn url_encode(s: &str) -> (r: String)
    ensures
        r@ == percent_encoded(encode_utf8(s@)),
{
    urlencoding::encode(s).into_owned()
}

/// The hour bucket of a timestamp: `floor(timestamp / 3600)`.
pub open spec fn bucket_of(timestamp: int) -> int {
    timestamp / 3600
}

/// The obfuscation key of an hour bucket: `SECRET_KEY_` followed by the bucket in decimal.
pub open spec fn key_text(bucket: int) -> Seq<char> {
    "SECRET_KEY_"@ + signed_decimal(bucket)
}

pub open spec fn ascii_bytes(s: Seq<char>) -> Seq<u8> {
    s.map_values(|c: char| c as u8)
}

/// Each byte XORed with the key byte at its position modulo the key's length.
pub open spec fn xor_with(data: Seq<u8>, key: Seq<u8>) -> Seq<u8> {
    Seq::new(data.len(), |i: int| data[i] ^ key[i % (key.len() as int)])
}

/// The text that decoded link bytes stand for under a timestamp: the bytes XORed with the key
/// of its hour bucket, read as UTF-8; `None` where they are not UTF-8.
pub open spec fn revealed(bytes: Seq<u8>, timestamp: int) -> Option<Seq<char>> {
    let plain = xor_with(bytes, ascii_bytes(key_text(bucket_of(timestamp))));
    if valid_utf8(plain) {
        Some(decode_utf8(plain))
    } else {
        None
    }
}

/// The address that an obfuscated link under a timestamp stands for; `None` where the link is
/// not Base64 or the bytes it gives do not reveal UTF-8 text.
pub open spec fn decrypted(link: Seq<char>, timestamp: int) -> Option<Seq<char>> {
    match base64_decoded(link) {
        None => None,
        Some(b) => revealed(b, timestamp),
    }
}

/// The hour bucket of a timestamp, rounded toward negative infinity.
pub fn hour_bucket(timestamp: i64) -> (r: i64)
    ensures
        r == bucket_of(timestamp as int),
{
    if timestamp >= 0 {
        (timestamp as u64 / 3600) as i64
    } else {
        let m = (-(timestamp + 1)) as u64;
        let q = (m / 3600) as i64;
        assert(-q - 1 == (timestamp as int) / 3600) by (nonlinear_arith)
            requires
                timestamp < 0,
                m == -(timestamp + 1),
                q == m / 3600,
        ;
        -q - 1
    }
}

/// The bytes of the obfuscation key of a bucket.
pub fn key_bytes(bucket: i64) -> (r: Vec<u8>)
    ensures
        r@ == ascii_bytes(key_text(bucket as int)),
        r@.len() > 0,
{
    let mut cs: Vec<char> = Vec::new();
    push_text(&mut cs, "SECRET_KEY_");
    let mut d = signed_decimal_chars(bucket);
    cs.append(&mut d);
    let mut r: Vec<u8> = Vec::new();
    let mut i: usize = 0;
    while i < cs.len()
        invariant
            i <= cs.len(),
            r@ == ascii_bytes(cs@.take(i as int)),
        decreases cs.len() - i,
    {
        r.push(cs[i] as u8);
        i = i + 1;
        assert(r@ =~= ascii_bytes(cs@.take(i as int)));
    }
    assert(cs@.take(i as int) =~= cs@);
    proof {
        reveal_strlit("SECRET_KEY_");
    }
    r
}

/// XORs each byte of `data` with the key byte at its position modulo the key's length.
pub fn xor_bytes(data: &Vec<u8>, key: &Vec<u8>) -> (r: Vec<u8>)
    requires
        key.len() > 0,
    ensures
        r@ == xor_with(data@, key@),
{
    let mut r: Vec<u8> = Vec::new();
    let mut i: usize = 0;
    while i < data.len()
        invariant
            i <= data.len(),
            key.len() > 0,
            r@ == xor_with(data@, key@).take(i as int),
        decreases data.len() - i,
    {
        r.push(data[i] ^ key[i % key.len()]);
        i = i + 1;
        assert(r@ =~= xor_with(data@, key@).take(i as int));
    }
    assert(xor_with(data@, key@).take(i as int) =~= xor_with(data@, key@));
    r
}

/// XORing twice with the same non-empty key gives the bytes back.
pub proof fn lemma_xor_self_inverse(data: Seq<u8>, key: Seq<u8>)
    requires
        key.len() > 0,
    ensures
        xor_with(xor_with(data, key), key) == data,
{
    assert forall|i: int| 0 <= i < data.len() implies #[trigger] xor_with(
        xor_with(data, key),
        key,
    )[i] == data[i] by {
        let a = data[i];
        let k = key[i % (key.len() as int)];
        assert((a ^ k) ^ k == a) by (bit_vector);
    }
    assert(xor_with(xor_with(data, key), key) =~= data);
}

/// Obfuscating bytes with the key of any hour bucket and then undoing it with the same key
/// reproduces them.
pub proof fn lemma_link_cipher_round_trip(plain: Seq<u8>, bucket: int)
    ensures
        xor_with(xor_with(plain, ascii_bytes(key_text(bucket))), ascii_bytes(key_text(bucket)))
            == plain,
{
    reveal_strlit("SECRET_KEY_");
    assert(ascii_bytes(key_text(bucket)).len() > 0);
    lemma_xor_self_inverse(plain, ascii_bytes(key_text(bucket)));
}

/// Recovers the address behind an obfuscated link: Base64-decodes it, XORs it with the key of
/// the timestamp's hour bucket, and reads the result as UTF-8. Any failure is a `Decode` error.
pub fn decrypt_url(encrypted_base64: &str, timestamp: i64) -> (r: Result<String, EngineError>)
    ensures
        match r {
            Ok(s) => decrypted(encrypted_base64@, timestamp as int) == Some(s@),
            Err(e) => e == EngineError::Decode && decrypted(encrypted_base64@, timestamp as int) is None,
        },
{
    match decode_base64(encrypted_base64) {
        Some(b) => reveal_url(&b, timestamp),
        None => Err(EngineError::Decode),
    }
}

/// Undoes the obfuscation of decoded link bytes: XORs them with the key of the timestamp's
/// hour bucket and reads the result as UTF-8; bytes that are not UTF-8 then are a `Decode`
/// error.
pub fn reveal_url(bytes: &Vec<u8>, timestamp: i64) -> (r: Result<String, EngineError>)
    ensures
        match r {
            Ok(s) => revealed(bytes@, timestamp as int) == Some(s@),
            Err(e) => e == EngineError::Decode && revealed(bytes@, timestamp as int) is None,
        },
{
    let key = key_bytes(hour_bucket(timestamp));
    let plain = xor_bytes(bytes, &key);
    match utf8_text(plain) {
        Some(s) => Ok(s),
        None => Err(EngineError::Decode),
    }
}

/// Whether a text contains the character `c`.
pub open spec fn has_char(s: Seq<char>, c: char) -> bool {
    exists|i: int| 0 <= i < s.len() && s[i] == c
}

/// The address that downloads `url` under the file name `name`: the name, percent-encoded, as
/// the `n` query parameter.
pub open spec fn named_url(url: Seq<char>, name: Seq<char>) -> Seq<char> {
    url + (if has_char(url, '?') { "&n="@ } else { "?n="@ }) + percent_encoded(encode_utf8(name))
}

pub fn with_file_name(url: &str, name: &str) -> (r: String)
    ensures
        r@ == named_url(url@, name@),
{
    let mut cs = chars_of(url);
    let mut has_query = false;
    let mut i: usize = 0;
    while i < cs.len()
        invariant
            i <= cs.len(),
            cs@ == url@,
            has_query == exists|j: int| 0 <= j < i && cs@[j] == '?',
        decreases cs.len() - i,
    {
        if cs[i] == '?' {
            has_query = true;
        }
        i = i + 1;
    }
    if has_query {
        push_text(&mut cs, "&n=");
    } else {
        push_text(&mut cs, "?n=");
    }
    let encoded = url_encode(name);
    push_text(&mut cs, encoded.as_str());
    string_of(&cs)
}

/// The download address of a file named `original`, from the service's answer about it: only
/// an obfuscated answer is handled, any other is an `UnexpectedResponse` error.
pub fn resolve_link(answer: &DownloadResponse, original: &str) -> (r: Result<ResolvedLink, EngineError>)
    ensures
        !answer.encrypted ==> r matches Err(EngineError::UnexpectedResponse),
        answer.encrypted ==> match decrypted(answer.url@, answer.timestamp as int) {
            Some(u) => (r matches Ok(l) && l.url@ == named_url(u, original@) && l.bucket
                == bucket_of(answer.timestamp as int)),
            None => r matches Err(EngineError::Decode),
        },
{
    if !answer.encrypted {
        return Err(EngineError::UnexpectedResponse);
    }
    match decrypt_url(answer.url.as_str(), answer.timestamp) {
        Ok(u) => Ok(
            ResolvedLink {
                url: with_file_name(u.as_str(), original),
                bucket: hour_bucket(answer.timestamp),
            },
        ),
        Err(e) => Err(e),
    }
}

} // verus!
