//! Content fingerprints (SHA-256 in lower-case hex), gzip framing of the
//! sync archive, and random lock tokens.
use crate::text::{is_ascii_alphanumeric_seq, string_from_chars};
use rand::Rng;
use sha2::Digest;
use std::io::Read;
use std::io::Write;
use vstd::prelude::*;

verus! {

broadcast use vstd::string::group_string_axioms;

/// The SHA-256 digest of a byte sequence, as the `sha2` crate computes it.
pub uninterp spec fn sha256_of(data: Seq<u8>) -> Seq<u8>;

/// The gzip stream that `flate2` writes for a byte sequence at the default
/// compression level into memory; `None` where its encoder reports an error.
pub uninterp spec fn gzip_of(data: Seq<u8>) -> Option<Seq<u8>>;

/// The text that `flate2` reads back from a gzip stream; `None` where the
/// stream is not gzip or does not hold UTF-8 text.
pub uninterp spec fn gunzip_text_of(data: Seq<u8>) -> Option<Seq<char>>;

/// `sha2::Sha256::digest`: the digest of `data`, 32 bytes long.
#[verifier::external_body]
fn sha256_digest(data: &[u8]) -> (r: Vec<u8>)
    ensures
        r@ == sha256_of(data@),
        r@.len() == 32,
{
    sha2::Sha256::digest(data).to_vec()
}

/// `flate2::write::GzEncoder` at the default level, into a `Vec`, written
/// to and finished. Stated: whether it fails and the bytes it gives are
/// `gzip_of` of the input (the encoder computes on the bytes alone; writing
/// into a `Vec` does not fail). The error's message is not stated.
#[verifier::external_body]
fn gzip_encode(data: &[u8]) -> (r: Result<Vec<u8>, String>)
    ensures
        r matches Ok(v) ==> gzip_of(data@) == Some(v@),
        r is Err ==> gzip_of(data@) is None,
{
    let mut encoder = flate2::write::GzEncoder::new(Vec::new(), flate2::Compression::default());
    encoder.write_all(data).map_err(|e| format!("压缩失败: {}", e))?;
    encoder.finish().map_err(|e| format!("压缩完成失败: {}", e))
}

/// `flate2::read::GzDecoder`, read to the end as UTF-8 text.
#[verifier::external_body]
fn gzip_decode_text(data: &[u8]) -> (r: Result<String, String>)
    ensures
        r matches Ok(s) ==> gunzip_text_of(data@) == Some(s@),
        r is Err ==> gunzip_text_of(data@) is None,
{
    let mut decoder = flate2::read::GzDecoder::new(data);
    let mut result = String::new();
    decoder.read_to_string(&mut result).map_err(|e| format!("解压失败: {}", e))?;
    Ok(result)
}

/// `rand`'s `Alphanumeric` distribution sampled 32 times from the thread
/// generator: 32 ASCII letters and digits, chosen at random.
#[verifier::external_body]
fn random_alphanumeric_32() -> (r: String)
    ensures
        r@.len() == 32,
        is_ascii_alphanumeric_seq(r@),
{
    rand::thread_rng().sample_iter(&rand::distributions::Alphanumeric).take(32).map(char::from).collect()
}

/// A lower-case hexadecimal digit.
pub open spec fn hex_digit(n: nat) -> char {
    if n < 10 {
        crate::text::digit_char(n)
    } else if n == 10 {
        'a'
    } else if n == 11 {
        'b'
    } else if n == 12 {
        'c'
    } else if n == 13 {
        'd'
    } else if n == 14 {
        'e'
    } else {
        'f'
    }
}

/// Bytes in lower-case hexadecimal, two digits per byte (`{:x}` of a digest).
pub open spec fn hex_lower(b: Seq<u8>) -> Seq<char>
    decreases b.len(),
{
    if b.len() == 0 {
        seq![]
    } else {
        hex_lower(b.drop_last()) + seq![hex_digit((b.last() / 16) as nat), hex_digit((b.last() % 16) as nat)]
    }
}

/// The fingerprint of a text: SHA-256 of its UTF-8 bytes in lower-case hex.
pub open spec fn text_hash(t: Seq<char>) -> Seq<char> {
    hex_lower(sha256_of(vstd::utf8::encode_utf8(t)))
}

fn hex_char(n: u8) -> (c: char)
    requires
        n < 16,
    ensures
        c == hex_digit(n as nat),
{
    if n < 10 {
        crate::text::digit(n as u64)
    } else if n == 10 {
        'a'
    } else if n == 11 {
        'b'
    } else if n == 12 {
        'c'
    } else if n == 13 {
        'd'
    } else if n == 14 {
        'e'
    } else {
        'f'
    }
}

/// Bytes in lower-case hexadecimal.
pub fn to_hex_lower(b: &[u8]) -> (s: String)
    ensures
        s@ == hex_lower(b@),
        s@.len() == 2 * b@.len(),
{
    let mut v: Vec<char> = Vec::new();
    let mut k: usize = 0;
    while k < b.len()
        invariant
            k <= b@.len(),
            v@ == hex_lower(b@.take(k as int)),
            v@.len() == 2 * k,
        decreases b@.len() - k,
    {
        let x = b[k];
        v.push(hex_char(x / 16));
        v.push(hex_char(x % 16));
        k = k + 1;
        assert(b@.take(k as int).drop_last() =~= b@.take(k - 1));
        assert(v@ =~= hex_lower(b@.take(k as int)));
    }
    assert(b@.take(b@.len() as int) =~= b@);
    string_from_chars(v.as_slice())
}

/// The fingerprint of a text (SHA-256 in lower-case hex, 64 characters).
pub fn hash_text(text: &str) -> (h: String)
    ensures
        h@ == text_hash(text@),
        h@.len() == 64,
{
    let bytes = text.as_bytes();
    let d = sha256_digest(bytes);
    to_hex_lower(d.as_slice())
}

/// Compresses the text of a sync archive (its UTF-8 bytes) with gzip; an
/// error exactly where the encoder reports one.
pub fn compress_archive(json: &str) -> (r: Result<Vec<u8>, String>)
    ensures
        r matches Ok(v) ==> gzip_of(vstd::utf8::encode_utf8(json@)) == Some(v@),
        r is Err ==> gzip_of(vstd::utf8::encode_utf8(json@)) is None,
{
    gzip_encode(json.as_bytes())
}

/// Reads the text of a gzip-compressed sync archive.
pub fn decompress_archive(bytes: &[u8]) -> (r: Result<String, String>)
    ensures
        r matches Ok(s) ==> gunzip_text_of(bytes@) == Some(s@),
        r is Err ==> gunzip_text_of(bytes@) is None,
{
    gzip_decode_text(bytes)
}

/// A fresh random token that tells one lock from another.
pub fn generate_lock_token() -> (t: String)
    ensures
        t@.len() == 32,
        is_ascii_alphanumeric_seq(t@),
{
    random_alphanumeric_32()
}

} // verus!
