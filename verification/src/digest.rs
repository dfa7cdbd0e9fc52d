//! Digests: SHA-1 over bytes, rendered as forty lower-case hexadecimal
//! characters.

use crate::error::IndexError;
use sha1::Digest;
use sha1::Sha1;
use vstd::prelude::*;
use vstd::utf8::valid_utf8;

verus! {

/// The SHA-1 digest of `data`, as the `sha1` crate computes it.
pub uninterp spec fn sha1_digest(data: Seq<u8>) -> Seq<u8>;

/// The number of bytes of a SHA-1 digest.
pub const DIGEST_BYTES: usize = 20;

/// The number of characters of a digest in hexadecimal.
pub const DIGEST_CHARS: usize = 40;

/// Calls `sha1::Sha1::digest` (the one-shot form of `Digest::new`, `update`
/// and `finalize`) and copies the output into a vector. The result is the
/// named digest of the input and has the twenty bytes of the crate's
/// `OutputSize = U20`.
#[verifier::external_body]
fn sha1(data: &[u8]) -> (out: Vec<u8>)
    ensures
        out@ == sha1_digest(data@),
        out@.len() == DIGEST_BYTES,
{
    Sha1::digest(data).to_vec()
}

/// Calls `core::str::from_utf8` and tells whether it accepted the bytes,
/// which it does exactly when they are valid UTF-8.
#[verifier::external_body]
fn is_utf8(bytes: &[u8]) -> (valid: bool)
    ensures
        valid == valid_utf8(bytes@),
{
    core::str::from_utf8(bytes).is_ok()
}

/// The lower-case hexadecimal digit of a value below sixteen.
pub open spec fn hex_char(nibble: int) -> char {
    if nibble < 10 {
        ('0' as u8 + nibble) as u8 as char
    } else {
        ('a' as u8 + nibble - 10) as u8 as char
    }
}

/// Whether `c` is one of `0`..`9`, `a`..`f`.
pub open spec fn is_lower_hex(c: char) -> bool {
    ('0' <= c && c <= '9') || ('a' <= c && c <= 'f')
}

/// Two lower-case hexadecimal digits for each byte, the high half first.
pub open spec fn lower_hex(bytes: Seq<u8>) -> Seq<char> {
    Seq::new(
        2 * bytes.len(),
        |i: int|
            if i % 2 == 0 {
                hex_char(bytes[i / 2] as int / 16)
            } else {
                hex_char(bytes[i / 2] as int % 16)
            },
    )
}

/// A digest as it is written: forty lower-case hexadecimal characters.
pub open spec fn is_digest(text: Seq<char>) -> bool {
    &&& text.len() == DIGEST_CHARS
    &&& forall|i: int| 0 <= i < text.len() ==> is_lower_hex(#[trigger] text[i])
}

/// The digest of `data` as it is written.
pub open spec fn digest_of(data: Seq<u8>) -> Seq<char> {
    lower_hex(sha1_digest(data))
}

/// The digest of a file with the given content: files hold text, and one
/// whose content is not valid UTF-8 has no digest.
pub open spec fn file_hash(contents: Seq<u8>) -> Result<Seq<char>, IndexError> {
    if valid_utf8(contents) {
        Ok(digest_of(contents))
    } else {
        Err(IndexError::Encoding)
    }
}

/// The lower-case hexadecimal digit of a value below sixteen.
fn hex_digit(nibble: u8) -> (c: char)
    requires
        nibble < 16,
    ensures
        c == hex_char(nibble as int),
        is_lower_hex(c),
{
    if nibble < 10 {
        ('0' as u8 + nibble) as char
    } else {
        ('a' as u8 + (nibble - 10)) as char
    }
}

/// Appending one byte appends its two digits.
proof fn lemma_lower_hex_push(bytes: Seq<u8>, b: u8)
    ensures
        lower_hex(bytes.push(b)) == lower_hex(bytes).push(hex_char(b as int / 16)).push(
            hex_char(b as int % 16),
        ),
{
    let left = lower_hex(bytes.push(b));
    let right = lower_hex(bytes).push(hex_char(b as int / 16)).push(hex_char(b as int % 16));
    assert(left.len() == right.len());
    assert forall|i: int| 0 <= i < left.len() implies left[i] == right[i] by {
        if i < 2 * bytes.len() {
            assert(bytes.push(b)[i / 2] == bytes[i / 2]);
        } else {
            assert(i / 2 == bytes.len());
        }
    }
    assert(left =~= right);
}

/// Writes `bytes` in lower-case hexadecimal.
pub fn to_hex(bytes: &[u8]) -> (text: String)
    ensures
        text@ == lower_hex(bytes@),
{
    let mut text = String::new();
    let mut i: usize = 0;
    assert(bytes@.take(0) =~= Seq::<u8>::empty());
    assert(lower_hex(Seq::<u8>::empty()) =~= Seq::<char>::empty());
    while i < bytes.len()
        invariant
            i <= bytes.len(),
            text@ == lower_hex(bytes@.take(i as int)),
        decreases bytes.len() - i,
    {
        let b = bytes[i];
        proof {
            lemma_lower_hex_push(bytes@.take(i as int), b);
            assert(bytes@.take(i as int).push(b) =~= bytes@.take(i + 1));
        }
        text.push(hex_digit(b / 16));
        text.push(hex_digit(b % 16));
        i = i + 1;
    }
    assert(bytes@.take(bytes.len() as int) =~= bytes@);
    text
}

/// Twenty bytes are written as a digest.
pub proof fn lemma_hex_of_twenty_is_digest(bytes: Seq<u8>)
    requires
        bytes.len() == DIGEST_BYTES,
    ensures
        is_digest(lower_hex(bytes)),
{
    assert forall|i: int| 0 <= i < lower_hex(bytes).len() implies is_lower_hex(
        #[trigger] lower_hex(bytes)[i],
    ) by {
        lemma_hex_char_is_lower_hex(bytes[i / 2] as int / 16);
        lemma_hex_char_is_lower_hex(bytes[i / 2] as int % 16);
    }
}

/// A digit below sixteen is written as one of `0`..`9`, `a`..`f`.
pub proof fn lemma_hex_char_is_lower_hex(nibble: int)
    requires
        0 <= nibble < 16,
    ensures
        is_lower_hex(hex_char(nibble)),
{
}

/// Different byte strings are written differently in hexadecimal.
pub proof fn lemma_lower_hex_injective(a: Seq<u8>, b: Seq<u8>)
    requires
        lower_hex(a) == lower_hex(b),
    ensures
        a == b,
{
    assert(a.len() == b.len()) by {
        assert(lower_hex(a).len() == 2 * a.len());
        assert(lower_hex(b).len() == 2 * b.len());
    }
    assert forall|j: int| 0 <= j < a.len() implies a[j] == b[j] by {
        let x = a[j] as int;
        let y = b[j] as int;
        assert(lower_hex(a)[2 * j] == hex_char(x / 16));
        assert(lower_hex(b)[2 * j] == hex_char(y / 16));
        assert(lower_hex(a)[2 * j + 1] == hex_char(x % 16));
        assert(lower_hex(b)[2 * j + 1] == hex_char(y % 16));
        assert(x / 16 == y / 16);
        assert(x % 16 == y % 16);
    }
    assert(a =~= b);
}

/// The digest of `data`: its SHA-1 value in lower-case hexadecimal.
pub fn hash_bytes(data: &[u8]) -> (digest: String)
    ensures
        digest@ == digest_of(data@),
        is_digest(digest@),
{
    let raw = sha1(data);
    proof {
        lemma_hex_of_twenty_is_digest(raw@);
    }
    to_hex(raw.as_slice())
}

/// The digest of a file, from its content.
///
/// Files are read as text: content that is not valid UTF-8 is refused with
/// [`IndexError::Encoding`]. Otherwise the digest is that of the content's
/// bytes, so files of equal content have equal digests.
pub fn hash_file(contents: &[u8]) -> (digest: Result<String, IndexError>)
    ensures
        match digest {
            Ok(text) => file_hash(contents@) == Ok::<Seq<char>, IndexError>(text@) && is_digest(text@),
            Err(e) => file_hash(contents@) == Err::<Seq<char>, IndexError>(e),
        },
{
    if is_utf8(contents) {
        Ok(hash_bytes(contents))
    } else {
        Err(IndexError::Encoding)
    }
}

/// Files of equal content have equal digests.
pub proof fn lemma_equal_content_equal_digest(first: Seq<u8>, second: Seq<u8>)
    requires
        first == second,
    ensures
        file_hash(first) == file_hash(second),
{
}

/// Two files of text have the same digest exactly when SHA-1 gives their
/// contents the same value: files of different content have different
/// digests unless the contents collide under SHA-1.
pub proof fn lemma_file_hash_equal(first: Seq<u8>, second: Seq<u8>)
    requires
        valid_utf8(first),
        valid_utf8(second),
    ensures
        file_hash(first) == file_hash(second) <==> sha1_digest(first) == sha1_digest(second),
{
    lemma_digest_of_equal(first, second);
}

/// Two byte strings have the same written digest exactly when their SHA-1
/// values are the same: writing a value in hexadecimal loses nothing.
pub proof fn lemma_digest_of_equal(a: Seq<u8>, b: Seq<u8>)
    ensures
        digest_of(a) == digest_of(b) <==> sha1_digest(a) == sha1_digest(b),
{
    if digest_of(a) == digest_of(b) {
        lemma_lower_hex_injective(sha1_digest(a), sha1_digest(b));
    }
}

} // verus!
