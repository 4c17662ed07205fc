//! The hash that names a VOD's directory on the CDN.
use vstd::prelude::*;
use vstd::string::{StrSliceExecFns, StringExecFns};
use crate::text::{int_decimal, int_to_text};

verus! {

/// The SHA-1 digest of a text's UTF-8 encoding.
pub uninterp spec fn sha1_digest_of(text: Seq<char>) -> Seq<u8>;

/// Relies on `sha1::Sha1::digest` (through `sha1::Digest`): the SHA-1 digest
/// of the text's UTF-8 bytes, whose output size is 20 bytes.
#[verifier::external_body]
fn sha1_digest(text: &str) -> (r: Vec<u8>)
    ensures
        r@ == sha1_digest_of(text@),
        r@.len() == 20,
{
    <sha1::Sha1 as sha1::Digest>::digest(text.as_bytes()).to_vec()
}

/// Lower-case hexadecimal digit of value `d`.
pub open spec fn hex_digit(d: nat) -> char {
    if d < 10 {
        crate::text::digit_char(d)
    } else if d == 10 { 'a' }
    else if d == 11 { 'b' }
    else if d == 12 { 'c' }
    else if d == 13 { 'd' }
    else if d == 14 { 'e' }
    else { 'f' }
}

pub open spec fn is_hex_char(c: char) -> bool {
    ('0' <= c && c <= '9') || ('a' <= c && c <= 'f')
}

/// Lower-case hexadecimal notation of bytes, two digits per byte.
pub open spec fn hex_of(bytes: Seq<u8>) -> Seq<char>
    decreases bytes.len(),
{
    if bytes.len() == 0 {
        seq![]
    } else {
        let b = bytes.last();
        hex_of(bytes.drop_last()) + seq![hex_digit((b / 16) as nat), hex_digit((b % 16) as nat)]
    }
}

/// The text whose digest names a VOD: `{username}_{broadcastId}_{timestamp}`.
pub open spec fn hash_input(username: Seq<char>, broadcast_id: int, timestamp: int) -> Seq<char> {
    username + seq!['_'] + int_decimal(broadcast_id) + seq!['_'] + int_decimal(timestamp)
}

/// The first 20 hexadecimal characters of the SHA-1 digest of the VOD's name.
pub open spec fn vod_hash_of(username: Seq<char>, broadcast_id: int, timestamp: int) -> Seq<char> {
    hex_of(sha1_digest_of(hash_input(username, broadcast_id, timestamp))).subrange(0, 20)
}

proof fn lemma_hex_len(bytes: Seq<u8>)
    ensures
        hex_of(bytes).len() == 2 * bytes.len(),
    decreases bytes.len(),
{
    if bytes.len() > 0 {
        lemma_hex_len(bytes.drop_last());
    }
}

/// The hex of a prefix of the bytes is the matching prefix of the hex.
proof fn lemma_hex_prefix(bytes: Seq<u8>, k: int)
    requires
        0 <= k <= bytes.len(),
    ensures
        hex_of(bytes).subrange(0, 2 * k) == hex_of(bytes.subrange(0, k)),
    decreases bytes.len(),
{
    lemma_hex_len(bytes);
    if k == bytes.len() {
        assert(bytes.subrange(0, k) =~= bytes);
        assert(hex_of(bytes).subrange(0, 2 * k) =~= hex_of(bytes));
    } else {
        let t = bytes.drop_last();
        lemma_hex_prefix(t, k);
        lemma_hex_len(t);
        assert(t.subrange(0, k) =~= bytes.subrange(0, k));
        assert(hex_of(bytes).subrange(0, 2 * k) =~= hex_of(t).subrange(0, 2 * k));
    }
}

proof fn lemma_hex_chars(bytes: Seq<u8>)
    ensures
        forall|i: int| 0 <= i < hex_of(bytes).len() ==> is_hex_char(#[trigger] hex_of(bytes)[i]),
    decreases bytes.len(),
{
    if bytes.len() > 0 {
        let t = bytes.drop_last();
        let b = bytes.last();
        lemma_hex_chars(t);
        let tail = seq![hex_digit((b / 16) as nat), hex_digit((b % 16) as nat)];
        assert(is_hex_char(tail[0]) && is_hex_char(tail[1]));
        assert forall|i: int| 0 <= i < hex_of(bytes).len() implies is_hex_char(#[trigger] hex_of(bytes)[i]) by {
            if i < hex_of(t).len() {
                assert(hex_of(bytes)[i] == hex_of(t)[i]);
            } else {
                assert(hex_of(bytes)[i] == tail[i - hex_of(t).len()]);
            }
        }
    }
}

/// The one-character string of the hexadecimal digit `d`.
fn hex_digit_text(d: u8) -> (r: &'static str)
    requires
        d < 16,
    ensures
        r@ == seq![hex_digit(d as nat)],
{
    let table = "0123456789abcdef";
    proof {
        reveal_strlit("0123456789abcdef");
    }
    let r = table.substring_char(d as usize, d as usize + 1);
    assert(r@ =~= seq![hex_digit(d as nat)]);
    r
}

/// Lower-case hexadecimal notation of the first `count` bytes.
fn hex_prefix(bytes: &Vec<u8>, count: usize) -> (r: String)
    requires
        count <= bytes@.len(),
    ensures
        r@ == hex_of(bytes@.subrange(0, count as int)),
{
    let mut r = String::new();
    let mut i: usize = 0;
    while i < count
        invariant
            count <= bytes@.len(),
            0 <= i <= count,
            r@ == hex_of(bytes@.subrange(0, i as int)),
        decreases count - i,
    {
        let b = bytes[i];
        let ghost before = bytes@.subrange(0, i as int);
        r.append(hex_digit_text(b / 16));
        r.append(hex_digit_text(b % 16));
        i = i + 1;
        assert(bytes@.subrange(0, i as int).drop_last() =~= before);
    }
    r
}

/// The VOD's hash: the first 20 hexadecimal characters of
/// `SHA1("{username}_{broadcastId}_{timestamp}")`. It is a function of the
/// three values alone, so every call on them gives the same 20 lower-case
/// hexadecimal characters.
pub fn vod_hash(username: &str, broadcast_id: i64, timestamp: i64) -> (r: String)
    ensures
        r@ == vod_hash_of(username@, broadcast_id as int, timestamp as int),
        r@.len() == 20,
        forall|i: int| 0 <= i < 20 ==> is_hex_char(#[trigger] r@[i]),
{
    let mut input = String::from_str(username);
    proof {
        reveal_strlit("_");
    }
    input.append("_");
    input.append(int_to_text(broadcast_id as i128).as_str());
    input.append("_");
    input.append(int_to_text(timestamp as i128).as_str());
    assert(input@ =~= hash_input(username@, broadcast_id as int, timestamp as int));
    let digest = sha1_digest(input.as_str());
    let r = hex_prefix(&digest, 10);
    proof {
        lemma_hex_prefix(digest@, 10);
        lemma_hex_len(digest@);
        lemma_hex_chars(digest@);
        assert forall|i: int| 0 <= i < 20 implies is_hex_char(#[trigger] r@[i]) by {
            assert(r@[i] == hex_of(digest@)[i]);
        }
    }
    r
}

} // verus!
