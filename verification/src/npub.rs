//! Short display names built from hex public keys (`npub1xxxxx...xxxx`).

use vstd::prelude::*;
use nostr_sdk::{PublicKey, ToBech32};
use vstd::utf8::{decode_utf8, encode_utf8, is_char_boundary};
use vstd::string::StringSliceAdditionalSpecFns;

verus! {

broadcast use vstd::utf8::group_utf8_lib;

/// Whether `c` is a hexadecimal digit (either case).
pub open spec fn is_hex_digit(c: char) -> bool {
    ('0' <= c && c <= '9') || ('a' <= c && c <= 'f') || ('A' <= c && c <= 'F')
}

/// The value of the hexadecimal digit `c`.
pub open spec fn hex_value(c: char) -> int {
    if '0' <= c && c <= '9' {
        c as int - 48
    } else if 'a' <= c && c <= 'f' {
        c as int - 87
    } else {
        c as int - 55
    }
}

/// The 32 key bytes that `hex` spells: present exactly when `hex` is 64
/// hexadecimal digits, each pair of digits giving one byte, high digit first.
pub open spec fn decoded_key(hex: Seq<char>) -> Option<Seq<u8>> {
    if hex.len() == 64 && forall|i: int| 0 <= i < 64 ==> #[trigger] is_hex_digit(hex[i]) {
        Some(Seq::new(32, |i: int| (16 * hex_value(hex[2 * i]) + hex_value(hex[2 * i + 1])) as u8))
    } else {
        None
    }
}

/// The bech32 `npub` encoding of a 32-byte public key, as computed by the
/// Nostr SDK.
pub uninterp spec fn npub_encoding(key: Seq<u8>) -> Seq<char>;

/// The text `npub1` that every `npub` encoding starts with.
pub open spec fn npub_prefix() -> Seq<char> {
    seq!['n', 'p', 'u', 'b', '1']
}

/// The text `...`.
pub open spec fn ellipsis() -> Seq<char> {
    seq!['.', '.', '.']
}

/// An `npub` text longer than 16 characters cut to its first 10 and last 4
/// characters around `...`; a shorter one kept whole.
pub open spec fn shortened(npub: Seq<char>) -> Seq<char> {
    if npub.len() > 16 {
        npub.take(10) + ellipsis() + npub.skip(npub.len() - 4)
    } else {
        npub
    }
}

/// How many UTF-8 bytes of a text that is no key are kept: at most 12.
pub open spec fn head_len(hex: Seq<char>) -> int {
    let n = encode_utf8(hex).len() as int;
    if n < 12 {
        n
    } else {
        12
    }
}

/// The characters that the first `head_len(hex)` UTF-8 bytes of `hex` spell.
pub open spec fn hex_head(hex: Seq<char>) -> Seq<char> {
    decode_utf8(encode_utf8(hex).take(head_len(hex)))
}

/// Whether cutting `hex` after `head_len(hex)` bytes falls between two
/// characters (always so for ASCII text).
pub open spec fn head_cut_ok(hex: Seq<char>) -> bool {
    is_char_boundary(encode_utf8(hex), head_len(hex))
}

/// The short display name of the author whose key is written as `hex`: the
/// shortened `npub` encoding of the key where `hex` spells one, else the
/// first (at most) 12 bytes of `hex` followed by `...`.
pub open spec fn short_author(hex: Seq<char>) -> Seq<char> {
    match decoded_key(hex) {
        Some(key) => shortened(npub_encoding(key)),
        None => hex_head(hex) + ellipsis(),
    }
}

/// Trusted: wraps `PublicKey::from_hex` of the Nostr SDK, which decodes
/// exactly 64 hexadecimal digits (either case) into 32 bytes and fails on
/// every other text; the bytes are taken out of the key with `to_bytes`.
#[verifier::external_body]
fn public_key_from_hex(hex: &str) -> (r: Option<[u8; 32]>)
    ensures
        match r {
            Some(key) => decoded_key(hex@) == Some(key@),
            None => decoded_key(hex@) is None,
        },
{
    match PublicKey::from_hex(hex) {
        Ok(pk) => Some(pk.to_bytes()),
        Err(_) => None,
    }
}

/// Trusted: wraps `ToBech32::to_bech32` on a `PublicKey` of the Nostr SDK
/// (the key rebuilt from its bytes with `from_byte_array`). The call cannot
/// fail (its error type is `Infallible`); its text is named
/// `npub_encoding`, which the bech32 source writes with the prefix `npub`,
/// the separator `1` and lowercase ASCII characters only; its length is
/// that of the prefix, the separator, the 52 five-bit groups of 32 bytes
/// and the 6 checksum characters: 63.
#[verifier::external_body]
fn public_key_to_bech32(key: &[u8; 32]) -> (r: String)
    ensures
        r@ == npub_encoding(key@),
        vstd::utf8::is_ascii_chars(r@),
        r@.len() == 63,
        r@.take(5) == npub_prefix(),
{
    match PublicKey::from_byte_array(*key).to_bech32() {
        Ok(s) => s,
        Err(e) => match e {},
    }
}

/// Cut an `npub` text longer than 16 characters to its first 10 and last 4
/// characters around `...`; a shorter one is kept whole.
pub fn shorten_npub(npub: &str) -> (r: String)
    requires
        vstd::utf8::is_ascii_chars(npub@),
    ensures
        r@ == shortened(npub@),
        npub@.len() >= 5 ==> r@.take(5) == npub@.take(5),
{
    proof {
        reveal_strlit("...");
    }
    let n = npub.unicode_len();
    if n > 16 {
        let mut r = String::from_str(npub.substring_ascii(0, 10));
        r.append("...");
        r.append(npub.substring_ascii(n - 4, n));
        assert(r@ =~= shortened(npub@));
        assert(r@.take(5) =~= npub@.take(5));
        r
    } else {
        String::from_str(npub)
    }
}

/// Build a short display name from a hex pubkey by encoding it as npub and
/// truncating to `npub1xxxx...xxxx` (first 10 + last 4 chars); a text that
/// is no key is cut to its first 12 bytes followed by `...`.
pub fn truncated_npub(hex: &str) -> (r: String)
    requires
        head_cut_ok(hex@),
    ensures
        r@ == short_author(hex@),
        decoded_key(hex@) is Some ==> r@.take(5) == npub_prefix(),
        decoded_key(hex@) is Some ==> r@.len() == 17,
        decoded_key(hex@) matches Some(k) ==> r@ == npub_encoding(k).take(10) + seq!['.', '.', '.']
            + npub_encoding(k).skip(npub_encoding(k).len() - 4),
{
    proof {
        reveal_strlit("...");
    }
    match public_key_from_hex(hex) {
        Some(key) => {
            let npub = public_key_to_bech32(&key);
            let r = shorten_npub(npub.as_str());
            proof {
                assert(r@.take(5) =~= npub@.take(5));
            }
            r
        },
        None => {
            let total = hex.as_bytes().len();
            let cut: usize = if total < 12 {
                total
            } else {
                12
            };
            let (head, _rest) = hex.split_at(cut);
            proof {
                assert(head.spec_bytes() =~= encode_utf8(hex@).take(cut as int));
                assert(decode_utf8(encode_utf8(head@)) == head@);
            }
            let mut r = String::from_str(head);
            r.append("...");
            r
        },
    }
}

/// Text that is no key and fits in 12 bytes is shown whole, followed by
/// `...`.
pub proof fn lemma_short_text_kept_whole(hex: Seq<char>)
    requires
        decoded_key(hex) is None,
        encode_utf8(hex).len() <= 12,
    ensures
        short_author(hex) == hex + ellipsis(),
{
    assert(encode_utf8(hex).take(head_len(hex)) =~= encode_utf8(hex));
}

/// ASCII text that is no key is always cut cleanly and shown as its first
/// (at most) 12 characters followed by `...`.
pub proof fn lemma_ascii_text_head(hex: Seq<char>)
    requires
        vstd::utf8::is_ascii_chars(hex),
        decoded_key(hex) is None,
    ensures
        head_cut_ok(hex),
        short_author(hex) == hex.take(head_len(hex)) + ellipsis(),
{
    let bytes = encode_utf8(hex);
    vstd::utf8::is_ascii_chars_encode_utf8(hex);
    let n = head_len(hex);
    if n < bytes.len() {
        assert(!vstd::utf8::is_continuation_byte(bytes[n]));
    }
    let head = hex.take(n);
    assert(vstd::utf8::is_ascii_chars(head));
    vstd::utf8::is_ascii_chars_encode_utf8(head);
    assert(encode_utf8(head) =~= bytes.take(n));
}

/// The short form of a text that spells a key is made of that key's own
/// `npub` encoding: its first 10 characters, `...`, and its last 4
/// characters (for any encoding longer than 16 characters, as every `npub`
/// encoding is).
pub proof fn lemma_key_short_form_frames_its_npub(hex: Seq<char>, key: Seq<u8>)
    requires
        decoded_key(hex) == Some(key),
        npub_encoding(key).len() > 16,
    ensures
        short_author(hex) == npub_encoding(key).take(10) + seq!['.', '.', '.'] + npub_encoding(key).skip(
            npub_encoding(key).len() - 4,
        ),
        short_author(hex).len() == 17,
{
}

} // verus!
