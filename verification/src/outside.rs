//! The calls that leave the verified code: DES from the `des` crate, random
//! UUIDs from the `uuid` crate, and three items of std that vstd does not
//! specify. Each contract here is believed, not proved.

use vstd::prelude::*;
use vstd::utf8::{encode_utf8, valid_utf8};

verus! {

// The cipher text that `des::encrypt` gives for a message and an 8-byte key.
pub uninterp spec fn des_encrypt(message: Seq<u8>, key: Seq<u8>) -> Seq<u8>;

// The plain text that `des::decrypt` gives for a cipher text and an 8-byte key.
pub uninterp spec fn des_decrypt(cipher: Seq<u8>, key: Seq<u8>) -> Seq<u8>;

/// The length of `n` bytes rounded up to whole 8-byte DES blocks.
pub open spec fn padded_len(n: nat) -> nat {
    ((n + 7) / 8) * 8
}

/// `m` followed by the zero bytes that fill its last 8-byte block.
pub open spec fn zero_padded(m: Seq<u8>) -> Seq<u8> {
    m + Seq::new((padded_len(m.len()) - m.len()) as nat, |i: int| 0u8)
}

/// Calls `des::encrypt` (des 0.0.4). That function cuts the message into
/// 8-byte blocks, fills the last block up with zero bytes, and enciphers each
/// block with DES in ECB mode. Claimed: the result is `des_encrypt` of the
/// message and key; it is as long as the message rounded up to whole blocks;
/// and `des::decrypt` under the same key gives back the zero-filled message.
#[verifier::external_body]
pub(crate) fn des_encrypt_bytes(message: &[u8], key: &[u8; 8]) -> (cipher: Vec<u8>)
    ensures
        cipher@ == des_encrypt(message@, key@),
        cipher@.len() == padded_len(message@.len()),
        des_decrypt(cipher@, key@) == zero_padded(message@),
{
    des::encrypt(message, key)
}

/// Calls `des::decrypt` (des 0.0.4), which deciphers 8-byte blocks in ECB
/// mode, filling a short last block with zero bytes first. Claimed: the result
/// is `des_decrypt` of the cipher text and key, and is as long as the cipher
/// text rounded up to whole blocks.
#[verifier::external_body]
pub(crate) fn des_decrypt_bytes(cipher: &[u8], key: &[u8; 8]) -> (plain: Vec<u8>)
    ensures
        plain@ == des_decrypt(cipher@, key@),
        plain@.len() == padded_len(cipher@.len()),
{
    des::decrypt(cipher, key)
}

/// The hyphenated lower-case text of a version-4 UUID: 36 characters, `-` at
/// positions 8, 13, 18 and 23, the version digit `4` at position 14, one of
/// `8`, `9`, `a`, `b` at position 19, and lower-case hex digits elsewhere.
pub open spec fn is_uuid_v4_text(s: Seq<char>) -> bool {
    &&& s.len() == 36
    &&& forall|i: int|
        0 <= i < 36 ==> if i == 8 || i == 13 || i == 18 || i == 23 {
            #[trigger] s[i] == '-'
        } else {
            ('0' <= s[i] <= '9') || ('a' <= s[i] <= 'f')
        }
    &&& s[14] == '4'
    &&& (s[19] == '8' || s[19] == '9' || s[19] == 'a' || s[19] == 'b')
}

/// Calls `uuid::Uuid::new_v4` (uuid 1.x) and formats the result with
/// `to_string`. The UUID is random; what is claimed is only the shape of its
/// text, which `Uuid`'s `Display` (hyphenated, lower case) and the version and
/// variant bits that `new_v4` sets fix for every outcome. `new_v4` panics when
/// the operating system gives no random bytes; that is not excluded here.
#[verifier::external_body]
pub(crate) fn random_uuid_text() -> (text: String)
    ensures
        is_uuid_v4_text(text@),
{
    uuid::Uuid::new_v4().to_string()
}

/// Calls `std::str::from_utf8`. Claimed, as its documentation says: it
/// succeeds exactly on valid UTF-8, and the string it returns has the given
/// bytes as its UTF-8 encoding.
#[verifier::external_body]
pub(crate) fn utf8_text(bytes: &[u8]) -> (text: Option<&str>)
    ensures
        text is Some <==> valid_utf8(bytes@),
        text matches Some(t) ==> encode_utf8(t@) == bytes@,
{
    std::str::from_utf8(bytes).ok()
}

/// Reads `std::path::MAIN_SEPARATOR`, the separator of path components on
/// the platform the program was built for (`\` on Windows, `/` on Unix).
/// Nothing is claimed of it: the library decides from it which separator
/// convention to follow.
#[verifier::external_body]
pub(crate) fn main_separator() -> char {
    std::path::MAIN_SEPARATOR
}

} // verus!
