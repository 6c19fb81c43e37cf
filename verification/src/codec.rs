//! The credential transform that the portal expects on the wire.
//!
//! The account name is shifted character by character and prefixed with a
//! fixed marker. The password is masked byte by byte with a repeating key read
//! backwards, and every masked byte is written as two characters, one per
//! nibble, whose order alternates with the position of the byte.

use crate::text::all_digits;
use vstd::prelude::*;
use vstd::string::*;
use vstd::utf8::*;

verus! {

/// `char::from_u32` yields the character with the given scalar value, and
/// `None` exactly for the values that are no Unicode scalar (the surrogates
/// and everything above `0x10FFFF`).
pub assume_specification[ char::from_u32 ](i: u32) -> (r: Option<char>)
    ensures
        r == if is_scalar(i) {
            Some(i as char)
        } else {
            None::<char>
        },
;

/// Distance by which every character of the account name is moved.
pub const SHIFT: u32 = 4;

/// Number of bytes in the masking key.
pub const KEY_LEN: usize = 10;

/// The marker `{SRUN3}` and a carriage-return/line-feed pair, which open every
/// encoded account name.
pub open spec fn prefix() -> Seq<char> {
    seq!['{', 'S', 'R', 'U', 'N', '3', '}', '\r', '\n']
}

/// A character moved up by `SHIFT` code points. Where the moved value is no
/// Unicode scalar the character stays as it is.
pub open spec fn shifted(c: char) -> char {
    if is_scalar((c as u32 + SHIFT) as u32) {
        (c as u32 + SHIFT) as char
    } else {
        c
    }
}

/// A character moved down by `SHIFT` code points: what undoes `shifted`.
pub open spec fn unshifted(c: char) -> char {
    (c as u32 - SHIFT) as char
}

/// The wire form of an account name: the prefix, then every character shifted.
pub open spec fn identifier_encoding(name: Seq<char>) -> Seq<char> {
    prefix() + name.map_values(|c: char| shifted(c))
}

/// The masking key, the ASCII digits `1234567890`.
pub open spec fn key() -> Seq<u8> {
    seq![0x31u8, 0x32u8, 0x33u8, 0x34u8, 0x35u8, 0x36u8, 0x37u8, 0x38u8, 0x39u8, 0x30u8]
}

/// The key byte that masks the byte at position `i`: the key is read from its
/// last byte backwards and starts over after its first.
pub open spec fn key_byte(i: int) -> u8 {
    key()[KEY_LEN - 1 - i % (KEY_LEN as int)]
}

/// The character that stands for the low nibble of a masked byte.
pub open spec fn low_char(k: u8) -> char {
    (((k & 0x0f) + 0x36) as u8) as char
}

/// The character that stands for the high nibble of a masked byte.
pub open spec fn high_char(k: u8) -> char {
    ((((k >> 4) & 0x0f) + 0x63) as u8) as char
}

/// The two characters written for byte `b` at position `i`: low nibble first
/// at even positions, high nibble first at odd ones.
pub open spec fn secret_pair(b: u8, i: int) -> Seq<char> {
    let k = b ^ key_byte(i);
    if i % 2 == 0 {
        seq![low_char(k), high_char(k)]
    } else {
        seq![high_char(k), low_char(k)]
    }
}

/// The wire form of a password given as bytes: character `j` belongs to the
/// pair of byte `j / 2`.
pub open spec fn secret_encoding(secret: Seq<u8>) -> Seq<char> {
    Seq::new(2 * secret.len(), |j: int| secret_pair(secret[j / 2], j / 2)[j % 2])
}

/// An encoded account name of digits opens with the prefix, and what follows
/// the prefix, moved back down character by character, is the account name.
pub proof fn lemma_digits_round_trip(name: Seq<char>)
    requires
        all_digits(name),
    ensures
        identifier_encoding(name).len() == prefix().len() + name.len(),
        identifier_encoding(name).take(prefix().len() as int) == prefix(),
        identifier_encoding(name).skip(prefix().len() as int).map_values(|c: char| unshifted(c))
            == name,
{
    let wire = identifier_encoding(name);
    let tail = wire.skip(prefix().len() as int);
    assert(wire.take(prefix().len() as int) =~= prefix());
    assert(tail =~= name.map_values(|c: char| shifted(c)));
    assert forall|i: int| 0 <= i < name.len() implies unshifted(#[trigger] tail[i]) == name[i] by {
        let c = name[i];
        let up = (c as u32 + SHIFT) as u32;
        assert(0x30 <= c as u32 <= 0x39);
        assert(is_scalar(up));
        assert(tail[i] == up as char);
        assert((up as char) as u32 == up);
        char_u32_cast(c, c as u32);
    }
    assert(tail.map_values(|c: char| unshifted(c)) =~= name);
}

/// Every byte of a password becomes exactly two characters, so the encoding is
/// twice as long as the password and empty for the empty password.
pub proof fn lemma_secret_length(secret: Seq<u8>)
    ensures
        secret_encoding(secret).len() == 2 * secret.len(),
        secret.len() == 0 ==> secret_encoding(secret) == Seq::<char>::empty(),
{
    if secret.len() == 0 {
        assert(secret_encoding(secret) =~= Seq::<char>::empty());
    }
}

/// The two characters of byte `i` stand at positions `2 * i` and `2 * i + 1`
/// of the encoding and depend on nothing but that byte and its position.
pub proof fn lemma_secret_pair_at(secret: Seq<u8>, i: int)
    requires
        0 <= i < secret.len(),
    ensures
        secret_encoding(secret).subrange(2 * i, 2 * i + 2) == secret_pair(secret[i], i),
{
    let pair = secret_encoding(secret).subrange(2 * i, 2 * i + 2);
    assert(pair.len() == 2);
    assert((2 * i) / 2 == i && (2 * i) % 2 == 0);
    assert((2 * i + 1) / 2 == i && (2 * i + 1) % 2 == 1);
    assert(pair[0] == secret_pair(secret[i], i)[0]);
    assert(pair[1] == secret_pair(secret[i], i)[1]);
    assert(pair =~= secret_pair(secret[i], i));
}

/// The code points of the two characters of a masked byte give its nibbles
/// back, and they lie in two ranges of sixteen characters that do not meet.
pub proof fn lemma_nibble_chars(k: u8)
    ensures
        low_char(k) as u32 == (k & 0x0f) + 0x36,
        high_char(k) as u32 == ((k >> 4) & 0x0f) + 0x63,
        0x36 <= low_char(k) as u32 <= 0x45,
        0x63 <= high_char(k) as u32 <= 0x72,
{
    assert((k & 0x0f) <= 15 && ((k >> 4) & 0x0f) <= 15) by (bit_vector);
}

/// Every character of an encoded password is one of the thirty-two nibble
/// characters, all of them ASCII.
pub proof fn lemma_secret_alphabet(secret: Seq<u8>, j: int)
    requires
        0 <= j < 2 * secret.len(),
    ensures
        ({
            let code = secret_encoding(secret)[j] as u32;
            0x36 <= code <= 0x45 || 0x63 <= code <= 0x72
        }),
{
    let i = j / 2;
    lemma_nibble_chars(secret[i] ^ key_byte(i));
}

/// The encoding depends on the password alone and tells passwords apart:
/// equal passwords have equal encodings, and no two passwords share one.
pub proof fn lemma_secret_encoding_one_to_one(a: Seq<u8>, b: Seq<u8>)
    ensures
        a == b <==> secret_encoding(a) == secret_encoding(b),
{
    if secret_encoding(a) == secret_encoding(b) {
        lemma_same_encoding_same_secret(a, b);
    }
}

/// Two passwords with one encoding are one password.
proof fn lemma_same_encoding_same_secret(a: Seq<u8>, b: Seq<u8>)
    requires
        secret_encoding(a) == secret_encoding(b),
    ensures
        a == b,
{
    lemma_secret_length(a);
    lemma_secret_length(b);
    assert(a.len() == b.len());
    assert forall|i: int| 0 <= i < a.len() implies a[i] == b[i] by {
        lemma_secret_pair_at(a, i);
        lemma_secret_pair_at(b, i);
        let key = key_byte(i);
        let ka = a[i] ^ key;
        let kb = b[i] ^ key;
        let pa = secret_pair(a[i], i);
        let pb = secret_pair(b[i], i);
        assert(pa == pb);
        assert(pa[0] == pb[0] && pa[1] == pb[1]);
        lemma_nibble_chars(ka);
        lemma_nibble_chars(kb);
        assert(low_char(ka) == low_char(kb) && high_char(ka) == high_char(kb));
        let (x, y) = (a[i], b[i]);
        assert(x == y) by (bit_vector)
            requires
                ((x ^ key) & 0x0f) == ((y ^ key) & 0x0f),
                (((x ^ key) >> 4) & 0x0f) == (((y ^ key) >> 4) & 0x0f),
        ;
    }
    assert(a =~= b);
}

/// Encodes an account name for the portal.
pub fn encrypt_username(username: &str) -> (wire: String)
    ensures
        wire@ == identifier_encoding(username@),
{
    let mut wire = "{SRUN3}\r\n".to_owned();
    proof {
        reveal_strlit("{SRUN3}\r\n");
        assert(wire@ =~= prefix());
    }
    for c in it: username.chars()
        invariant
            it.seq() == username@,
            wire@ == prefix() + username@.take(it.index()).map_values(|c: char| shifted(c)),
    {
        proof {
            char_is_scalar(c);
        }
        let moved = match char::from_u32(c as u32 + SHIFT) {
            Some(m) => m,
            None => c,
        };
        wire.push(moved);
        assert(wire@ =~= prefix() + username@.take(it.index() + 1).map_values(
            |c: char| shifted(c),
        )) by {
            let shorter = username@.take(it.index());
            let longer = username@.take(it.index() + 1);
            assert(longer =~= shorter.push(c));
            assert(longer.map_values(|c: char| shifted(c)) =~= shorter.map_values(
                |c: char| shifted(c),
            ).push(shifted(c)));
        }
    }
    assert(username@.take(username@.len() as int) =~= username@);
    wire
}

/// The key as the encoder holds it.
fn key_bytes() -> (k: [u8; 10])
    ensures
        k@ == key(),
{
    let k: [u8; 10] = [0x31, 0x32, 0x33, 0x34, 0x35, 0x36, 0x37, 0x38, 0x39, 0x30];
    assert(k@ =~= key());
    k
}

/// Encodes the bytes of a password for the portal.
pub fn encrypt_secret_bytes(secret: &[u8]) -> (wire: String)
    ensures
        wire@ == secret_encoding(secret@),
        wire@.len() == 2 * secret@.len(),
{
    let table = key_bytes();
    let mut wire = String::new();
    let mut i: usize = 0;
    while i < secret.len()
        invariant
            i <= secret.len(),
            table@ == key(),
            wire@ == secret_encoding(secret@.take(i as int)),
        decreases secret.len() - i,
    {
        let key_index = KEY_LEN - 1 - (i % KEY_LEN);
        let k: u8 = secret[i] ^ table[key_index];
        assert((k & 0x0f) <= 15 && ((k >> 4) & 0x0f) <= 15) by (bit_vector);
        let low = ((k & 0x0f) + 0x36) as char;
        let high = (((k >> 4) & 0x0f) + 0x63) as char;
        let ghost before = wire@;
        if i % 2 == 0 {
            wire.push(low);
            wire.push(high);
        } else {
            wire.push(high);
            wire.push(low);
        }
        proof {
            let shorter = secret@.take(i as int);
            let longer = secret@.take(i + 1);
            assert(wire@ =~= before + secret_pair(secret@[i as int], i as int));
            assert forall|j: int| 0 <= j < 2 * longer.len() implies #[trigger] wire@[j]
                == secret_encoding(longer)[j] by {
                if j < 2 * i {
                    assert(before[j] == secret_pair(shorter[j / 2], j / 2)[j % 2]);
                    assert(shorter[j / 2] == longer[j / 2]);
                } else {
                    assert(j / 2 == i);
                    assert(longer[j / 2] == secret@[i as int]);
                }
            }
            assert(wire@ =~= secret_encoding(longer));
        }
        i += 1;
    }
    assert(secret@.take(secret.len() as int) =~= secret@);
    wire
}

/// Encodes a password for the portal: the transform of its UTF-8 bytes.
pub fn encrypt_password(password: &str) -> (wire: String)
    ensures
        wire@ == secret_encoding(password.spec_bytes()),
        wire@.len() == 2 * password.spec_bytes().len(),
{
    encrypt_secret_bytes(password.as_bytes())
}

} // verus!
