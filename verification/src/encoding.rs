//! How the rotation interacts with UTF-8.
//!
//! The transform is defined twice: on characters (what a caller of the
//! string API sees) and on raw bytes (what the implementation touches).
//! The two agree: rotating the letters of a text and then encoding it as
//! UTF-8 yields the same bytes as encoding first and rotating each byte.
//! This holds because an ASCII letter always encodes as the single byte of
//! its own value, while every byte of a multi-byte encoding is at least
//! 0x80 and therefore outside both letter ranges. It follows that the byte
//! transform carries valid UTF-8 to valid UTF-8.

use crate::shift::decrypt_byte;
use crate::shift::decrypt_char;
use crate::shift::decrypt_chars;
use crate::shift::decrypt_seq;
use crate::shift::encrypt_byte;
use crate::shift::encrypt_char;
use crate::shift::encrypt_chars;
use crate::shift::encrypt_seq;
use crate::shift::is_ascii_letter;
use crate::shift::is_letter_char;
use crate::shift::lemma_byte_case_preserved;
use vstd::prelude::*;
use vstd::utf8::char_is_scalar;
use vstd::utf8::encode_scalar;
use vstd::utf8::encode_utf8;
use vstd::utf8::encode_utf8_valid_utf8;
use vstd::utf8::valid_utf8;

verus! {

/// No byte of the UTF-8 encoding of a non-letter character is an ASCII
/// letter byte, so the byte transform leaves the whole encoding alone.
proof fn lemma_non_letter_scalar_fixed(key: u8, c: char)
    requires
        !is_letter_char(c),
    ensures
        encrypt_seq(key, encode_scalar(c as u32)) == encode_scalar(c as u32),
        decrypt_seq(key, encode_scalar(c as u32)) == encode_scalar(c as u32),
{
    let v = c as u32;
    char_is_scalar(c);
    let bytes = encode_scalar(v);
    assert forall|i: int| 0 <= i < bytes.len() implies !is_ascii_letter(#[trigger] bytes[i]) by {
        if v < 0x80 {
            assert(bytes =~= seq![(v & 0x7F) as u8]);
            assert((v & 0x7F) == v) by (bit_vector)
                requires
                    v < 0x80,
            ;
            assert(!(65 <= v <= 90) && !(97 <= v <= 122));
        } else {
            assert((0xC0u8 | ((v >> 6) & 0x1F) as u8) >= 0x80 && (0xE0u8 | ((v >> 12)
                & 0x0F) as u8) >= 0x80 && (0xF0u8 | ((v >> 18) & 0x7) as u8) >= 0x80 && (0x80u8 | (
            v & 0x3F) as u8) >= 0x80 && (0x80u8 | ((v >> 6) & 0x3F) as u8) >= 0x80 && (0x80u8 | ((v
                >> 12) & 0x3F) as u8) >= 0x80) by (bit_vector);
        }
    }
    assert(encrypt_seq(key, bytes) =~= bytes);
    assert(decrypt_seq(key, bytes) =~= bytes);
}

/// An ASCII letter encodes as the single byte of its own value, and so
/// does its rotation; on such a one-byte encoding the byte transform and
/// the character transform are the same substitution.
proof fn lemma_letter_scalar_commutes(key: u8, c: char)
    requires
        is_letter_char(c),
    ensures
        encrypt_seq(key, encode_scalar(c as u32)) == encode_scalar(encrypt_char(key, c) as u32),
        decrypt_seq(key, encode_scalar(c as u32)) == encode_scalar(decrypt_char(key, c) as u32),
{
    let v = c as u32;
    let b = v as u8;
    lemma_byte_case_preserved(key, b);
    let eb = encrypt_byte(key, b);
    let db = decrypt_byte(key, b);
    assert((v & 0x7F) as u8 == b && ((eb as u32) & 0x7F) as u8 == eb && ((db as u32) & 0x7F) as u8
        == db) by (bit_vector)
        requires
            v <= 122,
            b == v as u8,
            eb < 0x80,
            db < 0x80,
    ;
    assert(encode_scalar(v) =~= seq![b]);
    assert(encrypt_char(key, c) as u32 == eb as u32);
    assert(decrypt_char(key, c) as u32 == db as u32);
    assert(encode_scalar(eb as u32) =~= seq![eb]);
    assert(encode_scalar(db as u32) =~= seq![db]);
    assert(encrypt_seq(key, seq![b]) =~= seq![eb]);
    assert(decrypt_seq(key, seq![b]) =~= seq![db]);
}

/// One character's worth of the agreement between the two transforms.
proof fn lemma_scalar_commutes(key: u8, c: char)
    ensures
        encrypt_seq(key, encode_scalar(c as u32)) == encode_scalar(encrypt_char(key, c) as u32),
        decrypt_seq(key, encode_scalar(c as u32)) == encode_scalar(decrypt_char(key, c) as u32),
{
    if is_letter_char(c) {
        lemma_letter_scalar_commutes(key, c);
    } else {
        lemma_non_letter_scalar_fixed(key, c);
    }
}

/// Rotating the letters of a text and then encoding it as UTF-8 yields the
/// same bytes as encoding the text first and rotating each byte, in both
/// directions of the transform.
pub proof fn lemma_encode_commutes(key: u8, s: Seq<char>)
    ensures
        encode_utf8(encrypt_chars(key, s)) == encrypt_seq(key, encode_utf8(s)),
        encode_utf8(decrypt_chars(key, s)) == decrypt_seq(key, encode_utf8(s)),
    decreases s.len(),
{
    if s.len() == 0 {
        assert(encode_utf8(encrypt_chars(key, s)) =~= encrypt_seq(key, encode_utf8(s)));
        assert(encode_utf8(decrypt_chars(key, s)) =~= decrypt_seq(key, encode_utf8(s)));
    } else {
        let rest = s.drop_first();
        lemma_encode_commutes(key, rest);
        lemma_scalar_commutes(key, s[0]);
        let es = encrypt_chars(key, s);
        assert(es[0] == encrypt_char(key, s[0]));
        assert(es.drop_first() =~= encrypt_chars(key, rest));
        let ds = decrypt_chars(key, s);
        assert(ds[0] == decrypt_char(key, s[0]));
        assert(ds.drop_first() =~= decrypt_chars(key, rest));
        let head = encode_scalar(s[0] as u32);
        let tail = encode_utf8(rest);
        assert(encrypt_seq(key, head + tail) =~= encrypt_seq(key, head) + encrypt_seq(key, tail));
        assert(decrypt_seq(key, head + tail) =~= decrypt_seq(key, head) + decrypt_seq(key, tail));
    }
}

/// The byte transform carries valid UTF-8 to valid UTF-8: applied to the
/// encoding of any text it yields the encoding of the rotated text, which
/// is valid by construction.
pub proof fn lemma_transform_preserves_utf8(key: u8, s: Seq<char>)
    ensures
        valid_utf8(encrypt_seq(key, encode_utf8(s))),
        valid_utf8(decrypt_seq(key, encode_utf8(s))),
{
    lemma_encode_commutes(key, s);
    encode_utf8_valid_utf8(encrypt_chars(key, s));
    encode_utf8_valid_utf8(decrypt_chars(key, s));
}

} // verus!
