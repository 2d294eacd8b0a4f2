//! The cipher type and its operations.
//!
//! A [`Caesar`] holds a shift that was validated at construction to lie in
//! [0, 26); construction with any other shift fails with [`InvalidShift`].
//! Once constructed, encryption and decryption are total: they never fail
//! on any input text, because every byte that is not an ASCII letter is
//! passed through unchanged.

use crate::encoding::lemma_encode_commutes;
use crate::encoding::lemma_transform_preserves_utf8;
use crate::shift::decrypt_byte;
use crate::shift::decrypt_chars;
use crate::shift::decrypt_seq;
use crate::shift::encrypt_byte;
use crate::shift::encrypt_chars;
use crate::shift::encrypt_seq;
use vstd::prelude::*;
use vstd::slice::slice_to_vec;
use vstd::utf8::encode_utf8;
use vstd::utf8::encode_utf8_decode_utf8;
use vstd::utf8::valid_utf8;

verus! {

/// The error of strict construction: the requested shift lies outside
/// [0, 26).
#[derive(Clone, Copy, Debug, PartialEq, Eq, Structural)]
pub struct InvalidShift;

/// Selects which of the two transforms [`Caesar::translate`] applies.
#[derive(Clone, Copy, Debug, PartialEq, Eq, Structural)]
pub enum Direction {
    /// Apply the forward transform, plain text to cipher text.
    Encrypt,
    /// Apply the backward transform, cipher text to plain text.
    Decrypt,
}

/// A rotation cipher. It holds a shift in [0, 26) and rotates each ASCII
/// letter of a text by that amount within its case's alphabet, leaving
/// every other byte untouched.
#[derive(Clone, Copy, Debug)]
pub struct Caesar {
    shift: u8,
}

/// Relies on `String::from_utf8`: on bytes that are valid UTF-8 it returns
/// the string made of exactly those bytes.
#[verifier::external_body]
fn string_from_utf8(v: Vec<u8>) -> (r: String)
    requires
        valid_utf8(v@),
    ensures
        encode_utf8(r@) == v@,
{
    String::from_utf8(v).unwrap()
}

impl Caesar {
    /// The shift this cipher was constructed with.
    pub closed spec fn key(self) -> u8 {
        self.shift
    }

    #[verifier::type_invariant]
    spec fn wf(self) -> bool {
        self.shift < 26
    }

    /// Strict construction: succeeds exactly when `shift` lies in [0, 26),
    /// and fails with [`InvalidShift`] otherwise. A shift is never silently
    /// reduced modulo 26.
    pub fn new(shift: u8) -> (r: Result<Caesar, InvalidShift>)
        ensures
            r is Ok <==> shift < 26,
            r is Ok ==> r->Ok_0.key() == shift,
            r is Err ==> r->Err_0 == InvalidShift,
    {
        if shift < 26 {
            Ok(Caesar { shift })
        } else {
            Err(InvalidShift)
        }
    }

    /// Rotates every byte of the buffer forward in place: each ASCII
    /// letter moves `key` places up its alphabet, wrapping around, and
    /// every other byte stays what it was.
    pub fn encrypt_bytes(self, chars: &mut Vec<u8>)
        ensures
            final(chars)@ == encrypt_seq(self.key(), old(chars)@),
    {
        proof {
            use_type_invariant(self);
        }
        let ghost orig = chars@;
        let key = self.shift;
        let n = chars.len();
        for i in 0..n
            invariant
                chars@.len() == n,
                orig.len() == n,
                key == self.key(),
                key < 26,
                forall|j: int| 0 <= j < i ==> chars@[j] == encrypt_byte(key, #[trigger] orig[j]),
                forall|j: int| i <= j < n ==> chars@[j] == #[trigger] orig[j],
        {
            let c = chars[i];
            if 97 <= c && c <= 122 {
                chars[i] = 97 + ((c - 97 + key) % 26);
            } else if 65 <= c && c <= 90 {
                chars[i] = 65 + ((c - 65 + key) % 26);
            }
        }
        proof {
            assert(chars@ =~= encrypt_seq(self.key(), orig));
        }
    }

    /// Rotates every byte of the buffer backward in place: the exact
    /// inverse of [`Caesar::encrypt_bytes`] under the same key.
    pub fn decrypt_bytes(self, chars: &mut Vec<u8>)
        ensures
            final(chars)@ == decrypt_seq(self.key(), old(chars)@),
    {
        proof {
            use_type_invariant(self);
        }
        let ghost orig = chars@;
        let key = self.shift;
        let n = chars.len();
        for i in 0..n
            invariant
                chars@.len() == n,
                orig.len() == n,
                key == self.key(),
                key < 26,
                forall|j: int| 0 <= j < i ==> chars@[j] == decrypt_byte(key, #[trigger] orig[j]),
                forall|j: int| i <= j < n ==> chars@[j] == #[trigger] orig[j],
        {
            let c = chars[i];
            if 97 <= c && c <= 122 {
                chars[i] = 122 - ((25 - (c - 97) + key) % 26);
            } else if 65 <= c && c <= 90 {
                chars[i] = 90 - ((25 - (c - 65) + key) % 26);
            }
        }
        proof {
            assert(chars@ =~= decrypt_seq(self.key(), orig));
        }
    }

    /// Encrypts a text: every ASCII letter is rotated forward by the key
    /// within its case's alphabet and every other character is kept, so
    /// the result is again valid UTF-8 of the same length in bytes.
    pub fn encrypt(self, buf: &str) -> (r: String)
        ensures
            r@ == encrypt_chars(self.key(), buf@),
            encode_utf8(r@) == encrypt_seq(self.key(), encode_utf8(buf@)),
    {
        proof {
            use_type_invariant(self);
        }
        let bytes = buf.as_bytes();
        let mut v = slice_to_vec(bytes);
        self.encrypt_bytes(&mut v);
        proof {
            lemma_transform_preserves_utf8(self.key(), buf@);
        }
        let r = string_from_utf8(v);
        proof {
            lemma_encode_commutes(self.key(), buf@);
            encode_utf8_decode_utf8(r@);
            encode_utf8_decode_utf8(encrypt_chars(self.key(), buf@));
        }
        r
    }

    /// Decrypts a text: the exact inverse of [`Caesar::encrypt`] under the
    /// same key.
    pub fn decrypt(self, buf: &str) -> (r: String)
        ensures
            r@ == decrypt_chars(self.key(), buf@),
            encode_utf8(r@) == decrypt_seq(self.key(), encode_utf8(buf@)),
    {
        proof {
            use_type_invariant(self);
        }
        let bytes = buf.as_bytes();
        let mut v = slice_to_vec(bytes);
        self.decrypt_bytes(&mut v);
        proof {
            lemma_transform_preserves_utf8(self.key(), buf@);
        }
        let r = string_from_utf8(v);
        proof {
            lemma_encode_commutes(self.key(), buf@);
            encode_utf8_decode_utf8(r@);
            encode_utf8_decode_utf8(decrypt_chars(self.key(), buf@));
        }
        r
    }

    /// Dispatches on the direction tag: encrypts for
    /// [`Direction::Encrypt`] and decrypts for [`Direction::Decrypt`].
    pub fn translate(self, buf: &str, dir: Direction) -> (r: String)
        ensures
            dir == Direction::Encrypt ==> r@ == encrypt_chars(self.key(), buf@),
            dir == Direction::Decrypt ==> r@ == decrypt_chars(self.key(), buf@),
    {
        match dir {
            Direction::Encrypt => self.encrypt(buf),
            Direction::Decrypt => self.decrypt(buf),
        }
    }
}

} // verus!
