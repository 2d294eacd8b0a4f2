//! The letter rotation itself, stated once over bytes and once over
//! characters, together with the laws that hold of it: the two directions
//! are inverses, each case maps into itself, and everything that is not an
//! ASCII letter is left alone.

use vstd::prelude::*;

verus! {

/// True of the byte value of an ASCII uppercase letter (`A` through `Z`).
pub open spec fn is_ascii_upper(b: u8) -> bool {
    65 <= b <= 90
}

/// True of the byte value of an ASCII lowercase letter (`a` through `z`).
pub open spec fn is_ascii_lower(b: u8) -> bool {
    97 <= b <= 122
}

/// True of the byte value of any ASCII letter.
pub open spec fn is_ascii_letter(b: u8) -> bool {
    is_ascii_upper(b) || is_ascii_lower(b)
}

/// One byte of the forward transform: rotate a letter forward by `key`
/// within its case's alphabet, and leave every other byte unchanged.
pub open spec fn encrypt_byte(key: u8, b: u8) -> u8 {
    if is_ascii_upper(b) {
        (65 + ((b - 65 + key) % 26)) as u8
    } else if is_ascii_lower(b) {
        (97 + ((b - 97 + key) % 26)) as u8
    } else {
        b
    }
}

/// One byte of the backward transform, the algebraic inverse of
/// [`encrypt_byte`] for every key below 26.
pub open spec fn decrypt_byte(key: u8, b: u8) -> u8 {
    if is_ascii_upper(b) {
        (90 - ((25 - (b - 65) + key) % 26)) as u8
    } else if is_ascii_lower(b) {
        (122 - ((25 - (b - 97) + key) % 26)) as u8
    } else {
        b
    }
}

/// The forward transform applied to every byte of a sequence.
pub open spec fn encrypt_seq(key: u8, s: Seq<u8>) -> Seq<u8> {
    s.map_values(|b: u8| encrypt_byte(key, b))
}

/// The backward transform applied to every byte of a sequence.
pub open spec fn decrypt_seq(key: u8, s: Seq<u8>) -> Seq<u8> {
    s.map_values(|b: u8| decrypt_byte(key, b))
}

/// True of a character that is an ASCII uppercase letter.
pub open spec fn is_upper_char(c: char) -> bool {
    65 <= c as u32 && c as u32 <= 90
}

/// True of a character that is an ASCII lowercase letter.
pub open spec fn is_lower_char(c: char) -> bool {
    97 <= c as u32 && c as u32 <= 122
}

/// True of a character that is an ASCII letter.
pub open spec fn is_letter_char(c: char) -> bool {
    is_upper_char(c) || is_lower_char(c)
}

/// The forward transform on a single character: an ASCII letter is rotated
/// by `key` within its case's alphabet, and every other character — digits,
/// punctuation, accented letters, emoji — stays what it was.
pub open spec fn encrypt_char(key: u8, c: char) -> char {
    if is_letter_char(c) {
        (encrypt_byte(key, (c as u32) as u8) as u32) as char
    } else {
        c
    }
}

/// The backward transform on a single character.
pub open spec fn decrypt_char(key: u8, c: char) -> char {
    if is_letter_char(c) {
        (decrypt_byte(key, (c as u32) as u8) as u32) as char
    } else {
        c
    }
}

/// The forward transform applied to every character of a sequence.
pub open spec fn encrypt_chars(key: u8, s: Seq<char>) -> Seq<char> {
    s.map_values(|c: char| encrypt_char(key, c))
}

/// The backward transform applied to every character of a sequence.
pub open spec fn decrypt_chars(key: u8, s: Seq<char>) -> Seq<char> {
    s.map_values(|c: char| decrypt_char(key, c))
}

/// Both directions of the transform keep each letter inside its own case's
/// alphabet and leave every non-letter byte unchanged.
pub proof fn lemma_byte_case_preserved(key: u8, b: u8)
    ensures
        is_ascii_upper(b) ==> is_ascii_upper(encrypt_byte(key, b)) && is_ascii_upper(
            decrypt_byte(key, b),
        ),
        is_ascii_lower(b) ==> is_ascii_lower(encrypt_byte(key, b)) && is_ascii_lower(
            decrypt_byte(key, b),
        ),
        !is_ascii_letter(b) ==> encrypt_byte(key, b) == b && decrypt_byte(key, b) == b,
{
}

/// On one byte the two directions undo each other, for every key below 26.
pub proof fn lemma_byte_round_trip(key: u8, b: u8)
    requires
        key < 26,
    ensures
        decrypt_byte(key, encrypt_byte(key, b)) == b,
        encrypt_byte(key, decrypt_byte(key, b)) == b,
{
    lemma_byte_case_preserved(key, b);
}

/// Both directions of the transform keep each letter character inside its
/// own case and leave every non-letter character unchanged.
pub proof fn lemma_char_case_preserved(key: u8, c: char)
    ensures
        is_upper_char(c) ==> is_upper_char(encrypt_char(key, c)) && is_upper_char(
            decrypt_char(key, c),
        ),
        is_lower_char(c) ==> is_lower_char(encrypt_char(key, c)) && is_lower_char(
            decrypt_char(key, c),
        ),
        !is_letter_char(c) ==> encrypt_char(key, c) == c && decrypt_char(key, c) == c,
{
    if is_letter_char(c) {
        lemma_byte_case_preserved(key, (c as u32) as u8);
    }
}

/// On one character the two directions undo each other, for every key
/// below 26.
pub proof fn lemma_char_round_trip(key: u8, c: char)
    requires
        key < 26,
    ensures
        decrypt_char(key, encrypt_char(key, c)) == c,
        encrypt_char(key, decrypt_char(key, c)) == c,
{
    if is_letter_char(c) {
        let b = (c as u32) as u8;
        lemma_byte_case_preserved(key, b);
        lemma_byte_round_trip(key, b);
    }
}

/// The inverse law over whole character sequences: decrypting what was
/// encrypted with the same key gives the original text back, and so does
/// encrypting what was decrypted.
pub proof fn lemma_round_trip(key: u8, s: Seq<char>)
    requires
        key < 26,
    ensures
        decrypt_chars(key, encrypt_chars(key, s)) == s,
        encrypt_chars(key, decrypt_chars(key, s)) == s,
{
    assert forall|i: int| 0 <= i < s.len() implies decrypt_char(
        key,
        encrypt_char(key, s[i]),
    ) == s[i] && encrypt_char(key, decrypt_char(key, s[i])) == s[i] by {
        lemma_char_round_trip(key, s[i]);
    }
    assert(decrypt_chars(key, encrypt_chars(key, s)) =~= s);
    assert(encrypt_chars(key, decrypt_chars(key, s)) =~= s);
}

/// A byte sequence without any ASCII letter — punctuation, digits,
/// whitespace, multi-byte UTF-8 sequences — comes back unchanged from both
/// directions of the transform, whatever the key.
pub proof fn lemma_seq_passthrough(key: u8, s: Seq<u8>)
    requires
        forall|i: int| 0 <= i < s.len() ==> !is_ascii_letter(#[trigger] s[i]),
    ensures
        encrypt_seq(key, s) == s,
        decrypt_seq(key, s) == s,
{
    assert(encrypt_seq(key, s) =~= s);
    assert(decrypt_seq(key, s) =~= s);
}

/// A character sequence without any ASCII letter comes back unchanged from
/// both directions of the transform, whatever the key.
pub proof fn lemma_chars_passthrough(key: u8, s: Seq<char>)
    requires
        forall|i: int| 0 <= i < s.len() ==> !is_letter_char(#[trigger] s[i]),
    ensures
        encrypt_chars(key, s) == s,
        decrypt_chars(key, s) == s,
{
    assert(encrypt_chars(key, s) =~= s);
    assert(decrypt_chars(key, s) =~= s);
}

} // verus!
