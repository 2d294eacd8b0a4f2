use csr::Caesar;
use csr::Direction;
use csr::InvalidShift;

#[test]
fn test_decrypt_basic() {
    let key: u8 = 10;
    let caesar = Caesar::new(key).unwrap();

    let input = String::from("Drsc sc k coxdoxmo");
    let output = String::from("This is a sentence");

    assert_eq!(caesar.decrypt(&input), output);
}

#[test]
fn test_encrypt_basic() {
    let key: u8 = 20;
    let caesar = Caesar::new(key).unwrap();

    let input = String::from("Tests are important");
    let output = String::from("Nymnm uly cgjilnuhn");

    assert_eq!(caesar.encrypt(&input), output);
}

#[test]
fn test_emoji_passthrough_decrypt() {
    let key: u8 = 15;
    let caesar = Caesar::new(key).unwrap();

    let input = String::from("😀 😁 😂 🤣 😃 😄 😅 😆 😉 😊 😋 😎 😍");
    let output = input.clone();

    assert_eq!(caesar.decrypt(&input), output);
}

#[test]
fn test_emoji_passthrough_encrypt() {
    let key: u8 = 15;
    let caesar = Caesar::new(key).unwrap();

    let input = String::from("😀 😁 😂 🤣 😃 😄 😅 😆 😉 😊 😋 😎 😍");
    let output = input.clone();

    assert_eq!(caesar.encrypt(&input), output);
}

#[test]
fn str_test() {
    let key: u8 = 2;
    let caesar = Caesar::new(key).unwrap();

    let input = "Hello world!";
    let output = "Jgnnq yqtnf!".to_string();

    assert_eq!(caesar.encrypt(input), output);
}

#[test]
fn slice_test() {
    let key: u8 = 2;
    let caesar = Caesar::new(key).unwrap();

    let input = "Top secret message!";
    let output = "Vqr ugetgv".to_string();

    assert_eq!(caesar.encrypt(&input[0..10]), output);
}

#[test]
fn round_trip_all_keys() {
    let text = "The quick brown Fox jumps over the lazy Dog, 13 times! 😀";
    for key in 0..26u8 {
        let caesar = Caesar::new(key).unwrap();
        assert_eq!(caesar.decrypt(&caesar.encrypt(text)), text);
        assert_eq!(caesar.encrypt(&caesar.decrypt(text)), text);
    }
}

#[test]
fn non_letter_passthrough() {
    let text = "0123456789 .,;:!?-_()[]{} \t\n äöü é 😀";
    for key in [0u8, 1, 13, 25] {
        let caesar = Caesar::new(key).unwrap();
        assert_eq!(caesar.encrypt(text), text);
        assert_eq!(caesar.decrypt(text), text);
    }
}

#[test]
fn case_is_preserved() {
    let caesar = Caesar::new(7).unwrap();
    let upper = caesar.encrypt("ABCXYZ");
    assert!(upper.chars().all(|c| c.is_ascii_uppercase()));
    let lower = caesar.encrypt("abcxyz");
    assert!(lower.chars().all(|c| c.is_ascii_lowercase()));
    let upper_dec = caesar.decrypt("ABCXYZ");
    assert!(upper_dec.chars().all(|c| c.is_ascii_uppercase()));
    let lower_dec = caesar.decrypt("abcxyz");
    assert!(lower_dec.chars().all(|c| c.is_ascii_lowercase()));
}

#[test]
fn wrap_around() {
    let caesar = Caesar::new(1).unwrap();
    assert_eq!(caesar.encrypt("zZ"), "aA");
    assert_eq!(caesar.decrypt("aA"), "zZ");
}

#[test]
fn zero_key_is_identity() {
    let caesar = Caesar::new(0).unwrap();
    let text = "Nothing changes: abc XYZ 42!";
    assert_eq!(caesar.encrypt(text), text);
    assert_eq!(caesar.decrypt(text), text);
}

#[test]
fn shift_validation_boundaries() {
    assert!(Caesar::new(0).is_ok());
    assert!(Caesar::new(25).is_ok());
    assert_eq!(Caesar::new(26).unwrap_err(), InvalidShift);
    assert_eq!(Caesar::new(27).unwrap_err(), InvalidShift);
    assert_eq!(Caesar::new(255).unwrap_err(), InvalidShift);
}

#[test]
fn translate_dispatches() {
    let caesar = Caesar::new(2).unwrap();
    assert_eq!(caesar.translate("Hello world!", Direction::Encrypt), "Jgnnq yqtnf!");
    assert_eq!(caesar.translate("Jgnnq yqtnf!", Direction::Decrypt), "Hello world!");
}

#[test]
fn encrypt_bytes_in_place() {
    let caesar = Caesar::new(2).unwrap();
    // "bruh"
    let mut bytes = vec![98u8, 114, 117, 104];
    // "dtwj"
    let output = vec![100u8, 116, 119, 106];
    caesar.encrypt_bytes(&mut bytes);
    assert_eq!(bytes, output);
}

#[test]
fn decrypt_bytes_in_place() {
    let caesar = Caesar::new(2).unwrap();
    // "skrrt"
    let mut bytes = vec![115u8, 107, 114, 114, 116];
    // "qippr"
    let output = vec![113u8, 105, 112, 112, 114];
    caesar.decrypt_bytes(&mut bytes);
    assert_eq!(bytes, output);
}

#[test]
fn bytes_round_trip_non_letters_unchanged() {
    let caesar = Caesar::new(13).unwrap();
    let original = vec![48u8, 57, 32, 33, 64, 200, 255, 0];
    let mut bytes = original.clone();
    caesar.encrypt_bytes(&mut bytes);
    assert_eq!(bytes, original);
    caesar.decrypt_bytes(&mut bytes);
    assert_eq!(bytes, original);
}
