use pswrd::alphabet::{encode, symbol, ALPHABET, ALPHABET_LEN};
use pswrd::canonical::{append_bytes, append_decimal, concatenated_message, labeled_salt_bytes};
use pswrd::password::scrub;
use pswrd::{parse_index, validate_index};

#[test]
fn alphabet_has_distinct_symbols() {
    assert_eq!(ALPHABET.len(), ALPHABET_LEN);
    for i in 0..ALPHABET.len() {
        for j in 0..i {
            assert_ne!(ALPHABET[i], ALPHABET[j]);
        }
    }
}

#[test]
fn symbol_reduces_modulo_85() {
    assert_eq!(symbol(0), '0');
    assert_eq!(symbol(84), '~');
    assert_eq!(symbol(85), '0');
    assert_eq!(symbol(255), '0');
    assert_eq!(symbol(170), '0');
    assert_eq!(symbol(254), '~');
}

#[test]
fn encode_maps_each_byte() {
    assert_eq!(encode(&[0, 84, 85, 255, 10, 36, 62]), "0~00Aa!");
    assert_eq!(encode(&[]), "");
}

#[test]
fn labeled_salt_layout() {
    assert_eq!(labeled_salt_bytes("fbi.gov", "root", 0), b"pswrd:fbi.gov:root:0".to_vec());
    assert_eq!(labeled_salt_bytes("", "", 4294967295), b"pswrd:::4294967295".to_vec());
    assert_eq!(labeled_salt_bytes("site.tld", "foo", 42), b"pswrd:site.tld:foo:42".to_vec());
}

#[test]
fn message_is_plain_concatenation() {
    assert_eq!(concatenated_message("site.tld", "foo"), b"site.tldfoo".to_vec());
    assert_eq!(concatenated_message("", ""), Vec::<u8>::new());
    assert_eq!(concatenated_message("site", "X"), concatenated_message("sit", "eX"));
}

#[test]
fn decimal_digits() {
    let mut v = b"n=".to_vec();
    append_decimal(&mut v, 0);
    assert_eq!(v, b"n=0".to_vec());
    let mut v = Vec::new();
    append_decimal(&mut v, 1234567890);
    assert_eq!(v, b"1234567890".to_vec());
    let mut v = Vec::new();
    append_decimal(&mut v, 100);
    assert_eq!(v, b"100".to_vec());
}

#[test]
fn append_keeps_order() {
    let mut v = vec![1u8, 2];
    append_bytes(&mut v, &[3, 4, 5]);
    assert_eq!(v, vec![1, 2, 3, 4, 5]);
}

#[test]
fn scrub_zeroes_every_byte() {
    let mut v = b"Pa$$W0rd".to_vec();
    scrub(&mut v);
    assert_eq!(v, vec![0u8; 8]);
}

#[test]
fn parse_index_accepts_u32_text() {
    assert_eq!(parse_index("0"), Some(0));
    assert_eq!(parse_index("42"), Some(42));
    assert_eq!(parse_index("+7"), Some(7));
    assert_eq!(parse_index("007"), Some(7));
    assert_eq!(parse_index("4294967295"), Some(u32::MAX));
}

#[test]
fn parse_index_rejects_other_text() {
    assert_eq!(parse_index(""), None);
    assert_eq!(parse_index("+"), None);
    assert_eq!(parse_index("-1"), None);
    assert_eq!(parse_index("1a"), None);
    assert_eq!(parse_index(" 1"), None);
    assert_eq!(parse_index("4294967296"), None);
    assert_eq!(parse_index("99999999999999999999"), None);
    assert_eq!(parse_index("\u{663}"), None);
}

#[test]
fn validate_index_messages() {
    assert_eq!(validate_index(String::from("3")), Ok(()));
    assert_eq!(validate_index(String::from("abc")), Err(String::from("abc is not a positive number")));
    assert_eq!(validate_index(String::from("-2")), Err(String::from("-2 is not a positive number")));
}
