use sendstream::MixedString;

const LETTER_A: u8 = 0x41;

// A UTF-8 sequence never starts with a continuation byte (0b10xxxxxx).
const INVALID: &[u8] = &[0x80, 0x81];
// A four-byte sequence starts with 0b11110xxx; alone it is truncated.
const TRUNCATED: u8 = 0xf0;

#[test]
fn normal() {
    let s = "Hello world!";
    let b = s.as_bytes().to_vec();

    let mixed = MixedString::from_bytes(&b);

    assert_eq!(s, &mixed.to_string());
    assert_eq!(b, &mixed.to_bytes()[..]);
}

#[test]
fn normal_reverse() {
    let s = "Hello world!";
    let r = "!dlrow olleH";
    let mut b = s.as_bytes().to_vec();

    let mut mixed = MixedString::from_bytes(&b);
    mixed.reverse();
    b.reverse();

    assert_eq!(r, &mixed.to_string());
    assert_eq!(b, &mixed.to_bytes()[..]);
}

#[test]
fn invalid() {
    let s = r#"\u{80}\u{81}"#;
    let b = INVALID.to_vec();

    let mixed = MixedString::from_bytes(&b);

    assert_eq!(s, &mixed.to_string());
    assert_eq!(b, &mixed.to_bytes()[..]);
}

#[test]
fn invalid_reverse() {
    let r = r#"\u{81}\u{80}"#;
    let mut b = INVALID.to_vec();

    let mut mixed = MixedString::from_bytes(&b);
    mixed.reverse();
    b.reverse();

    assert_eq!(r, &mixed.to_string());
    assert_eq!(b, &mixed.to_bytes()[..]);
}

#[test]
fn mixed() {
    let s = "Hello \\u{f0}A";
    let mut input: Vec<u8> = "Hello ".to_string().into_bytes();
    input.push(TRUNCATED);
    input.push(LETTER_A);

    let mixed = MixedString::from_bytes(&input);

    assert_eq!(s, &mixed.to_string());
    assert_eq!(input, &mixed.to_bytes()[..]);
}

#[test]
fn mixed_reverse() {
    let r = "A\\u{f0} olleH";
    let mut input: Vec<u8> = "Hello ".to_string().into_bytes();
    input.push(TRUNCATED);
    input.push(LETTER_A);

    let mut mixed = MixedString::from_bytes(&input);
    mixed.reverse();
    input.reverse();

    assert_eq!(r, &mixed.to_string());
    assert_eq!(input, &mixed.to_bytes()[..]);
}

#[test]
fn eof() {
    let s = "Hello \\u{f0}\u{FFDD}";
    let mut input: Vec<u8> = "Hello ".to_string().into_bytes();
    input.push(TRUNCATED);

    let mixed = MixedString::from_bytes(&input);

    assert_eq!(s, &mixed.to_string());
    assert_eq!(input, &mixed.to_bytes()[..]);
}

#[test]
fn eof_reverse() {
    let r = "\u{FFDD}\\u{f0} olleH";
    let mut input: Vec<u8> = "Hello ".to_string().into_bytes();
    input.push(TRUNCATED);

    let mut mixed = MixedString::from_bytes(&input);
    mixed.reverse();
    input.reverse();

    assert_eq!(r, &mixed.to_string());
    assert_eq!(input, &mixed.to_bytes()[..]);
}

#[test]
fn reverse_emoji() {
    let s = "123 \u{1F937}";
    let bytes = s.as_bytes().to_vec();
    assert_eq!(s.chars().count(), 4 + 1);
    assert_eq!(bytes.len(), 4 + 4);

    let mut mixed = MixedString::from_string(s.to_string());
    mixed.reverse();

    assert_eq!("\u{1F937} 321", mixed.to_string());
}

#[test]
fn empty_round_trip() {
    let b: Vec<u8> = Vec::new();
    let mixed = MixedString::from_bytes(&b);
    assert!(mixed.to_bytes().is_empty());
    assert_eq!("", mixed.to_string());
}

#[test]
fn equal_bytes_equal_strings() {
    let b: &[u8] = &[0x61, 0x80, 0x62];
    let one = MixedString::from_bytes(b);
    let two = MixedString::from_bytes(b);
    assert_eq!(one, two);
    let other = MixedString::from_bytes(&[0x61, 0x81, 0x62]);
    assert!(one != other);
}

#[test]
fn from_string_matches_from_bytes() {
    let from_text = MixedString::from_string("a/b/c".to_string());
    let from_raw = MixedString::from_bytes("a/b/c".as_bytes());
    assert_eq!(from_text, from_raw);
}
