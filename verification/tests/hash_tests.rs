use impass::errors::PasswordFormatError;
use impass::hashing::{impassible_hash, u128_to_decimal};

#[test]
fn impassible_works_as_expected() {
    let items = vec!["helloworld!", "Pa$_swOrd"];

    for it in items {
        assert!(impassible_hash(&it.to_string()).unwrap() > 100000);
    }
}

#[test]
fn impassible_exact_values() {
    assert_eq!(
        impassible_hash(&"asdasd".to_string()).unwrap(),
        32882738522157802728492471u128
    );
    assert_eq!(
        impassible_hash(&"helloworld!".to_string()).unwrap(),
        232033775409438220379916743301784418949u128
    );
    assert_eq!(
        impassible_hash(&"Pa$_swOrd".to_string()).unwrap(),
        29762023347281775433141736025737409u128
    );
}

#[test]
fn impassible_rejects_long_passwords() {
    let item = "my password is tooo long";

    assert_eq!(
        impassible_hash(&item.to_string()),
        Err(PasswordFormatError::TooLong)
    );
}

#[test]
fn impassible_accepts_eleven_characters_but_not_twelve() {
    assert!(impassible_hash(&"abcdefghijk".to_string()).is_ok());
    assert_eq!(
        impassible_hash(&"abcdefghijkl".to_string()),
        Err(PasswordFormatError::TooLong)
    );
}

#[test]
fn impassible_rejects_non_ascii_passwords() {
    let item = "невалиден";

    assert_eq!(
        impassible_hash(&item.to_string()),
        Err(PasswordFormatError::InvalidCharacters)
    );
}

#[test]
fn impassible_is_deterministic_and_separates_inputs() {
    let a = impassible_hash(&"asdasd".to_string()).unwrap();
    let b = impassible_hash(&"asdasd".to_string()).unwrap();
    let c = impassible_hash(&"asdase".to_string()).unwrap();
    assert_eq!(a, b);
    assert_ne!(a, c);
}

#[test]
fn decimal_digits_exact_values() {
    assert_eq!(u128_to_decimal(0), b"0".to_vec());
    assert_eq!(u128_to_decimal(7), b"7".to_vec());
    assert_eq!(u128_to_decimal(105), b"105".to_vec());
    assert_eq!(
        u128_to_decimal(32882738522157802728492471u128),
        b"32882738522157802728492471".to_vec()
    );
    assert_eq!(
        u128_to_decimal(u128::MAX),
        b"340282366920938463463374607431768211455".to_vec()
    );
}
