use impass::crypt::{decrypt_secret, encrypt_secret, within_range, CipherKeys};
use impass::keys::{collect_env, Env};

fn default_keys() -> CipherKeys {
    collect_env(Env::new()).unwrap()
}

#[test]
fn mod_within_range_works() {
    let nums = [123, 53, 97, 45, 65];

    for n in nums {
        let res = within_range(n, 1, 10);

        assert!(res > 1 && res < 10);
    }
}

#[test]
fn crypt_within_range_works() {
    let nums = [123, 53, 97, 45, 65];

    for n in nums {
        let res = within_range(n, 1, 10);

        assert!(res > 1 && res < 10);
    }
}

#[test]
fn within_range_stays_inside_bounds() {
    for x in 0..=255u16 {
        let r = within_range(x as u8, 1, 8);
        assert!(1 <= r && r <= 8);
        let r = within_range(x as u8, 7, 30);
        assert!(7 <= r && r <= 30);
        let r = within_range(x as u8, 1, 255);
        assert!(r >= 1);
    }
}

#[test]
fn within_range_exact_values() {
    assert_eq!(within_range(11, 1, 31), 12);
    assert_eq!(within_range(11, 7, 30), 18);
    assert_eq!(within_range(123, 1, 10), 4);
}

#[test]
fn encrypt_decrypt_works() {
    let texts = [
        "hello world!",
        "how are youuuuu!?",
        "this is some text I'm boutta encode",
    ];

    let keys = default_keys();

    for txt in texts {
        let crypted = encrypt_secret(txt, &keys);

        assert_ne!(crypted, txt.as_bytes().to_vec());

        let decrypted = decrypt_secret(&crypted, &keys).unwrap();
        assert_eq!(decrypted, txt.as_bytes().to_vec());
    }
}

#[test]
fn encrypt_single_byte_exact_value() {
    let keys = default_keys();
    assert_eq!(keys, CipherKeys { shift: 11, constant: 42, mask: 69 });
    assert_eq!(encrypt_secret("A", &keys), b"PQ==".to_vec());
}

#[test]
fn encrypt_exact_value() {
    let keys = default_keys();
    assert_eq!(
        encrypt_secret("hello world!", &keys),
        b"XRsSCxcMWhoQExsR".to_vec()
    );
}

#[test]
fn encrypt_is_deterministic() {
    let keys = default_keys();
    let first = encrypt_secret("some secret", &keys);
    let second = encrypt_secret("some secret", &keys);
    assert_eq!(first, second);
}

#[test]
fn encrypt_never_returns_the_secret() {
    let keys = default_keys();
    for txt in ["x", "ab", "hello world!", "0123456789"] {
        assert_ne!(encrypt_secret(txt, &keys), txt.as_bytes().to_vec());
    }
}

#[test]
fn empty_secret_round_trips() {
    let keys = default_keys();
    let crypted = encrypt_secret("", &keys);
    assert_eq!(crypted, Vec::<u8>::new());
    assert_eq!(decrypt_secret(&crypted, &keys).unwrap(), Vec::<u8>::new());
}

#[test]
fn single_character_round_trips() {
    let keys = default_keys();
    for txt in ["a", "Z", "!"] {
        let crypted = encrypt_secret(txt, &keys);
        assert_eq!(decrypt_secret(&crypted, &keys).unwrap(), txt.as_bytes().to_vec());
    }
}

#[test]
fn round_trip_with_other_good_keys() {
    let keys = CipherKeys { shift: 9, constant: 1000000, mask: 33 };
    let txt = "another secret";
    let crypted = encrypt_secret(txt, &keys);
    assert_eq!(decrypt_secret(&crypted, &keys).unwrap(), txt.as_bytes().to_vec());
}

#[test]
fn decrypt_rejects_invalid_transport_bytes() {
    let keys = default_keys();
    assert!(decrypt_secret(b"!!!not base64!!!", &keys).is_none());
}
