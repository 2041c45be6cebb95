use impass::crypt::CipherKeys;
use impass::errors::ConfigError;
use impass::keys::{check_env_vars, collect_env, parse_u32, Env};

fn env_of(pairs: &[(&str, &str)]) -> Env {
    let mut env = Env::new();
    for (k, v) in pairs {
        env.insert(k.to_string(), v.to_string());
    }
    env
}

#[test]
fn env_checks_correctly() {
    let normal_env = env_of(&[("GODNUM", "69"), ("shitenv", "69")]);

    let res = check_env_vars(normal_env.clone());

    assert_eq!(normal_env, res.unwrap())
}

#[test]
fn env_fails_check_correctly_with_error() {
    let normal_env = env_of(&[("GODNUM", "invalid value here")]);

    assert_eq!(check_env_vars(normal_env), Err(ConfigError::Godnum));
}

#[test]
fn env_names_the_offending_field() {
    assert_eq!(
        check_env_vars(env_of(&[("SHIFT", "x")])),
        Err(ConfigError::Shift)
    );
    assert_eq!(
        check_env_vars(env_of(&[("XOR", "-3")])),
        Err(ConfigError::Xor)
    );
    assert_eq!(
        check_env_vars(env_of(&[("SHIFT", "?"), ("XOR", "?")])),
        Err(ConfigError::Shift)
    );
}

#[test]
fn collect_env_takes_defaults() {
    assert_eq!(
        collect_env(Env::new()).unwrap(),
        CipherKeys { shift: 11, constant: 42, mask: 69 }
    );
}

#[test]
fn collect_env_takes_overrides() {
    let env = env_of(&[("SHIFT", "9"), ("GODNUM", "100"), ("XOR", "+7")]);
    assert_eq!(
        collect_env(env).unwrap(),
        CipherKeys { shift: 9, constant: 100, mask: 7 }
    );
}

#[test]
fn collect_env_mixes_overrides_and_defaults() {
    let env = env_of(&[("GODNUM", "5"), ("OTHER", "junk")]);
    assert_eq!(
        collect_env(env).unwrap(),
        CipherKeys { shift: 11, constant: 5, mask: 69 }
    );
}

#[test]
fn collect_env_rejects_bad_values() {
    assert_eq!(
        collect_env(env_of(&[("GODNUM", "12.5")])),
        Err(ConfigError::Godnum)
    );
}

#[test]
fn parse_u32_works_like_a_decimal_parser() {
    assert_eq!(parse_u32("0"), Some(0));
    assert_eq!(parse_u32("123"), Some(123));
    assert_eq!(parse_u32("+123"), Some(123));
    assert_eq!(parse_u32("007"), Some(7));
    assert_eq!(parse_u32("4294967295"), Some(u32::MAX));
    assert_eq!(parse_u32("4294967296"), None);
    assert_eq!(parse_u32("99999999999999999999"), None);
    assert_eq!(parse_u32(""), None);
    assert_eq!(parse_u32("+"), None);
    assert_eq!(parse_u32("-1"), None);
    assert_eq!(parse_u32("1 2"), None);
    assert_eq!(parse_u32("июнь"), None);
}

#[test]
fn env_lookup_takes_the_first_entry() {
    let env = env_of(&[("SHIFT", "9"), ("SHIFT", "abc")]);
    assert_eq!(env.get("SHIFT"), Some(&"9".to_string()));
    assert_eq!(env.get("MISSING"), None);
}
