use impass::config::{generate_config, Config, Mode};
use impass::crypt::CipherKeys;
use impass::keys::{collect_env, Env};

#[test]
fn can_create_config() {
    let cfg = Config::new(
        Mode::File,
        String::from("images/harold.png"),
        None,
        String::from(""),
        collect_env(Env::new()).unwrap(),
    );

    assert_eq!(cfg.mode, Mode::File);
    assert_eq!(cfg.file_to_read(), &Some("images/harold.png".to_owned()));
    assert_eq!(cfg.output_file, "result/harold.png".to_owned());
    assert_eq!(cfg.password, None);
}

#[test]
fn can_create_config_with_output_and_pass() {
    let cfg = Config::new(
        Mode::File,
        String::from("images/harold.png"),
        Some(String::from("password132!")),
        String::from("out/output.png"),
        collect_env(Env::new()).unwrap(),
    );

    assert_eq!(cfg.mode, Mode::File);
    assert_eq!(cfg.file_to_read(), &Some("images/harold.png".to_owned()));
    assert_eq!(cfg.output_file, "out/output.png".to_owned());
    assert_eq!(cfg.password, Some(String::from("password132!")));
}

#[test]
fn read_mode_reads_the_given_file() {
    let cfg = Config::new(
        Mode::Read,
        String::from("dir/in.png"),
        None,
        String::from(""),
        collect_env(Env::new()).unwrap(),
    );
    assert_eq!(cfg.mode, Mode::Read);
    assert_eq!(cfg.file_to_read(), &Some("dir/in.png".to_owned()));
    assert_eq!(cfg.output_file, "result/in.png".to_owned());
}

#[test]
fn output_defaults_to_the_plain_file_name() {
    let cfg = Config::new(
        Mode::File,
        String::from("noslash.png"),
        None,
        String::from(""),
        collect_env(Env::new()).unwrap(),
    );
    assert_eq!(cfg.output_file, "result/noslash.png".to_owned());
}

#[test]
fn generate_config_uses_default_keys() {
    let cfg = generate_config(Some("pw".to_string()), Mode::Read, "tests/x.png".to_string());
    assert_eq!(cfg.keys, CipherKeys { shift: 11, constant: 42, mask: 69 });
    assert_eq!(cfg.password, Some("pw".to_string()));
    assert_eq!(cfg.mode, Mode::Read);
    assert_eq!(cfg.output_file, "output.png".to_owned());
}

#[test]
fn set_password_overrides_the_password() {
    let mut cfg = generate_config(None, Mode::File, "a.png".to_string());
    assert_eq!(cfg.password, None);
    cfg.set_password("later".to_string());
    assert_eq!(cfg.password, Some("later".to_string()));
}

#[test]
fn checked_rejects_a_write_without_input() {
    let cfg = Config {
        read_file: None,
        write_file: Some("out.png".to_string()),
        file: None,
        password: None,
        mode: Mode::Write,
        output_file: "out.png".to_string(),
        keys: collect_env(Env::new()).unwrap(),
    };
    assert!(cfg.checked().is_err());
}
