use link_registry::config::{parse_port, ConfigError, EnvironmentVariables, DEFAULT_PORT};

fn url() -> Result<String, String> {
    Ok(String::from("sqlite:links.db"))
}

#[test]
fn default_port_is_8000() {
    assert_eq!(DEFAULT_PORT, 8000);
}

#[test]
fn port_falls_back_to_the_default() {
    let env = EnvironmentVariables::from_env(url(), None).expect("a configuration");
    assert_eq!(env.database_url, "sqlite:links.db");
    assert_eq!(env.port, 8000);
}

#[test]
fn port_is_read_where_it_is_set() {
    let env =
        EnvironmentVariables::from_env(url(), Some(String::from("3000"))).expect("a configuration");
    assert_eq!(env.database_url, "sqlite:links.db");
    assert_eq!(env.port, 3000);
}

#[test]
fn database_url_is_needed() {
    let outcome = EnvironmentVariables::from_env(
        Err(String::from("environment variable not found")),
        Some(String::from("3000")),
    );
    match outcome {
        Err(ConfigError::MissingDatabaseUrl(reason)) => {
            assert_eq!(reason, "environment variable not found")
        }
        other => panic!("not a missing address: {other:?}"),
    }
}

#[test]
fn missing_database_url_comes_before_a_bad_port() {
    let outcome = EnvironmentVariables::from_env(
        Err(String::from("environment variable not found")),
        Some(String::from("not a port")),
    );
    assert!(matches!(outcome, Err(ConfigError::MissingDatabaseUrl(_))));
}

#[test]
fn bad_port_is_an_error() {
    for text in ["", "http", "80 ", "-1", "65536", "8000.0"] {
        match EnvironmentVariables::from_env(url(), Some(text.to_string())) {
            Err(ConfigError::InvalidPort(held)) => assert_eq!(held, text),
            other => panic!("not a bad port for {text:?}: {other:?}"),
        }
    }
}

#[test]
fn config_error_messages() {
    assert_eq!(
        ConfigError::MissingDatabaseUrl(String::from("environment variable not found")).message(),
        "missing DATABASE_URL: environment variable not found"
    );
    assert_eq!(ConfigError::InvalidPort(String::from("http")).message(), "invalid PORT: http");
}

#[test]
fn cloned_configuration_is_equal() {
    let env = EnvironmentVariables::from_env(url(), Some(String::from("81"))).expect("a configuration");
    let copy = env.clone();
    assert_eq!(copy.database_url, env.database_url);
    assert_eq!(copy.port, env.port);
}

#[test]
fn parse_port_reads_decimal_digits() {
    assert_eq!(parse_port("0"), Some(0));
    assert_eq!(parse_port("7"), Some(7));
    assert_eq!(parse_port("80"), Some(80));
    assert_eq!(parse_port("8000"), Some(8000));
    assert_eq!(parse_port("65535"), Some(65535));
}

#[test]
fn parse_port_takes_one_leading_plus_and_leading_zeros() {
    assert_eq!(parse_port("+80"), Some(80));
    assert_eq!(parse_port("+0"), Some(0));
    assert_eq!(parse_port("00080"), Some(80));
    assert_eq!(parse_port("+00000000000000000000000000065535"), Some(65535));
    assert_eq!(parse_port("++80"), None);
    assert_eq!(parse_port("8+0"), None);
    assert_eq!(parse_port("80+"), None);
}

#[test]
fn parse_port_refuses_what_does_not_fit() {
    assert_eq!(parse_port("65536"), None);
    assert_eq!(parse_port("65540"), None);
    assert_eq!(parse_port("70000"), None);
    assert_eq!(parse_port("100000"), None);
    assert_eq!(parse_port("4294967296"), None);
    assert_eq!(parse_port("4294967376"), None);
    assert_eq!(parse_port("99999999999999999999999999999999999999999"), None);
    assert_eq!(parse_port("00000065536"), None);
}

#[test]
fn parse_port_refuses_what_is_no_number() {
    for text in [
        "", "+", "-", "-0", "-80", " 80", "80 ", "8 0", "80\n", "0x50", "8_000", "80.0", "1e3",
        "port", "\u{ff18}\u{ff10}", "8\u{660}", "\u{e9}", "+\u{e9}", "80\u{1f600}",
    ] {
        assert_eq!(parse_port(text), None, "{text:?}");
    }
}

#[test]
fn parse_port_agrees_with_the_standard_parser() {
    let alphabet = ['0', '1', '5', '6', '9', '+', '-', ' ', 'x', '\u{e9}'];
    let mut texts = vec![String::new()];
    let mut from = 0;
    for _ in 0..4 {
        let until = texts.len();
        for at in from..until {
            for c in alphabet {
                let mut longer = texts[at].clone();
                longer.push(c);
                texts.push(longer);
            }
        }
        from = until;
    }
    assert_eq!(texts.len(), 11111);
    for text in &texts {
        assert_eq!(parse_port(text), text.parse::<u16>().ok(), "{text:?}");
    }
    for number in 0..=70000u32 {
        let text = number.to_string();
        assert_eq!(parse_port(&text), text.parse::<u16>().ok(), "{text:?}");
        let signed = format!("+{number}");
        assert_eq!(parse_port(&signed), signed.parse::<u16>().ok(), "{signed:?}");
    }
}
