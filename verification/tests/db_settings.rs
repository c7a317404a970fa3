use api::{db_settings_from_env, parse_port, DbPool, DbSettingsError};

fn s(text: &str) -> Option<String> {
    Some(text.to_string())
}

#[test]
fn parse_port_reads_plain_numbers() {
    assert_eq!(parse_port("27017"), Some(27017));
    assert_eq!(parse_port("0"), Some(0));
    assert_eq!(parse_port("65535"), Some(65535));
}

#[test]
fn parse_port_accepts_plus_and_leading_zeros() {
    assert_eq!(parse_port("+80"), Some(80));
    assert_eq!(parse_port("0000000000000000000008080"), Some(8080));
}

#[test]
fn parse_port_rejects_what_u16_parsing_rejects() {
    for text in ["", "+", "-", "-1", "-0", "65536", "99999999999999999999", "80 ", " 80", "8x", "++1", "1+", "٣"] {
        assert_eq!(parse_port(text), None, "{:?}", text);
        assert!(text.parse::<u16>().is_err(), "{:?}", text);
    }
}

#[test]
fn parse_port_agrees_with_std_on_all_u16_and_more() {
    for n in 0u32..70000 {
        let text = n.to_string();
        assert_eq!(parse_port(&text), text.parse::<u16>().ok());
        let plus = format!("+{}", n);
        assert_eq!(parse_port(&plus), plus.parse::<u16>().ok());
    }
}

#[test]
fn settings_from_complete_environment() {
    let settings = db_settings_from_env(s("db.local"), s("27017"), s("admin"), s("hunter2")).unwrap();
    assert_eq!(settings.hostname, "db.local");
    assert_eq!(settings.port, 27017);
    assert_eq!(settings.username, "admin");
    assert_eq!(settings.password, "hunter2");
}

#[test]
fn settings_report_the_first_problem() {
    assert_eq!(
        db_settings_from_env(None, None, None, None).err(),
        Some(DbSettingsError::MissingHostname)
    );
    assert_eq!(
        db_settings_from_env(s("h"), None, None, None).err(),
        Some(DbSettingsError::MissingPort)
    );
    assert_eq!(
        db_settings_from_env(s("h"), s("port"), None, None).err(),
        Some(DbSettingsError::InvalidPort)
    );
    assert_eq!(
        db_settings_from_env(s("h"), s("1"), None, None).err(),
        Some(DbSettingsError::MissingUsername)
    );
    assert_eq!(
        db_settings_from_env(s("h"), s("1"), s("u"), None).err(),
        Some(DbSettingsError::MissingPassword)
    );
    assert_eq!(
        db_settings_from_env(s("h"), s("70000"), s("u"), s("p")).err(),
        Some(DbSettingsError::InvalidPort)
    );
}

#[test]
fn settings_error_messages() {
    assert_eq!(
        DbSettingsError::MissingHostname.message(),
        "Environment variable 'DB_HOSTNAME' not present or invalid."
    );
    assert_eq!(
        DbSettingsError::MissingPort.message(),
        "Environment variable 'DB_PORT' not present or invalid."
    );
    assert_eq!(
        DbSettingsError::InvalidPort.message(),
        "Environment variable 'DB_PORT' should be a number, but it isn't."
    );
    assert_eq!(
        DbSettingsError::MissingUsername.message(),
        "Environment variable 'DB_USERNAME' not present or invalid."
    );
    assert_eq!(
        DbSettingsError::MissingPassword.message(),
        "Environment variable 'DB_PASSWORD' not present or invalid."
    );
}

#[test]
fn db_pool_new_builds_a_pool() {
    let DbPool {} = DbPool::new();
}
