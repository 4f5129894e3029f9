use gamehub::config::{PostgresConfig, ServerConfig, _generate_random_number, generate_random};

#[test]
fn fallback_settings_have_the_built_in_values() {
    let cfg = ServerConfig::with_token("abcd1234".to_string());
    assert_eq!(cfg.v4port, 2000);
    assert_eq!(cfg.v6port, 2000);
    assert_eq!(cfg.token, "abcd1234");
    assert_eq!(cfg.money_mode, "single/multi");
    assert_eq!(cfg.sql_mode, "sqlite/postgres/mongodb");
    assert_eq!(cfg.postgres_config.host, "");
    assert_eq!(cfg.postgres_config.port, 0);
}

#[test]
fn postgres_defaults_are_empty() {
    let pg = PostgresConfig::default();
    assert_eq!(pg.host, "");
    assert_eq!(pg.port, 0);
    assert_eq!(pg.user, "");
    assert_eq!(pg.password, "");
    assert_eq!(pg.database, "");
}

#[test]
fn random_key_has_the_asked_length_and_alphabet() {
    let charset = "QWERTYUIOPASDFGHJKLZXCVBNMabcdefghijklmnopqrstuvwxyz0123456789";
    let key = generate_random(16);
    assert_eq!(key.chars().count(), 16);
    assert!(key.chars().all(|c| charset.contains(c)));
    let empty = generate_random(0);
    assert_eq!(empty, "");
}

#[test]
fn random_number_key_is_all_digits() {
    let key = _generate_random_number(8);
    assert_eq!(key.chars().count(), 8);
    assert!(key.chars().all(|c| c.is_ascii_digit()));
}
