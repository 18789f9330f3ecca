use dev_swiss::password::{AMBIGUOUS, SYMBOLS};
use dev_swiss::{generate_password, PasswordConfig, PasswordError};

#[test]
fn password_test_default_config() {
    let config = PasswordConfig::default();
    assert_eq!(config.length, 16);
    assert!(config.uppercase);
    assert!(config.lowercase);
    assert!(config.numbers);
    assert!(config.symbols);
    assert!(!config.exclude_ambiguous);
    assert!(config.exclude_chars.is_empty());
}

#[test]
fn test_generate_default_password() {
    let config = PasswordConfig::default();
    let password = generate_password(&config).unwrap();
    assert_eq!(password.len(), 16);
}

#[test]
fn test_generate_custom_length() {
    let config = PasswordConfig { length: 32, ..Default::default() };
    let password = generate_password(&config).unwrap();
    assert_eq!(password.len(), 32);
}

#[test]
fn test_no_symbols() {
    let config = PasswordConfig { symbols: false, ..Default::default() };
    let password = generate_password(&config).unwrap();
    assert!(!password.chars().any(|c| SYMBOLS.contains(c)));
}

#[test]
fn test_exclude_ambiguous() {
    let config = PasswordConfig { exclude_ambiguous: true, length: 100, ..Default::default() };
    let password = generate_password(&config).unwrap();
    assert!(!password.chars().any(|c| AMBIGUOUS.contains(c)));
}

#[test]
fn test_exclude_custom_chars() {
    let config = PasswordConfig { exclude_chars: "abc".to_string(), length: 100, ..Default::default() };
    let password = generate_password(&config).unwrap();
    assert!(!password.contains('a'));
    assert!(!password.contains('b'));
    assert!(!password.contains('c'));
}

#[test]
fn test_no_character_sets_error() {
    let config = PasswordConfig {
        uppercase: false,
        lowercase: false,
        numbers: false,
        symbols: false,
        ..Default::default()
    };
    let result = generate_password(&config);
    assert!(matches!(result, Err(PasswordError::NoCharacterSets)));
}

#[test]
fn test_only_numbers() {
    let config = PasswordConfig {
        uppercase: false,
        lowercase: false,
        numbers: true,
        symbols: false,
        ..Default::default()
    };
    let password = generate_password(&config).unwrap();
    assert!(password.chars().all(|c| c.is_ascii_digit()));
}

#[test]
fn exclusions_that_empty_the_pool_fail() {
    let config = PasswordConfig {
        uppercase: false,
        lowercase: false,
        numbers: true,
        symbols: false,
        exclude_chars: "23456789".to_string(),
        exclude_ambiguous: true,
        ..Default::default()
    };
    assert!(matches!(generate_password(&config), Err(PasswordError::EmptyCharacterPool)));
}

#[test]
fn zero_length_password_is_empty() {
    let config = PasswordConfig { length: 0, ..Default::default() };
    assert_eq!(generate_password(&config).unwrap(), "");
}

#[test]
fn pool_keeps_set_order_and_drops_exclusions() {
    let config = PasswordConfig {
        uppercase: false,
        lowercase: false,
        numbers: true,
        symbols: false,
        exclude_ambiguous: true,
        exclude_chars: "9".to_string(),
        ..Default::default()
    };
    let pool: String = dev_swiss::password::build_pool(&config).into_iter().collect();
    assert_eq!(pool, "2345678");
}

#[test]
fn password_error_messages() {
    assert_eq!(PasswordError::NoCharacterSets.message(), "At least one character set must be enabled");
}
