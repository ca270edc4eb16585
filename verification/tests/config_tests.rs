use opbot::config::{integer_part, resolve_allow_list, resolve_role_id, resolve_role_name, Config,
    ConfigError};

#[test]
fn integer_part_plain_digits() {
    assert_eq!(integer_part("123"), Ok(123));
}

#[test]
fn integer_part_trailing_fraction() {
    assert_eq!(integer_part("718954921353019454.0"), Ok(718954921353019454));
}

#[test]
fn integer_part_arbitrary_suffix_after_dot() {
    assert_eq!(integer_part("123.whatever"), Ok(123));
}

#[test]
fn integer_part_not_numeric() {
    assert_eq!(integer_part("abc"), Err(ConfigError::Malformed));
}

#[test]
fn integer_part_empty_string() {
    assert_eq!(integer_part(""), Err(ConfigError::Malformed));
}

#[test]
fn integer_part_leading_dot() {
    assert_eq!(integer_part(".5"), Err(ConfigError::Malformed));
}

#[test]
fn integer_part_largest_value() {
    assert_eq!(integer_part("18446744073709551615"), Ok(u64::MAX));
}

#[test]
fn integer_part_out_of_range() {
    assert_eq!(integer_part("18446744073709551616"), Err(ConfigError::Malformed));
}

#[test]
fn integer_part_digits_after_junk() {
    assert_eq!(integer_part("12a3.0"), Err(ConfigError::Malformed));
}

#[test]
fn resolve_role_id_absent() {
    assert_eq!(resolve_role_id(None), Err(ConfigError::Missing));
}

#[test]
fn resolve_role_id_present() {
    assert_eq!(resolve_role_id(Some("42.9")), Ok(42));
}

#[test]
fn resolve_role_id_present_malformed() {
    assert_eq!(resolve_role_id(Some("role")), Err(ConfigError::Malformed));
}

#[test]
fn resolve_role_name_absent_defaults() {
    assert_eq!(resolve_role_name(None), "Operator");
}

#[test]
fn resolve_role_name_empty_defaults() {
    assert_eq!(resolve_role_name(Some(String::new())), "Operator");
}

#[test]
fn resolve_role_name_present() {
    assert_eq!(resolve_role_name(Some(String::from("Admin"))), "Admin");
}

#[test]
fn resolve_allow_list_drops_malformed_entries() {
    assert_eq!(resolve_allow_list(Some("111, 222,,abc,333")), vec![111, 222, 333]);
}

#[test]
fn resolve_allow_list_absent_is_empty() {
    assert_eq!(resolve_allow_list(None), Vec::<u64>::new());
}

#[test]
fn resolve_allow_list_empty_string_is_empty() {
    assert_eq!(resolve_allow_list(Some("")), Vec::<u64>::new());
}

#[test]
fn resolve_allow_list_trims_whitespace() {
    assert_eq!(resolve_allow_list(Some(" 5 ,\t6\n")), vec![5, 6]);
}

#[test]
fn resolve_allow_list_keeps_duplicates() {
    assert_eq!(resolve_allow_list(Some("7,7")), vec![7, 7]);
}

#[test]
fn resolve_allow_list_single_entry() {
    assert_eq!(resolve_allow_list(Some("718954921353019454")), vec![718954921353019454]);
}

#[test]
fn resolve_allow_list_drops_out_of_range_entries() {
    assert_eq!(
        resolve_allow_list(Some("18446744073709551616,18446744073709551615")),
        vec![u64::MAX]
    );
}

#[test]
fn config_resolve_full() {
    let config = Config::resolve(
        Some("718954921353019454.0"),
        Some(String::from("Moderator")),
        Some("1, 2"),
    )
    .unwrap();
    assert_eq!(config.operator_role_id, 718954921353019454);
    assert_eq!(config.operator_role_name, "Moderator");
    assert_eq!(config.allow_list, vec![1, 2]);
}

#[test]
fn config_resolve_defaults() {
    let config = Config::resolve(Some("9"), None, None).unwrap();
    assert_eq!(config.operator_role_id, 9);
    assert_eq!(config.operator_role_name, "Operator");
    assert_eq!(config.allow_list, Vec::<u64>::new());
}

#[test]
fn config_resolve_missing_role_id() {
    assert!(matches!(
        Config::resolve(None, None, None),
        Err(ConfigError::Missing)
    ));
}

#[test]
fn config_resolve_malformed_role_id() {
    assert!(matches!(
        Config::resolve(Some("x"), None, None),
        Err(ConfigError::Malformed)
    ));
}
