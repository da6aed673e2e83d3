use std::mem::discriminant;

use fmn_passgen::config::Config;
use fmn_passgen::config::ConfigBuilder;
use fmn_passgen::config::PaddingType;
use fmn_passgen::config::RngType;
use fmn_passgen::config::ValidationError;
use fmn_passgen::config::WordTransformationType;
use fmn_passgen::config::parse_u8;
use fmn_passgen::config::uniquify_chars;
use fmn_passgen::config::validate_int;
use fmn_passgen::consts;

#[test]
fn test_default() {
    let config = ConfigBuilder::default().build().unwrap();
    assert_eq!(config.count, consts::COUNT);
    assert_eq!(config.word_count, consts::WORD_COUNT);
    assert_eq!(config.word_min_length, consts::WORD_MIN_LENGTH);
    assert_eq!(config.word_max_length, consts::WORD_MAX_LENGTH);
    assert_eq!(
        discriminant(&config.word_transformation),
        discriminant(&WordTransformationType::Lower)
    );
    assert_eq!(config.digits_before, consts::DIGITS_BEFORE);
    assert_eq!(config.digits_after, consts::DIGITS_AFTER);
    assert_eq!(
        discriminant(&config.padding_type),
        discriminant(&PaddingType::Fixed)
    );
    assert_eq!(config.padding_length, consts::PADDING_LENGTH_FIXED);
    assert_eq!(config.padding_characters, consts::symbol_alphabet());
    assert_eq!(config.separator_characters, consts::symbol_alphabet());
    assert_eq!(discriminant(&config.rng_type), discriminant(&RngType::Os));
}

#[test]
fn test_word_max_length_bound_to_min() {
    let config_err = ConfigBuilder::new()
        .word_min_length(Some("42".to_owned()))
        .word_max_length(Some("41".to_owned()))
        .build()
        .unwrap_err();
    println!("{config_err:?}");
    let what =
        matches!(config_err, ValidationError::InvalidNumber(provided, 42, 255) if provided == *"41");
    assert!(what);
}

#[test]
fn test_padding_length_default_changes_with_padding_type() {
    let config = ConfigBuilder::new()
        .padding_type(Some("adaptive".to_owned()))
        .build()
        .unwrap();
    assert_eq!(config.padding_length, consts::PADDING_LENGTH_ADAPTIVE);
}

#[test]
fn default_config_matches_default_builder() {
    let by_trait = Config::default();
    let by_builder = ConfigBuilder::new().build().unwrap();
    assert_eq!(by_trait, by_builder);
}

#[test]
fn validate_int_parses_and_bounds() {
    assert_eq!(validate_int(None, 1, 255, 7).unwrap(), 7);
    assert_eq!(validate_int(Some("42".to_owned()), 1, 255, 7).unwrap(), 42);
    assert_eq!(validate_int(Some("+9".to_owned()), 1, 255, 7).unwrap(), 9);
    let err = validate_int(Some("0".to_owned()), 1, 255, 7).unwrap_err();
    assert!(matches!(err, ValidationError::InvalidNumber(v, 1, 255) if v == *"0"));
    let err = validate_int(Some("abc".to_owned()), 1, 255, 7).unwrap_err();
    assert!(matches!(err, ValidationError::InvalidNumber(v, 1, 255) if v == *"abc"));
}

#[test]
fn parse_u8_matches_std() {
    for text in ["0", "7", "42", "255", "256", "+7", "007", "", "+", "-1", "4x", "9999"] {
        assert_eq!(parse_u8(text), text.parse::<u8>().ok(), "{text}");
    }
}

#[test]
fn unknown_enum_member_is_rejected() {
    let err = ConfigBuilder::new()
        .word_transformation(Some("sideways".to_owned()))
        .build()
        .unwrap_err();
    assert!(matches!(err, ValidationError::UnknownVariant(v) if v == *"sideways"));
}

#[test]
fn enum_members_match_case_insensitively() {
    let config = ConfigBuilder::new()
        .word_transformation(Some("CapitalizeFirst".to_owned()))
        .rng_type(Some("SMALL".to_owned()))
        .build()
        .unwrap();
    assert_eq!(
        discriminant(&config.word_transformation),
        discriminant(&WordTransformationType::CapitalizeFirst)
    );
    assert_eq!(discriminant(&config.rng_type), discriminant(&RngType::Small));
}

#[test]
fn empty_padding_characters_force_padding_off() {
    let config = ConfigBuilder::new()
        .padding_characters(Some(String::new()))
        .build()
        .unwrap();
    assert_eq!(
        discriminant(&config.padding_type),
        discriminant(&PaddingType::Off)
    );
    assert_eq!(config.padding_length, 0);
}

#[test]
fn uniquify_chars_sorts_and_deduplicates() {
    let defaults = vec!['a', 'b'];
    assert_eq!(uniquify_chars(None, &defaults), vec!['a', 'b']);
    assert_eq!(
        uniquify_chars(Some("cba".to_owned()), &defaults),
        vec!['a', 'b', 'c']
    );
    assert_eq!(
        uniquify_chars(Some("aabba".to_owned()), &defaults),
        vec!['a', 'b']
    );
    assert_eq!(uniquify_chars(Some(String::new()), &defaults), Vec::<char>::new());
}
