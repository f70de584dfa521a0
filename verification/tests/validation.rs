use splits::config::ValidationConfig;
use splits::models::SplitData;
use splits::validation::{DurationValidator, FieldValidator, UsernameValidator, ValidationError};

fn default_policy() -> ValidationConfig {
    ValidationConfig::default()
}

fn submission(user: &str, duration_ms: i32) -> SplitData {
    SplitData {
        user: user.to_string(),
        is_down: true,
        is_elevator: false,
        duration_ms,
        is_encumbered: Some(false),
    }
}

#[test]
fn zero_duration_is_invalid() {
    let config = default_policy();
    let r = DurationValidator::validate(0, &config);
    match r {
        Err(ValidationError::InvalidDuration(m)) => assert_eq!(m, "Duration must be positive"),
        _ => panic!("expected an invalid duration"),
    }
}

#[test]
fn negative_duration_is_invalid() {
    let config = default_policy();
    let r = DurationValidator::validate(-5, &config);
    assert!(matches!(r, Err(ValidationError::InvalidDuration(_))));
}

#[test]
fn nonpositive_duration_rejected_on_whole_submission() {
    let config = default_policy();
    let data = submission("alice", 0);
    let r = data.validate(&config);
    assert!(matches!(r, Err(ValidationError::InvalidDuration(_))));
}

#[test]
fn duration_above_maximum_is_invalid() {
    let config = default_policy();
    let r = DurationValidator::validate(86_400_001, &config);
    match r {
        Err(ValidationError::InvalidDuration(m)) => {
            assert_eq!(m, "Duration cannot exceed 86400000ms")
        }
        _ => panic!("expected an invalid duration"),
    }
}

#[test]
fn duration_below_minimum_is_invalid() {
    let config = default_policy();
    let r = DurationValidator::validate(50, &config);
    match r {
        Err(ValidationError::InvalidDuration(m)) => {
            assert_eq!(m, "Duration must be at least 100ms")
        }
        _ => panic!("expected an invalid duration"),
    }
}

#[test]
fn duration_within_bounds_is_valid() {
    let config = default_policy();
    assert!(DurationValidator::validate(100, &config).is_ok());
    assert!(DurationValidator::validate(5000, &config).is_ok());
    assert!(DurationValidator::validate(86_400_000, &config).is_ok());
}

#[test]
fn empty_username_is_invalid() {
    let config = default_policy();
    let r = UsernameValidator::validate("", &config);
    match r {
        Err(ValidationError::InvalidUsername(m)) => assert_eq!(m, "Username cannot be empty"),
        _ => panic!("expected an invalid username"),
    }
}

#[test]
fn whitespace_username_is_invalid() {
    let config = default_policy();
    let r = UsernameValidator::validate(" \t\n ", &config);
    assert!(matches!(r, Err(ValidationError::InvalidUsername(_))));
}

#[test]
fn long_username_is_invalid_when_bounded() {
    let mut config = default_policy();
    config.max_username_length = 5;
    let r = UsernameValidator::validate("toolong", &config);
    match r {
        Err(ValidationError::InvalidUsername(m)) => {
            assert_eq!(m, "Username must be 5 characters or less")
        }
        _ => panic!("expected an invalid username"),
    }
    assert!(UsernameValidator::validate("five5", &config).is_ok());
}

#[test]
fn zero_length_bound_rejects_every_username() {
    let mut config = default_policy();
    config.max_username_length = 0;
    let r = UsernameValidator::validate("a", &config);
    match r {
        Err(ValidationError::InvalidUsername(m)) => {
            assert_eq!(m, "Username must be 0 characters or less")
        }
        _ => panic!("expected an invalid username"),
    }
}

#[test]
fn negative_length_bound_means_no_limit() {
    let config = default_policy();
    let long_name = "a-quite-long-username-with-no-limit-configured";
    assert!(UsernameValidator::validate(long_name, &config).is_ok());
}

#[test]
fn whitelist_match_is_case_insensitive() {
    let mut config = default_policy();
    config.username_whitelist = vec!["Alice".to_string(), "Bob".to_string()];
    assert!(UsernameValidator::validate("ALICE", &config).is_ok());
    assert!(UsernameValidator::validate("bob", &config).is_ok());
}

#[test]
fn username_not_on_whitelist_is_invalid() {
    let mut config = default_policy();
    config.username_whitelist = vec!["alice".to_string()];
    let r = UsernameValidator::validate("mallory", &config);
    match r {
        Err(ValidationError::InvalidUsername(m)) => assert_eq!(m, "Username not in whitelist"),
        _ => panic!("expected an invalid username"),
    }
}

#[test]
fn whitelist_takes_precedence_over_blacklist() {
    let mut config = default_policy();
    config.username_whitelist = vec!["alice".to_string()];
    config.username_blacklist = vec!["alice".to_string()];
    assert!(UsernameValidator::validate("alice", &config).is_ok());
}

#[test]
fn blacklisted_substring_is_invalid() {
    let mut config = default_policy();
    config.username_blacklist = vec!["bad".to_string()];
    let r = UsernameValidator::validate("SoBADuser", &config);
    match r {
        Err(ValidationError::InvalidUsername(m)) => assert_eq!(m, "Username on blacklist"),
        _ => panic!("expected an invalid username"),
    }
    assert!(UsernameValidator::validate("gooduser", &config).is_ok());
}

#[test]
fn encumbered_elevator_submission_is_rejected() {
    let config = default_policy();
    let data = SplitData {
        user: "alice".to_string(),
        is_down: true,
        is_elevator: true,
        duration_ms: 5000,
        is_encumbered: Some(true),
    };
    let r = data.validate(&config);
    match r {
        Err(ValidationError::FieldValidation { field, message }) => {
            assert_eq!(field, "is_encumbered");
            assert_eq!(
                message,
                "is_encumbered parameter is only applicable to stairs, not elevators"
            );
        }
        _ => panic!("expected a field validation error"),
    }
}

#[test]
fn unencumbered_flag_on_elevator_is_rejected_too() {
    let config = default_policy();
    let data = SplitData {
        user: "alice".to_string(),
        is_down: false,
        is_elevator: true,
        duration_ms: 5000,
        is_encumbered: Some(false),
    };
    assert!(matches!(
        data.validate(&config),
        Err(ValidationError::FieldValidation { .. })
    ));
}

#[test]
fn elevator_without_encumbrance_is_valid() {
    let config = default_policy();
    let data = SplitData {
        user: "alice".to_string(),
        is_down: true,
        is_elevator: true,
        duration_ms: 5000,
        is_encumbered: None,
    };
    assert!(data.validate(&config).is_ok());
}

#[test]
fn first_failure_wins_username_before_duration() {
    let config = default_policy();
    let data = submission("   ", -1);
    assert!(matches!(
        data.validate(&config),
        Err(ValidationError::InvalidUsername(_))
    ));
}

#[test]
fn new_builds_a_validated_submission() {
    let config = default_policy();
    let r = SplitData::new("alice".to_string(), true, false, 5000, Some(true), &config);
    let data = r.expect("a valid submission");
    assert_eq!(data.user, "alice");
    assert!(data.is_down);
    assert!(!data.is_elevator);
    assert_eq!(data.duration_ms, 5000);
    assert_eq!(data.is_encumbered, Some(true));
}

#[test]
fn new_rejects_an_invalid_submission() {
    let config = default_policy();
    let r = SplitData::new("alice".to_string(), true, true, 5000, Some(true), &config);
    assert!(matches!(r, Err(ValidationError::FieldValidation { .. })));
}

#[test]
fn known_boolean_fields_are_accepted() {
    assert!(FieldValidator::validate_boolean(true, "is_down").is_ok());
    assert!(FieldValidator::validate_boolean(false, "is_elevator").is_ok());
    assert!(FieldValidator::validate_boolean(true, "is_encumbered").is_ok());
}

#[test]
fn unknown_boolean_field_is_rejected() {
    let r = FieldValidator::validate_boolean(true, "is_fast");
    match r {
        Err(ValidationError::FieldValidation { field, message }) => {
            assert_eq!(field, "is_fast");
            assert_eq!(message, "Unknown boolean field");
        }
        _ => panic!("expected a field validation error"),
    }
}

#[test]
fn blank_string_field_is_rejected() {
    let r = FieldValidator::validate_string("  ", "user", None);
    match r {
        Err(ValidationError::FieldValidation { field, message }) => {
            assert_eq!(field, "user");
            assert_eq!(message, "Field cannot be empty");
        }
        _ => panic!("expected a field validation error"),
    }
}

#[test]
fn overlong_string_field_is_rejected() {
    let r = FieldValidator::validate_string("abcd", "user", Some(3));
    match r {
        Err(ValidationError::FieldValidation { field, message }) => {
            assert_eq!(field, "user");
            assert_eq!(message, "Field exceeds maximum length of 3");
        }
        _ => panic!("expected a field validation error"),
    }
}

#[test]
fn string_field_within_bound_is_accepted() {
    assert!(FieldValidator::validate_string("abc", "user", Some(3)).is_ok());
    assert!(FieldValidator::validate_string("anything", "user", None).is_ok());
}

#[test]
fn format_duration_with_minutes() {
    assert_eq!(DurationValidator::format_duration(65432), "1m05.432s");
}

#[test]
fn format_duration_with_seconds() {
    assert_eq!(DurationValidator::format_duration(5000), "5.000s");
}

#[test]
fn format_duration_with_milliseconds() {
    assert_eq!(DurationValidator::format_duration(42), "42ms");
}

#[test]
fn format_duration_edges() {
    assert_eq!(DurationValidator::format_duration(0), "0ms");
    assert_eq!(DurationValidator::format_duration(999), "999ms");
    assert_eq!(DurationValidator::format_duration(1000), "1.000s");
    assert_eq!(DurationValidator::format_duration(59_999), "59.999s");
    assert_eq!(DurationValidator::format_duration(60_000), "1m00.000s");
    assert_eq!(DurationValidator::format_duration(3_600_000), "60m00.000s");
    assert_eq!(DurationValidator::format_duration(61_005), "1m01.005s");
}

#[test]
fn formatted_duration_on_a_submission() {
    let data = submission("alice", 65432);
    assert_eq!(data.formatted_duration(), "1m05.432s");
}
