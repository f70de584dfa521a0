//! Validation of submitted splits against the configured policy, and the
//! duration rendering used everywhere a duration is shown.
//!
//! Each check has a ghost-level verdict function that says exactly which
//! submissions it accepts and, for the rest, which error text it produces;
//! the executable validators are proved to return precisely that verdict.

use vstd::prelude::*;
use vstd::string::{StrSliceExecFns, StringExecFns};

use crate::config::ValidationConfig;
use crate::decimal::{dec_digits, dec_digits_pad2, dec_digits_pad3, fmt_i32, fmt_u64, fmt_u64_pad2,
    fmt_u64_pad3, int_digits};
use crate::text::{contains_seq, is_blank, is_blank_str, lower_of, str_contains, str_eq,
    to_lowercase_str};

verus! {

pub type ValidationResult<T> = Result<T, ValidationError>;

/// A rejected submission: the username, the duration, or another field
/// failed its check. Each variant carries the human-readable reason.
#[derive(Debug)]
pub enum ValidationError {
    InvalidUsername(String),
    InvalidDuration(String),
    FieldValidation { field: String, message: String },
}

/// The outcome a validator owes: acceptance, or a rejection of a
/// particular kind with its exact message.
pub ghost enum Verdict {
    Accept,
    RejectUser { message: Seq<char> },
    RejectDuration { message: Seq<char> },
    RejectField { field: Seq<char>, message: Seq<char> },
}

/// Whether `user` matches an allow-list entry, ignoring case.
pub open spec fn in_whitelist(user: Seq<char>, whitelist: Seq<String>) -> bool {
    exists|i: int| 0 <= i < whitelist.len() && lower_of(user) == #[trigger] lower_of(whitelist[i]@)
}

/// Whether `user` contains a deny-list entry as a substring, ignoring case.
pub open spec fn in_blacklist(user: Seq<char>, blacklist: Seq<String>) -> bool {
    exists|i: int|
        0 <= i < blacklist.len() && contains_seq(lower_of(user), #[trigger] lower_of(blacklist[i]@))
}

/// The verdict on a username: the checks run in order and the first
/// failure wins. An empty allow-list and empty deny-list accept anyone.
pub open spec fn username_verdict(user: Seq<char>, config: ValidationConfig) -> Verdict {
    if is_blank(user) {
        Verdict::RejectUser { message: "Username cannot be empty"@ }
    } else if config.max_username_length >= 0 && user.len() > config.max_username_length as int {
        Verdict::RejectUser {
            message: "Username must be "@ + int_digits(config.max_username_length as int)
                + " characters or less"@,
        }
    } else if config.username_whitelist@.len() > 0 {
        if in_whitelist(user, config.username_whitelist@) {
            Verdict::Accept
        } else {
            Verdict::RejectUser { message: "Username not in whitelist"@ }
        }
    } else if config.username_blacklist@.len() > 0 && in_blacklist(
        user,
        config.username_blacklist@,
    ) {
        Verdict::RejectUser { message: "Username on blacklist"@ }
    } else {
        Verdict::Accept
    }
}

/// The verdict on a duration: positive, at most the maximum, at least the
/// minimum, in that order.
pub open spec fn duration_verdict(duration_ms: int, config: ValidationConfig) -> Verdict {
    if duration_ms <= 0 {
        Verdict::RejectDuration { message: "Duration must be positive"@ }
    } else if duration_ms > config.max_duration_ms as int {
        Verdict::RejectDuration {
            message: "Duration cannot exceed "@ + int_digits(config.max_duration_ms as int)
                + "ms"@,
        }
    } else if duration_ms < config.min_duration_ms as int {
        Verdict::RejectDuration {
            message: "Duration must be at least "@ + int_digits(config.min_duration_ms as int)
                + "ms"@,
        }
    } else {
        Verdict::Accept
    }
}

/// The verdict on a boolean field: only the three known field names exist.
pub open spec fn bool_field_verdict(field_name: Seq<char>) -> Verdict {
    if field_name == "is_down"@ || field_name == "is_elevator"@ || field_name
        == "is_encumbered"@ {
        Verdict::Accept
    } else {
        Verdict::RejectField { field: field_name, message: "Unknown boolean field"@ }
    }
}

/// The verdict on a string field: non-blank, and within the length bound
/// when one is given.
pub open spec fn string_field_verdict(
    value: Seq<char>,
    field_name: Seq<char>,
    max_length: Option<usize>,
) -> Verdict {
    if is_blank(value) {
        Verdict::RejectField { field: field_name, message: "Field cannot be empty"@ }
    } else if max_length is Some && value.len() > max_length->0 {
        Verdict::RejectField {
            field: field_name,
            message: "Field exceeds maximum length of "@ + dec_digits(max_length->0 as nat),
        }
    } else {
        Verdict::Accept
    }
}

/// The text a duration of `ms` milliseconds is rendered as: minutes when
/// there are any (seconds then zero-padded to two digits, milliseconds to
/// three), else seconds (milliseconds zero-padded to three digits), else
/// bare milliseconds. Meaningful for `ms >= 0`.
pub open spec fn duration_text(ms: int) -> Seq<char> {
    let total_seconds = ms / 1000;
    let minutes = total_seconds / 60;
    let seconds = total_seconds % 60;
    let millis = ms % 1000;
    if minutes > 0 {
        dec_digits(minutes as nat) + "m"@ + dec_digits_pad2(seconds as nat) + "."@
            + dec_digits_pad3(millis as nat) + "s"@
    } else if seconds > 0 {
        dec_digits(seconds as nat) + "."@ + dec_digits_pad3(millis as nat) + "s"@
    } else {
        dec_digits(millis as nat) + "ms"@
    }
}

/// Username validation rules.
pub struct UsernameValidator;

impl UsernameValidator {
    /// Validates a username against the configured policy.
    pub fn validate(username: &str, config: &ValidationConfig) -> (r: ValidationResult<()>)
        ensures
            match r {
                Ok(()) => username_verdict(username@, *config) is Accept,
                Err(ValidationError::InvalidUsername(m)) => username_verdict(username@, *config)
                    == (Verdict::RejectUser { message: m@ }),
                Err(_) => false,
            },
    {
        if is_blank_str(username) {
            return Err(ValidationError::InvalidUsername("Username cannot be empty".to_owned()));
        }
        if config.max_username_length >= 0 && username.unicode_len()
            > config.max_username_length as usize {
            let mut m = "Username must be ".to_owned();
            let bound = fmt_i32(config.max_username_length);
            m.append(bound.as_str());
            m.append(" characters or less");
            return Err(ValidationError::InvalidUsername(m));
        }
        if config.username_whitelist.len() > 0 {
            let lower_username = to_lowercase_str(username);
            let n = config.username_whitelist.len();
            let mut i: usize = 0;
            while i < n
                invariant
                    n == config.username_whitelist@.len(),
                    n > 0,
                    i <= n,
                    !is_blank(username@),
                    !(config.max_username_length >= 0 && username@.len()
                        > config.max_username_length as int),
                    lower_username@ == lower_of(username@),
                    forall|j: int|
                        0 <= j < i ==> lower_of(username@) != #[trigger] lower_of(
                            config.username_whitelist@[j]@,
                        ),
                decreases n - i,
            {
                let entry_lower = to_lowercase_str(config.username_whitelist[i].as_str());
                if str_eq(lower_username.as_str(), entry_lower.as_str()) {
                    proof {
                        assert(in_whitelist(username@, config.username_whitelist@));
                    }
                    return Ok(());
                }
                i = i + 1;
            }
            return Err(ValidationError::InvalidUsername("Username not in whitelist".to_owned()));
        }
        if config.username_blacklist.len() > 0 {
            let lower_username = to_lowercase_str(username);
            let n = config.username_blacklist.len();
            let mut i: usize = 0;
            while i < n
                invariant
                    n == config.username_blacklist@.len(),
                    n > 0,
                    i <= n,
                    !is_blank(username@),
                    !(config.max_username_length >= 0 && username@.len()
                        > config.max_username_length as int),
                    config.username_whitelist@.len() == 0,
                    lower_username@ == lower_of(username@),
                    forall|j: int|
                        0 <= j < i ==> !contains_seq(
                            lower_of(username@),
                            #[trigger] lower_of(config.username_blacklist@[j]@),
                        ),
                decreases n - i,
            {
                let entry_lower = to_lowercase_str(config.username_blacklist[i].as_str());
                if str_contains(lower_username.as_str(), entry_lower.as_str()) {
                    proof {
                        assert(in_blacklist(username@, config.username_blacklist@));
                    }
                    return Err(
                        ValidationError::InvalidUsername("Username on blacklist".to_owned()),
                    );
                }
                i = i + 1;
            }
            proof {
                assert(!in_blacklist(username@, config.username_blacklist@));
            }
            return Ok(());
        }
        Ok(())
    }
}

/// Duration validation rules.
pub struct DurationValidator;

impl DurationValidator {
    /// Validates a duration against the configured bounds.
    pub fn validate(duration_ms: i32, config: &ValidationConfig) -> (r: ValidationResult<()>)
        ensures
            match r {
                Ok(()) => duration_verdict(duration_ms as int, *config) is Accept,
                Err(ValidationError::InvalidDuration(m)) => duration_verdict(
                    duration_ms as int,
                    *config,
                ) == (Verdict::RejectDuration { message: m@ }),
                Err(_) => false,
            },
    {
        if duration_ms <= 0 {
            return Err(ValidationError::InvalidDuration("Duration must be positive".to_owned()));
        }
        if duration_ms > config.max_duration_ms {
            let mut m = "Duration cannot exceed ".to_owned();
            let bound = fmt_i32(config.max_duration_ms);
            m.append(bound.as_str());
            m.append("ms");
            return Err(ValidationError::InvalidDuration(m));
        }
        if duration_ms < config.min_duration_ms {
            let mut m = "Duration must be at least ".to_owned();
            let bound = fmt_i32(config.min_duration_ms);
            m.append(bound.as_str());
            m.append("ms");
            return Err(ValidationError::InvalidDuration(m));
        }
        Ok(())
    }

    /// Renders a duration for display.
    pub fn format_duration(duration_ms: i32) -> (r: String)
        requires
            duration_ms >= 0,
        ensures
            r@ == duration_text(duration_ms as int),
    {
        let ms = duration_ms as u64;
        let total_seconds = ms / 1000;
        let minutes = total_seconds / 60;
        let seconds = total_seconds % 60;
        let milliseconds = ms % 1000;
        if minutes > 0 {
            let mut s = fmt_u64(minutes);
            s.append("m");
            let sec = fmt_u64_pad2(seconds);
            s.append(sec.as_str());
            s.append(".");
            let mil = fmt_u64_pad3(milliseconds);
            s.append(mil.as_str());
            s.append("s");
            s
        } else if seconds > 0 {
            let mut s = fmt_u64(seconds);
            s.append(".");
            let mil = fmt_u64_pad3(milliseconds);
            s.append(mil.as_str());
            s.append("s");
            s
        } else {
            let mut s = fmt_u64(milliseconds);
            s.append("ms");
            s
        }
    }
}

/// General field validator.
pub struct FieldValidator;

impl FieldValidator {
    /// Accepts the boolean fields a submission has, and nothing else.
    pub fn validate_boolean(_value: bool, field_name: &str) -> (r: ValidationResult<()>)
        ensures
            match r {
                Ok(()) => bool_field_verdict(field_name@) is Accept,
                Err(ValidationError::FieldValidation { field, message }) => bool_field_verdict(
                    field_name@,
                ) == (Verdict::RejectField { field: field@, message: message@ }),
                Err(_) => false,
            },
    {
        if str_eq(field_name, "is_down") || str_eq(field_name, "is_elevator") || str_eq(
            field_name,
            "is_encumbered",
        ) {
            Ok(())
        } else {
            Err(
                ValidationError::FieldValidation {
                    field: field_name.to_owned(),
                    message: "Unknown boolean field".to_owned(),
                },
            )
        }
    }

    /// Validates a string field: non-blank, and within the length bound
    /// when one is given.
    pub fn validate_string(value: &str, field_name: &str, max_length: Option<usize>) -> (r:
        ValidationResult<()>)
        ensures
            match r {
                Ok(()) => string_field_verdict(value@, field_name@, max_length) is Accept,
                Err(ValidationError::FieldValidation { field, message }) => string_field_verdict(
                    value@,
                    field_name@,
                    max_length,
                ) == (Verdict::RejectField { field: field@, message: message@ }),
                Err(_) => false,
            },
    {
        if is_blank_str(value) {
            return Err(
                ValidationError::FieldValidation {
                    field: field_name.to_owned(),
                    message: "Field cannot be empty".to_owned(),
                },
            );
        }
        if let Some(max_len) = max_length {
            if value.unicode_len() > max_len {
                let mut m = "Field exceeds maximum length of ".to_owned();
                let bound = fmt_u64(max_len as u64);
                m.append(bound.as_str());
                return Err(
                    ValidationError::FieldValidation { field: field_name.to_owned(), message: m },
                );
            }
        }
        Ok(())
    }
}

} // verus!
