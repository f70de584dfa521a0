//! The data model: submissions, persisted splits, and the category a
//! split is recorded under.

use vstd::prelude::*;

use crate::config::ValidationConfig;
use crate::validation::{duration_text, duration_verdict, username_verdict, DurationValidator,
    FieldValidator, UsernameValidator, ValidationError, ValidationResult, Verdict};

verus! {

/// A persisted split: the submitted fields plus the identifier and the
/// creation timestamp (milliseconds) the store assigned on insert.
pub struct Split {
    pub id: u64,
    pub user: String,
    pub is_down: bool,
    pub is_elevator: bool,
    pub duration_ms: i32,
    pub created_at: u64,
    pub is_encumbered: Option<bool>,
}

/// A submission: a split as it arrives, not yet persisted.
pub struct SplitData {
    pub user: String,
    pub is_down: bool,
    pub is_elevator: bool,
    pub duration_ms: i32,
    pub is_encumbered: Option<bool>,
}

impl Clone for Split {
    fn clone(&self) -> (r: Self)
        ensures
            r == *self,
    {
        Split {
            id: self.id,
            user: self.user.clone(),
            is_down: self.is_down,
            is_elevator: self.is_elevator,
            duration_ms: self.duration_ms,
            created_at: self.created_at,
            is_encumbered: self.is_encumbered,
        }
    }
}

impl Clone for SplitData {
    fn clone(&self) -> (r: Self)
        ensures
            r == *self,
    {
        SplitData {
            user: self.user.clone(),
            is_down: self.is_down,
            is_elevator: self.is_elevator,
            duration_ms: self.duration_ms,
            is_encumbered: self.is_encumbered,
        }
    }
}

/// Whether two splits belong to the same category: direction and
/// transport match, and for stairs the encumbrance matches too.
pub open spec fn same_category(a: Split, b: Split) -> bool {
    a.is_down == b.is_down && a.is_elevator == b.is_elevator && (a.is_elevator || a.is_encumbered
        == b.is_encumbered)
}

/// Whether a split falls in one of the six reported categories. A stairs
/// split whose encumbrance was never recorded does not.
pub open spec fn has_category(s: Split) -> bool {
    s.is_elevator || s.is_encumbered is Some
}

/// The display position of a split's category: down-elevator,
/// up-elevator, down-stairs-encumbered, down-stairs-unencumbered,
/// up-stairs-encumbered, up-stairs-unencumbered, in that order. Splits
/// outside the six categories come after all of them.
pub open spec fn category_index(s: Split) -> int {
    if s.is_elevator {
        if s.is_down {
            0
        } else {
            1
        }
    } else {
        match s.is_encumbered {
            Some(true) => if s.is_down {
                2
            } else {
                4
            },
            Some(false) => if s.is_down {
                3
            } else {
                5
            },
            None => 6,
        }
    }
}

/// Two splits of the six categories share a category exactly when their
/// display positions coincide.
pub proof fn lemma_same_category_iff_same_index(a: Split, b: Split)
    requires
        has_category(a),
    ensures
        same_category(a, b) <==> (has_category(b) && category_index(a) == category_index(b)),
{
}

/// The verdict on a whole submission: the username checks, then the
/// duration checks, then the rule that encumbrance may only be recorded
/// for stairs. The first failure wins.
pub open spec fn split_verdict(data: SplitData, config: ValidationConfig) -> Verdict {
    let uv = username_verdict(data.user@, config);
    let dv = duration_verdict(data.duration_ms as int, config);
    if !(uv is Accept) {
        uv
    } else if !(dv is Accept) {
        dv
    } else if data.is_encumbered is Some && data.is_elevator {
        Verdict::RejectField {
            field: "is_encumbered"@,
            message: "is_encumbered parameter is only applicable to stairs, not elevators"@,
        }
    } else {
        Verdict::Accept
    }
}

impl SplitData {
    /// Validates every field of the submission against the policy.
    pub fn validate(&self, config: &ValidationConfig) -> (r: ValidationResult<()>)
        ensures
            match r {
                Ok(()) => split_verdict(*self, *config) is Accept,
                Err(ValidationError::InvalidUsername(m)) => split_verdict(*self, *config)
                    == (Verdict::RejectUser { message: m@ }),
                Err(ValidationError::InvalidDuration(m)) => split_verdict(*self, *config)
                    == (Verdict::RejectDuration { message: m@ }),
                Err(ValidationError::FieldValidation { field, message }) => split_verdict(
                    *self,
                    *config,
                ) == (Verdict::RejectField { field: field@, message: message@ }),
            },
    {
        UsernameValidator::validate(self.user.as_str(), config)?;
        DurationValidator::validate(self.duration_ms, config)?;
        FieldValidator::validate_boolean(self.is_down, "is_down")?;
        FieldValidator::validate_boolean(self.is_elevator, "is_elevator")?;
        if let Some(is_encumbered) = self.is_encumbered {
            if self.is_elevator {
                return Err(
                    ValidationError::FieldValidation {
                        field: "is_encumbered".to_owned(),
                        message:
                            "is_encumbered parameter is only applicable to stairs, not elevators".to_owned(),
                    },
                );
            }
            FieldValidator::validate_boolean(is_encumbered, "is_encumbered")?;
        }
        Ok(())
    }

    /// Builds a submission and validates it in one step.
    pub fn new(
        user: String,
        is_down: bool,
        is_elevator: bool,
        duration_ms: i32,
        is_encumbered: Option<bool>,
        config: &ValidationConfig,
    ) -> (r: ValidationResult<Self>)
        ensures
            ({
                let data = (SplitData { user, is_down, is_elevator, duration_ms, is_encumbered });
                match r {
                    Ok(d) => d == data && split_verdict(data, *config) is Accept,
                    Err(ValidationError::InvalidUsername(m)) => split_verdict(data, *config)
                        == (Verdict::RejectUser { message: m@ }),
                    Err(ValidationError::InvalidDuration(m)) => split_verdict(data, *config)
                        == (Verdict::RejectDuration { message: m@ }),
                    Err(ValidationError::FieldValidation { field, message }) => split_verdict(
                        data,
                        *config,
                    ) == (Verdict::RejectField { field: field@, message: message@ }),
                }
            }),
    {
        let split_data = SplitData { user, is_down, is_elevator, duration_ms, is_encumbered };
        match split_data.validate(config) {
            Ok(()) => Ok(split_data),
            Err(e) => Err(e),
        }
    }

    /// The submission's duration, rendered for display.
    pub fn formatted_duration(&self) -> (r: String)
        requires
            self.duration_ms >= 0,
        ensures
            r@ == duration_text(self.duration_ms as int),
    {
        DurationValidator::format_duration(self.duration_ms)
    }
}

/// A submission with a non-positive duration is rejected for its
/// duration, whenever its username passes the username checks.
pub proof fn lemma_nonpositive_duration_rejected(data: SplitData, config: ValidationConfig)
    requires
        data.duration_ms <= 0,
        username_verdict(data.user@, config) is Accept,
    ensures
        split_verdict(data, config) == (Verdict::RejectDuration {
            message: "Duration must be positive"@,
        }),
{
}

/// A submission that records encumbrance on an elevator split is rejected
/// for that field, whenever its username and duration pass their checks.
pub proof fn lemma_elevator_encumbrance_rejected(data: SplitData, config: ValidationConfig)
    requires
        data.is_elevator,
        data.is_encumbered is Some,
        username_verdict(data.user@, config) is Accept,
        duration_verdict(data.duration_ms as int, config) is Accept,
    ensures
        split_verdict(data, config) == (Verdict::RejectField {
            field: "is_encumbered"@,
            message: "is_encumbered parameter is only applicable to stairs, not elevators"@,
        }),
{
}

} // verus!
