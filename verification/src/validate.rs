//! The validation pipeline and its result types.
//!
//! [`parse_and_validate_email`] applies, in order: an emptiness check, a
//! length bound of [`MAX_EMAIL_LEN`] characters (Unicode code points), the
//! structural grammar of [`crate::grammar`], and a consecutive-dot guard on
//! the local part. The first failing check decides the message; when all
//! pass, the address is split verbatim at its `@` and the domain is scored
//! by [`crate::score`].

use vstd::prelude::*;

use crate::grammar::{
    domain_of, email_format_ok, has_consecutive_dots, local_of, contains_consecutive_dots,
    split_email,
};
use crate::score::{score_of, score_domain};

verus! {

/// The longest accepted address, in characters (Unicode code points).
pub const MAX_EMAIL_LEN: usize = 320;

/// The outcome of validating one address: either the address is well-formed
/// and its parts and domain score are reported, or it is not and a message
/// says why. Exactly one of the two field groups is populated.
#[derive(Debug)]
pub struct EmailParseResult {
    /// Whether the address matches the accepted grammar and guards.
    pub is_valid: bool,
    /// The part before the `@`, verbatim; present only if valid.
    pub local_part: Option<String>,
    /// The part after the `@`, verbatim; present only if valid.
    pub domain: Option<String>,
    /// The domain's trust score, 0 to 100; present only if valid.
    pub domain_score: Option<u8>,
    /// Why the address was rejected; present only if invalid.
    pub error_message: Option<String>,
}

/// An internal fault of the validator itself. Malformed input is never
/// reported here: it is a normal, invalid [`EmailParseResult`]. This channel
/// exists for the caller's benefit and never fires in this implementation.
#[derive(Debug)]
pub struct EmailParseError {
    /// The kind of fault.
    pub error_type: String,
    /// A human-readable description.
    pub message: String,
    /// Further detail, if any.
    pub details: Option<String>,
}

/// The abstract content of an [`EmailParseResult`]: its fields with strings
/// taken as character sequences.
#[verifier::ext_equal]
pub ghost struct ValidationOutcome {
    pub is_valid: bool,
    pub local_part: Option<Seq<char>>,
    pub domain: Option<Seq<char>>,
    pub domain_score: Option<u8>,
    pub error_message: Option<Seq<char>>,
}

impl ValidationOutcome {
    /// Exactly one field group is populated: the parts and the score if and
    /// only if valid, the message if and only if invalid.
    pub open spec fn well_formed(self) -> bool {
        if self.is_valid {
            &&& self.local_part is Some
            &&& self.domain is Some
            &&& self.domain_score is Some
            &&& self.error_message is None
        } else {
            &&& self.local_part is None
            &&& self.domain is None
            &&& self.domain_score is None
            &&& self.error_message is Some
        }
    }
}

impl View for EmailParseResult {
    type V = ValidationOutcome;

    open spec fn view(&self) -> ValidationOutcome {
        ValidationOutcome {
            is_valid: self.is_valid,
            local_part: self.local_part.deep_view(),
            domain: self.domain.deep_view(),
            domain_score: self.domain_score,
            error_message: self.error_message.deep_view(),
        }
    }
}

/// A well-formed address: nonempty, within the length bound, matching the
/// grammar, and free of consecutive dots in its local part.
pub open spec fn email_valid(s: Seq<char>) -> bool {
    &&& 0 < s.len() <= MAX_EMAIL_LEN
    &&& email_format_ok(s)
    &&& !has_consecutive_dots(local_of(s))
}

/// The message reported for a rejected address: the checks run in the
/// pipeline's order and the first failure decides.
pub open spec fn expected_message(s: Seq<char>) -> Seq<char> {
    if s.len() == 0 {
        "Email cannot be empty"@
    } else if s.len() > MAX_EMAIL_LEN {
        "Email exceeds maximum length of 320 characters"@
    } else {
        "Invalid email format"@
    }
}

/// The outcome owed for an input: the valid case carries the verbatim parts
/// and the domain's score, the invalid case carries the first failing
/// check's message.
pub open spec fn expected_outcome(s: Seq<char>) -> ValidationOutcome {
    if email_valid(s) {
        ValidationOutcome {
            is_valid: true,
            local_part: Option::Some(local_of(s)),
            domain: Option::Some(domain_of(s)),
            domain_score: Option::Some(score_of(domain_of(s))),
            error_message: Option::None,
        }
    } else {
        ValidationOutcome {
            is_valid: false,
            local_part: Option::None,
            domain: Option::None,
            domain_score: Option::None,
            error_message: Option::Some(expected_message(s)),
        }
    }
}

fn rejected(message: &str) -> (r: EmailParseResult)
    ensures
        r@ == (ValidationOutcome {
            is_valid: false,
            local_part: Option::None,
            domain: Option::None,
            domain_score: Option::None,
            error_message: Option::Some(message@),
        }),
{
    EmailParseResult {
        is_valid: false,
        local_part: Option::None,
        domain: Option::None,
        domain_score: Option::None,
        error_message: Option::Some(message.to_owned()),
    }
}

/// Validates one address. Always returns `Ok`: malformed input is a normal,
/// invalid result, and this implementation has no internal fault to report
/// through the `Err` channel.
pub fn parse_and_validate_email(email: &str) -> (res: Result<EmailParseResult, EmailParseError>)
    ensures
        res is Ok,
        res->Ok_0@ == expected_outcome(email@),
        res->Ok_0@.well_formed(),
{
    if email.is_empty() {
        return Result::Ok(rejected("Email cannot be empty"));
    }
    let n = email.unicode_len();
    if n > MAX_EMAIL_LEN {
        return Result::Ok(rejected("Email exceeds maximum length of 320 characters"));
    }
    match split_email(email) {
        Option::None => Result::Ok(rejected("Invalid email format")),
        Option::Some((local, domain)) => {
            if contains_consecutive_dots(local) {
                Result::Ok(rejected("Invalid email format"))
            } else {
                let score = score_domain(domain);
                Result::Ok(
                    EmailParseResult {
                        is_valid: true,
                        local_part: Option::Some(local.to_owned()),
                        domain: Option::Some(domain.to_owned()),
                        domain_score: Option::Some(score),
                        error_message: Option::None,
                    },
                )
            }
        },
    }
}

/// Law: validation is deterministic — any two results owed for the same
/// character sequence have the same abstract content.
pub proof fn lemma_validate_deterministic(r1: EmailParseResult, r2: EmailParseResult, s: Seq<char>)
    requires
        r1@ == expected_outcome(s),
        r2@ == expected_outcome(s),
    ensures
        r1@ == r2@,
{
}

/// Law: every outcome the validator owes is well-formed — the parts and the
/// score are present exactly when the address is valid, and the message
/// exactly when it is not.
pub proof fn lemma_outcome_exclusive(s: Seq<char>)
    ensures
        expected_outcome(s).well_formed(),
{
}

} // verus!
