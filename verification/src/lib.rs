//! Email address validation with domain trust scoring.
//!
//! The validator accepts a single string and returns a structured result:
//! either the address is well-formed (and its local part, domain, and a
//! trust score for the domain are reported), or it is not (and a fixed
//! human-readable message says why). Malformed input is a normal outcome,
//! never an error; the error channel is reserved for internal faults and
//! never fires in this implementation.

pub mod grammar;
pub mod score;
pub mod validate;

pub use score::score_domain;
pub use validate::{EmailParseError, EmailParseResult, parse_and_validate_email};
