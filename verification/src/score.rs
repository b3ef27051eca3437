//! Domain trust scoring.
//!
//! A domain is looked up, after ASCII case folding, in two fixed sets: the
//! trusted set (`google.com`, `outlook.com`, `yahoo.com`) scores
//! [`TRUSTED_SCORE`], the disposable set (`mailinator.com`, `tempmail.com`)
//! scores [`DISPOSABLE_SCORE`], and every other domain scores
//! [`DEFAULT_SCORE`]. Scoring is total: every string receives a score.

use vstd::prelude::*;

verus! {

/// Score of a domain in the trusted set.
pub const TRUSTED_SCORE: u8 = 80;

/// Score of a domain in the disposable set.
pub const DISPOSABLE_SCORE: u8 = 20;

/// Score of a domain in neither fixed set.
pub const DEFAULT_SCORE: u8 = 50;

/// The ASCII-lowercased form of a character; characters other than ASCII
/// uppercase letters are unchanged.
pub open spec fn lower_char(c: char) -> char {
    if 'A' <= c && c <= 'Z' {
        (((c as u8) + 32) as u8) as char
    } else {
        c
    }
}

/// A character sequence, ASCII-lowercased character by character.
pub open spec fn lower_chars(s: Seq<char>) -> Seq<char> {
    Seq::new(s.len(), |i: int| lower_char(s[i]))
}

/// The trust score of a domain: the lookup described in the module
/// documentation, applied to the case-folded domain.
pub open spec fn score_of(domain: Seq<char>) -> u8 {
    let d = lower_chars(domain);
    if d == "google.com"@ || d == "outlook.com"@ || d == "yahoo.com"@ {
        TRUSTED_SCORE
    } else if d == "mailinator.com"@ || d == "tempmail.com"@ {
        DISPOSABLE_SCORE
    } else {
        DEFAULT_SCORE
    }
}

fn lower_char_exec(c: char) -> (r: char)
    ensures
        r == lower_char(c),
{
    if 'A' <= c && c <= 'Z' {
        ((c as u8) + 32) as char
    } else {
        c
    }
}

/// Compares `s`, case-folded, against the characters of `t`.
fn eq_lower(s: &str, t: &str) -> (r: bool)
    ensures
        r == (lower_chars(s@) == t@),
{
    let n = s.unicode_len();
    let m = t.unicode_len();
    if n != m {
        proof {
            if lower_chars(s@) == t@ {
                assert(lower_chars(s@).len() == t@.len());
            }
        }
        return false;
    }
    for i in 0..n
        invariant
            n == s@.len(),
            n == t@.len(),
            forall|j: int| 0 <= j < i ==> lower_char(s@[j]) == t@[j],
    {
        if lower_char_exec(s.get_char(i)) != t.get_char(i) {
            proof {
                if lower_chars(s@) == t@ {
                    assert(lower_chars(s@)[i as int] == t@[i as int]);
                }
            }
            return false;
        }
    }
    proof {
        assert(lower_chars(s@) =~= t@);
    }
    true
}

/// The trust score of a domain, by case-insensitive lookup in the two fixed
/// sets.
pub fn score_domain(domain: &str) -> (score: u8)
    ensures
        score == score_of(domain@),
{
    if eq_lower(domain, "google.com") || eq_lower(domain, "outlook.com") || eq_lower(
        domain,
        "yahoo.com",
    ) {
        TRUSTED_SCORE
    } else if eq_lower(domain, "mailinator.com") || eq_lower(domain, "tempmail.com") {
        DISPOSABLE_SCORE
    } else {
        DEFAULT_SCORE
    }
}

/// Case folding is idempotent: a lowered character is no uppercase letter.
proof fn lemma_lower_char_idempotent(c: char)
    ensures
        lower_char(lower_char(c)) == lower_char(c),
{
}

/// Law: domain scoring is case-insensitive — a domain and its ASCII-
/// lowercased form receive the same score.
pub proof fn lemma_score_case_insensitive(domain: Seq<char>)
    ensures
        score_of(lower_chars(domain)) == score_of(domain),
{
    assert(lower_chars(lower_chars(domain)) =~= lower_chars(domain)) by {
        assert forall|i: int| 0 <= i < domain.len() implies lower_chars(lower_chars(domain))[i]
            == lower_chars(domain)[i] by {
            lemma_lower_char_idempotent(domain[i]);
        }
    }
}

} // verus!
