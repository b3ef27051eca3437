//! The structural grammar of an email address.
//!
//! An address is a local part, a single `@`, and a domain. The local part is
//! built from "word" characters (letters, digits, `_`, `%`, `+`, `-`) with
//! interior dots allowed; the domain is one or more dot-separated labels
//! (alphanumeric at both ends, interior hyphens allowed) followed by a final
//! all-letter label of at least two characters. Only ASCII is accepted.
//!
//! The spec functions here state the grammar positionally over `Seq<char>`;
//! the executable functions decide it and are proved to return exactly the
//! spec's answer.

use vstd::prelude::*;

verus! {

/// A "word" character: what the local part may start and end with.
pub open spec fn is_word_char(c: char) -> bool {
    ||| ('a' <= c && c <= 'z')
    ||| ('A' <= c && c <= 'Z')
    ||| ('0' <= c && c <= '9')
    ||| c == '_'
    ||| c == '%'
    ||| c == '+'
    ||| c == '-'
}

/// A character the local part may contain anywhere but at its ends.
pub open spec fn is_local_char(c: char) -> bool {
    is_word_char(c) || c == '.'
}

/// An ASCII letter or digit: what a domain label may start and end with.
pub open spec fn is_alnum(c: char) -> bool {
    ||| ('a' <= c && c <= 'z')
    ||| ('A' <= c && c <= 'Z')
    ||| ('0' <= c && c <= '9')
}

/// An ASCII letter: the only character the final label may contain.
pub open spec fn is_letter(c: char) -> bool {
    ('a' <= c && c <= 'z') || ('A' <= c && c <= 'Z')
}

/// A character the label region of a domain may contain.
pub open spec fn is_label_region_char(c: char) -> bool {
    is_alnum(c) || c == '-' || c == '.'
}

/// The local part: nonempty, word characters at both ends, and only word
/// characters or dots in between.
pub open spec fn local_ok(s: Seq<char>) -> bool {
    &&& s.len() >= 1
    &&& is_word_char(s[0])
    &&& is_word_char(s[s.len() - 1])
    &&& forall|i: int| 0 <= i < s.len() ==> is_local_char(#[trigger] s[i])
}

/// The label region of a domain (everything before the last dot): one or
/// more dot-separated labels, each nonempty, alphanumeric at both ends,
/// with interior hyphens allowed. Stated positionally: alphanumeric at the
/// region's ends, every character alphanumeric, `-` or `.`, and both
/// neighbours of every dot alphanumeric.
pub open spec fn labels_ok(s: Seq<char>) -> bool {
    &&& s.len() >= 1
    &&& is_alnum(s[0])
    &&& is_alnum(s[s.len() - 1])
    &&& forall|i: int| 0 <= i < s.len() ==> is_label_region_char(#[trigger] s[i])
    &&& forall|i: int|
        0 < i < s.len() - 1 && #[trigger] s[i] == '.' ==> is_alnum(s[i - 1]) && is_alnum(s[i + 1])
}

/// The final label (the TLD): letters only, at least two of them.
pub open spec fn tld_ok(s: Seq<char>) -> bool {
    &&& s.len() >= 2
    &&& forall|i: int| 0 <= i < s.len() ==> is_letter(#[trigger] s[i])
}

/// The domain matches with its last dot at position `d`.
pub open spec fn domain_ok_at(s: Seq<char>, d: int) -> bool {
    &&& 0 <= d < s.len()
    &&& s[d] == '.'
    &&& labels_ok(s.take(d))
    &&& tld_ok(s.skip(d + 1))
}

/// The domain part: labels, a dot, and a final all-letter label.
pub open spec fn domain_ok(s: Seq<char>) -> bool {
    exists|d: int| domain_ok_at(s, d)
}

/// The whole address matches with its separator `@` at position `a`.
pub open spec fn email_ok_at(s: Seq<char>, a: int) -> bool {
    &&& 0 <= a < s.len()
    &&& s[a] == '@'
    &&& local_ok(s.take(a))
    &&& domain_ok(s.skip(a + 1))
}

/// The whole address matches the grammar.
pub open spec fn email_format_ok(s: Seq<char>) -> bool {
    exists|a: int| email_ok_at(s, a)
}

/// Two adjacent dots occur somewhere in `s`.
pub open spec fn has_consecutive_dots(s: Seq<char>) -> bool {
    exists|i: int| 0 <= i < s.len() - 1 && #[trigger] s[i] == '.' && s[i + 1] == '.'
}

/// The position of the separator `@` of an address that matches the grammar.
pub open spec fn separator_of(s: Seq<char>) -> int {
    choose|a: int| email_ok_at(s, a)
}

/// The local part of an address that matches the grammar.
pub open spec fn local_of(s: Seq<char>) -> Seq<char> {
    s.take(separator_of(s))
}

/// The domain part of an address that matches the grammar.
pub open spec fn domain_of(s: Seq<char>) -> Seq<char> {
    s.skip(separator_of(s) + 1)
}

/// The grammar puts the separator in one place only: a match fixes `@`'s
/// position, since neither side of it may contain another `@`.
pub proof fn lemma_separator_unique(s: Seq<char>, a: int, b: int)
    requires
        email_ok_at(s, a),
        email_ok_at(s, b),
    ensures
        a == b,
{
    if a < b {
        assert(is_local_char(s.take(b)[a]));
        assert(false);
    }
    if b < a {
        assert(is_local_char(s.take(a)[b]));
        assert(false);
    }
}

/// Every character class of the grammar lies within ASCII.
proof fn lemma_classes_ascii(c: char)
    ensures
        is_local_char(c) ==> c <= '\u{7f}',
        is_label_region_char(c) ==> c <= '\u{7f}',
        is_letter(c) ==> c <= '\u{7f}',
{
}

/// A matching domain contains only ASCII characters.
proof fn lemma_domain_ascii(s: Seq<char>, i: int)
    requires
        domain_ok(s),
        0 <= i < s.len(),
    ensures
        s[i] <= '\u{7f}',
{
    let d = choose|d: int| domain_ok_at(s, d);
    if i < d {
        assert(is_label_region_char(s.take(d)[i]));
        lemma_classes_ascii(s[i]);
    } else if i > d {
        assert(is_letter(s.skip(d + 1)[i - d - 1]));
        lemma_classes_ascii(s[i]);
    }
}

/// Law: the grammar is ASCII-only — a string with any character beyond
/// ASCII at any position does not match.
pub proof fn lemma_non_ascii_rejected(s: Seq<char>, i: int)
    requires
        0 <= i < s.len(),
        s[i] > '\u{7f}',
    ensures
        !email_format_ok(s),
{
    if email_format_ok(s) {
        let a = choose|a: int| email_ok_at(s, a);
        if i < a {
            assert(is_local_char(s.take(a)[i]));
            lemma_classes_ascii(s[i]);
        } else if i > a {
            lemma_domain_ascii(s.skip(a + 1), i - a - 1);
        }
        assert(false);
    }
}

/// Law: a special character in the local part is rejected — when any
/// character standing before the first `@` is outside the local class
/// (`#`, `$`, `&`, a bracket, a quote, and so on), the string does not
/// match the grammar.
pub proof fn lemma_special_local_char_rejected(s: Seq<char>, a: int, i: int)
    requires
        0 <= a < s.len(),
        s[a] == '@',
        forall|j: int| 0 <= j < a ==> s[j] != '@',
        0 <= i < a,
        !is_local_char(s[i]),
    ensures
        !email_format_ok(s),
{
    if email_format_ok(s) {
        let b = choose|b: int| email_ok_at(s, b);
        if b < a {
            assert(s[b] != '@');
        } else if b > a {
            assert(is_local_char(s.take(b)[a]));
        } else {
            assert(is_local_char(s.take(a)[i]));
        }
        assert(false);
    }
}

fn word_char(c: char) -> (r: bool)
    ensures
        r == is_word_char(c),
{
    ('a' <= c && c <= 'z') || ('A' <= c && c <= 'Z') || ('0' <= c && c <= '9') || c == '_' || c
        == '%' || c == '+' || c == '-'
}

fn local_char(c: char) -> (r: bool)
    ensures
        r == is_local_char(c),
{
    word_char(c) || c == '.'
}

fn alnum_char(c: char) -> (r: bool)
    ensures
        r == is_alnum(c),
{
    ('a' <= c && c <= 'z') || ('A' <= c && c <= 'Z') || ('0' <= c && c <= '9')
}

fn letter_char(c: char) -> (r: bool)
    ensures
        r == is_letter(c),
{
    ('a' <= c && c <= 'z') || ('A' <= c && c <= 'Z')
}

/// Decides `local_ok` for the characters of `s`.
pub fn check_local(s: &str) -> (r: bool)
    ensures
        r == local_ok(s@),
{
    let n = s.unicode_len();
    if n == 0 {
        return false;
    }
    if !word_char(s.get_char(0)) {
        return false;
    }
    if !word_char(s.get_char(n - 1)) {
        return false;
    }
    for i in 0..n
        invariant
            n == s@.len(),
            n >= 1,
            is_word_char(s@[0]),
            is_word_char(s@[n - 1]),
            forall|j: int| 0 <= j < i ==> is_local_char(#[trigger] s@[j]),
    {
        if !local_char(s.get_char(i)) {
            return false;
        }
    }
    true
}

/// Decides `labels_ok` for the characters of `s`.
pub fn check_labels(s: &str) -> (r: bool)
    ensures
        r == labels_ok(s@),
{
    let n = s.unicode_len();
    if n == 0 {
        return false;
    }
    if !alnum_char(s.get_char(0)) {
        return false;
    }
    if !alnum_char(s.get_char(n - 1)) {
        return false;
    }
    for i in 0..n
        invariant
            n == s@.len(),
            n >= 1,
            is_alnum(s@[0]),
            is_alnum(s@[n - 1]),
            forall|j: int| 0 <= j < i ==> is_label_region_char(#[trigger] s@[j]),
            forall|j: int|
                0 < j < i && #[trigger] s@[j] == '.' ==> is_alnum(s@[j - 1]) && is_alnum(
                    s@[j + 1],
                ),
    {
        let c = s.get_char(i);
        if !alnum_char(c) && c != '-' && c != '.' {
            return false;
        }
        if c == '.' {
            assert(i != 0);
            assert(i != n - 1);
            if !alnum_char(s.get_char(i - 1)) || !alnum_char(s.get_char(i + 1)) {
                return false;
            }
        }
    }
    true
}

/// Decides `tld_ok` for the characters of `s`.
pub fn check_tld(s: &str) -> (r: bool)
    ensures
        r == tld_ok(s@),
{
    let n = s.unicode_len();
    if n < 2 {
        return false;
    }
    for i in 0..n
        invariant
            n == s@.len(),
            forall|j: int| 0 <= j < i ==> is_letter(#[trigger] s@[j]),
    {
        if !letter_char(s.get_char(i)) {
            return false;
        }
    }
    true
}

/// Decides `domain_ok` for the characters of `s`.
pub fn check_domain(s: &str) -> (r: bool)
    ensures
        r == domain_ok(s@),
{
    let n = s.unicode_len();
    let mut i: usize = 0;
    let mut last_dot: usize = n;
    while i < n
        invariant
            n == s@.len(),
            i <= n,
            last_dot == n || (last_dot < i && s@[last_dot as int] == '.'),
            forall|j: int| 0 <= j < i && #[trigger] s@[j] == '.' ==> last_dot < n && j <= last_dot,
        decreases n - i,
    {
        if s.get_char(i) == '.' {
            last_dot = i;
        }
        i += 1;
    }
    if last_dot == n {
        assert(forall|d: int| !domain_ok_at(s@, d));
        return false;
    }
    let d = last_dot;
    let front = s.substring_char(0, d);
    let tail = s.substring_char(d + 1, n);
    let r = check_labels(front) && check_tld(tail);
    proof {
        if r {
            assert(domain_ok_at(s@, d as int));
        } else {
            assert forall|e: int| !domain_ok_at(s@, e) by {
                if domain_ok_at(s@, e) {
                    if e < d {
                        assert(is_letter(s@.skip(e + 1)[d - e - 1]));
                        assert(false);
                    } else if e > d {
                        assert(s@[e] != '.');
                        assert(false);
                    } else {
                        assert(s@.take(d as int) == front@);
                        assert(s@.skip(d as int + 1) == tail@);
                        assert(false);
                    }
                }
            }
        }
    }
    r
}

/// Decides `email_format_ok` for the characters of `s`.
pub fn email_format_matches(s: &str) -> (r: bool)
    ensures
        r == email_format_ok(s@),
{
    match split_email(s) {
        Option::Some(_) => true,
        Option::None => false,
    }
}

/// Splits a matching address at its `@` into local part and domain, or
/// reports that the address does not match the grammar.
pub fn split_email<'a>(s: &'a str) -> (r: Option<(&'a str, &'a str)>)
    ensures
        match r {
            Option::Some(parts) => email_format_ok(s@) && parts.0@ == local_of(s@) && parts.1@
                == domain_of(s@),
            Option::None => !email_format_ok(s@),
        },
{
    let n = s.unicode_len();
    let mut i: usize = 0;
    while i < n && s.get_char(i) != '@'
        invariant
            n == s@.len(),
            i <= n,
            forall|j: int| 0 <= j < i ==> s@[j] != '@',
        decreases n - i,
    {
        i += 1;
    }
    if i == n {
        assert(forall|a: int| !email_ok_at(s@, a));
        return Option::None;
    }
    let a = i;
    let local = s.substring_char(0, a);
    let domain = s.substring_char(a + 1, n);
    if check_local(local) && check_domain(domain) {
        proof {
            assert(email_ok_at(s@, a as int));
            lemma_separator_unique(s@, a as int, separator_of(s@));
        }
        Option::Some((local, domain))
    } else {
        proof {
            assert forall|b: int| !email_ok_at(s@, b) by {
                if email_ok_at(s@, b) {
                    if b < a {
                        assert(s@[b] != '@');
                        assert(false);
                    } else if b > a {
                        assert(is_local_char(s@.take(b)[a as int]));
                        assert(false);
                    } else {
                        assert(s@.take(a as int) == local@);
                        assert(s@.skip(a as int + 1) == domain@);
                        assert(false);
                    }
                }
            }
        }
        Option::None
    }
}

/// Decides `has_consecutive_dots` for the characters of `s`.
pub fn contains_consecutive_dots(s: &str) -> (r: bool)
    ensures
        r == has_consecutive_dots(s@),
{
    let n = s.unicode_len();
    if n < 2 {
        return false;
    }
    for i in 0..n - 1
        invariant
            n == s@.len(),
            n >= 2,
            forall|j: int| 0 <= j < i ==> !(#[trigger] s@[j] == '.' && s@[j + 1] == '.'),
    {
        if s.get_char(i) == '.' && s.get_char(i + 1) == '.' {
            return true;
        }
    }
    false
}

} // verus!
