use email_validator::grammar::{
    check_domain, check_local, contains_consecutive_dots, email_format_matches, split_email,
};

/// The whole-address matcher agrees with the validator's accept/reject
/// decisions on representative inputs.
#[test]
fn format_matcher_decisions() {
    assert!(email_format_matches("test@example.com"));
    assert!(email_format_matches("a@b.co"));
    assert!(email_format_matches("te..st@domain.com")); // the dot guard, not the grammar, rejects this
    assert!(!email_format_matches(""));
    assert!(!email_format_matches("test2.com"));
    assert!(!email_format_matches("test@"));
    assert!(!email_format_matches("@domain.com"));
    assert!(!email_format_matches("test@@domain.com"));
    assert!(!email_format_matches("test@domain"));
    assert!(!email_format_matches("test@domain.c"));
    assert!(!email_format_matches("test@-domain.com"));
    assert!(!email_format_matches("test@domain-.com"));
    assert!(!email_format_matches("test@domain.c0m"));
}

/// The split hands back both parts verbatim.
#[test]
fn split_returns_verbatim_parts() {
    let (local, domain) = split_email("Test.User+tag@Sub.Example.COM").unwrap();
    assert_eq!(local, "Test.User+tag");
    assert_eq!(domain, "Sub.Example.COM");
    assert!(split_email("no-separator").is_none());
}

/// The local-part checker enforces the ends-with-word-character rule.
#[test]
fn local_part_boundaries() {
    assert!(check_local("a"));
    assert!(check_local("a.b"));
    assert!(check_local("a..b")); // adjacent dots are the guard's business
    assert!(!check_local(""));
    assert!(!check_local(".a"));
    assert!(!check_local("a."));
    assert!(!check_local("a b"));
}

/// The domain checker enforces label and TLD shape.
#[test]
fn domain_shape() {
    assert!(check_domain("example.com"));
    assert!(check_domain("a-b.c-d.org"));
    assert!(check_domain("123.com"));
    assert!(!check_domain("com"));
    assert!(!check_domain(".com"));
    assert!(!check_domain("example."));
    assert!(!check_domain("example..com"));
    assert!(!check_domain("example.c"));
    assert!(!check_domain("example.c2m"));
}

/// The consecutive-dot guard fires exactly on adjacent dots.
#[test]
fn consecutive_dot_guard() {
    assert!(contains_consecutive_dots("te..st"));
    assert!(contains_consecutive_dots(".."));
    assert!(!contains_consecutive_dots("te.st"));
    assert!(!contains_consecutive_dots("."));
    assert!(!contains_consecutive_dots(""));
}
