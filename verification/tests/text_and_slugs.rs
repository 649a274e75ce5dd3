use leven::slugs::SlugRegistry;
use leven::text::{chars_of, lex_le_chars, push_decimal, trim, white_space};

#[test]
fn trim_removes_white_space_at_both_ends() {
    assert_eq!(trim("  Hello, World \t\n"), "Hello, World");
    assert_eq!(trim("\u{3000}x y\u{a0}"), "x y");
    assert_eq!(trim("   "), "");
    assert_eq!(trim(""), "");
    assert_eq!(trim("inner  space"), "inner  space");
}

#[test]
fn white_space_follows_unicode() {
    assert!(white_space(' '));
    assert!(white_space('\u{2028}'));
    assert!(!white_space('x'));
    assert!(!white_space('\u{200b}'));
}

#[test]
fn decimal_notation() {
    let mut s = String::from("n=");
    push_decimal(&mut s, 0);
    assert_eq!(s, "n=0");
    let mut s = String::new();
    push_decimal(&mut s, 1234567890);
    assert_eq!(s, "1234567890");
}

#[test]
fn lexicographic_order_by_code_point() {
    let a = chars_of("2017-01-02 a");
    let b = chars_of("2017-01-10 b");
    assert!(lex_le_chars(&a, &b));
    assert!(!lex_le_chars(&b, &a));
    assert!(lex_le_chars(&a, &a));
    assert!(lex_le_chars(&chars_of("ab"), &chars_of("abc")));
    assert!(!lex_le_chars(&chars_of("abc"), &chars_of("ab")));
}

#[test]
fn slugs_are_numbered_when_taken() {
    let mut reg = SlugRegistry::new();
    assert_eq!(reg.claim("Hello World"), "hello-world");
    assert_eq!(reg.claim("Hello, World!"), "hello-world-2");
    assert_eq!(reg.claim("hello world"), "hello-world-3");
    assert_eq!(reg.claim("Another one"), "another-one");
}

#[test]
fn reserved_slugs_are_never_given() {
    let mut reg = SlugRegistry::new();
    assert!(reg.holds(&"index".to_string()));
    assert!(reg.holds(&"archive".to_string()));
    assert_eq!(reg.claim("Index"), "index-2");
    assert_eq!(reg.claim("Archive"), "archive-2");
    assert_eq!(reg.claim("index"), "index-3");
}

#[test]
fn empty_slugs_are_numbered_too() {
    let mut reg = SlugRegistry::new();
    assert_eq!(reg.claim("!!!"), "");
    assert_eq!(reg.claim("???"), "-2");
}

#[test]
fn slugify_is_applied() {
    let mut reg = SlugRegistry::new();
    assert_eq!(reg.claim("My Test String!!!1!1"), "my-test-string-1-1");
    assert_eq!(reg.claim("You & Me"), "you-me");
}

#[test]
fn claimed_plain_slugs_are_numbered_from_two() {
    let mut reg = SlugRegistry::new();
    assert_eq!(reg.claim_slug("index".to_string()), "index-2");
    assert_eq!(reg.claim_slug("index".to_string()), "index-3");
    assert_eq!(reg.claim_slug("post".to_string()), "post");
    assert_eq!(reg.claim_slug("post-2".to_string()), "post-2");
    assert_eq!(reg.claim_slug("post".to_string()), "post-3");
    assert!(reg.holds(&"post-3".to_string()));
    assert!(!reg.holds(&"post-4".to_string()));
}
