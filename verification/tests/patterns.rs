use rust_iam::aws::WildString;
use rust_iam::pattern::{outcome_of_match, wildcard_matches};
use rust_iam::text::{chars_of, normalize, occurs, split_from, starts_with};
use rust_iam::traits::MatchesTrait;
use rust_iam::Identifier;
use wildcard::WildcardError;

fn wild(text: &str) -> WildString {
    WildString(text.to_string())
}

#[test]
fn only_the_declared_side_is_a_pattern() {
    assert_eq!(wild("a*").matches(&wild("abc")), Ok(true));
    assert_eq!(wild("abc").matches(&wild("a*")), Ok(false));
    assert_eq!(wild("a?c").matches(&wild("abc")), Ok(true));
    assert_eq!(wild("abc").matches(&wild("a?c")), Ok(false));
    assert_eq!(wild("a*").matches(&wild("a*")), Ok(true));
}

#[test]
fn wildcards_take_runs_and_single_bytes() {
    assert_eq!(wildcard_matches("*", ""), Ok(true));
    assert_eq!(wildcard_matches("", ""), Ok(true));
    assert_eq!(wildcard_matches("", "a"), Ok(false));
    assert_eq!(wildcard_matches("?", ""), Ok(false));
    assert_eq!(wildcard_matches("?", "a"), Ok(true));
    assert_eq!(wildcard_matches("?", "ab"), Ok(false));
    assert_eq!(wildcard_matches("s3:*", "s3:GetObject"), Ok(true));
    assert_eq!(wildcard_matches("s3:*", "ec2:RunInstances"), Ok(false));
    assert_eq!(wildcard_matches("mybucket/*", "mybucket/file.txt"), Ok(true));
    assert_eq!(wildcard_matches("mybucket/*", "otherbucket/file.txt"), Ok(false));
    assert_eq!(wildcard_matches("*foo?*bar", "fooofooobar"), Ok(true));
    // Matching is on bytes and keeps the case.
    assert_eq!(wildcard_matches("abc", "ABC"), Ok(false));
    assert_eq!(wildcard_matches("?", "é"), Ok(false));
    assert_eq!(wildcard_matches("??", "é"), Ok(true));
}

#[test]
fn escaped_specials_are_literal() {
    assert_eq!(wildcard_matches("\\*\\?", "*?"), Ok(true));
    assert_eq!(wildcard_matches("\\*\\?", "ab"), Ok(false));
    assert_eq!(wildcard_matches("a\\\\b", "a\\b"), Ok(true));
}

#[test]
fn a_pattern_that_does_not_compile_is_an_error() {
    let message = "Failed to compile wildcard pattern";
    assert_eq!(wildcard_matches("\\", "anything"), Err(message));
    assert_eq!(wildcard_matches("abc\\", "abc"), Err(message));
    assert_eq!(wildcard_matches("\\a", "a"), Err(message));
    assert_eq!(wildcard_matches("a\\\\\\b", "a"), Err(message));
    assert_eq!(wild("\\").matches(&wild("x")), Err(message));
    // The requested side is never compiled.
    assert_eq!(wild("x").matches(&wild("\\")), Ok(false));
    assert_eq!(wild("*").matches(&wild("\\")), Ok(true));
}

#[test]
fn the_outcome_follows_the_matcher() {
    assert_eq!(outcome_of_match(Ok(true)), Ok(true));
    assert_eq!(outcome_of_match(Ok(false)), Ok(false));
    assert_eq!(
        outcome_of_match(Err(WildcardError::InvalidSpecialSymbolsConfiguration)),
        Err("Failed to compile wildcard pattern")
    );
    assert_eq!(
        outcome_of_match(Err(WildcardError::Syntax { position: 0, message: "invalid escape sequence" })),
        Err("Failed to compile wildcard pattern")
    );
}

#[test]
fn wild_strings_are_read_and_written_as_they_are() {
    assert_eq!(WildString::from_str("s3:Get*"), Ok(wild("s3:Get*")));
    assert_eq!(WildString::from_str(""), Ok(wild("")));
    assert_eq!(WildString::from_str("  Spaced Out "), Ok(wild("  Spaced Out ")));
    assert_eq!(wild("mybucket/*").to_string(), "mybucket/*");
    assert_eq!(WildString::from_str(&wild("a?b").to_string()), Ok(wild("a?b")));
}

#[test]
fn plain_values_match_by_equality() {
    assert_eq!(7usize.matches(&7usize), Ok(true));
    assert_eq!(7usize.matches(&8usize), Ok(false));
    assert_eq!("a*".to_string().matches(&"abc".to_string()), Ok(false));
    assert_eq!("a*".to_string().matches(&"a*".to_string()), Ok(true));
}

#[test]
fn text_is_split_at_each_separator() {
    assert_eq!(split_from("a:b:c", 0, ':'), vec!["a", "b", "c"]);
    assert_eq!(split_from("a:b:c", 2, ':'), vec!["b", "c"]);
    assert_eq!(split_from("", 0, ':'), vec![""]);
    assert_eq!(split_from(":", 0, ':'), vec!["", ""]);
    assert_eq!(split_from("::x:", 0, ':'), vec!["", "", "x", ""]);
    assert_eq!(split_from("abc", 3, ':'), vec![""]);
    assert_eq!(split_from("abc", 4, ':'), vec![""]);
    assert_eq!(split_from("a:b", usize::MAX, ':'), vec![""]);
    assert_eq!(split_from("é:ü", 0, ':'), vec!["é", "ü"]);
    assert_eq!(split_from("é:ü", 1, ':'), vec!["", "ü"]);
}

#[test]
fn words_are_found_in_text() {
    let hay = chars_of("us-east-2");
    assert_eq!(hay.len(), 9);
    assert!(occurs(&hay, "east-2"));
    assert!(occurs(&hay, "us"));
    assert!(occurs(&hay, "2"));
    assert!(occurs(&hay, ""));
    assert!(occurs(&hay, "us-east-2"));
    assert!(!occurs(&hay, "us-east-2 "));
    assert!(!occurs(&hay, "west"));
    assert!(!occurs(&hay, "east-1"));
    assert!(occurs(&chars_of(""), ""));
    assert!(!occurs(&chars_of(""), "a"));
    assert!(occurs(&chars_of("aab"), "ab"));
}

#[test]
fn prefixes_are_recognised() {
    assert!(starts_with("arn:aws", "arn:"));
    assert!(starts_with("arn:", "arn:"));
    assert!(starts_with("anything", ""));
    assert!(!starts_with("arn", "arn:"));
    assert!(!starts_with("arm:aws", "arn:"));
    assert!(!starts_with("", "arn:"));
}

#[test]
fn names_are_trimmed_and_lowered() {
    assert_eq!(normalize("  US-EAST-2 "), "us-east-2");
    assert_eq!(normalize("US-EAST-2\n"), "us-east-2");
    assert_eq!(normalize("   "), "");
    assert_eq!(normalize("Asia Pacific"), "asia pacific");
}

#[test]
fn a_text_without_a_backslash_is_always_a_pattern() {
    let patterns = ["", "*", "?", "***", "a*b?c", "日本語*", "é?", "s3:Get*", " spaced out ", "/", "a:b"];
    let texts = ["", "a", "日本語のテキスト", "é!", "s3:GetObject", "\\", "*"];
    for pattern in patterns {
        for text in texts {
            assert!(wildcard_matches(pattern, text).is_ok());
        }
    }
    assert_eq!(wildcard_matches("日本語*", "日本語のテキスト"), Ok(true));
    assert_eq!(wildcard_matches("*", "\\"), Ok(true));
}
