use llm_scraper::parse::{
    connection_confirmed, fallback_sentiment_label, label_from_lowercase, parse_content_analysis,
    parse_topics, reply_contains_ok, sentiment_fallback, FALLBACK_CONFIDENCE,
};
use llm_scraper::text::{contains_text, has_prefix, is_white_space, lines_of, trimmed};

#[test]
fn full_report_is_read() {
    let a = parse_content_analysis(
        "SUMMARY: A test.\nSENTIMENT: POSITIVE\nTOPICS: a, b\nCATEGORY: Tech",
    );
    assert_eq!(a.summary, "A test.");
    assert_eq!(a.sentiment, "POSITIVE");
    assert_eq!(a.key_topics, "a, b");
    assert_eq!(a.category, "Tech");
}

#[test]
fn report_order_and_noise_do_not_matter() {
    let a = parse_content_analysis(
        "Here is my analysis.\n  CATEGORY:   News \nnoise line\nTOPICS: x\r\n\nSENTIMENT: NEGATIVE, sad\nmore noise\nSUMMARY: Short.\n",
    );
    assert_eq!(a.summary, "Short.");
    assert_eq!(a.sentiment, "NEGATIVE, sad");
    assert_eq!(a.key_topics, "x");
    assert_eq!(a.category, "News");
}

#[test]
fn unmarked_completion_gets_defaults() {
    let text = "The page is about cooking.\nNothing else.";
    let a = parse_content_analysis(text);
    assert_eq!(a.summary, text);
    assert_eq!(a.sentiment, "NEUTRAL");
    assert_eq!(a.key_topics, "General");
    assert_eq!(a.category, "General");
}

#[test]
fn empty_completion_gets_defaults() {
    let a = parse_content_analysis("");
    assert_eq!(a.summary, "");
    assert_eq!(a.sentiment, "NEUTRAL");
    assert_eq!(a.key_topics, "General");
    assert_eq!(a.category, "General");
}

#[test]
fn last_marked_line_wins() {
    let a = parse_content_analysis("CATEGORY: First\nCATEGORY: Second");
    assert_eq!(a.category, "Second");
    let b = parse_content_analysis("SUMMARY: kept\nSUMMARY:   ");
    assert_eq!(b.summary, "SUMMARY: kept\nSUMMARY:   ");
}

#[test]
fn mark_inside_a_line_is_not_a_mark() {
    let a = parse_content_analysis("The SUMMARY: is missing\nTOPICS: t");
    assert_eq!(a.summary, "The SUMMARY: is missing\nTOPICS: t");
    assert_eq!(a.key_topics, "t");
}

#[test]
fn only_the_leading_mark_is_stripped() {
    let a = parse_content_analysis("SUMMARY: see SUMMARY: below");
    assert_eq!(a.summary, "see SUMMARY: below");
}

#[test]
fn topics_are_trimmed_and_blank_lines_skipped() {
    let t = parse_topics("  Rust \n\n   \nVerification\n\tTesting\n", 5);
    assert_eq!(t, vec!["Rust", "Verification", "Testing"]);
}

#[test]
fn topics_never_exceed_the_limit() {
    let t = parse_topics("a\nb\n\nc\nd", 2);
    assert_eq!(t, vec!["a", "b"]);
    let none = parse_topics("a\nb", 0);
    assert!(none.is_empty());
    let blank = parse_topics(" \n\n\t", 3);
    assert!(blank.is_empty());
}

#[test]
fn fallback_label_searches_any_case() {
    assert_eq!(fallback_sentiment_label("This is clearly POSITIVE."), "POSITIVE");
    assert_eq!(fallback_sentiment_label("Rather Negative overall"), "NEGATIVE");
    assert_eq!(fallback_sentiment_label("hard to say"), "NEUTRAL");
    assert_eq!(fallback_sentiment_label("positive and negative"), "POSITIVE");
}

#[test]
fn label_from_lowercase_is_case_sensitive() {
    assert_eq!(label_from_lowercase("a negative tone"), "NEGATIVE");
    assert_eq!(label_from_lowercase("a NEGATIVE tone"), "NEUTRAL");
}

#[test]
fn fallback_keeps_the_completion_as_explanation() {
    let f = sentiment_fallback("{not json: Positive}");
    assert_eq!(f.label, "POSITIVE");
    assert_eq!(f.explanation, "{not json: Positive}");
    assert_eq!(FALLBACK_CONFIDENCE, 50);
}

#[test]
fn connection_reply_is_checked_in_any_case() {
    assert!(connection_confirmed("OK"));
    assert!(connection_confirmed("ok, received"));
    assert!(connection_confirmed("Okay"));
    assert!(!connection_confirmed("Yes, I got it."));
    assert!(!connection_confirmed(""));
    assert!(reply_contains_ok("OK"));
    assert!(!reply_contains_ok("ok"));
}

#[test]
fn trimming_removes_unicode_white_space() {
    assert_eq!(trimmed("  a b \t\r\n"), "a b");
    assert_eq!(trimmed("\u{3000}x\u{a0}"), "x");
    assert_eq!(trimmed(" \n "), "");
    assert!(is_white_space('\u{2028}'));
    assert!(!is_white_space('x'));
}

#[test]
fn lines_split_on_line_feeds() {
    assert_eq!(lines_of("a\nb\n"), vec!["a", "b", ""]);
    assert_eq!(lines_of(""), vec![""]);
    assert_eq!(lines_of("one"), vec!["one"]);
}

#[test]
fn prefix_and_substring_search() {
    assert!(has_prefix("SUMMARY: x", "SUMMARY:"));
    assert!(!has_prefix("SUM", "SUMMARY:"));
    assert!(contains_text("abcabd", "abd"));
    assert!(!contains_text("abcabc", "abd"));
    assert!(contains_text("abc", ""));
}
