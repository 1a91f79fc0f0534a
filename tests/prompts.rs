use llm_scraper::prompt::{
    classify_prompt, connection_probe, decimal_text, join_with, model_info_question,
    relevance_prompt, sentiment_prompt, summary_prompt, topics_prompt, truncate_chars,
    web_content_prompt, CLASSIFY_LIMIT, RELEVANCE_LIMIT, SUMMARY_LIMIT, TOPICS_LIMIT,
    WEB_CONTENT_LIMIT,
};

#[test]
fn long_content_is_cut_to_the_limit() {
    let content = "x".repeat(3500);
    let p = web_content_prompt("T", &content, "https://e.org");
    let head = "Analyze this web content and provide structured analysis:\n\nURL: https://e.org\nTitle: T\nContent: ";
    assert!(p.starts_with(head));
    let rest = &p[head.len()..];
    assert!(rest.starts_with(&"x".repeat(3000)));
    assert!(rest[3000..].starts_with("\n\nPlease provide"));
}

#[test]
fn cutting_counts_characters() {
    let content = "é".repeat(2001);
    let cut = truncate_chars(&content, CLASSIFY_LIMIT);
    assert_eq!(cut.chars().count(), 2000);
    assert_eq!(cut, "é".repeat(2000));
    assert_eq!(truncate_chars("short", 10), "short");
    assert_eq!(truncate_chars("abcdef", 6), "abcdef");
    assert_eq!(truncate_chars("abcdef", 0), "");
}

#[test]
fn limits_per_operation() {
    assert_eq!(WEB_CONTENT_LIMIT, 3000);
    assert_eq!(SUMMARY_LIMIT, 4000);
    assert_eq!(TOPICS_LIMIT, 4000);
    assert_eq!(CLASSIFY_LIMIT, 2000);
    assert_eq!(RELEVANCE_LIMIT, 3000);
    let content = "#".repeat(5000);
    let s = summary_prompt(&content, 3);
    assert_eq!(s.matches('#').count(), 4000);
    let t = topics_prompt(&content, 3);
    assert_eq!(t.matches('#').count(), 4000);
    let r = relevance_prompt(&content, &["k"]);
    assert_eq!(r.matches('#').count(), 3000);
}

#[test]
fn web_content_prompt_text() {
    let p = web_content_prompt("Title", "Body", "http://a.b");
    assert_eq!(
        p,
        "Analyze this web content and provide structured analysis:\n\nURL: http://a.b\nTitle: Title\nContent: Body\n\nPlease provide analysis in this exact format:\nSUMMARY: [2-3 sentence summary]\nSENTIMENT: [POSITIVE/NEGATIVE/NEUTRAL with brief explanation]\nTOPICS: [comma-separated key topics/themes]\nCATEGORY: [main category like Technology, News, Business, Education, etc.]\n\nBe concise and accurate."
    );
}

#[test]
fn sentiment_prompt_quotes_the_text() {
    let p = sentiment_prompt("I love it");
    assert!(p.starts_with("Analyze the sentiment of the following text."));
    assert!(p.ends_with("\n\nText: \"I love it\""));
}

#[test]
fn summary_and_topics_prompts_carry_the_counts() {
    assert_eq!(
        summary_prompt("Body", 3),
        "Summarize the following content in exactly 3 sentences. Focus on the most important information:\n\nBody"
    );
    assert_eq!(
        topics_prompt("Body", 12),
        "Extract the top 12 key topics or themes from this content. Return only the topics, one per line:\n\nBody"
    );
}

#[test]
fn classify_prompt_text() {
    assert_eq!(
        classify_prompt("T", "C"),
        "Classify this web content into one main category. Choose from: Technology, News, Business, Education, Entertainment, Sports, Health, Science, Politics, Lifestyle, Other\n\nTitle: T\nContent: C\n\nReturn only the category name:"
    );
}

#[test]
fn relevance_prompt_joins_keywords() {
    let p = relevance_prompt("C", &["rust", "web", "ai"]);
    assert!(p.starts_with("Rate how relevant this content is to these keywords: rust, web, ai\nContent: C\n\n"));
    assert!(p.ends_with("Return only the number:"));
}

#[test]
fn keywords_are_joined_with_commas() {
    assert_eq!(join_with(&[], ", "), "");
    assert_eq!(join_with(&["one"], ", "), "one");
    assert_eq!(join_with(&["a", "b", "c"], ", "), "a, b, c");
}

#[test]
fn numbers_are_written_in_decimal() {
    assert_eq!(decimal_text(0), "0");
    assert_eq!(decimal_text(7), "7");
    assert_eq!(decimal_text(10), "10");
    assert_eq!(decimal_text(4294967295), "4294967295");
}

#[test]
fn fixed_questions() {
    assert_eq!(connection_probe(), "Reply with 'OK' if you receive this message.");
    assert_eq!(model_info_question(), "What model are you and what are your capabilities?");
}
