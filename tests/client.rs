use llm_scraper::runner::{completion_from_reply, with_default_scheme, LLMRunner, LlmError};
use llm_scraper::wire::{Candidate, GeminiRequest, GeminiResponse, ResponseContent, ResponsePart};

fn envelope(texts: &[&[&str]]) -> GeminiResponse {
    let mut candidates = Vec::new();
    for parts in texts {
        let mut ps = Vec::new();
        for t in parts.iter() {
            ps.push(ResponsePart { text: t.to_string() });
        }
        candidates.push(Candidate { content: ResponseContent { parts: ps } });
    }
    GeminiResponse { candidates }
}

#[test]
fn missing_key_is_a_configuration_error() {
    assert!(matches!(LLMRunner::new(None), Err(LlmError::Configuration)));
}

#[test]
fn request_url_carries_the_key() {
    let r = LLMRunner::new(Some("k123".to_string())).unwrap();
    assert_eq!(r.api_key(), "k123");
    assert_eq!(
        r.base_url(),
        "https://generativelanguage.googleapis.com/v1beta/models/gemini-pro:generateContent"
    );
    assert_eq!(
        r.request_url(),
        "https://generativelanguage.googleapis.com/v1beta/models/gemini-pro:generateContent?key=k123"
    );
}

#[test]
fn request_wraps_the_prompt() {
    let req = GeminiRequest::for_prompt("hello");
    assert_eq!(req.contents.len(), 1);
    assert_eq!(req.contents[0].parts.len(), 1);
    assert_eq!(req.contents[0].parts[0].text, "hello");
}

#[test]
fn first_text_of_first_candidate() {
    let e = envelope(&[&["first", "second"], &["other"]]);
    assert_eq!(e.first_text(), Some("first".to_string()));
    assert_eq!(envelope(&[]).first_text(), None);
    assert_eq!(envelope(&[&[]]).first_text(), None);
}

#[test]
fn reply_outcomes() {
    let ok = completion_from_reply(true, "{}".to_string(), Some(envelope(&[&["answer"]])));
    assert_eq!(ok.unwrap(), "answer");
    match completion_from_reply(false, "quota".to_string(), Some(envelope(&[&["x"]]))) {
        Err(LlmError::Api(b)) => assert_eq!(b, "quota"),
        other => panic!("unexpected {:?}", other),
    }
    match completion_from_reply(true, "<html>".to_string(), None) {
        Err(LlmError::Api(b)) => assert_eq!(b, "<html>"),
        other => panic!("unexpected {:?}", other),
    }
    assert!(matches!(
        completion_from_reply(true, "{}".to_string(), Some(envelope(&[]))),
        Err(LlmError::EmptyResponse)
    ));
    let t = LlmError::Transport("down".to_string());
    assert!(matches!(t, LlmError::Transport(_)));
}

#[test]
fn url_gets_a_scheme_when_it_has_none() {
    assert_eq!(with_default_scheme("example.com"), "https://example.com");
    assert_eq!(with_default_scheme("http://example.com"), "http://example.com");
    assert_eq!(with_default_scheme("https://example.com/a"), "https://example.com/a");
    assert_eq!(with_default_scheme("ftp://x"), "https://ftp://x");
}
