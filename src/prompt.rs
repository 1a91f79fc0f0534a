//! The prompts sent to the model, each a fixed template around the
//! caller's text, with long content cut to a per-operation limit.
use vstd::prelude::*;
use vstd::string::{StrSliceExecFns, StringExecFns};

verus! {

/// The most characters of page content put into a full content analysis.
pub const WEB_CONTENT_LIMIT: usize = 3000;

/// The most characters of content put into a summary request.
pub const SUMMARY_LIMIT: usize = 4000;

/// The most characters of content put into a topic request.
pub const TOPICS_LIMIT: usize = 4000;

/// The most characters of content put into a classification request.
pub const CLASSIFY_LIMIT: usize = 2000;

/// The most characters of content put into a relevance request.
pub const RELEVANCE_LIMIT: usize = 3000;

/// `s` cut to its first `limit` characters when it is longer.
pub open spec fn truncated(s: Seq<char>, limit: nat) -> Seq<char> {
    if s.len() > limit {
        s.take(limit as int)
    } else {
        s
    }
}

/// `content` cut to its first `limit` characters when it is longer.
pub fn truncate_chars<'a>(content: &'a str, limit: usize) -> (r: &'a str)
    ensures
        r@ == truncated(content@, limit as nat),
        r@.len() <= limit,
        content@.len() > limit ==> r@ == content@.subrange(0, limit as int),
        content@.len() <= limit ==> r@ == content@,
{
    let n = content.unicode_len();
    if n > limit {
        content.substring_char(0, limit)
    } else {
        proof {
            assert(content@.subrange(0, n as int) =~= content@);
        }
        content.substring_char(0, n)
    }
}

/// The decimal digit for `d`.
pub open spec fn digit_char(d: nat) -> char {
    if d == 0 {
        '0'
    } else if d == 1 {
        '1'
    } else if d == 2 {
        '2'
    } else if d == 3 {
        '3'
    } else if d == 4 {
        '4'
    } else if d == 5 {
        '5'
    } else if d == 6 {
        '6'
    } else if d == 7 {
        '7'
    } else if d == 8 {
        '8'
    } else {
        '9'
    }
}

/// The decimal numeral for `n`, without leading zeros.
pub open spec fn decimal(n: nat) -> Seq<char>
    decreases n,
{
    if n < 10 {
        seq![digit_char(n)]
    } else {
        decimal(n / 10).push(digit_char(n % 10))
    }
}

fn digit_text(d: u32) -> (r: &'static str)
    requires
        d < 10,
    ensures
        r@ == seq![digit_char(d as nat)],
{
    proof {
        reveal_strlit("0");
        reveal_strlit("1");
        reveal_strlit("2");
        reveal_strlit("3");
        reveal_strlit("4");
        reveal_strlit("5");
        reveal_strlit("6");
        reveal_strlit("7");
        reveal_strlit("8");
        reveal_strlit("9");
    }
    let r = if d == 0 {
        "0"
    } else if d == 1 {
        "1"
    } else if d == 2 {
        "2"
    } else if d == 3 {
        "3"
    } else if d == 4 {
        "4"
    } else if d == 5 {
        "5"
    } else if d == 6 {
        "6"
    } else if d == 7 {
        "7"
    } else if d == 8 {
        "8"
    } else {
        "9"
    };
    assert(r@ =~= seq![digit_char(d as nat)]);
    r
}

/// The decimal numeral for `n`.
pub fn decimal_text(n: u32) -> (r: String)
    ensures
        r@ == decimal(n as nat),
    decreases n,
{
    if n < 10 {
        String::from_str(digit_text(n))
    } else {
        let mut r = decimal_text(n / 10);
        r.append(digit_text(n % 10));
        r
    }
}

/// The items of `ks` with `sep` between each two.
pub open spec fn joined(ks: Seq<Seq<char>>, sep: Seq<char>) -> Seq<char>
    decreases ks.len(),
{
    if ks.len() == 0 {
        Seq::empty()
    } else if ks.len() == 1 {
        ks[0]
    } else {
        joined(ks.drop_last(), sep) + sep + ks.last()
    }
}

/// The items as one text, with `sep` between each two.
pub fn join_with(items: &[&str], sep: &str) -> (r: String)
    ensures
        r@ == joined(items@.map_values(|k: &str| k@), sep@),
{
    let ghost ks = items@.map_values(|k: &str| k@);
    let mut r = String::new();
    let mut i: usize = 0;
    while i < items.len()
        invariant
            ks == items@.map_values(|k: &str| k@),
            i <= items@.len(),
            r@ == joined(ks.take(i as int), sep@),
        decreases items@.len() - i,
    {
        proof {
            let next = ks.take(i + 1);
            assert(next.drop_last() =~= ks.take(i as int));
            assert(next.last() == items@[i as int]@);
            if i == 0 {
                assert(next[0] == items@[0]@);
            }
        }
        if i > 0 {
            r.append(sep);
        }
        r.append(items[i]);
        proof {
            if i == 0 {
                assert(r@ =~= Seq::<char>::empty() + items@[0]@);
            }
        }
        i = i + 1;
    }
    assert(ks.take(i as int) =~= ks);
    r
}

/// The text of `web_content_prompt`, around the content as it is put in.
pub open spec fn web_content_prompt_text(
    title: Seq<char>,
    content: Seq<char>,
    url: Seq<char>,
) -> Seq<char> {
    "Analyze this web content and provide structured analysis:\n\nURL: "@
        + url
        + "\nTitle: "@
        + title
        + "\nContent: "@
        + content
        + "\n\nPlease provide analysis in this exact format:\nSUMMARY: [2-3 sentence summary]\nSENTIMENT: [POSITIVE/NEGATIVE/NEUTRAL with brief explanation]\nTOPICS: [comma-separated key topics/themes]\nCATEGORY: [main category like Technology, News, Business, Education, etc.]\n\nBe concise and accurate."@
}

/// The request for a full analysis of a page: its URL, its title and its
/// content, cut to `WEB_CONTENT_LIMIT` characters, with the four marked
/// lines the answer is to give.
pub fn web_content_prompt(title: &str, content: &str, url: &str) -> (r: String)
    ensures
        r@ == web_content_prompt_text(title@, truncated(content@, WEB_CONTENT_LIMIT as nat), url@),
        content@.len() > WEB_CONTENT_LIMIT ==> r@ == web_content_prompt_text(
            title@,
            content@.take(WEB_CONTENT_LIMIT as int),
            url@,
        ),
{
    let mut r = String::from_str("Analyze this web content and provide structured analysis:\n\nURL: ");
    r.append(url);
    r.append("\nTitle: ");
    r.append(title);
    r.append("\nContent: ");
    r.append(truncate_chars(content, WEB_CONTENT_LIMIT));
    r.append("\n\nPlease provide analysis in this exact format:\nSUMMARY: [2-3 sentence summary]\nSENTIMENT: [POSITIVE/NEGATIVE/NEUTRAL with brief explanation]\nTOPICS: [comma-separated key topics/themes]\nCATEGORY: [main category like Technology, News, Business, Education, etc.]\n\nBe concise and accurate.");
    r
}

/// The text of `sentiment_prompt`, around the content as it is put in.
pub open spec fn sentiment_prompt_text(text: Seq<char>) -> Seq<char> {
    "Analyze the sentiment of the following text. Return your analysis as a JSON object with three keys: \"label\" (string: \"POSITIVE\", \"NEGATIVE\", or \"NEUTRAL\"), \"confidence\" (float: a score between 0.0 and 1.0 indicating certainty), and \"explanation\" (string: a brief explanation of the sentiment).\n\nText: \""@
        + text
        + "\""@
}

/// The request for the sentiment of a text, to be answered as an object
/// with a label, a confidence and an explanation. The text is not cut.
pub fn sentiment_prompt(text: &str) -> (r: String)
    ensures
        r@ == sentiment_prompt_text(text@),
{
    let mut r = String::from_str("Analyze the sentiment of the following text. Return your analysis as a JSON object with three keys: \"label\" (string: \"POSITIVE\", \"NEGATIVE\", or \"NEUTRAL\"), \"confidence\" (float: a score between 0.0 and 1.0 indicating certainty), and \"explanation\" (string: a brief explanation of the sentiment).\n\nText: \"");
    r.append(text);
    r.append("\"");
    r
}

/// The text of `summary_prompt`, around the content as it is put in.
pub open spec fn summary_prompt_text(content: Seq<char>, max_sentences: nat) -> Seq<char> {
    "Summarize the following content in exactly "@
        + decimal(max_sentences)
        + " sentences. Focus on the most important information:\n\n"@
        + content
}

/// The request for a summary of `max_sentences` sentences of the content,
/// cut to `SUMMARY_LIMIT` characters.
pub fn summary_prompt(content: &str, max_sentences: u32) -> (r: String)
    ensures
        r@ == summary_prompt_text(truncated(content@, SUMMARY_LIMIT as nat), max_sentences as nat),
        content@.len() > SUMMARY_LIMIT ==> r@ == summary_prompt_text(
            content@.take(SUMMARY_LIMIT as int),
            max_sentences as nat,
        ),
{
    let mut r = String::from_str("Summarize the following content in exactly ");
    let n_max_sentences = decimal_text(max_sentences);
    r.append(n_max_sentences.as_str());
    r.append(" sentences. Focus on the most important information:\n\n");
    r.append(truncate_chars(content, SUMMARY_LIMIT));
    r
}

/// The text of `topics_prompt`, around the content as it is put in.
pub open spec fn topics_prompt_text(content: Seq<char>, max_topics: nat) -> Seq<char> {
    "Extract the top "@
        + decimal(max_topics)
        + " key topics or themes from this content. Return only the topics, one per line:\n\n"@
        + content
}

/// The request for at most `max_topics` topics of the content, one per
/// line, with the content cut to `TOPICS_LIMIT` characters.
pub fn topics_prompt(content: &str, max_topics: u32) -> (r: String)
    ensures
        r@ == topics_prompt_text(truncated(content@, TOPICS_LIMIT as nat), max_topics as nat),
        content@.len() > TOPICS_LIMIT ==> r@ == topics_prompt_text(
            content@.take(TOPICS_LIMIT as int),
            max_topics as nat,
        ),
{
    let mut r = String::from_str("Extract the top ");
    let n_max_topics = decimal_text(max_topics);
    r.append(n_max_topics.as_str());
    r.append(" key topics or themes from this content. Return only the topics, one per line:\n\n");
    r.append(truncate_chars(content, TOPICS_LIMIT));
    r
}

/// The text of `classify_prompt`, around the content as it is put in.
pub open spec fn classify_prompt_text(title: Seq<char>, content: Seq<char>) -> Seq<char> {
    "Classify this web content into one main category. Choose from: Technology, News, Business, Education, Entertainment, Sports, Health, Science, Politics, Lifestyle, Other\n\nTitle: "@
        + title
        + "\nContent: "@
        + content
        + "\n\nReturn only the category name:"@
}

/// The request for the one category of a page, given its title and its
/// content cut to `CLASSIFY_LIMIT` characters.
pub fn classify_prompt(title: &str, content: &str) -> (r: String)
    ensures
        r@ == classify_prompt_text(title@, truncated(content@, CLASSIFY_LIMIT as nat)),
        content@.len() > CLASSIFY_LIMIT ==> r@ == classify_prompt_text(
            title@,
            content@.take(CLASSIFY_LIMIT as int),
        ),
{
    let mut r = String::from_str("Classify this web content into one main category. Choose from: Technology, News, Business, Education, Entertainment, Sports, Health, Science, Politics, Lifestyle, Other\n\nTitle: ");
    r.append(title);
    r.append("\nContent: ");
    r.append(truncate_chars(content, CLASSIFY_LIMIT));
    r.append("\n\nReturn only the category name:");
    r
}

/// The text of `relevance_prompt`, around the content as it is put in.
pub open spec fn relevance_prompt_text(content: Seq<char>, keywords: Seq<char>) -> Seq<char> {
    "Rate how relevant this content is to these keywords: "@
        + keywords
        + "\nContent: "@
        + content
        + "\n\nProvide a relevance score from 0-100 where:\n0 = Not relevant at all\n50 = Somewhat relevant\n100 = Highly relevant\n\nReturn only the number:"@
}

/// The request for a score from 0 to 100 of how relevant the content, cut
/// to `RELEVANCE_LIMIT` characters, is to the keywords.
pub fn relevance_prompt(content: &str, keywords: &[&str]) -> (r: String)
    ensures
        r@ == relevance_prompt_text(
            truncated(content@, RELEVANCE_LIMIT as nat),
            joined(keywords@.map_values(|k: &str| k@), ", "@),
        ),
        content@.len() > RELEVANCE_LIMIT ==> r@ == relevance_prompt_text(
            content@.take(RELEVANCE_LIMIT as int),
            joined(keywords@.map_values(|k: &str| k@), ", "@),
        ),
{
    let mut r = String::from_str("Rate how relevant this content is to these keywords: ");
    let joined_keywords = join_with(keywords, ", ");
    r.append(joined_keywords.as_str());
    r.append("\nContent: ");
    r.append(truncate_chars(content, RELEVANCE_LIMIT));
    r.append("\n\nProvide a relevance score from 0-100 where:\n0 = Not relevant at all\n50 = Somewhat relevant\n100 = Highly relevant\n\nReturn only the number:");
    r
}

/// The probe sent to check that the endpoint answers.
pub fn connection_probe() -> (r: &'static str)
    ensures
        r@ == "Reply with 'OK' if you receive this message."@,
{
    "Reply with 'OK' if you receive this message."
}

/// The question sent to learn which model answers.
pub fn model_info_question() -> (r: &'static str)
    ensures
        r@ == "What model are you and what are your capabilities?"@,
{
    "What model are you and what are your capabilities?"
}

} // verus!
