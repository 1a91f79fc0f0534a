//! Interpretation of completions: the marked-line report of a content
//! analysis, topic lists, and the yes/no and label readings.
use vstd::prelude::*;
use crate::text::{
    contains, contains_text, has_prefix, lemma_trim_idempotent, lines_of, split_lines, starts_with,
    trim, trimmed,
};
use vstd::string::{StrSliceExecFns, StringExecFns};

verus! {

/// The four fields of a content analysis, each always filled in.
#[derive(Clone, Debug)]
pub struct ContentAnalysis {
    pub summary: String,
    pub sentiment: String,
    pub key_topics: String,
    pub category: String,
}

/// The fields of a `ContentAnalysis` as character sequences.
pub struct AnalysisView {
    pub summary: Seq<char>,
    pub sentiment: Seq<char>,
    pub key_topics: Seq<char>,
    pub category: Seq<char>,
}

impl View for ContentAnalysis {
    type V = AnalysisView;

    open spec fn view(&self) -> AnalysisView {
        AnalysisView {
            summary: self.summary@,
            sentiment: self.sentiment@,
            key_topics: self.key_topics@,
            category: self.category@,
        }
    }
}

/// The value that `line` carries for `key`: present when the trimmed line
/// begins with `key`, and then the rest of it, trimmed.
pub open spec fn marked_value(line: Seq<char>, key: Seq<char>) -> Option<Seq<char>> {
    let t = trim(line);
    if starts_with(t, key) {
        Some(trim(t.subrange(key.len() as int, t.len() as int)))
    } else {
        None
    }
}

/// The value of the last line among `lines` marked with `key`; empty when
/// no line is.
pub open spec fn last_marked(lines: Seq<Seq<char>>, key: Seq<char>) -> Seq<char>
    decreases lines.len(),
{
    if lines.len() == 0 {
        Seq::empty()
    } else {
        match marked_value(lines.last(), key) {
            Some(v) => v,
            None => last_marked(lines.drop_last(), key),
        }
    }
}

pub open spec fn or_default(v: Seq<char>, d: Seq<char>) -> Seq<char> {
    if v.len() == 0 {
        d
    } else {
        v
    }
}

/// The analysis that a completion reports through its marked lines, with
/// the defaults for fields it leaves empty: the whole completion as summary,
/// `NEUTRAL` as sentiment, `General` as topics and as category.
pub open spec fn analysis_of(completion: Seq<char>) -> AnalysisView {
    let ls = split_lines(completion);
    AnalysisView {
        summary: or_default(last_marked(ls, "SUMMARY:"@), completion),
        sentiment: or_default(last_marked(ls, "SENTIMENT:"@), "NEUTRAL"@),
        key_topics: or_default(last_marked(ls, "TOPICS:"@), "General"@),
        category: or_default(last_marked(ls, "CATEGORY:"@), "General"@),
    }
}

/// The value `line` carries for `key`, if it is marked with it.
fn value_after(line: &str, key: &str) -> (r: Option<String>)
    ensures
        r matches Some(v) ==> marked_value(line@, key@) == Some(v@),
        r is None ==> marked_value(line@, key@) is None,
{
    let t = trimmed(line);
    if has_prefix(t.as_str(), key) {
        let n = t.as_str().unicode_len();
        let k = key.unicode_len();
        let rest = t.as_str().substring_char(k, n);
        Some(trimmed(rest))
    } else {
        None
    }
}

/// Replaces `field` with the value `line` carries for `key`, if any.
fn take_marked(field: &mut String, line: &str, key: &str)
    ensures
        final(field)@ == (match marked_value(line@, key@) {
            Some(v) => v,
            None => old(field)@,
        }),
{
    match value_after(line, key) {
        Some(v) => {
            *field = v;
        },
        None => {},
    }
}

/// Reads the marked lines `SUMMARY:`, `SENTIMENT:`, `TOPICS:` and
/// `CATEGORY:` of a completion into an analysis; the last marked line of a
/// kind wins, other lines are ignored, and empty fields get their defaults.
pub fn parse_content_analysis(completion: &str) -> (r: ContentAnalysis)
    ensures
        r@ == analysis_of(completion@),
{
    let lines = lines_of(completion);
    let ghost ls = split_lines(completion@);
    let mut summary = String::new();
    let mut sentiment = String::new();
    let mut key_topics = String::new();
    let mut category = String::new();
    let mut i: usize = 0;
    while i < lines.len()
        invariant
            lines@.len() == ls.len(),
            forall|k: int| 0 <= k < lines@.len() ==> #[trigger] lines@[k]@ == ls[k],
            i <= lines@.len(),
            summary@ == last_marked(ls.take(i as int), "SUMMARY:"@),
            sentiment@ == last_marked(ls.take(i as int), "SENTIMENT:"@),
            key_topics@ == last_marked(ls.take(i as int), "TOPICS:"@),
            category@ == last_marked(ls.take(i as int), "CATEGORY:"@),
        decreases lines@.len() - i,
    {
        let line = lines[i].as_str();
        proof {
            let next = ls.take(i + 1);
            assert(next.drop_last() =~= ls.take(i as int));
            assert(next.last() == lines@[i as int]@);
        }
        take_marked(&mut summary, line, "SUMMARY:");
        take_marked(&mut sentiment, line, "SENTIMENT:");
        take_marked(&mut key_topics, line, "TOPICS:");
        take_marked(&mut category, line, "CATEGORY:");
        i = i + 1;
    }
    assert(ls.take(i as int) =~= ls);
    if summary.as_str().unicode_len() == 0 {
        summary = String::from_str(completion);
    }
    if sentiment.as_str().unicode_len() == 0 {
        sentiment = String::from_str("NEUTRAL");
    }
    if key_topics.as_str().unicode_len() == 0 {
        key_topics = String::from_str("General");
    }
    if category.as_str().unicode_len() == 0 {
        category = String::from_str("General");
    }
    ContentAnalysis { summary, sentiment, key_topics, category }
}

/// A line whose trimmed text begins with `key`.
pub open spec fn is_marked(line: Seq<char>, key: Seq<char>) -> bool {
    starts_with(trim(line), key)
}

proof fn lemma_last_marked_at(lines: Seq<Seq<char>>, key: Seq<char>, i: int)
    requires
        0 <= i < lines.len(),
        is_marked(lines[i], key),
        forall|j: int| i < j < lines.len() ==> !is_marked(#[trigger] lines[j], key),
    ensures
        last_marked(lines, key) == marked_value(lines[i], key)->Some_0,
    decreases lines.len(),
{
    if i < lines.len() - 1 {
        let p = lines.drop_last();
        assert forall|j: int| i < j < p.len() implies !is_marked(#[trigger] p[j], key) by {
            assert(p[j] == lines[j]);
        }
        lemma_last_marked_at(p, key, i);
    }
}

proof fn lemma_last_marked_none(lines: Seq<Seq<char>>, key: Seq<char>)
    requires
        forall|j: int| 0 <= j < lines.len() ==> !is_marked(#[trigger] lines[j], key),
    ensures
        last_marked(lines, key) == Seq::<char>::empty(),
    decreases lines.len(),
{
    if lines.len() > 0 {
        let p = lines.drop_last();
        assert forall|j: int| 0 <= j < p.len() implies !is_marked(#[trigger] p[j], key) by {
            assert(p[j] == lines[j]);
        }
        lemma_last_marked_none(p, key);
    }
}

/// When each of the four marks stands on exactly one line of a completion,
/// with a non-empty value, the analysis holds exactly those four values,
/// whatever their order and whatever other lines stand between them.
pub proof fn lemma_marked_lines_extracted(
    completion: Seq<char>,
    i_summary: int,
    i_sentiment: int,
    i_topics: int,
    i_category: int,
)
    requires
        ({
            let ls = split_lines(completion);
            &&& 0 <= i_summary < ls.len() && is_marked(ls[i_summary], "SUMMARY:"@)
            &&& 0 <= i_sentiment < ls.len() && is_marked(ls[i_sentiment], "SENTIMENT:"@)
            &&& 0 <= i_topics < ls.len() && is_marked(ls[i_topics], "TOPICS:"@)
            &&& 0 <= i_category < ls.len() && is_marked(ls[i_category], "CATEGORY:"@)
            &&& forall|j: int|
                0 <= j < ls.len() && j != i_summary ==> !is_marked(#[trigger] ls[j], "SUMMARY:"@)
            &&& forall|j: int|
                0 <= j < ls.len() && j != i_sentiment ==> !is_marked(
                    #[trigger] ls[j],
                    "SENTIMENT:"@,
                )
            &&& forall|j: int|
                0 <= j < ls.len() && j != i_topics ==> !is_marked(#[trigger] ls[j], "TOPICS:"@)
            &&& forall|j: int|
                0 <= j < ls.len() && j != i_category ==> !is_marked(
                    #[trigger] ls[j],
                    "CATEGORY:"@,
                )
            &&& marked_value(ls[i_summary], "SUMMARY:"@)->Some_0.len() > 0
            &&& marked_value(ls[i_sentiment], "SENTIMENT:"@)->Some_0.len() > 0
            &&& marked_value(ls[i_topics], "TOPICS:"@)->Some_0.len() > 0
            &&& marked_value(ls[i_category], "CATEGORY:"@)->Some_0.len() > 0
        }),
    ensures
        ({
            let ls = split_lines(completion);
            let a = analysis_of(completion);
            &&& a.summary == marked_value(ls[i_summary], "SUMMARY:"@)->Some_0
            &&& a.sentiment == marked_value(ls[i_sentiment], "SENTIMENT:"@)->Some_0
            &&& a.key_topics == marked_value(ls[i_topics], "TOPICS:"@)->Some_0
            &&& a.category == marked_value(ls[i_category], "CATEGORY:"@)->Some_0
        }),
{
    let ls = split_lines(completion);
    lemma_last_marked_at(ls, "SUMMARY:"@, i_summary);
    lemma_last_marked_at(ls, "SENTIMENT:"@, i_sentiment);
    lemma_last_marked_at(ls, "TOPICS:"@, i_topics);
    lemma_last_marked_at(ls, "CATEGORY:"@, i_category);
}

/// A completion with no line marked by any of the four marks is read as a
/// summary that is the whole completion, with the default sentiment, topics
/// and category.
pub proof fn lemma_unmarked_completion_defaults(completion: Seq<char>)
    requires
        forall|j: int|
            0 <= j < split_lines(completion).len() ==> {
                let l = #[trigger] split_lines(completion)[j];
                &&& !is_marked(l, "SUMMARY:"@)
                &&& !is_marked(l, "SENTIMENT:"@)
                &&& !is_marked(l, "TOPICS:"@)
                &&& !is_marked(l, "CATEGORY:"@)
            },
    ensures
        analysis_of(completion).summary == completion,
        analysis_of(completion).sentiment == "NEUTRAL"@,
        analysis_of(completion).key_topics == "General"@,
        analysis_of(completion).category == "General"@,
{
    let ls = split_lines(completion);
    lemma_last_marked_none(ls, "SUMMARY:"@);
    lemma_last_marked_none(ls, "SENTIMENT:"@);
    lemma_last_marked_none(ls, "TOPICS:"@);
    lemma_last_marked_none(ls, "CATEGORY:"@);
}

/// The non-blank lines among `lines`, trimmed, in order.
pub open spec fn topic_lines(lines: Seq<Seq<char>>) -> Seq<Seq<char>>
    decreases lines.len(),
{
    if lines.len() == 0 {
        Seq::empty()
    } else {
        let rest = topic_lines(lines.drop_last());
        let t = trim(lines.last());
        if t.len() == 0 {
            rest
        } else {
            rest.push(t)
        }
    }
}

/// At most the first `k` items of `s`.
pub open spec fn take_first<A>(s: Seq<A>, k: nat) -> Seq<A> {
    if s.len() <= k {
        s
    } else {
        s.take(k as int)
    }
}

/// The topics a completion lists, at most `max_topics` of them.
pub open spec fn topics_of(completion: Seq<char>, max_topics: nat) -> Seq<Seq<char>> {
    take_first(topic_lines(split_lines(completion)), max_topics)
}

proof fn lemma_topic_lines_filled(lines: Seq<Seq<char>>)
    ensures
        forall|k: int|
            0 <= k < topic_lines(lines).len() ==> {
                let t = #[trigger] topic_lines(lines)[k];
                t.len() > 0 && trim(t) == t
            },
    decreases lines.len(),
{
    if lines.len() > 0 {
        lemma_topic_lines_filled(lines.drop_last());
        let rest = topic_lines(lines.drop_last());
        let t = trim(lines.last());
        lemma_trim_idempotent(lines.last());
        if t.len() > 0 {
            assert forall|k: int| 0 <= k < topic_lines(lines).len() implies {
                let u = #[trigger] topic_lines(lines)[k];
                u.len() > 0 && trim(u) == u
            } by {
                if k < rest.len() {
                    assert(topic_lines(lines)[k] == rest[k]);
                }
            }
        }
    }
}

/// The topics listed in a completion, one per line: blank lines are
/// skipped, each line is trimmed, and at most `max_topics` are kept, in
/// order.
pub fn parse_topics(completion: &str, max_topics: u32) -> (r: Vec<String>)
    ensures
        r@.len() == topics_of(completion@, max_topics as nat).len(),
        forall|k: int|
            0 <= k < r@.len() ==> #[trigger] r@[k]@ == topics_of(completion@, max_topics as nat)[k],
        r@.len() <= max_topics,
        forall|k: int| 0 <= k < r@.len() ==> (#[trigger] r@[k]@).len() > 0 && trim(r@[k]@) == r@[k]@,
{
    let lines = lines_of(completion);
    let ghost ls = split_lines(completion@);
    let ghost k = max_topics as nat;
    let mut out: Vec<String> = Vec::new();
    let mut i: usize = 0;
    while i < lines.len()
        invariant
            lines@.len() == ls.len(),
            forall|j: int| 0 <= j < lines@.len() ==> #[trigger] lines@[j]@ == ls[j],
            i <= lines@.len(),
            k == max_topics as nat,
            out@.len() == take_first(topic_lines(ls.take(i as int)), k).len(),
            forall|j: int|
                0 <= j < out@.len() ==> #[trigger] out@[j]@ == take_first(
                    topic_lines(ls.take(i as int)),
                    k,
                )[j],
        decreases lines@.len() - i,
    {
        let t = trimmed(lines[i].as_str());
        let ghost prev = topic_lines(ls.take(i as int));
        let ghost old_out = out@;
        proof {
            let next = ls.take(i + 1);
            assert(next.drop_last() =~= ls.take(i as int));
            assert(next.last() == lines@[i as int]@);
        }
        let filled = t.as_str().unicode_len() > 0;
        let room = out.len() < max_topics as usize;
        assert(room == (old_out.len() < k));
        if filled && room {
            proof {
                if prev.len() > k {
                    assert(take_first(prev, k).len() == k);
                }
                assert(prev.len() < k);
            }
            out.push(t);
            proof {
                assert(take_first(prev.push(t@), k) =~= prev.push(t@));
                assert forall|j: int| 0 <= j < out@.len() implies #[trigger] out@[j]@ == prev.push(
                    t@,
                )[j] by {
                    if j < old_out.len() {
                        assert(out@[j] == old_out[j]);
                    }
                }
            }
        } else if filled {
            proof {
                if prev.len() < k {
                    assert(take_first(prev, k) == prev);
                }
                assert(prev.len() >= k);
                assert(take_first(prev.push(t@), k) =~= take_first(prev, k));
            }
        }
        i = i + 1;
    }
    proof {
        assert(ls.take(i as int) =~= ls);
        lemma_topic_lines_filled(ls);
    }
    out
}

/// What `str::to_lowercase` gives for a text.
pub uninterp spec fn lower_of(s: Seq<char>) -> Seq<char>;

/// What `str::to_uppercase` gives for a text.
pub uninterp spec fn upper_of(s: Seq<char>) -> Seq<char>;

/// Relies on `str::to_lowercase`: its result depends on the characters of
/// the text alone.
#[verifier::external_body]
fn lowercase(s: &str) -> (r: String)
    ensures
        r@ == lower_of(s@),
{
    s.to_lowercase()
}

/// Relies on `str::to_uppercase`: its result depends on the characters of
/// the text alone.
#[verifier::external_body]
fn uppercase(s: &str) -> (r: String)
    ensures
        r@ == upper_of(s@),
{
    s.to_uppercase()
}

/// The sentiment label read from a lower-cased completion: `POSITIVE` if it
/// mentions "positive", else `NEGATIVE` if it mentions "negative", else
/// `NEUTRAL`.
pub open spec fn label_for(lowered: Seq<char>) -> Seq<char> {
    if contains(lowered, "positive"@) {
        "POSITIVE"@
    } else if contains(lowered, "negative"@) {
        "NEGATIVE"@
    } else {
        "NEUTRAL"@
    }
}

/// The sentiment label for a completion that is already lower-cased.
pub fn label_from_lowercase(lowered: &str) -> (r: String)
    ensures
        r@ == label_for(lowered@),
{
    if contains_text(lowered, "positive") {
        String::from_str("POSITIVE")
    } else if contains_text(lowered, "negative") {
        String::from_str("NEGATIVE")
    } else {
        String::from_str("NEUTRAL")
    }
}

/// The label given to a sentiment completion that is not a well-formed
/// object: found by searching its lower-cased text.
pub fn fallback_sentiment_label(completion: &str) -> (r: String)
    ensures
        r@ == label_for(lower_of(completion@)),
{
    let lowered = lowercase(completion);
    label_from_lowercase(lowered.as_str())
}

/// The confidence, out of 100, given to a sentiment read by the fallback.
pub const FALLBACK_CONFIDENCE: u32 = 50;

/// What a sentiment completion that is not a well-formed object is read as:
/// a label found in its text, and the whole completion as explanation.
pub struct SentimentFallback {
    pub label: String,
    pub explanation: String,
}

/// The fallback reading of a sentiment completion.
pub fn sentiment_fallback(completion: &str) -> (r: SentimentFallback)
    ensures
        r.label@ == label_for(lower_of(completion@)),
        r.explanation@ == completion@,
{
    SentimentFallback {
        label: fallback_sentiment_label(completion),
        explanation: String::from_str(completion),
    }
}

/// Whether an upper-cased reply holds "OK".
pub fn reply_contains_ok(uppered: &str) -> (r: bool)
    ensures
        r == contains(uppered@, "OK"@),
{
    contains_text(uppered, "OK")
}

/// Whether a reply to the connection probe confirms it: "OK" in any case.
pub fn connection_confirmed(completion: &str) -> (r: bool)
    ensures
        r == contains(upper_of(completion@), "OK"@),
{
    let uppered = uppercase(completion);
    reply_contains_ok(uppered.as_str())
}

} // verus!
