//! The client's configuration, and the reading of the endpoint's reply.
use vstd::prelude::*;
use vstd::string::StringExecFns;
use crate::text::{has_prefix, starts_with};
use crate::wire::{first_text_of, GeminiResponse};

verus! {

/// Why a request to the model gave no completion.
#[derive(Debug)]
pub enum LlmError {
    /// No API key was configured.
    Configuration,
    /// The request could not be sent or its reply not received.
    Transport(String),
    /// The endpoint answered with a failure status, or with a body that is
    /// not a response envelope; the body is kept.
    Api(String),
    /// The response held no candidate text.
    EmptyResponse,
}

/// The endpoint that prompts are posted to.
pub open spec fn default_endpoint() -> Seq<char> {
    "https://generativelanguage.googleapis.com/v1beta/models/gemini-pro:generateContent"@
}

/// The configuration of a client: the API key and the endpoint, fixed when
/// the client is made.
pub struct LLMRunner {
    api_key: String,
    base_url: String,
}

pub struct RunnerView {
    pub api_key: Seq<char>,
    pub base_url: Seq<char>,
}

impl View for LLMRunner {
    type V = RunnerView;

    closed spec fn view(&self) -> RunnerView {
        RunnerView { api_key: self.api_key@, base_url: self.base_url@ }
    }
}

impl LLMRunner {
    /// A client for the default endpoint with the given key; without a key
    /// there is no client.
    pub fn new(api_key: Option<String>) -> (r: Result<LLMRunner, LlmError>)
        ensures
            api_key is None ==> r matches Err(LlmError::Configuration),
            api_key matches Some(k) ==> (r matches Ok(c) && c@.api_key == k@
                && c@.base_url == default_endpoint()),
    {
        match api_key {
            None => Err(LlmError::Configuration),
            Some(key) => Ok(
                LLMRunner {
                    api_key: key,
                    base_url: String::from_str(
                        "https://generativelanguage.googleapis.com/v1beta/models/gemini-pro:generateContent",
                    ),
                },
            ),
        }
    }

    pub fn api_key(&self) -> (r: &str)
        ensures
            r@ == self@.api_key,
    {
        self.api_key.as_str()
    }

    pub fn base_url(&self) -> (r: &str)
        ensures
            r@ == self@.base_url,
    {
        self.base_url.as_str()
    }

    /// The address a prompt is posted to: the endpoint with the key as its
    /// query.
    pub fn request_url(&self) -> (r: String)
        ensures
            r@ == self@.base_url + "?key="@ + self@.api_key,
    {
        let mut r = self.base_url.clone();
        r.append("?key=");
        r.append(self.api_key.as_str());
        r
    }
}

/// A page address as given, or with `https://` put in front when it names
/// neither `http://` nor `https://`.
pub fn with_default_scheme(url: &str) -> (r: String)
    ensures
        starts_with(url@, "http://"@) || starts_with(url@, "https://"@) ==> r@ == url@,
        !(starts_with(url@, "http://"@) || starts_with(url@, "https://"@)) ==> r@ == "https://"@
            + url@,
{
    if has_prefix(url, "http://") || has_prefix(url, "https://") {
        String::from_str(url)
    } else {
        let mut r = String::from_str("https://");
        r.append(url);
        r
    }
}

/// The completion of a reply, from whether its status was a success, its
/// body, and the envelope decoded from the body if it is one. A failure
/// status, or a body that is no envelope, is an `Api` error with the body;
/// an envelope without candidate text is `EmptyResponse`.
pub fn completion_from_reply(success: bool, body: String, envelope: Option<GeminiResponse>) -> (r:
    Result<String, LlmError>)
    ensures
        !success ==> (r matches Err(LlmError::Api(b)) && b@ == body@),
        success && envelope is None ==> (r matches Err(LlmError::Api(b)) && b@ == body@),
        success ==> (envelope matches Some(e) ==> match first_text_of(e) {
            Some(t) => (r matches Ok(c) && c@ == t),
            None => (r matches Err(LlmError::EmptyResponse)),
        }),
{
    if !success {
        return Err(LlmError::Api(body));
    }
    match envelope {
        None => Err(LlmError::Api(body)),
        Some(e) => match e.first_text() {
            Some(t) => Ok(t),
            None => Err(LlmError::EmptyResponse),
        },
    }
}

} // verus!
