//! The request and response envelopes of the endpoint's wire protocol,
//! as plain data.
use vstd::prelude::*;
use vstd::string::StringExecFns;

verus! {

/// A request: the prompt, wrapped as the one part of the one content.
pub struct GeminiRequest {
    pub contents: Vec<Content>,
}

pub struct Content {
    pub parts: Vec<Part>,
}

pub struct Part {
    pub text: String,
}

/// A response: the candidate answers of the model.
#[derive(Debug)]
pub struct GeminiResponse {
    pub candidates: Vec<Candidate>,
}

#[derive(Debug)]
pub struct Candidate {
    pub content: ResponseContent,
}

#[derive(Debug)]
pub struct ResponseContent {
    pub parts: Vec<ResponsePart>,
}

#[derive(Debug)]
pub struct ResponsePart {
    pub text: String,
}

/// The text of the first part of the first candidate, if there is one.
pub open spec fn first_text_of(resp: GeminiResponse) -> Option<Seq<char>> {
    if resp.candidates@.len() > 0 && resp.candidates@[0].content.parts@.len() > 0 {
        Some(resp.candidates@[0].content.parts@[0].text@)
    } else {
        None
    }
}

impl GeminiRequest {
    /// The request that carries `prompt`.
    pub fn for_prompt(prompt: &str) -> (r: GeminiRequest)
        ensures
            r.contents@.len() == 1,
            r.contents@[0].parts@.len() == 1,
            r.contents@[0].parts@[0].text@ == prompt@,
    {
        let part = Part { text: String::from_str(prompt) };
        let mut parts: Vec<Part> = Vec::new();
        parts.push(part);
        let mut contents: Vec<Content> = Vec::new();
        contents.push(Content { parts });
        GeminiRequest { contents }
    }
}

impl GeminiResponse {
    /// The completion a response carries: the text of the first part of its
    /// first candidate.
    pub fn first_text(&self) -> (r: Option<String>)
        ensures
            r is Some <==> first_text_of(*self) is Some,
            r matches Some(t) ==> first_text_of(*self) == Some(t@),
    {
        if self.candidates.len() > 0 && self.candidates[0].content.parts.len() > 0 {
            Some(self.candidates[0].content.parts[0].text.clone())
        } else {
            None
        }
    }
}

} // verus!
