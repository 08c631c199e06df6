//! Text correction by a local Ollama server: what is sent and what is made
//! of the reply. The HTTP exchange itself is the caller's.

use vstd::prelude::*;
use crate::hardware::owned;
use crate::text::{chars_of, push_str, string_from_chars, trim, trim_exec};

verus! {

/// The instruction sent ahead of the transcript (in Russian: fix typos,
/// punctuation and grammar without changing the meaning, and answer with
/// the corrected text only).
pub const CORRECTION_PROMPT_HEAD: &'static str = "Исправь ошибки в следующем тексте, полученном из голосовой транскрипции.\nИсправь опечатки, пунктуацию и грамматику. Не меняй смысл текста.\nВерни ТОЛЬКО исправленный текст, без объяснений.\n\nТекст: ";

/// An Ollama server and the model that corrects text.
#[derive(Debug, Clone)]
pub struct OllamaClient {
    pub base_url: String,
    pub model: String,
}

/// The body of a generate request.
#[derive(Debug, Clone)]
pub struct OllamaRequest {
    pub model: String,
    pub prompt: String,
    pub stream: bool,
}

/// The prompt that asks for `raw_text` to be corrected.
pub open spec fn correction_prompt(raw_text: Seq<char>) -> Seq<char> {
    CORRECTION_PROMPT_HEAD@ + raw_text
}

impl OllamaClient {
    /// A client for the server at `base_url` using `model`.
    pub fn new(base_url: &str, model: &str) -> (c: Self)
        ensures
            c.base_url@ == base_url@,
            c.model@ == model@,
    {
        OllamaClient { base_url: owned(base_url), model: owned(model) }
    }

    /// Where generate requests go.
    pub fn generate_url(&self) -> (r: String)
        ensures
            r@ == self.base_url@ + "/api/generate"@,
    {
        let mut v = chars_of(self.base_url.as_str());
        push_str(&mut v, "/api/generate");
        string_from_chars(v.as_slice())
    }

    /// Where the health check asks.
    pub fn tags_url(&self) -> (r: String)
        ensures
            r@ == self.base_url@ + "/api/tags"@,
    {
        let mut v = chars_of(self.base_url.as_str());
        push_str(&mut v, "/api/tags");
        string_from_chars(v.as_slice())
    }

    /// The request that corrects `raw_text`; `None` when the text is blank,
    /// whose correction is the empty text without asking the server.
    pub fn correction_request(&self, raw_text: &str) -> (r: Option<OllamaRequest>)
        ensures
            r is None <==> trim(raw_text@).len() == 0,
            r matches Some(q) ==> {
                &&& q.model@ == self.model@
                &&& q.prompt@ == correction_prompt(raw_text@)
                &&& !q.stream
            },
    {
        let raw = chars_of(raw_text);
        let trimmed = trim_exec(raw.as_slice());
        if trimmed.len() == 0 {
            return None;
        }
        let mut prompt = chars_of(CORRECTION_PROMPT_HEAD);
        push_str(&mut prompt, raw_text);
        Some(OllamaRequest {
            model: owned(self.model.as_str()),
            prompt: string_from_chars(prompt.as_slice()),
            stream: false,
        })
    }
}

/// The corrected text in a reply: its `response` field, trimmed.
pub fn corrected_text(response: &str) -> (r: String)
    ensures
        r@ == trim(response@),
{
    let t = trim_exec(chars_of(response).as_slice());
    string_from_chars(t.as_slice())
}

} // verus!
