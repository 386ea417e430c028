//! The completion backend: one growing prompt, sent whole with fixed
//! generation parameters.
use vstd::prelude::*;
use crate::error::{GenerateError, extracted_from, generated_from, lift_extraction};
use crate::extract::{CODE_LANGUAGE, ExtractError, extract_fenced};
use crate::json::{encode_text, json_string_of};
use crate::transport::{HttpRequest, build_request, proxy_usable, request_for, uri_accepts};

verus! {

/// The endpoint of the completion service.
pub const COMPLETION_URL: &'static str = "https://api.openai.com/v1/completions";

/// The completion model asked by default.
pub const COMPLETION_MODEL: &'static str = "text-davinci-003";

/// The cap on the length of the generated text, in tokens.
pub const MAX_TOKENS: u32 = 1024;

/// The request body for model `model` and prompt `prompt`: at most
/// `MAX_TOKENS` tokens, at temperature zero.
pub open spec fn completion_body(model: Seq<char>, prompt: Seq<char>) -> Seq<char> {
    "{\"model\":"@ + json_string_of(model) + ",\"prompt\":"@ + json_string_of(prompt)
        + ",\"max_tokens\":1024,\"temperature\":0}"@
}

struct CompletionRequest {
    model: String,
    prompt: String,
}

/// A session with the completion backend.
pub struct TextCompletion {
    request: CompletionRequest,
    response: Option<String>,
}

impl TextCompletion {
    /// The model that the session asks.
    pub closed spec fn model(&self) -> Seq<char> {
        self.request.model@
    }

    /// The prompt so far.
    pub closed spec fn prompt_text(&self) -> Seq<char> {
        self.request.prompt@
    }

    /// The text of the reply, once there is one.
    pub closed spec fn reply(&self) -> Option<Seq<char>> {
        match self.response {
            Some(t) => Some(t@),
            None => None,
        }
    }

    /// A session with an empty prompt and no reply, asking the default model.
    pub fn new() -> (r: Self)
        ensures
            r.model() == COMPLETION_MODEL@,
            r.prompt_text() == Seq::<char>::empty(),
            r.reply() is None,
    {
        TextCompletion {
            request: CompletionRequest { model: String::from_str(COMPLETION_MODEL), prompt: String::new() },
            response: None,
        }
    }

    /// Appends a line break and then `content` to the prompt.
    pub fn add_prompt(&mut self, content: String)
        ensures
            final(self).prompt_text() == old(self).prompt_text() + "\n"@ + content@,
            final(self).model() == old(self).model(),
            final(self).reply() == old(self).reply(),
    {
        self.request.prompt.append("\n");
        self.request.prompt.append(content.as_str());
    }

    /// Records the top-level instruction: appended like any other context.
    pub fn init(&mut self, init_prompt: String)
        ensures
            final(self).prompt_text() == old(self).prompt_text() + "\n"@ + init_prompt@,
            final(self).model() == old(self).model(),
            final(self).reply() == old(self).reply(),
    {
        self.add_prompt(init_prompt);
    }

    /// Adds context to the prompt.
    pub fn add_context(&mut self, context: String)
        ensures
            final(self).prompt_text() == old(self).prompt_text() + "\n"@ + context@,
            final(self).model() == old(self).model(),
            final(self).reply() == old(self).reply(),
    {
        self.add_prompt(context);
    }

    /// The prompt so far.
    pub fn prompt(&self) -> (r: &str)
        ensures
            r@ == self.prompt_text(),
    {
        self.request.prompt.as_str()
    }

    /// The request body: the model, the prompt and the fixed parameters.
    pub fn request_body(&self) -> (r: String)
        ensures
            r@ == completion_body(self.model(), self.prompt_text()),
    {
        let model = encode_text(self.request.model.as_str());
        let prompt = encode_text(self.request.prompt.as_str());
        let mut b = String::from_str("{\"model\":");
        b.append(model.as_str());
        b.append(",\"prompt\":");
        b.append(prompt.as_str());
        b.append(",\"max_tokens\":1024,\"temperature\":0}");
        b
    }

    /// The request for one generation, built whenever the credential is
    /// present and the addresses parse; otherwise a configuration error,
    /// before anything is sent.
    pub fn prepare_request(&self, api_key: Option<String>, proxy: Option<String>) -> (r: Result<
        HttpRequest,
        GenerateError,
    >)
        ensures
            r is Ok <==> api_key is Some && uri_accepts(COMPLETION_URL@) && proxy_usable(proxy),
            r matches Ok(q) ==> request_for(
                q,
                COMPLETION_URL@,
                api_key->Some_0@,
                proxy,
                completion_body(self.model(), self.prompt_text()),
            ),
            r matches Err(e) ==> e is Configuration,
    {
        build_request(COMPLETION_URL, api_key, proxy, self.request_body())
    }

    /// The code in the reply.
    pub fn extract_code(&self) -> (r: Result<String, ExtractError>)
        ensures
            self.reply() is None ==> (r matches Err(ExtractError::NoResponse)),
            self.reply() matches Some(t) ==> extracted_from(r, t, CODE_LANGUAGE@),
    {
        match &self.response {
            None => Err(ExtractError::NoResponse),
            Some(t) => extract_fenced(t.as_str(), CODE_LANGUAGE),
        }
    }

    /// Takes the outcome of the round trip: the text of the first choice, or
    /// a failure. A text is kept as the reply and its code is returned; a
    /// failure is handed on and the session is left as it was.
    pub fn accept_reply(&mut self, reply: Result<String, GenerateError>) -> (r: Result<
        String,
        GenerateError,
    >)
        ensures
            final(self).model() == old(self).model(),
            final(self).prompt_text() == old(self).prompt_text(),
            match reply {
                Ok(text) => final(self).reply() == Some(text@) && generated_from(
                    r,
                    text@,
                    CODE_LANGUAGE@,
                ),
                Err(e) => r == Err::<String, GenerateError>(e) && final(self).reply() == old(
                    self,
                ).reply(),
            },
    {
        match reply {
            Err(e) => Err(e),
            Ok(text) => {
                self.response = Some(text);
                lift_extraction(self.extract_code())
            },
        }
    }
}

} // verus!
