//! The conversational backend: an ordered list of role-tagged messages,
//! resent whole with every request.
use vstd::prelude::*;
use crate::error::{GenerateError, extracted_from, generated_from, lift_extraction};
use crate::extract::{CODE_LANGUAGE, ExtractError, extract_fenced};
use crate::json::{encode_text, json_string_of};
use crate::transport::{HttpRequest, build_request, proxy_usable, request_for, uri_accepts};

verus! {

/// The endpoint of the conversational service.
pub const CHAT_URL: &'static str = "https://api.openai.com/v1/chat/completions";

/// The conversational model asked by default.
pub const CHAT_MODEL: &'static str = "gpt-3.5-turbo";

/// Who speaks in a message.
#[derive(Clone, Copy, PartialEq, Eq, Structural, Debug)]
pub enum Role {
    User,
    System,
    Assistant,
}

/// The lowercase token of a role on the wire.
pub open spec fn role_name(r: Role) -> Seq<char> {
    match r {
        Role::User => "user"@,
        Role::System => "system"@,
        Role::Assistant => "assistant"@,
    }
}

impl Role {
    /// The lowercase token of the role on the wire.
    pub fn name(&self) -> (r: &'static str)
        ensures
            r@ == role_name(*self),
    {
        match self {
            Role::User => "user",
            Role::System => "system",
            Role::Assistant => "assistant",
        }
    }
}

/// One message of the conversation.
pub struct ChatMessage {
    pub role: Role,
    pub content: String,
}

/// A message as JSON.
pub open spec fn message_json(m: (Role, Seq<char>)) -> Seq<char> {
    "{\"role\":\""@ + role_name(m.0) + "\",\"content\":"@ + json_string_of(m.1) + "}"@
}

/// The messages as the items of a JSON array, comma separated.
pub open spec fn messages_json(ms: Seq<(Role, Seq<char>)>) -> Seq<char>
    decreases ms.len(),
{
    if ms.len() == 0 {
        Seq::empty()
    } else if ms.len() == 1 {
        message_json(ms[0])
    } else {
        messages_json(ms.drop_last()) + ","@ + message_json(ms.last())
    }
}

/// The request body for model `model` and conversation `ms`.
pub open spec fn chat_body(model: Seq<char>, ms: Seq<(Role, Seq<char>)>) -> Seq<char> {
    "{\"model\":"@ + json_string_of(model) + ",\"messages\":["@ + messages_json(ms) + "]}"@
}

struct Chat {
    model: String,
    messages: Vec<ChatMessage>,
}

/// A session with the conversational backend.
pub struct ChatGPT {
    chat: Chat,
}

impl ChatGPT {
    /// The model that the session asks.
    pub closed spec fn model(&self) -> Seq<char> {
        self.chat.model@
    }

    /// The conversation so far, in order.
    pub closed spec fn conversation(&self) -> Seq<(Role, Seq<char>)> {
        self.chat.messages@.map_values(|m: ChatMessage| (m.role, m.content@))
    }

    /// A session with no messages, asking the default model.
    pub fn new() -> (r: Self)
        ensures
            r.model() == CHAT_MODEL@,
            r.conversation() == Seq::<(Role, Seq<char>)>::empty(),
    {
        let r = ChatGPT { chat: Chat { model: String::from_str(CHAT_MODEL), messages: Vec::new() } };
        assert(r.conversation() =~= Seq::<(Role, Seq<char>)>::empty());
        r
    }

    /// Appends a message to the conversation.
    pub fn add_message(&mut self, role: Role, content: String)
        ensures
            final(self).conversation() == old(self).conversation().push((role, content@)),
            final(self).model() == old(self).model(),
    {
        let ghost c = content@;
        self.chat.messages.push(ChatMessage { role, content });
        assert(self.conversation() =~= old(self).conversation().push((role, c)));
    }

    /// Records the top-level instruction, as a system message.
    pub fn init(&mut self, init_prompt: String)
        ensures
            final(self).conversation() == old(self).conversation().push(
                (Role::System, init_prompt@),
            ),
            final(self).model() == old(self).model(),
    {
        self.add_message(Role::System, init_prompt);
    }

    /// Adds context, as a user message.
    pub fn add_context(&mut self, context: String)
        ensures
            final(self).conversation() == old(self).conversation().push((Role::User, context@)),
            final(self).model() == old(self).model(),
    {
        self.add_message(Role::User, context);
    }

    /// The conversation so far, as (role, content) pairs in order.
    pub fn transcript(&self) -> (r: Vec<(Role, String)>)
        ensures
            r@.len() == self.conversation().len(),
            forall|i: int|
                0 <= i < r@.len() ==> (#[trigger] r@[i]).0 == self.conversation()[i].0
                    && r@[i].1@ == self.conversation()[i].1,
    {
        let mut r: Vec<(Role, String)> = Vec::new();
        let mut i: usize = 0;
        while i < self.chat.messages.len()
            invariant
                i <= self.chat.messages@.len(),
                r@.len() == i,
                forall|j: int|
                    0 <= j < i ==> (#[trigger] r@[j]).0 == self.conversation()[j].0
                        && r@[j].1@ == self.conversation()[j].1,
            decreases self.chat.messages@.len() - i,
        {
            let m = &self.chat.messages[i];
            r.push((m.role, m.content.clone()));
            i = i + 1;
        }
        r
    }

    /// One message as JSON.
    fn message_text(m: &ChatMessage) -> (r: String)
        ensures
            r@ == message_json((m.role, m.content@)),
    {
        let content = encode_text(m.content.as_str());
        let mut t = String::from_str("{\"role\":\"");
        t.append(m.role.name());
        t.append("\",\"content\":");
        t.append(content.as_str());
        t.append("}");
        t
    }

    /// The request body: the model and the whole conversation.
    pub fn request_body(&self) -> (r: String)
        ensures
            r@ == chat_body(self.model(), self.conversation()),
    {
        let model = encode_text(self.chat.model.as_str());
        let ghost conv = self.conversation();
        let mut list = String::new();
        let mut i: usize = 0;
        while i < self.chat.messages.len()
            invariant
                i <= self.chat.messages@.len(),
                conv == self.conversation(),
                list@ == messages_json(conv.subrange(0, i as int)),
            decreases self.chat.messages@.len() - i,
        {
            if i > 0 {
                list.append(",");
            }
            let item = Self::message_text(&self.chat.messages[i]);
            list.append(item.as_str());
            proof {
                let next = conv.subrange(0, i + 1);
                assert(next.drop_last() =~= conv.subrange(0, i as int));
                assert(next.last() == conv[i as int]);
                if i == 0 {
                    assert(conv.subrange(0, 0) =~= Seq::<(Role, Seq<char>)>::empty());
                    assert(list@ =~= message_json(next[0]));
                }
            }
            i = i + 1;
        }
        assert(conv.subrange(0, i as int) =~= conv);
        let mut b = String::from_str("{\"model\":");
        b.append(model.as_str());
        b.append(",\"messages\":[");
        b.append(list.as_str());
        b.append("]}");
        b
    }

    /// The request for one generation, built whenever the credential is
    /// present and the addresses parse; otherwise a configuration error,
    /// before anything is sent.
    pub fn prepare_request(&self, api_key: Option<String>, proxy: Option<String>) -> (r: Result<
        HttpRequest,
        GenerateError,
    >)
        ensures
            r is Ok <==> api_key is Some && uri_accepts(CHAT_URL@) && proxy_usable(proxy),
            r matches Ok(q) ==> request_for(
                q,
                CHAT_URL@,
                api_key->Some_0@,
                proxy,
                chat_body(self.model(), self.conversation()),
            ),
            r matches Err(e) ==> e is Configuration,
    {
        build_request(CHAT_URL, api_key, proxy, self.request_body())
    }

    /// The code in the last message of the conversation.
    pub fn extract_code(&self) -> (r: Result<String, ExtractError>)
        ensures
            self.conversation().len() == 0 ==> (r matches Err(ExtractError::NoResponse)),
            self.conversation().len() > 0 ==> extracted_from(
                r,
                self.conversation().last().1,
                CODE_LANGUAGE@,
            ),
    {
        let n = self.chat.messages.len();
        if n == 0 {
            return Err(ExtractError::NoResponse);
        }
        assert(self.conversation().last().1 == self.chat.messages@[n - 1].content@);
        extract_fenced(self.chat.messages[n - 1].content.as_str(), CODE_LANGUAGE)
    }

    /// Takes the outcome of the round trip. A reply text is appended to the
    /// conversation as an assistant message and its code is returned; a
    /// failure is handed on and the session is left as it was.
    pub fn accept_reply(&mut self, reply: Result<String, GenerateError>) -> (r: Result<
        String,
        GenerateError,
    >)
        ensures
            final(self).model() == old(self).model(),
            match reply {
                Ok(text) => final(self).conversation() == old(self).conversation().push(
                    (Role::Assistant, text@),
                ) && generated_from(r, text@, CODE_LANGUAGE@),
                Err(e) => r == Err::<String, GenerateError>(e) && final(self).conversation()
                    == old(self).conversation(),
            },
    {
        match reply {
            Err(e) => Err(e),
            Ok(text) => {
                self.add_message(Role::Assistant, text);
                lift_extraction(self.extract_code())
            },
        }
    }
}

} // verus!
