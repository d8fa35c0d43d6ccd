//! The OpenAI Chat Completions API, or an endpoint compatible with it.
use vstd::prelude::*;
use super::{ApiRequest, Provider, ProviderError, is_success_status, message, message_view};
use crate::json::{Json, JsonView, entries_view, items_view, push_entry, push_item, string_of};
use crate::text::{decimal, digits_value, lemma_decimal_injective, lemma_decimal_reads_back};
use crate::text::{trim_end_char, without_trailing};

verus! {

/// Calls the OpenAI Chat Completions API.
#[derive(Debug)]
pub struct OpenaiProvider {
    pub model: String,
    pub max_tokens: u32,
    pub api_key: String,
    /// The base URL, without trailing slashes.
    pub base_url: String,
}

/// The text of a reply: the `message.content` string of the first element of
/// its `choices` array; nothing when there is none.
pub open spec fn first_choice_text(reply: Json) -> Seq<char> {
    match reply.field("choices"@) {
        Some(Json::Array(choices)) => if choices@.len() > 0 {
            match choices@[0].field("message"@) {
                Some(m) => match string_of(m.field("content"@)) {
                    Some(t) => t@,
                    None => Seq::empty(),
                },
                None => Seq::empty(),
            }
        } else {
            Seq::empty()
        },
        _ => Seq::empty(),
    }
}

/// The body of a request for `user` in the role `system`.
pub open spec fn request_body(model: Seq<char>, max_tokens: u32, system: Seq<char>, user: Seq<char>) -> JsonView {
    JsonView::Object(
        seq![
            ("model"@, JsonView::Str(model)),
            ("max_tokens"@, JsonView::Number(decimal(max_tokens as nat))),
            ("messages"@, JsonView::Array(seq![message_view("system"@, system), message_view("user"@, user)])),
        ],
    )
}

/// The body carries the model, `max_tokens` as decimal digits that stand for
/// the configured number, a system message with the system prompt and the user message, each exactly as
/// given; two requests have the same body only when all four agree.
pub proof fn lemma_request_body_fields(model: Seq<char>, max_tokens: u32, system: Seq<char>, user: Seq<char>)
    ensures
        request_body(model, max_tokens, system, user) matches JsonView::Object(es) && {
            &&& es.len() == 3
            &&& es[0] == ("model"@, JsonView::Str(model))
            &&& es[1].0 == "max_tokens"@
            &&& es[1].1 matches JsonView::Number(d) && digits_value(d) == max_tokens as int
            &&& es[2] == ("messages"@, JsonView::Array(seq![
                JsonView::Object(seq![("role"@, JsonView::Str("system"@)), ("content"@, JsonView::Str(system))]),
                JsonView::Object(seq![("role"@, JsonView::Str("user"@)), ("content"@, JsonView::Str(user))]),
            ]))
        },
{
    lemma_decimal_reads_back(max_tokens as nat);
}

/// Different settings or prompts give different request bodies.
pub proof fn lemma_request_body_injective(
    m1: Seq<char>, t1: u32, s1: Seq<char>, u1: Seq<char>,
    m2: Seq<char>, t2: u32, s2: Seq<char>, u2: Seq<char>,
)
    ensures
        request_body(m1, t1, s1, u1) == request_body(m2, t2, s2, u2) ==> m1 == m2 && t1 == t2
            && s1 == s2 && u1 == u2,
{
    if request_body(m1, t1, s1, u1) == request_body(m2, t2, s2, u2) {
        lemma_request_body_fields(m1, t1, s1, u1);
        lemma_request_body_fields(m2, t2, s2, u2);
        lemma_decimal_injective(t1 as nat, t2 as nat);
        let e1 = request_body(m1, t1, s1, u1)->Object_0;
        let e2 = request_body(m2, t2, s2, u2)->Object_0;
        assert(e1[0] == e2[0] && e1[1] == e2[1] && e1[2] == e2[2]);
        let a1 = (e1[2].1)->Array_0;
        let a2 = (e2[2].1)->Array_0;
        assert(a1[0] == a2[0] && a1[1] == a2[1]);
        let x1 = (a1[0])->Object_0;
        let x2 = (a2[0])->Object_0;
        assert(x1[1] == x2[1]);
        let y1 = (a1[1])->Object_0;
        let y2 = (a2[1])->Object_0;
        assert(y1[1] == y2[1]);
    }
}

/// When the first choice's message has a string `content`, the reply text is
/// that string, whatever other entries the reply, the choice or the message
/// hold; otherwise the reply has no text.
pub proof fn lemma_first_choice_content(reply: Json, choices: Vec<Json>, message: Json, content: Json)
    requires
        reply.field("choices"@) == Some(Json::Array(choices)),
        choices@.len() > 0,
        choices@[0].field("message"@) == Some(message),
        message.field("content"@) == Some(content),
    ensures
        content matches Json::Str(t) ==> first_choice_text(reply) == t@,
        !(content is Str) ==> first_choice_text(reply).len() == 0,
{
}

/// A reply without a non-empty `choices` array, or whose first choice has no
/// `message`, has no text.
pub proof fn lemma_first_choice_missing(reply: Json)
    requires
        !(reply.field("choices"@) matches Some(Json::Array(cs)) && cs@.len() > 0 && cs@[0].field(
            "message"@,
        ) is Some),
    ensures
        first_choice_text(reply).len() == 0,
{
}

/// Reads the `message.content` string of the first choice.
fn read_first_choice(reply: &Json) -> (res: String)
    ensures
        res@ == first_choice_text(*reply),
{
    let choices_key = String::from_str("choices");
    let message_key = String::from_str("message");
    let content_key = String::from_str("content");
    match reply.get(&choices_key) {
        Some(Json::Array(choices)) => {
            if choices.len() == 0 {
                return String::new();
            }
            match choices[0].get(&message_key) {
                Some(m) => match m.get(&content_key) {
                    Some(Json::Str(t)) => t.clone(),
                    _ => String::new(),
                },
                None => String::new(),
            }
        },
        _ => String::new(),
    }
}

impl OpenaiProvider {
    /// Builds the provider from the key found in the environment variable
    /// `api_key_env`, with `base_url` stripped of its trailing slashes; fails
    /// when there is no key.
    pub fn new(
        model: String,
        max_tokens: u32,
        api_key_env: &str,
        base_url: String,
        api_key: Option<String>,
    ) -> (res: Result<Self, ProviderError>)
        ensures
            match api_key {
                Some(key) => (res matches Ok(p) && p.model == model && p.max_tokens == max_tokens
                    && p.api_key == key && p.base_url@ == without_trailing(base_url@, '/')),
                None => (res matches Err(ProviderError::MissingApiKey { var, provider }) && var@
                    == api_key_env@ && provider@ == "openai"@),
            },
    {
        match api_key {
            Some(key) => {
                let base = trim_end_char(base_url.as_str(), '/');
                Ok(OpenaiProvider { model, max_tokens, api_key: key, base_url: base })
            },
            None => Err(
                ProviderError::MissingApiKey {
                    var: String::from_str(api_key_env),
                    provider: String::from_str("openai"),
                },
            ),
        }
    }

    /// The request that asks the model to answer `user` in the role `system`.
    pub fn request(&self, system: &str, user: &str) -> (res: ApiRequest)
        ensures
            res.url@ == self.base_url@ + "/chat/completions"@,
            res.headers@.len() == 0,
            res.bearer_token matches Some(t) && t@ == self.api_key@,
            res.body@ == request_body(self.model@, self.max_tokens, system@, user@),
    {
        let mut url = String::from_str(self.base_url.as_str());
        url.append("/chat/completions");
        let mut messages: Vec<Json> = Vec::new();
        assert(items_view(messages@) =~= Seq::empty());
        push_item(&mut messages, message("system", system));
        push_item(&mut messages, message("user", user));
        let mut es: Vec<(String, Json)> = Vec::new();
        assert(entries_view(es@) =~= Seq::empty());
        push_entry(&mut es, "model", Json::Str(self.model.clone()));
        push_entry(&mut es, "max_tokens", Json::number(self.max_tokens as u64));
        let ghost items = messages@;
        push_entry(&mut es, "messages", Json::Array(messages));
        let body = Json::Object(es);
        assert(body@ =~= request_body(self.model@, self.max_tokens, system@, user@)) by {
            assert(items_view(items) =~= seq![message_view("system"@, system@), message_view("user"@, user@)]);
            assert(entries_view(es@) =~= seq![
                ("model"@, JsonView::Str(self.model@)),
                ("max_tokens"@, JsonView::Number(decimal(self.max_tokens as nat))),
                ("messages"@, JsonView::Array(seq![message_view("system"@, system@), message_view("user"@, user@)])),
            ]);
        }
        ApiRequest { url, headers: Vec::new(), bearer_token: Some(self.api_key.clone()), body }
    }

    /// Reads the reply: a status outside 200..=299 is an error; otherwise the
    /// answer is the `message.content` string of the first element of its
    /// `choices` array, and an empty answer is an error. `body` is the reply as
    /// JSON text, shown in errors.
    pub fn read_reply(&self, status: u16, status_text: String, reply: &Json, body: String) -> (res:
        Result<String, ProviderError>)
        ensures
            !is_success_status(status) ==> (res matches Err(
                ProviderError::ApiStatus { api, status: st, body: b },
            ) && api@ == "OpenAI"@ && st == status_text && b == body),
            is_success_status(status) && first_choice_text(*reply).len() == 0 ==> (res matches Err(
                ProviderError::EmptyReply { api, body: b },
            ) && api@ == "OpenAI"@ && b == body),
            is_success_status(status) && first_choice_text(*reply).len() > 0 ==> (res matches Ok(
                t,
            ) && t@ == first_choice_text(*reply)),
    {
        if !(200 <= status && status <= 299) {
            return Err(
                ProviderError::ApiStatus { api: String::from_str("OpenAI"), status: status_text, body },
            );
        }
        let text = read_first_choice(reply);
        if text.as_str().unicode_len() == 0 {
            return Err(ProviderError::EmptyReply { api: String::from_str("OpenAI"), body });
        }
        Ok(text)
    }
}

impl Provider for OpenaiProvider {
    open spec fn label_text(&self) -> Seq<char> {
        "openai:"@ + self.model@
    }

    fn label(&self) -> (res: String) {
        let mut s = String::from_str("openai:");
        s.append(self.model.as_str());
        s
    }
}

} // verus!
