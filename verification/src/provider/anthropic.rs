//! The Anthropic Messages API.
use vstd::prelude::*;
use super::{ApiRequest, Provider, ProviderError, is_success_status, message, message_view};
use crate::json::{Json, JsonView, entries_view, items_view, push_entry, push_item, string_of};
use crate::text::{decimal, digits_value, lemma_decimal_injective, lemma_decimal_reads_back};

verus! {

/// Calls the Anthropic Messages API.
#[derive(Debug)]
pub struct AnthropicProvider {
    pub model: String,
    pub max_tokens: u32,
    pub api_key: String,
}

/// The texts of the content blocks that have one, joined in order.
pub open spec fn joined_texts(blocks: Seq<Option<String>>) -> Seq<char>
    decreases blocks.len(),
{
    if blocks.len() == 0 {
        Seq::empty()
    } else {
        joined_texts(blocks.drop_last()) + match blocks.last() {
            Some(t) => t@,
            None => Seq::empty(),
        }
    }
}

/// The `text` string of a content block, if it has one.
pub open spec fn block_text(block: Json) -> Option<String> {
    string_of(block.field("text"@))
}

/// The `text` strings of the blocks of a reply's `content` array; none when
/// `content` is not an array.
pub open spec fn content_texts(reply: Json) -> Option<Seq<Option<String>>> {
    match reply.field("content"@) {
        Some(Json::Array(blocks)) => Some(blocks@.map_values(|b: Json| block_text(b))),
        _ => None,
    }
}

/// The text of a reply: the joined texts of its content blocks.
pub open spec fn reply_text(reply: Json) -> Seq<char> {
    match content_texts(reply) {
        Some(texts) => joined_texts(texts),
        None => Seq::empty(),
    }
}

/// The body of a request for `user` in the role `system`.
pub open spec fn request_body(model: Seq<char>, max_tokens: u32, system: Seq<char>, user: Seq<char>) -> JsonView {
    JsonView::Object(
        seq![
            ("model"@, JsonView::Str(model)),
            ("max_tokens"@, JsonView::Number(decimal(max_tokens as nat))),
            ("system"@, JsonView::Str(system)),
            ("messages"@, JsonView::Array(seq![message_view("user"@, user)])),
        ],
    )
}

/// The texts of two runs of blocks joined are the two joined texts.
pub proof fn lemma_joined_texts_concat(a: Seq<Option<String>>, b: Seq<Option<String>>)
    ensures
        joined_texts(a + b) == joined_texts(a) + joined_texts(b),
    decreases b.len(),
{
    if b.len() == 0 {
        assert(a + b =~= a);
        assert(joined_texts(a) + joined_texts(b) =~= joined_texts(a));
    } else {
        lemma_joined_texts_concat(a, b.drop_last());
        assert((a + b).drop_last() =~= a + b.drop_last());
        assert((a + b).last() == b.last());
        assert(joined_texts(a + b) =~= joined_texts(a) + joined_texts(b));
    }
}

/// A block with a text adds exactly that text; a block without one adds nothing.
pub proof fn lemma_joined_texts_one(t: Option<String>)
    ensures
        joined_texts(seq![t]) == match t {
            Some(s) => s@,
            None => Seq::<char>::empty(),
        },
{
    let one = seq![t];
    assert(one.drop_last() =~= Seq::<Option<String>>::empty());
    assert(joined_texts(one.drop_last()) == Seq::<char>::empty());
    assert(one.last() == t);
    assert(joined_texts(one) =~= match t {
        Some(s) => s@,
        None => Seq::<char>::empty(),
    });
}

/// The text a block contributes is its `text` entry when that is a string,
/// whatever other entries (such as `type`) it holds, and nothing otherwise.
pub proof fn lemma_block_text(block: Json)
    ensures
        block.field("text"@) matches Some(Json::Str(t)) ==> block_text(block) == Some(t),
        !(block.field("text"@) matches Some(Json::Str(_))) ==> block_text(block) is None,
{
}

/// The text of a reply whose `content` is an array is the texts of its blocks
/// in order; a reply without a `content` array has no text.
pub proof fn lemma_reply_text_of_content(reply: Json)
    ensures
        reply.field("content"@) matches Some(Json::Array(blocks)) ==> reply_text(reply)
            == joined_texts(blocks@.map_values(|b: Json| block_text(b))),
        !(reply.field("content"@) matches Some(Json::Array(_))) ==> reply_text(reply).len() == 0,
{
}

/// The body carries the model, `max_tokens` as decimal digits that stand for
/// the configured number, the system prompt and the user message, each exactly as
/// given; two requests have the same body only when all four agree.
pub proof fn lemma_request_body_fields(model: Seq<char>, max_tokens: u32, system: Seq<char>, user: Seq<char>)
    ensures
        request_body(model, max_tokens, system, user) matches JsonView::Object(es) && {
            &&& es.len() == 4
            &&& es[0] == ("model"@, JsonView::Str(model))
            &&& es[1].0 == "max_tokens"@
            &&& es[1].1 matches JsonView::Number(d) && digits_value(d) == max_tokens as int
            &&& es[2] == ("system"@, JsonView::Str(system))
            &&& es[3] == ("messages"@, JsonView::Array(seq![JsonView::Object(seq![
                ("role"@, JsonView::Str("user"@)),
                ("content"@, JsonView::Str(user)),
            ])]))
        },
{
    lemma_decimal_reads_back(max_tokens as nat);
}

/// Different settings or prompts give different request bodies.
pub proof fn lemma_request_body_injective(
    m1: Seq<char>, t1: u32, s1: Seq<char>, u1: Seq<char>,
    m2: Seq<char>, t2: u32, s2: Seq<char>, u2: Seq<char>,
)
    ensures
        request_body(m1, t1, s1, u1) == request_body(m2, t2, s2, u2) ==> m1 == m2 && t1 == t2
            && s1 == s2 && u1 == u2,
{
    if request_body(m1, t1, s1, u1) == request_body(m2, t2, s2, u2) {
        lemma_request_body_fields(m1, t1, s1, u1);
        lemma_request_body_fields(m2, t2, s2, u2);
        lemma_decimal_injective(t1 as nat, t2 as nat);
        let e1 = request_body(m1, t1, s1, u1)->Object_0;
        let e2 = request_body(m2, t2, s2, u2)->Object_0;
        assert(e1[0] == e2[0] && e1[1] == e2[1] && e1[2] == e2[2] && e1[3] == e2[3]);
        let a1 = (e1[3].1)->Array_0;
        let a2 = (e2[3].1)->Array_0;
        assert(a1[0] == a2[0]);
        let x1 = (a1[0])->Object_0;
        let x2 = (a2[0])->Object_0;
        assert(x1[1] == x2[1]);
    }
}

/// Reads the `text` strings of the content blocks.
fn read_content_texts(reply: &Json) -> (res: Option<Vec<Option<String>>>)
    ensures
        match res {
            Some(v) => content_texts(*reply) == Some(v@),
            None => content_texts(*reply) is None,
        },
{
    let content_key = String::from_str("content");
    let text_key = String::from_str("text");
    match reply.get(&content_key) {
        Some(Json::Array(blocks)) => {
            let mut out: Vec<Option<String>> = Vec::new();
            let mut i: usize = 0;
            while i < blocks.len()
                invariant
                    i <= blocks.len(),
                    text_key@ == "text"@,
                    out@ == blocks@.subrange(0, i as int).map_values(|b: Json| block_text(b)),
                decreases blocks.len() - i,
            {
                let t = match blocks[i].get(&text_key) {
                    Some(Json::Str(t)) => Some(t.clone()),
                    _ => None,
                };
                assert(t == block_text(blocks@[i as int]));
                out.push(t);
                assert(out@ =~= blocks@.subrange(0, i + 1).map_values(|b: Json| block_text(b)));
                i = i + 1;
            }
            assert(blocks@.subrange(0, blocks@.len() as int) =~= blocks@);
            Some(out)
        },
        _ => None,
    }
}

/// Joins the texts of the blocks that have one.
fn join_texts(blocks: &Vec<Option<String>>) -> (res: String)
    ensures
        res@ == joined_texts(blocks@),
{
    let mut s = String::new();
    let mut i: usize = 0;
    while i < blocks.len()
        invariant
            i <= blocks.len(),
            s@ == joined_texts(blocks@.subrange(0, i as int)),
        decreases blocks.len() - i,
    {
        let ghost done = blocks@.subrange(0, i + 1);
        assert(done.drop_last() =~= blocks@.subrange(0, i as int));
        match &blocks[i] {
            Some(t) => s.append(t.as_str()),
            None => {
                assert(s@ + Seq::<char>::empty() =~= s@);
            },
        }
        i = i + 1;
    }
    assert(blocks@.subrange(0, blocks@.len() as int) =~= blocks@);
    s
}

impl AnthropicProvider {
    /// Builds the provider from the key found in the environment variable
    /// `api_key_env`; fails when there is none.
    pub fn new(model: String, max_tokens: u32, api_key_env: &str, api_key: Option<String>) -> (res:
        Result<Self, ProviderError>)
        ensures
            match api_key {
                Some(key) => res == Ok::<Self, ProviderError>(
                    AnthropicProvider { model, max_tokens, api_key: key },
                ),
                None => (res matches Err(ProviderError::MissingApiKey { var, provider }) && var@
                    == api_key_env@ && provider@ == "anthropic"@),
            },
    {
        match api_key {
            Some(key) => Ok(AnthropicProvider { model, max_tokens, api_key: key }),
            None => Err(
                ProviderError::MissingApiKey {
                    var: String::from_str(api_key_env),
                    provider: String::from_str("anthropic"),
                },
            ),
        }
    }

    /// The request that asks the model to answer `user` in the role `system`.
    pub fn request(&self, system: &str, user: &str) -> (res: ApiRequest)
        ensures
            res.url@ == "https://api.anthropic.com/v1/messages"@,
            res.headers@.len() == 3,
            res.headers@[0].0@ == "x-api-key"@ && res.headers@[0].1@ == self.api_key@,
            res.headers@[1].0@ == "anthropic-version"@ && res.headers@[1].1@ == "2023-06-01"@,
            res.headers@[2].0@ == "content-type"@ && res.headers@[2].1@ == "application/json"@,
            res.bearer_token is None,
            res.body@ == request_body(self.model@, self.max_tokens, system@, user@),
    {
        let mut headers: Vec<(String, String)> = Vec::new();
        headers.push((String::from_str("x-api-key"), self.api_key.clone()));
        headers.push((String::from_str("anthropic-version"), String::from_str("2023-06-01")));
        headers.push((String::from_str("content-type"), String::from_str("application/json")));
        let mut messages: Vec<Json> = Vec::new();
        assert(items_view(messages@) =~= Seq::empty());
        push_item(&mut messages, message("user", user));
        let mut es: Vec<(String, Json)> = Vec::new();
        assert(entries_view(es@) =~= Seq::empty());
        push_entry(&mut es, "model", Json::Str(self.model.clone()));
        push_entry(&mut es, "max_tokens", Json::number(self.max_tokens as u64));
        push_entry(&mut es, "system", Json::text(system));
        let ghost items = messages@;
        push_entry(&mut es, "messages", Json::Array(messages));
        let body = Json::Object(es);
        assert(body@ =~= request_body(self.model@, self.max_tokens, system@, user@)) by {
            assert(items_view(items) =~= seq![message_view("user"@, user@)]);
            assert(entries_view(es@) =~= seq![
                ("model"@, JsonView::Str(self.model@)),
                ("max_tokens"@, JsonView::Number(decimal(self.max_tokens as nat))),
                ("system"@, JsonView::Str(system@)),
                ("messages"@, JsonView::Array(seq![message_view("user"@, user@)])),
            ]);
        }
        ApiRequest {
            url: String::from_str("https://api.anthropic.com/v1/messages"),
            headers,
            bearer_token: None,
            body,
        }
    }

    /// Reads the reply: a status outside 200..=299 is an error; otherwise the
    /// `text` strings of the blocks of its `content` array are joined, and an
    /// empty answer is an error. `body` is the reply as JSON text, shown in
    /// errors.
    pub fn read_reply(&self, status: u16, status_text: String, reply: &Json, body: String) -> (res:
        Result<String, ProviderError>)
        ensures
            !is_success_status(status) ==> (res matches Err(
                ProviderError::ApiStatus { api, status: st, body: b },
            ) && api@ == "Anthropic"@ && st == status_text && b == body),
            is_success_status(status) && reply_text(*reply).len() == 0 ==> (res matches Err(
                ProviderError::EmptyReply { api, body: b },
            ) && api@ == "Anthropic"@ && b == body),
            is_success_status(status) && reply_text(*reply).len() > 0 ==> (res matches Ok(t)
                && t@ == reply_text(*reply)),
    {
        if !(200 <= status && status <= 299) {
            return Err(
                ProviderError::ApiStatus { api: String::from_str("Anthropic"), status: status_text, body },
            );
        }
        let text = match read_content_texts(reply) {
            Some(blocks) => join_texts(&blocks),
            None => String::new(),
        };
        if text.as_str().unicode_len() == 0 {
            return Err(ProviderError::EmptyReply { api: String::from_str("Anthropic"), body });
        }
        Ok(text)
    }
}

impl Provider for AnthropicProvider {
    open spec fn label_text(&self) -> Seq<char> {
        "anthropic:"@ + self.model@
    }

    fn label(&self) -> (res: String) {
        let mut s = String::from_str("anthropic:");
        s.append(self.model.as_str());
        s
    }
}

} // verus!
