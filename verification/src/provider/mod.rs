//! Providers: the ways of calling a model. The API providers describe the HTTP
//! request to send and read the reply; the command-line provider describes the
//! subprocess to run and reads its output. Sending and running happen outside
//! the library.
use vstd::prelude::*;
use crate::config::ProviderConfig;
use crate::json::{Json, JsonView, entries_view, push_entry};
use crate::text::{copy_strings, without_trailing};

pub mod anthropic;
pub mod cli;
pub mod openai;

pub use anthropic::AnthropicProvider;
pub use cli::{CliInvocation, CliProvider};
pub use openai::OpenaiProvider;



verus! {

/// A way of calling a model.
pub trait Provider {
    /// The short description shown in logs.
    spec fn label_text(&self) -> Seq<char>;

    /// A short description for logs, such as `anthropic:big-model-1`.
    fn label(&self) -> (res: String)
        ensures
            res@ == self.label_text(),
    ;
}

/// An HTTP POST request to a model API, with a JSON body.
#[derive(Debug)]
pub struct ApiRequest {
    pub url: String,
    /// Headers, each a name and a value.
    pub headers: Vec<(String, String)>,
    /// A token sent as bearer authorization, where there is one.
    pub bearer_token: Option<String>,
    pub body: Json,
}

/// The value of a chat message with `role` and `content`.
pub open spec fn message_view(role: Seq<char>, content: Seq<char>) -> JsonView {
    JsonView::Object(seq![("role"@, JsonView::Str(role)), ("content"@, JsonView::Str(content))])
}

/// A chat message with `role` and `content`.
pub fn message(role: &str, content: &str) -> (res: Json)
    ensures
        res@ == message_view(role@, content@),
{
    let mut es: Vec<(String, Json)> = Vec::new();
    assert(entries_view(es@) =~= Seq::empty());
    push_entry(&mut es, "role", Json::text(role));
    push_entry(&mut es, "content", Json::text(content));
    let res = Json::Object(es);
    assert(res@ =~= message_view(role@, content@)) by {
        assert(entries_view(es@) =~= seq![("role"@, JsonView::Str(role@)), ("content"@, JsonView::Str(content@))]);
    }
    res
}

/// Why a provider could not be built or could not answer.
#[derive(Debug)]
pub enum ProviderError {
    /// The environment variable that should hold the API key is not set.
    MissingApiKey { var: String, provider: String },
    /// The API answered with a status outside 200..=299.
    ApiStatus { api: String, status: String, body: String },
    /// The API answered with no text.
    EmptyReply { api: String, body: String },
    /// `prompt_via` is neither `"stdin"` nor `"arg"`.
    InvalidPromptVia { value: String },
    /// The command-line tool exited with failure.
    CliFailed { command: String, status: String, stderr: String },
    /// The command-line tool printed nothing but white space.
    CliEmpty { command: String },
}

impl ProviderError {
    /// The text that reports this error.
    pub open spec fn text(&self) -> Seq<char> {
        match self {
            ProviderError::MissingApiKey { var, provider } => "Thiếu biến môi trường "@ + var@
                + " cho provider "@ + provider@,
            ProviderError::ApiStatus { api, status, body } => api@ + " API lỗi "@ + status@
                + ": "@ + body@,
            ProviderError::EmptyReply { api, body } => api@ + " trả về rỗng: "@ + body@,
            ProviderError::InvalidPromptVia { value } => "prompt_via không hợp lệ: '"@ + value@
                + "' (dùng 'stdin' hoặc 'arg')"@,
            ProviderError::CliFailed { command, status, stderr } => "CLI '"@ + command@
                + "' lỗi (exit "@ + status@ + "): "@ + stderr@,
            ProviderError::CliEmpty { command } => "CLI '"@ + command@ + "' trả về rỗng"@,
        }
    }

    /// Renders the error as a sentence.
    pub fn message(&self) -> (res: String)
        ensures
            res@ == self.text(),
    {
        match self {
            ProviderError::MissingApiKey { var, provider } => {
                let mut s = String::from_str("Thiếu biến môi trường ");
                s.append(var.as_str());
                s.append(" cho provider ");
                s.append(provider.as_str());
                s
            },
            ProviderError::ApiStatus { api, status, body } => {
                let mut s = String::from_str(api.as_str());
                s.append(" API lỗi ");
                s.append(status.as_str());
                s.append(": ");
                s.append(body.as_str());
                s
            },
            ProviderError::EmptyReply { api, body } => {
                let mut s = String::from_str(api.as_str());
                s.append(" trả về rỗng: ");
                s.append(body.as_str());
                s
            },
            ProviderError::InvalidPromptVia { value } => {
                let mut s = String::from_str("prompt_via không hợp lệ: '");
                s.append(value.as_str());
                s.append("' (dùng 'stdin' hoặc 'arg')");
                s
            },
            ProviderError::CliFailed { command, status, stderr } => {
                let mut s = String::from_str("CLI '");
                s.append(command.as_str());
                s.append("' lỗi (exit ");
                s.append(status.as_str());
                s.append("): ");
                s.append(stderr.as_str());
                s
            },
            ProviderError::CliEmpty { command } => {
                let mut s = String::from_str("CLI '");
                s.append(command.as_str());
                s.append("' trả về rỗng");
                s
            },
        }
    }
}

/// A status code that counts as success: 200 to 299.
pub open spec fn is_success_status(status: u16) -> bool {
    200 <= status <= 299
}

/// A provider built from its configuration.
#[derive(Debug)]
pub enum BuiltProvider {
    Anthropic(AnthropicProvider),
    Openai(OpenaiProvider),
    Cli(CliProvider),
}

impl Provider for BuiltProvider {
    open spec fn label_text(&self) -> Seq<char> {
        match self {
            BuiltProvider::Anthropic(p) => p.label_text(),
            BuiltProvider::Openai(p) => p.label_text(),
            BuiltProvider::Cli(p) => p.label_text(),
        }
    }

    fn label(&self) -> (res: String) {
        match self {
            BuiltProvider::Anthropic(p) => p.label(),
            BuiltProvider::Openai(p) => p.label(),
            BuiltProvider::Cli(p) => p.label(),
        }
    }
}

/// The label of the provider that `cfg` describes: its kind, a colon, and its
/// model or command.
pub open spec fn config_label_text(cfg: ProviderConfig) -> Seq<char> {
    match cfg {
        ProviderConfig::Anthropic { model, .. } => "anthropic:"@ + model@,
        ProviderConfig::Openai { model, .. } => "openai:"@ + model@,
        ProviderConfig::Cli { command, .. } => "cli:"@ + command@,
    }
}

/// The label of the provider that `cfg` describes, as its `label` gives it.
pub fn config_label(cfg: &ProviderConfig) -> (res: String)
    ensures
        res@ == config_label_text(*cfg),
{
    let (kind, name) = match cfg {
        ProviderConfig::Anthropic { model, .. } => ("anthropic:", model),
        ProviderConfig::Openai { model, .. } => ("openai:", model),
        ProviderConfig::Cli { command, .. } => ("cli:", command),
    };
    let mut s = String::from_str(kind);
    s.append(name.as_str());
    s
}

/// Builds the provider that `cfg` describes. `api_key` is the value of the
/// environment variable that `cfg` names for its key (see
/// `ProviderConfig::api_key_env`); an API provider without one is an error, a
/// command-line tool needs none.
pub fn build(cfg: &ProviderConfig, api_key: Option<String>) -> (res: Result<BuiltProvider, ProviderError>)
    ensures
        res matches Ok(p) ==> p.label_text() == config_label_text(*cfg),
        match cfg {
            ProviderConfig::Anthropic { model, max_tokens, api_key_env } => match api_key {
                Some(key) => (res matches Ok(BuiltProvider::Anthropic(p)) && p.model == *model
                    && p.max_tokens == *max_tokens && p.api_key == key),
                None => (res matches Err(ProviderError::MissingApiKey { var, provider }) && var@
                    == api_key_env@ && provider@ == "anthropic"@),
            },
            ProviderConfig::Openai { model, max_tokens, api_key_env, base_url } => match api_key {
                Some(key) => (res matches Ok(BuiltProvider::Openai(p)) && p.model == *model
                    && p.max_tokens == *max_tokens && p.api_key == key && p.base_url@
                    == without_trailing(base_url@, '/')),
                None => (res matches Err(ProviderError::MissingApiKey { var, provider }) && var@
                    == api_key_env@ && provider@ == "openai"@),
            },
            ProviderConfig::Cli { command, args, prompt_via } => (res matches Ok(
                BuiltProvider::Cli(p),
            ) && p.command == *command && p.args@ == args@ && p.prompt_via == *prompt_via),
        },
{
    match cfg {
        ProviderConfig::Anthropic { model, max_tokens, api_key_env } => {
            match AnthropicProvider::new(model.clone(), *max_tokens, api_key_env.as_str(), api_key) {
                Ok(p) => Ok(BuiltProvider::Anthropic(p)),
                Err(e) => Err(e),
            }
        },
        ProviderConfig::Openai { model, max_tokens, api_key_env, base_url } => {
            match OpenaiProvider::new(
                model.clone(),
                *max_tokens,
                api_key_env.as_str(),
                base_url.clone(),
                api_key,
            ) {
                Ok(p) => Ok(BuiltProvider::Openai(p)),
                Err(e) => Err(e),
            }
        },
        ProviderConfig::Cli { command, args, prompt_via } => Ok(
            BuiltProvider::Cli(CliProvider::new(command.clone(), copy_strings(args), prompt_via.clone())),
        ),
    }
}

} // verus!
