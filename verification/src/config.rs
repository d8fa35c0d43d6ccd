//! The configuration: named providers (how a model is called) and the agents of
//! the pipeline, in the order in which they run.
use vstd::prelude::*;

verus! {

/// One provider: either a model API called directly, or a command-line tool.
#[derive(Debug)]
pub enum ProviderConfig {
    /// The Anthropic Messages API.
    Anthropic {
        model: String,
        max_tokens: u32,
        /// Name of the environment variable that holds the API key.
        api_key_env: String,
    },
    /// The OpenAI Chat Completions API, or an endpoint compatible with it.
    Openai { model: String, max_tokens: u32, api_key_env: String, base_url: String },
    /// A command-line tool run as a subprocess.
    Cli {
        /// The program to run.
        command: String,
        /// Fixed arguments given to the program.
        args: Vec<String>,
        /// How the prompt is handed over: `"stdin"` or `"arg"`.
        prompt_via: String,
    },
}

/// One agent of the pipeline.
#[derive(Debug)]
pub struct AgentConfig {
    /// Display name, such as `researcher`.
    pub name: String,
    /// Name of a provider declared in the configuration.
    pub provider: String,
    /// System prompt that defines the agent's role.
    pub system: String,
}

/// The whole configuration.
#[derive(Debug)]
pub struct Config {
    /// The declared providers, each under the name its table was given.
    pub providers: Vec<(String, ProviderConfig)>,
    /// The agents, in the order in which the pipeline runs them.
    pub agents: Vec<AgentConfig>,
}

/// Why a configuration is refused.
#[derive(Debug)]
pub enum ConfigError {
    /// The pipeline has no agent.
    NoAgents,
    /// An agent names a provider that is not declared.
    UnknownProvider { agent: String, provider: String },
}

/// Default `max_tokens` of the API providers.
pub fn default_max_tokens() -> (res: u32)
    ensures
        res == 4096,
{
    4096
}

/// Default environment variable for the Anthropic API key.
pub fn default_anthropic_key_env() -> (res: String)
    ensures
        res@ == "ANTHROPIC_API_KEY"@,
{
    String::from_str("ANTHROPIC_API_KEY")
}

/// Default environment variable for the OpenAI API key.
pub fn default_openai_key_env() -> (res: String)
    ensures
        res@ == "OPENAI_API_KEY"@,
{
    String::from_str("OPENAI_API_KEY")
}

/// Default base URL of the OpenAI API.
pub fn default_openai_base() -> (res: String)
    ensures
        res@ == "https://api.openai.com/v1"@,
{
    String::from_str("https://api.openai.com/v1")
}

/// Default way of handing the prompt to a command-line tool.
pub fn default_prompt_via() -> (res: String)
    ensures
        res@ == "stdin"@,
{
    String::from_str("stdin")
}

impl ProviderConfig {
    /// The environment variable that holds the API key, for the API providers.
    pub open spec fn key_env(&self) -> Option<String> {
        match self {
            ProviderConfig::Anthropic { api_key_env, .. } => Some(*api_key_env),
            ProviderConfig::Openai { api_key_env, .. } => Some(*api_key_env),
            ProviderConfig::Cli { .. } => None,
        }
    }

    /// The environment variable that holds the API key; none for a command-line tool.
    pub fn api_key_env(&self) -> (res: Option<&String>)
        ensures
            match res {
                Some(s) => self.key_env() == Some(*s),
                None => self.key_env() is None,
            },
    {
        match self {
            ProviderConfig::Anthropic { api_key_env, .. } => Some(api_key_env),
            ProviderConfig::Openai { api_key_env, .. } => Some(api_key_env),
            ProviderConfig::Cli { .. } => None,
        }
    }
}

impl Config {
    /// Some provider is declared under `name`.
    pub open spec fn declares(&self, name: Seq<char>) -> bool {
        exists|i: int| 0 <= i < self.providers.len() && #[trigger] self.providers@[i].0@ == name
    }

    /// `i` is the first declaration under `name`.
    pub open spec fn first_declaration(&self, name: Seq<char>, i: int) -> bool {
        &&& 0 <= i < self.providers.len()
        &&& self.providers@[i].0@ == name
        &&& forall|j: int| 0 <= j < i ==> #[trigger] self.providers@[j].0@ != name
    }

    /// No two providers are declared under one name, as in a TOML table.
    pub open spec fn has_unique_names(&self) -> bool {
        forall|i: int, j: int|
            #![trigger self.providers@[i], self.providers@[j]]
            0 <= i < j < self.providers.len() ==> self.providers@[i].0@ != self.providers@[j].0@
    }

    /// Every agent names a declared provider.
    pub open spec fn resolves_agents(&self) -> bool {
        forall|i: int| 0 <= i < self.agents.len() ==> self.declares(#[trigger] self.agents@[i].provider@)
    }

    /// The pipeline has an agent, and every agent names a declared provider.
    pub open spec fn is_valid(&self) -> bool {
        &&& self.agents.len() > 0
        &&& self.resolves_agents()
    }

    /// Agent `i` is the first one that names an undeclared provider.
    pub open spec fn first_unknown(&self, i: int) -> bool {
        &&& 0 <= i < self.agents.len()
        &&& !self.declares(self.agents@[i].provider@)
        &&& forall|j: int| 0 <= j < i ==> self.declares(#[trigger] self.agents@[j].provider@)
    }

    /// Checks that no two providers are declared under one name.
    pub fn unique_provider_names(&self) -> (res: bool)
        ensures
            res == self.has_unique_names(),
    {
        let n = self.providers.len();
        let mut j: usize = 0;
        while j < n
            invariant
                n == self.providers.len(),
                j <= n,
                forall|a: int, b: int|
                    #![trigger self.providers@[a], self.providers@[b]]
                    0 <= a < b < j ==> self.providers@[a].0@ != self.providers@[b].0@,
            decreases n - j,
        {
            let mut i: usize = 0;
            while i < j
                invariant
                    n == self.providers.len(),
                    i <= j < n,
                    forall|a: int, b: int|
                        #![trigger self.providers@[a], self.providers@[b]]
                        0 <= a < b < j ==> self.providers@[a].0@ != self.providers@[b].0@,
                    forall|a: int|
                        0 <= a < i ==> #[trigger] self.providers@[a].0@ != self.providers@[j as int].0@,
                decreases j - i,
            {
                if self.providers[i].0 == self.providers[j].0 {
                    assert(!self.has_unique_names()) by {
                        assert(self.providers@[i as int].0@ == self.providers@[j as int].0@);
                    }
                    return false;
                }
                i = i + 1;
            }
            j = j + 1;
        }
        true
    }

    /// Finds the provider declared under `name`: the first such declaration.
    pub fn provider_index(&self, name: &String) -> (res: Option<usize>)
        ensures
            res is None <==> !self.declares(name@),
            res matches Some(i) ==> self.first_declaration(name@, i as int),
    {
        let mut i: usize = 0;
        while i < self.providers.len()
            invariant
                i <= self.providers.len(),
                forall|j: int| 0 <= j < i ==> #[trigger] self.providers@[j].0@ != name@,
            decreases self.providers.len() - i,
        {
            if self.providers[i].0 == *name {
                return Some(i);
            }
            i = i + 1;
        }
        None
    }

    /// The provider declared under `name`, if any.
    pub fn provider(&self, name: &String) -> (res: Option<&ProviderConfig>)
        ensures
            res is None <==> !self.declares(name@),
            res matches Some(p) ==> exists|i: int|
                self.first_declaration(name@, i) && *p == self.providers@[i].1,
    {
        match self.provider_index(name) {
            Some(i) => Some(&self.providers[i].1),
            None => None,
        }
    }

    /// Checks that the pipeline has an agent and that every agent names a
    /// declared provider; the first agent that does not is reported.
    pub fn validate(&self) -> (res: Result<(), ConfigError>)
        ensures
            res is Ok <==> self.is_valid(),
            res matches Err(ConfigError::NoAgents) <==> self.agents.len() == 0,
            res matches Err(ConfigError::UnknownProvider { agent, provider }) ==> exists|i: int|
                self.first_unknown(i) && agent@ == self.agents@[i].name@ && provider@
                    == self.agents@[i].provider@,
    {
        if self.agents.len() == 0 {
            return Err(ConfigError::NoAgents);
        }
        let mut i: usize = 0;
        while i < self.agents.len()
            invariant
                i <= self.agents.len(),
                forall|j: int| 0 <= j < i ==> self.declares(#[trigger] self.agents@[j].provider@),
            decreases self.agents.len() - i,
        {
            let agent = &self.agents[i];
            if self.provider_index(&agent.provider).is_none() {
                assert(self.first_unknown(i as int));
                return Err(
                    ConfigError::UnknownProvider {
                        agent: agent.name.clone(),
                        provider: agent.provider.clone(),
                    },
                );
            }
            i = i + 1;
        }
        Ok(())
    }
}

/// In a configuration that passes `validate`, every agent's provider is found,
/// so the pipeline never runs an agent without one.
pub proof fn lemma_valid_config_resolves_every_agent(cfg: &Config, i: int)
    requires
        cfg.is_valid(),
        0 <= i < cfg.agents.len(),
    ensures
        cfg.declares(cfg.agents@[i].provider@),
        exists|p: int| cfg.first_declaration(cfg.agents@[i].provider@, p),
{
    let name = cfg.agents@[i].provider@;
    assert(cfg.declares(name));
    lemma_declared_has_first(cfg, name, cfg.providers.len() as int);
}

/// Where no name is declared twice, looking a provider up by its name finds
/// its own declaration.
pub proof fn lemma_unique_names_lookup(cfg: &Config, i: int)
    requires
        cfg.has_unique_names(),
        0 <= i < cfg.providers.len(),
    ensures
        cfg.first_declaration(cfg.providers@[i].0@, i),
{
    assert forall|j: int| 0 <= j < i implies #[trigger] cfg.providers@[j].0@ != cfg.providers@[i].0@ by {
        assert(cfg.providers@[j].0@ != cfg.providers@[i].0@);
    }
}

/// A name declared among the first `n` providers has a first declaration.
proof fn lemma_declared_has_first(cfg: &Config, name: Seq<char>, n: int)
    requires
        0 <= n <= cfg.providers.len(),
        exists|i: int| 0 <= i < n && #[trigger] cfg.providers@[i].0@ == name,
    ensures
        exists|p: int| cfg.first_declaration(name, p),
    decreases n,
{
    if exists|i: int| 0 <= i < n - 1 && #[trigger] cfg.providers@[i].0@ == name {
        lemma_declared_has_first(cfg, name, n - 1);
    } else {
        assert(cfg.first_declaration(name, n - 1));
    }
}

impl ConfigError {
    /// The text that reports this error.
    pub open spec fn text(&self) -> Seq<char> {
        match self {
            ConfigError::NoAgents => "Config không có agent nào trong pipeline"@,
            ConfigError::UnknownProvider { agent, provider } => "Agent '"@ + agent@
                + "' trỏ tới provider '"@ + provider@ + "' không tồn tại"@,
        }
    }

    /// Renders the error as a sentence.
    pub fn message(&self) -> (res: String)
        ensures
            res@ == self.text(),
    {
        match self {
            ConfigError::NoAgents => String::from_str("Config không có agent nào trong pipeline"),
            ConfigError::UnknownProvider { agent, provider } => {
                let mut s = String::from_str("Agent '");
                s.append(agent.as_str());
                s.append("' trỏ tới provider '");
                s.append(provider.as_str());
                s.append("' không tồn tại");
                s
            },
        }
    }
}

} // verus!
