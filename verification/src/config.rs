//! What a session is started with: where the model is, where its tokenizer
//! comes from, and the texts of the script.

use vstd::prelude::*;
use crate::prompt::{
    format_input_prompt, format_seed, format_spoken_line, format_tag_mark, format_turn,
};
use crate::prompt::{input_prompt_text, seed_text, spoken_line, tag_mark, turn_prompt};

verus! {

/// The architectures of model that the loader knows.
#[derive(Clone, Copy, Debug, PartialEq, Eq, Structural)]
pub enum ModelArchitecture {
    Bloom,
    Gpt2,
    GptJ,
    Llama,
    NeoX,
}

/// Where a model's tokenizer comes from.
#[derive(Debug, PartialEq, Eq)]
pub enum TokenizerSource {
    /// The tokenizer that the model file holds.
    Embedded,
    /// A tokenizer file at this path.
    HuggingFaceTokenizerFile(String),
    /// The tokenizer of this remote repository.
    HuggingFaceRemote(String),
}

/// A tokenizer source as contracts see it.
pub enum SourceView {
    Embedded,
    File(Seq<char>),
    Remote(Seq<char>),
}

impl View for TokenizerSource {
    type V = SourceView;

    open spec fn view(&self) -> SourceView {
        match self {
            TokenizerSource::Embedded => SourceView::Embedded,
            TokenizerSource::HuggingFaceTokenizerFile(path) => SourceView::File(path@),
            TokenizerSource::HuggingFaceRemote(repository) => SourceView::Remote(repository@),
        }
    }
}

/// Why a configuration cannot be used.
#[derive(Clone, Copy, Debug, PartialEq, Eq, Structural)]
pub enum ConfigError {
    /// Both a tokenizer file and a tokenizer repository were named.
    ConflictingTokenizerSources,
}

impl ConfigError {
    /// The diagnostic for this error.
    pub fn message(&self) -> (text: String)
        ensures
            text@ == "Cannot specify both tokenizer_path and tokenizer_repository"@,
    {
        String::from_str("Cannot specify both tokenizer_path and tokenizer_repository")
    }
}

/// The tokenizer source that a file path and a repository name stand for: at
/// most one of them may be given, and with neither the model's own tokenizer
/// is used.
pub open spec fn chosen_source(path: Option<String>, repository: Option<String>) -> Result<
    SourceView,
    ConfigError,
> {
    match (path, repository) {
        (Some(_), Some(_)) => Err(ConfigError::ConflictingTokenizerSources),
        (Some(p), None) => Ok(SourceView::File(p@)),
        (None, Some(r)) => Ok(SourceView::Remote(r@)),
        (None, None) => Ok(SourceView::Embedded),
    }
}

/// Decides where the tokenizer comes from. Naming both a file and a
/// repository is an error.
pub fn choose_tokenizer_source(path: &Option<String>, repository: &Option<String>) -> (chosen:
    Result<TokenizerSource, ConfigError>)
    ensures
        match chosen_source(*path, *repository) {
            Ok(source) => chosen matches Ok(s) && s@ == source,
            Err(e) => chosen == Err::<TokenizerSource, ConfigError>(e),
        },
{
    match (path, repository) {
        (Some(_), Some(_)) => Err(ConfigError::ConflictingTokenizerSources),
        (Some(p), None) => Ok(TokenizerSource::HuggingFaceTokenizerFile(p.clone())),
        (None, Some(r)) => Ok(TokenizerSource::HuggingFaceRemote(r.clone())),
        (None, None) => Ok(TokenizerSource::Embedded),
    }
}

/// What the loader is asked for.
#[derive(Debug, PartialEq, Eq)]
pub struct LoadRequest {
    pub architecture: ModelArchitecture,
    pub model_path: String,
    pub tokenizer: TokenizerSource,
}

/// The configuration of a session.
#[derive(Debug, PartialEq, Eq)]
pub struct ChatConfig {
    /// The architecture of the model.
    pub architecture: ModelArchitecture,
    /// The path of the model file.
    pub model_path: String,
    /// The path of a tokenizer file, if one is to be used.
    pub tokenizer_path: Option<String>,
    /// The name of a remote tokenizer repository, if one is to be used.
    pub tokenizer_repository: Option<String>,
    /// The text that sets the scene.
    pub persona: String,
    /// The tag under which the assistant speaks.
    pub character_name: String,
    /// The tag under which the user speaks.
    pub user_name: String,
    /// What the assistant opens with.
    pub greeting: String,
    /// The text at which the assistant's turn ends.
    pub stop_sequence: String,
}

impl ChatConfig {
    /// The configuration for the model file at `model_path`: a LLaMA model
    /// with its own tokenizer, a chat between `### Human` and `### Assistant`
    /// that the assistant opens, and the user's mark, `### Human:`, as the
    /// stop sequence: the assistant's turn ends where the user's would begin.
    pub fn new(model_path: &str) -> (config: ChatConfig)
        ensures
            config.architecture == ModelArchitecture::Llama,
            config.model_path@ == model_path@,
            config.tokenizer_path is None,
            config.tokenizer_repository is None,
            config.persona@ == "A chat between a human and an assistant."@,
            config.character_name@ == "### Assistant"@,
            config.user_name@ == "### Human"@,
            config.greeting@ == "Hello - How may I help you today?"@,
            config.stop_sequence@ == tag_mark(config.user_name@),
            config.stop_sequence@ == "### Human:"@,
    {
        proof {
            reveal_strlit("### Human");
            reveal_strlit(":");
            reveal_strlit("### Human:");
            assert("### Human"@ + ":"@ =~= "### Human:"@);
        }
        ChatConfig {
            architecture: ModelArchitecture::Llama,
            model_path: String::from_str(model_path),
            tokenizer_path: None,
            tokenizer_repository: None,
            persona: String::from_str("A chat between a human and an assistant."),
            character_name: String::from_str("### Assistant"),
            user_name: String::from_str("### Human"),
            greeting: String::from_str("Hello - How may I help you today?"),
            stop_sequence: format_tag_mark("### Human"),
        }
    }

    /// Decides where the tokenizer comes from.
    pub fn tokenizer_source(&self) -> (chosen: Result<TokenizerSource, ConfigError>)
        ensures
            match chosen_source(self.tokenizer_path, self.tokenizer_repository) {
                Ok(source) => chosen matches Ok(s) && s@ == source,
                Err(e) => chosen == Err::<TokenizerSource, ConfigError>(e),
            },
    {
        choose_tokenizer_source(&self.tokenizer_path, &self.tokenizer_repository)
    }

    /// What to ask the loader for. There is nothing to ask for where the
    /// tokenizer sources conflict: the error comes before any loading.
    pub fn load_request(&self) -> (request: Result<LoadRequest, ConfigError>)
        ensures
            match chosen_source(self.tokenizer_path, self.tokenizer_repository) {
                Ok(source) => {
                    &&& request matches Ok(r)
                    &&& r.architecture == self.architecture
                    &&& r.model_path@ == self.model_path@
                    &&& r.tokenizer@ == source
                },
                Err(e) => request == Err::<LoadRequest, ConfigError>(e),
            },
    {
        match self.tokenizer_source() {
            Ok(tokenizer) => Ok(
                LoadRequest {
                    architecture: self.architecture,
                    model_path: self.model_path.clone(),
                    tokenizer,
                },
            ),
            Err(e) => Err(e),
        }
    }

    /// The history that the session opens with: the assistant's greeting
    /// under the assistant's tag.
    pub fn history(&self) -> (history: String)
        ensures
            history@ == spoken_line(self.character_name@, self.greeting@),
    {
        format_spoken_line(self.character_name.as_str(), self.greeting.as_str())
    }

    /// The text that seeds the session: the persona, then the history.
    pub fn seed_prompt(&self) -> (seed: String)
        ensures
            seed@ == seed_text(self.persona@, spoken_line(self.character_name@, self.greeting@)),
    {
        let history = self.history();
        format_seed(self.persona.as_str(), history.as_str())
    }

    /// What the reader is prompted with.
    pub fn input_prompt(&self) -> (prompt: String)
        ensures
            prompt@ == input_prompt_text(self.user_name@),
    {
        format_input_prompt(self.user_name.as_str())
    }

    /// The prompt of the turn that the user's `line` opens.
    pub fn turn_prompt(&self, line: &str) -> (prompt: String)
        ensures
            prompt@ == turn_prompt(self.user_name@, line@, self.character_name@),
    {
        format_turn(self.user_name.as_str(), line, self.character_name.as_str())
    }
}

} // verus!
