//! The request that goes to a language model. Sending it is not part of this
//! library: here the request is made up, and the answer picked.

use vstd::prelude::*;
use crate::cache::after_lookup;
use crate::cache::answer;
use crate::cache::Cache;
use crate::cache::Stored;
use crate::llm_prompt::created;
use crate::llm_prompt::params_of;
use crate::llm_prompt::Prompt;
use crate::llm_prompt::PromptError;

verus! {

/// The most tokens that an answer may have.
pub const MAX_TOKENS: i32 = 1000;

/// Where a local model answers completions.
pub const OLLAMA_API: &'static str = "http://127.0.0.1:11434/api/generate";

/// Where a local model answers embeddings.
pub const OLLAMA_EMB: &'static str = "http://127.0.0.1:11434/api/embeddings";

/// Where the remote model answers completions.
pub const OPENAI_API: &'static str = "https://api.openai.com/v1/chat/completions";

/// The remote model that is asked.
pub const OPENAI_MODEL: &'static str = "gpt-4o-2024-08-06";

/// The model that answers.
#[derive(Debug, PartialEq)]
pub enum ModelType {
    /// A local model, with the model that embeds texts.
    Ollama { model: String, emb: String },
    /// The remote model, with the key that opens it.
    OpenAI { api_key: String },
}

/// The way to a language model.
pub struct LLMApi {
    model_type: ModelType,
}

/// One request for a completion, as plain values.
#[derive(Debug)]
pub struct ChatRequest {
    /// The address that the request goes to.
    pub url: String,
    /// The model that is asked.
    pub model: String,
    /// The prompt, with its parameters filled in.
    pub prompt: String,
    /// The most tokens that the answer may have.
    pub max_tokens: i32,
    /// The key that is sent along, where the model asks for one.
    pub api_key: Option<String>,
}

impl LLMApi {
    pub closed spec fn model_type(&self) -> ModelType {
        self.model_type
    }

    /// The address that requests go to.
    pub open spec fn spec_url(&self) -> Seq<char> {
        match self.model_type() {
            ModelType::Ollama { .. } => OLLAMA_API@,
            ModelType::OpenAI { .. } => OPENAI_API@,
        }
    }

    /// The model that requests ask.
    pub open spec fn spec_model(&self) -> Seq<char> {
        match self.model_type() {
            ModelType::Ollama { model, .. } => model@,
            ModelType::OpenAI { .. } => OPENAI_MODEL@,
        }
    }

    /// The key that requests carry.
    pub open spec fn spec_api_key(&self) -> Option<Seq<char>> {
        match self.model_type() {
            ModelType::Ollama { .. } => None,
            ModelType::OpenAI { api_key } => Some(api_key@),
        }
    }

    /// The way to the model `model_type`.
    pub fn new(model_type: ModelType) -> (r: LLMApi)
        ensures
            r.model_type() == model_type,
    {
        LLMApi { model_type }
    }

    /// The request that asks the model for an answer to template
    /// `prompt_template` of `prompt`, filled with `params`; the error where
    /// the prompt cannot be made.
    pub fn chat_request(&self, prompt_template: &str, params: &Vec<String>, prompt: &Prompt) -> (r:
        Result<ChatRequest, PromptError>)
        ensures
            match r {
                Ok(request) => {
                    &&& created(prompt@, prompt_template@, params_of(params@)) == Ok::<
                        Seq<char>,
                        PromptError,
                    >(request.prompt@)
                    &&& request.url@ == self.spec_url()
                    &&& request.model@ == self.spec_model()
                    &&& request.max_tokens == MAX_TOKENS
                    &&& (match request.api_key {
                        Some(key) => self.spec_api_key() == Some(key@),
                        None => self.spec_api_key() is None,
                    })
                },
                Err(e) => created(prompt@, prompt_template@, params_of(params@)) == Err::<
                    Seq<char>,
                    PromptError,
                >(e),
            },
    {
        let text = match prompt.try_create(prompt_template, params) {
            Ok(text) => text,
            Err(e) => {
                return Err(e);
            },
        };
        match &self.model_type {
            ModelType::Ollama { model, .. } => Ok(
                ChatRequest {
                    url: OLLAMA_API.to_owned(),
                    model: model.clone(),
                    prompt: text,
                    max_tokens: MAX_TOKENS,
                    api_key: None,
                },
            ),
            ModelType::OpenAI { api_key } => Ok(
                ChatRequest {
                    url: OPENAI_API.to_owned(),
                    model: OPENAI_MODEL.to_owned(),
                    prompt: text,
                    max_tokens: MAX_TOKENS,
                    api_key: Some(api_key.clone()),
                },
            ),
        }
    }
}

/// The answer among the choices that the remote model sends: the first, or
/// the empty text where it sends none.
pub fn first_choice(choices: Vec<String>) -> (r: String)
    ensures
        r@ == if choices.len() > 0 {
            choices[0]@
        } else {
            Seq::<char>::empty()
        },
{
    if choices.len() > 0 {
        choices[0].clone()
    } else {
        String::new()
    }
}

/// What is to be done for a request.
#[derive(Debug, PartialEq, Eq)]
pub enum RequestStep {
    /// Nothing: this is the answer, which the cache held.
    Done(String),
    /// Send the request, and store the answer in the cache under `key`.
    Send { key: String },
}

/// A `RequestStep` as plain values.
pub ghost enum RequestStepView {
    Done(Seq<char>),
    Send { key: Seq<char> },
}

impl View for RequestStep {
    type V = RequestStepView;

    open spec fn view(&self) -> RequestStepView {
        match self {
            RequestStep::Done(text) => RequestStepView::Done(text@),
            RequestStep::Send { key } => RequestStepView::Send { key: key@ },
        }
    }
}

/// What is to be done for the request that is written down as `key`, with
/// `stored` in the cache: the answer that the cache hands back is the answer,
/// and where it hands none back the request is to be sent.
pub open spec fn request_step_of(stored: Stored, key: Seq<char>) -> RequestStepView {
    match answer(stored, key) {
        Some(text) => RequestStepView::Done(text),
        None => RequestStepView::Send { key },
    }
}

/// What is to be done for the request that is written down as `key`. The
/// cache counts the answer that it hands back.
pub fn request_step(key: &str, cache: &mut Cache) -> (r: RequestStep)
    ensures
        r@ == request_step_of(old(cache)@, key@),
        final(cache)@ == after_lookup(old(cache)@, key@),
{
    let cached = match cache.get(key) {
        Some(text) => Some(text.clone()),
        None => None,
    };
    match cached {
        Some(text) => RequestStep::Done(text),
        None => RequestStep::Send { key: key.to_owned() },
    }
}

} // verus!
