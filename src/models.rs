use vstd::prelude::*;
use vstd::string::StringExecFns;

verus! {

/// The inference backend that runs a model.
#[derive(Debug, Clone, Copy, PartialEq, Eq, Structural)]
pub enum Engine {
    LlamaCpp,
    ExllamaV2,
    Transformers,
}

impl Engine {
    /// The name the server uses for the engine.
    pub open spec fn spec_name(self) -> Seq<char> {
        match self {
            Engine::LlamaCpp => "llama-cpp"@,
            Engine::ExllamaV2 => "exllamav2"@,
            Engine::Transformers => "transformers"@,
        }
    }

    pub fn name(&self) -> (r: &'static str)
        ensures
            r@ == self.spec_name(),
    {
        match self {
            Engine::LlamaCpp => "llama-cpp",
            Engine::ExllamaV2 => "exllamav2",
            Engine::Transformers => "transformers",
        }
    }
}

/// A loadable model: its name and the engine that runs it. Two models are
/// the same model when both parts are equal.
#[derive(Debug, Clone)]
pub struct Model {
    pub name: String,
    pub engine: Engine,
}

impl Model {
    pub fn new(name: String, engine: Engine) -> (r: Model)
        ensures
            r.name@ == name@,
            r.engine == engine,
    {
        Model { name, engine }
    }
}

impl PartialEq for Model {
    fn eq(&self, other: &Model) -> (r: bool)
        ensures
            r == (self.name@ == other.name@ && self.engine == other.engine),
    {
        self.engine == other.engine && self.name == other.name
    }
}

impl vstd::std_specs::cmp::PartialEqSpecImpl for Model {
    open spec fn obeys_eq_spec() -> bool {
        true
    }

    open spec fn eq_spec(&self, other: &Model) -> bool {
        self.name@ == other.name@ && self.engine == other.engine
    }
}

/// What the server reports of a model being loaded.
#[derive(Debug, Clone, Copy, PartialEq, Eq, Structural)]
pub enum ModelStatus {
    Loading,
    Loaded,
    Unloaded,
    Error,
}

impl ModelStatus {
    pub open spec fn spec_name(self) -> Seq<char> {
        match self {
            ModelStatus::Loading => "loading"@,
            ModelStatus::Loaded => "loaded"@,
            ModelStatus::Unloaded => "unloaded"@,
            ModelStatus::Error => "error"@,
        }
    }

    pub fn name(&self) -> (r: &'static str)
        ensures
            r@ == self.spec_name(),
    {
        match self {
            ModelStatus::Loading => "loading",
            ModelStatus::Loaded => "loaded",
            ModelStatus::Unloaded => "unloaded",
            ModelStatus::Error => "error",
        }
    }
}

impl Default for ModelStatus {
    fn default() -> (r: ModelStatus)
        ensures
            r == ModelStatus::Unloaded,
    {
        ModelStatus::Unloaded
    }
}

/// The status carried by each frame of a completion stream.
#[derive(Debug, Clone, Copy, PartialEq, Eq, Structural)]
pub enum CompletionStatus {
    Success,
    Pong,
    Ongoing,
    Final,
}

impl CompletionStatus {
    pub open spec fn spec_name(self) -> Seq<char> {
        match self {
            CompletionStatus::Success => "Success"@,
            CompletionStatus::Pong => "Pong"@,
            CompletionStatus::Ongoing => "Ongoing"@,
            CompletionStatus::Final => "Final"@,
        }
    }

    pub fn name(&self) -> (r: &'static str)
        ensures
            r@ == self.spec_name(),
    {
        match self {
            CompletionStatus::Success => "Success",
            CompletionStatus::Pong => "Pong",
            CompletionStatus::Ongoing => "Ongoing",
            CompletionStatus::Final => "Final",
        }
    }
}

impl Default for CompletionStatus {
    fn default() -> (r: CompletionStatus)
        ensures
            r == CompletionStatus::Success,
    {
        CompletionStatus::Success
    }
}

/// The status of a stream frame, under its other name.
pub type Status = CompletionStatus;

/// One frame of a completion stream: its status and a fragment of tokens.
#[derive(Debug, Clone)]
pub struct CompletionResult {
    pub status: CompletionStatus,
    pub tokens: String,
}

/// The model names that a listing returned.
#[derive(Debug, Clone)]
pub struct ListResult {
    pub models: Vec<String>,
}

/// A result that carries a status alone.
#[derive(Debug, Clone)]
pub struct SimpleResult {
    pub status: CompletionStatus,
}

/// The parameters of a `load_model` call.
#[derive(Debug, Clone)]
pub struct LoadParams {
    pub engine: String,
    pub model: String,
}

/// The parameters of a `complete` call: the prompt snippet and the engine
/// parameters, the latter already written as a JSON object.
#[derive(Debug, Clone)]
pub struct CompletionParams {
    pub snippet: String,
    pub engine_parameters: String,
}

/// The result of a `status` or `load_model` call.
#[derive(Debug, Clone)]
pub struct StatusResult {
    pub status: String,
    pub engine: Option<Engine>,
    pub model: Option<String>,
}

/// The result of a `list_models` call.
#[derive(Debug, Clone)]
pub struct ModelListResult {
    pub models: Vec<Model>,
}

/// Whether the client holds a live connection.
#[derive(Debug, Clone, Copy, PartialEq, Eq, Structural)]
pub enum ConnectionStatus {
    Connected,
    Disconnected,
}

} // verus!
