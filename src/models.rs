//! Names of the models the pipeline talks to, and the plain results of a
//! generation call.

use vstd::prelude::*;

verus! {

/// A quantized model published on the Hugging Face hub.
#[derive(Debug, Clone, Copy, PartialEq, Eq)]
pub enum ModelType {
    Mixtral,
    OpenChat35,
}

/// Where a model's weights live: repository, file and download size.
#[derive(Debug)]
pub struct Repo {
    pub repo_name: String,
    pub file_name: String,
    pub size: String,
}

impl ModelType {
    /// The repository, weight file and size of the model.
    pub fn repo(&self) -> (r: Repo)
        ensures
            *self == ModelType::Mixtral ==> r.repo_name@ == "TheBloke/Mixtral-8x7B-v0.1-GGUF"@
                && r.file_name@ == "mixtral-8x7b-v0.1.Q4_K_M.gguf"@ && r.size@ == "26.4 GB"@,
            *self == ModelType::OpenChat35 ==> r.repo_name@ == "TheBloke/openchat_3.5-GGUF"@
                && r.file_name@ == "openchat_3.5.Q4_K_M.gguf"@ && r.size@ == "4.37 GB"@,
    {
        match self {
            ModelType::Mixtral => Repo {
                repo_name: "TheBloke/Mixtral-8x7B-v0.1-GGUF".to_owned(),
                file_name: "mixtral-8x7b-v0.1.Q4_K_M.gguf".to_owned(),
                size: "26.4 GB".to_owned(),
            },
            ModelType::OpenChat35 => Repo {
                repo_name: "TheBloke/openchat_3.5-GGUF".to_owned(),
                file_name: "openchat_3.5.Q4_K_M.gguf".to_owned(),
                size: "4.37 GB".to_owned(),
            },
        }
    }
}

/// A model to be pulled from the Hugging Face hub.
#[derive(Debug)]
pub struct HuggingFaceModel {
    pub model_type: ModelType,
}

impl HuggingFaceModel {
    pub fn new(model_type: ModelType) -> (r: HuggingFaceModel)
        ensures
            r.model_type == model_type,
    {
        HuggingFaceModel { model_type }
    }
}

#[derive(Debug, Clone, Copy, PartialEq, Eq)]
pub enum OpenAIEmbeddingModel {
    TextEmbeddingAda002,
}

impl OpenAIEmbeddingModel {
    /// The model's name in the API.
    pub fn to_string(&self) -> (r: String)
        ensures
            r@ == "text-embedding-ada-002"@,
    {
        "text-embedding-ada-002".to_owned()
    }
}

#[derive(Debug, Clone, Copy, PartialEq, Eq)]
pub enum OpenAIGenerateModel {
    Gpt35,
    Gpt4,
}

impl OpenAIGenerateModel {
    /// The model's name in the API.
    pub fn to_string(&self) -> (r: String)
        ensures
            *self == OpenAIGenerateModel::Gpt35 ==> r@ == "gpt-3.5-turbo"@,
            *self == OpenAIGenerateModel::Gpt4 ==> r@ == "gpt-4"@,
    {
        match self {
            OpenAIGenerateModel::Gpt35 => "gpt-3.5-turbo".to_owned(),
            OpenAIGenerateModel::Gpt4 => "gpt-4".to_owned(),
        }
    }
}

/// The text a model generated, with its token usage.
#[derive(Debug, Default)]
pub struct GenerateResult {
    pub prompt_tokens: u32,
    pub completion_tokens: u32,
    pub total_tokens: u32,
    pub generation: String,
}

/// One message of a chat.
#[derive(Debug)]
pub struct ChatResult {
    pub role: String,
    pub content: String,
}

/// Connection settings of a hosted warehouse that serves model functions.
#[derive(Debug)]
pub struct DatabendCloud {
    pub dsn: String,
}

impl DatabendCloud {
    pub fn create(dsn: &str) -> (r: DatabendCloud)
        ensures
            r.dsn@ == dsn@,
    {
        DatabendCloud { dsn: dsn.to_owned() }
    }
}

} // verus!
