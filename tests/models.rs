use llmchain::loaders::{GithubPRLoader, GithubRepoLoader};
use llmchain::models::{
    DatabendCloud, HuggingFaceModel, ModelType, OpenAIEmbeddingModel, OpenAIGenerateModel,
};

#[test]
fn model_repos() {
    let r = ModelType::Mixtral.repo();
    assert_eq!(r.repo_name, "TheBloke/Mixtral-8x7B-v0.1-GGUF");
    assert_eq!(r.file_name, "mixtral-8x7b-v0.1.Q4_K_M.gguf");
    assert_eq!(r.size, "26.4 GB");
    let r = HuggingFaceModel::new(ModelType::OpenChat35).model_type.repo();
    assert_eq!(r.repo_name, "TheBloke/openchat_3.5-GGUF");
    assert_eq!(r.size, "4.37 GB");
}

#[test]
fn openai_model_names() {
    assert_eq!(OpenAIEmbeddingModel::TextEmbeddingAda002.to_string(), "text-embedding-ada-002");
    assert_eq!(OpenAIGenerateModel::Gpt35.to_string(), "gpt-3.5-turbo");
    assert_eq!(OpenAIGenerateModel::Gpt4.to_string(), "gpt-4");
    assert_eq!(DatabendCloud::create("dsn://x").dsn, "dsn://x");
}

#[test]
fn github_addresses() {
    let pr = GithubPRLoader::create("datafuselabs", "databend", "token");
    assert_eq!(pr.pull_request_url(11450), "https://github.com/datafuselabs/databend/pull/11450");
    let repo = GithubRepoLoader::create("shafishlabs", "llmchain.rs", "token");
    assert_eq!(repo.clone_url(), "https://github.com/shafishlabs/llmchain.rs");
    assert_eq!(repo.clone_path("/tmp/x/"), "/tmp/x/github.com/shafishlabs/llmchain.rs/");
    assert_eq!(
        GithubRepoLoader::public_path("/tmp/x/github.com/a/b/src/lib.rs", "/tmp/x/"),
        "https://github.com/a/b/src/lib.rs"
    );
    assert_eq!(GithubRepoLoader::public_path("p", ""), "p");
}
