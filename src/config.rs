//! Startup configuration: the chat and embedding model bindings.
use vstd::prelude::*;
use crate::pipeline::PipelineConfig;

verus! {

/// One model as the engine knows it.
#[derive(Debug)]
pub struct ModelBinding {
    pub name: String,
    pub alias: String,
    /// Token budget of the model.
    pub context_size: u64,
}

/// The two models the server runs: one for chat, one for embeddings.
#[derive(Debug)]
pub struct ModelBindings {
    pub chat: ModelBinding,
    pub embedding: ModelBinding,
}

/// Why the command-line model settings were refused.
#[derive(Clone, Copy, Debug, PartialEq, Eq, Structural)]
pub enum ConfigError {
    /// Not exactly two model names.
    ModelNames,
    /// Not exactly two model aliases.
    ModelAliases,
    /// Not exactly two context sizes.
    ContextSizes,
}

/// Whether `url` starts with `scheme` and names something after it.
pub open spec fn has_scheme(url: Seq<char>, scheme: Seq<char>) -> bool {
    url.len() > scheme.len() && url.take(scheme.len() as int) == scheme
}

/// Whether `url` can address the vector store's REST service: an `http://`
/// or `https://` URL with a non-empty remainder.
pub open spec fn is_service_url(url: Seq<char>) -> bool {
    has_scheme(url, "http://"@) || has_scheme(url, "https://"@)
}

fn starts_with_scheme(url: &str, scheme: &str) -> (r: bool)
    ensures
        r == has_scheme(url@, scheme@),
{
    let n = scheme.unicode_len();
    let len = url.unicode_len();
    if len <= n {
        return false;
    }
    let mut i: usize = 0;
    while i < n
        invariant
            n == scheme@.len(),
            len == url@.len(),
            n < len,
            i <= n,
            forall|j: int| 0 <= j < i ==> url@[j] == scheme@[j],
        decreases n - i,
    {
        if url.get_char(i) != scheme.get_char(i) {
            assert(url@.take(n as int)[i as int] != scheme@[i as int]);
            return false;
        }
        i = i + 1;
    }
    assert(url@.take(n as int) =~= scheme@);
    true
}

/// Checks the vector store's URL: it must be an `http://` or `https://`
/// URL with something after the scheme.
pub fn is_valid_url(url: &str) -> (r: bool)
    ensures
        r == is_service_url(url@),
{
    starts_with_scheme(url, "http://") || starts_with_scheme(url, "https://")
}

/// Pairs up the model names, aliases and context sizes given for the chat
/// model (first) and the embedding model (second). Each list must hold
/// exactly two entries.
pub fn model_bindings(names: Vec<String>, aliases: Vec<String>, ctx_sizes: Vec<u64>) -> (r: Result<
    ModelBindings,
    ConfigError,
>)
    ensures
        names.len() != 2 ==> r == Err::<ModelBindings, ConfigError>(ConfigError::ModelNames),
        names.len() == 2 && aliases.len() != 2 ==> r == Err::<ModelBindings, ConfigError>(
            ConfigError::ModelAliases,
        ),
        names.len() == 2 && aliases.len() == 2 && ctx_sizes.len() != 2 ==> r == Err::<
            ModelBindings,
            ConfigError,
        >(ConfigError::ContextSizes),
        names.len() == 2 && aliases.len() == 2 && ctx_sizes.len() == 2 ==> match r {
            Ok(b) => b.chat.name == names[0] && b.chat.alias == aliases[0] && b.chat.context_size
                == ctx_sizes[0] && b.embedding.name == names[1] && b.embedding.alias == aliases[1]
                && b.embedding.context_size == ctx_sizes[1],
            Err(_) => false,
        },
{
    if names.len() != 2 {
        return Err(ConfigError::ModelNames);
    }
    if aliases.len() != 2 {
        return Err(ConfigError::ModelAliases);
    }
    if ctx_sizes.len() != 2 {
        return Err(ConfigError::ContextSizes);
    }
    let chat = ModelBinding {
        name: names[0].clone(),
        alias: aliases[0].clone(),
        context_size: ctx_sizes[0],
    };
    let embedding = ModelBinding {
        name: names[1].clone(),
        alias: aliases[1].clone(),
        context_size: ctx_sizes[1],
    };
    Ok(ModelBindings { chat, embedding })
}

impl PipelineConfig {
    /// The pipeline settings for the given models, system prompt and
    /// vector-store collection; the chat model's context size is the
    /// prompt budget.
    pub fn new(
        system_prompt: String,
        models: &ModelBindings,
        collection: String,
        limit: u64,
        score_threshold: i64,
    ) -> (r: PipelineConfig)
        ensures
            r.system_prompt == system_prompt,
            r.chat_alias == models.chat.alias,
            r.embedding_alias == models.embedding.alias,
            r.context_size == models.chat.context_size,
            r.collection == collection,
            r.limit == limit,
            r.score_threshold == score_threshold,
    {
        PipelineConfig {
            system_prompt,
            chat_alias: models.chat.alias.clone(),
            embedding_alias: models.embedding.alias.clone(),
            context_size: models.chat.context_size,
            collection,
            limit,
            score_threshold,
        }
    }
}

} // verus!
