//! The per-request retrieval-augmented generation pipeline, as a state
//! machine: the caller performs each requested action (embedding, search,
//! generation) and feeds back what came of it.
use vstd::prelude::*;
use crate::model::{Document, Message, Role};
use crate::prompt::{assemble, assembled, lemma_over_budget_fails, AugmentedPrompt, PromptError};
use crate::retrieval::{
    filter_results, is_ranked, kept_results, last_user_index, latest_user_index,
    lemma_kept_results_ranked, lemma_last_user_index, scores_decreasing, scores_non_increasing,
};

verus! {

/// Settings fixed at startup and read by every request.
#[derive(Debug)]
pub struct PipelineConfig {
    pub system_prompt: String,
    pub chat_alias: String,
    pub embedding_alias: String,
    /// Token budget of the chat model.
    pub context_size: u64,
    pub collection: String,
    pub limit: u64,
    /// Minimum similarity score, in millionths.
    pub score_threshold: i64,
}

/// The parts of a generation request that the pipeline decides on.
/// Sampling parameters are passed through by the caller untouched.
#[derive(Debug)]
pub struct GenerationRequest {
    pub model: String,
    pub messages: Vec<Message>,
    pub stream: bool,
}

/// Where a request stands.
#[derive(Clone, Copy, Debug, PartialEq, Eq, Structural)]
pub enum Stage {
    Received,
    Embedding,
    Retrieving,
    Generating,
    Responding,
}

/// The errors a caller can see.
#[derive(Clone, Copy, Debug, PartialEq, Eq, Structural)]
pub enum ErrorKind {
    /// The request names a model other than the chat model.
    UnknownModel,
    /// The request has no messages.
    EmptyMessages,
    /// The system prompt and the latest user turn exceed the context size.
    PromptTooLong,
    /// The backend failed to produce output.
    GenerationFailed,
}

impl ErrorKind {
    pub open spec fn spec_code(self) -> u16 {
        match self {
            ErrorKind::UnknownModel => 400,
            ErrorKind::EmptyMessages => 400,
            ErrorKind::PromptTooLong => 400,
            ErrorKind::GenerationFailed => 500,
        }
    }

    /// The HTTP status that goes with the error.
    pub fn code(&self) -> (r: u16)
        ensures
            r == self.spec_code(),
    {
        match self {
            ErrorKind::UnknownModel => 400,
            ErrorKind::EmptyMessages => 400,
            ErrorKind::PromptTooLong => 400,
            ErrorKind::GenerationFailed => 500,
        }
    }

    pub open spec fn spec_name(self) -> Seq<char> {
        match self {
            ErrorKind::UnknownModel => "unknown_model"@,
            ErrorKind::EmptyMessages => "empty_messages"@,
            ErrorKind::PromptTooLong => "prompt_too_long"@,
            ErrorKind::GenerationFailed => "generation_failed"@,
        }
    }

    /// A stable name for the error, for the response body.
    pub fn name(&self) -> (r: &'static str)
        ensures
            r@ == self.spec_name(),
    {
        match self {
            ErrorKind::UnknownModel => "unknown_model",
            ErrorKind::EmptyMessages => "empty_messages",
            ErrorKind::PromptTooLong => "prompt_too_long",
            ErrorKind::GenerationFailed => "generation_failed",
        }
    }
}

/// What has happened since the last step.
#[derive(Debug)]
pub enum Event {
    /// The request has arrived.
    Start,
    /// The embedding call finished; `false` on failure or timeout.
    Embedded(bool),
    /// The search finished: the store's results, or `None` on failure or
    /// timeout.
    Searched(Option<Vec<Document>>),
    /// The generation call finished; `false` when the backend failed.
    Generated(bool),
}

/// What the caller must do next.
#[derive(Debug)]
pub enum Action {
    /// Embed `text` with the model `alias`.
    Embed { alias: String, text: String },
    /// Search `collection` with the embedding just made.
    Search { collection: String, limit: u64, score_threshold: i64 },
    /// Run the chat model on the prompt.
    Generate(AugmentedPrompt),
    /// Send the generation result to the caller.
    Respond,
    /// Send the error to the caller.
    Fail(ErrorKind),
    /// The event does not apply now: nothing to do.
    Wait,
}

/// One request going through the pipeline.
#[derive(Debug)]
pub struct Pipeline {
    pub config: PipelineConfig,
    pub request: GenerationRequest,
    pub stage: Stage,
    /// Set when embedding or search failed and the request went on
    /// without retrieved context.
    pub degraded: bool,
}

/// The move to generation with the documents `docs`: the assembled prompt,
/// or the budget error when even the shortest prompt does not fit.
pub open spec fn assembly_step(
    config: PipelineConfig,
    messages: Seq<Message>,
    docs: Seq<Document>,
    stage: Stage,
    action: Action,
) -> bool {
    let sys = config.system_prompt@;
    let budget = config.context_size as nat;
    match action {
        Action::Generate(p) => stage == Stage::Generating && assembled(
            sys,
            docs,
            messages,
            budget,
            Ok(p.parts()),
        ),
        Action::Fail(e) => stage == Stage::Responding && e == ErrorKind::PromptTooLong
            && assembled(sys, docs, messages, budget, Err(PromptError::BudgetExceeded)),
        _ => false,
    }
}

/// The pipeline's transition relation: from (`stage`, `degraded`) on
/// `event` to (`stage2`, `degraded2`), asking for `action`.
pub open spec fn transition(
    config: PipelineConfig,
    request: GenerationRequest,
    stage: Stage,
    degraded: bool,
    event: Event,
    stage2: Stage,
    degraded2: bool,
    action: Action,
) -> bool {
    let msgs = request.messages@;
    let none = Seq::<Document>::empty();
    match (stage, event) {
        (Stage::Received, Event::Start) => if request.model@ != config.chat_alias@ {
            stage2 == Stage::Responding && degraded2 == degraded && action == Action::Fail(
                ErrorKind::UnknownModel,
            )
        } else if msgs.len() == 0 {
            stage2 == Stage::Responding && degraded2 == degraded && action == Action::Fail(
                ErrorKind::EmptyMessages,
            )
        } else {
            match last_user_index(msgs) {
                Some(i) => stage2 == Stage::Embedding && degraded2 == degraded && match action {
                    Action::Embed { alias, text } => alias@ == config.embedding_alias@ && text@
                        == msgs[i].content@,
                    _ => false,
                },
                None => degraded2 == degraded && assembly_step(config, msgs, none, stage2, action),
            }
        },
        (Stage::Embedding, Event::Embedded(ok)) => if ok {
            stage2 == Stage::Retrieving && degraded2 == degraded && match action {
                Action::Search { collection, limit, score_threshold } => collection@
                    == config.collection@ && limit == config.limit && score_threshold
                    == config.score_threshold,
                _ => false,
            }
        } else {
            degraded2 && assembly_step(config, msgs, none, stage2, action)
        },
        (Stage::Retrieving, Event::Searched(found)) => match found {
            Some(docs) => if !scores_non_increasing(docs@) {
                degraded2 && assembly_step(config, msgs, none, stage2, action)
            } else {
                degraded2 == degraded && assembly_step(
                config,
                msgs,
                kept_results(docs@, config.limit as nat, config.score_threshold),
                stage2,
                action,
            )
            },
            None => degraded2 && assembly_step(config, msgs, none, stage2, action),
        },
        (Stage::Generating, Event::Generated(ok)) => stage2 == Stage::Responding && degraded2
            == degraded && if ok {
            action == Action::Respond
        } else {
            action == Action::Fail(ErrorKind::GenerationFailed)
        },
        _ => stage2 == stage && degraded2 == degraded && action == Action::Wait,
    }
}

impl Pipeline {
    /// A pipeline for `request`, not yet started.
    pub fn new(config: PipelineConfig, request: GenerationRequest) -> (r: Pipeline)
        ensures
            r.config == config,
            r.request == request,
            r.stage == Stage::Received,
            !r.degraded,
    {
        Pipeline { config, request, stage: Stage::Received, degraded: false }
    }

    /// Moves to generation with the documents `docs`.
    fn generate_with(&mut self, docs: &Vec<Document>) -> (a: Action)
        ensures
            final(self).config == old(self).config,
            final(self).request == old(self).request,
            final(self).degraded == old(self).degraded,
            assembly_step(
                old(self).config,
                old(self).request.messages@,
                docs@,
                final(self).stage,
                a,
            ),
    {
        let r = assemble(
            &self.config.system_prompt,
            docs,
            &self.request.messages,
            self.config.context_size,
        );
        match r {
            Ok(p) => {
                self.stage = Stage::Generating;
                Action::Generate(p)
            },
            Err(_) => {
                self.stage = Stage::Responding;
                Action::Fail(ErrorKind::PromptTooLong)
            },
        }
    }

    /// Takes in `event` and says what to do next.
    pub fn step(&mut self, event: Event) -> (a: Action)
        ensures
            final(self).config == old(self).config,
            final(self).request == old(self).request,
            transition(
                old(self).config,
                old(self).request,
                old(self).stage,
                old(self).degraded,
                event,
                final(self).stage,
                final(self).degraded,
                a,
            ),
    {
        let empty: Vec<Document> = Vec::new();
        match (self.stage, event) {
            (Stage::Received, Event::Start) => {
                if !(self.request.model == self.config.chat_alias) {
                    self.stage = Stage::Responding;
                    Action::Fail(ErrorKind::UnknownModel)
                } else if self.request.messages.len() == 0 {
                    self.stage = Stage::Responding;
                    Action::Fail(ErrorKind::EmptyMessages)
                } else {
                    match latest_user_index(&self.request.messages) {
                        Some(i) => {
                            self.stage = Stage::Embedding;
                            Action::Embed {
                                alias: self.config.embedding_alias.clone(),
                                text: self.request.messages[i].content.clone(),
                            }
                        },
                        None => self.generate_with(&empty),
                    }
                }
            },
            (Stage::Embedding, Event::Embedded(ok)) => {
                if ok {
                    self.stage = Stage::Retrieving;
                    Action::Search {
                        collection: self.config.collection.clone(),
                        limit: self.config.limit,
                        score_threshold: self.config.score_threshold,
                    }
                } else {
                    self.degraded = true;
                    self.generate_with(&empty)
                }
            },
            (Stage::Retrieving, Event::Searched(found)) => {
                match found {
                    Some(docs) => {
                        if is_ranked(&docs) {
                            let kept = filter_results(
                                &docs,
                                self.config.limit,
                                self.config.score_threshold,
                            );
                            self.generate_with(&kept)
                        } else {
                            // an unranked answer breaks the store's contract:
                            // go on without retrieved context
                            self.degraded = true;
                            self.generate_with(&empty)
                        }
                    },
                    None => {
                        self.degraded = true;
                        self.generate_with(&empty)
                    },
                }
            },
            (Stage::Generating, Event::Generated(ok)) => {
                self.stage = Stage::Responding;
                if ok {
                    Action::Respond
                } else {
                    Action::Fail(ErrorKind::GenerationFailed)
                }
            },
            _ => Action::Wait,
        }
    }
}

/// A request without any user message is never embedded nor searched for,
/// and the prompt built for it carries no retrieved context.
pub proof fn lemma_no_user_message_no_retrieval(
    config: PipelineConfig,
    request: GenerationRequest,
    degraded: bool,
    stage2: Stage,
    degraded2: bool,
    action: Action,
)
    requires
        transition(config, request, Stage::Received, degraded, Event::Start, stage2, degraded2, action),
        forall|j: int|
            0 <= j < request.messages@.len() ==> #[trigger] request.messages@[j].role != Role::User,
    ensures
        stage2 != Stage::Embedding && stage2 != Stage::Retrieving,
        !(action is Embed) && !(action is Search),
        action matches Action::Generate(p) ==> p.context@.len() == 0,
{
    lemma_last_user_index(request.messages@);
    if let Action::Generate(p) = action {
        let n = choose|n: int| 0 <= n <= 0 && p.context@ == Seq::<Document>::empty().take(n);
        assert(p.context@ =~= Seq::<Document>::empty());
    }
}

/// Whatever the store returns, the documents in a prompt sent for
/// generation all reach the score threshold, number at most the limit, and
/// are ranked by descending score; strictly so when the store's scores are
/// distinct.
pub proof fn lemma_prompt_context_ranked(
    config: PipelineConfig,
    request: GenerationRequest,
    stage: Stage,
    degraded: bool,
    event: Event,
    stage2: Stage,
    degraded2: bool,
    action: Action,
)
    requires
        transition(config, request, stage, degraded, event, stage2, degraded2, action),
    ensures
        action matches Action::Generate(p) ==> {
            &&& forall|k: int|
                0 <= k < p.context@.len() ==> #[trigger] p.context@[k].score
                    >= config.score_threshold
            &&& p.context@.len() <= config.limit
            &&& scores_non_increasing(p.context@)
            &&& (event matches Event::Searched(Some(docs)) && scores_decreasing(docs@))
                ==> scores_decreasing(p.context@)
        },
{
    if let Action::Generate(p) = action {
        let docs = choose|docs: Seq<Document>|
            assembly_step(config, request.messages@, docs, stage2, action);
        let n = choose|n: int| 0 <= n <= docs.len() && p.context@ == #[trigger] docs.take(n);
        assert(p.context@ == docs.take(n));
        if let Event::Searched(Some(found)) = event {
            if scores_non_increasing(found@) {
                lemma_kept_results_ranked(found@, config.limit as nat, config.score_threshold);
            }
            if scores_decreasing(found@) {
                assert(scores_non_increasing(found@));
            }
        }
    }
}

/// When the system prompt and the latest user message alone exceed the chat
/// model's context size, no step of the pipeline asks for generation: the
/// step that would assemble the prompt fails with `PromptTooLong`.
pub proof fn lemma_prompt_too_long_never_generates(
    config: PipelineConfig,
    request: GenerationRequest,
    stage: Stage,
    degraded: bool,
    event: Event,
    stage2: Stage,
    degraded2: bool,
    action: Action,
    i: int,
)
    requires
        transition(config, request, stage, degraded, event, stage2, degraded2, action),
        last_user_index(request.messages@) == Some(i),
        config.system_prompt@.len() + request.messages@[i].content@.len() > config.context_size,
    ensures
        !(action is Generate),
        stage == Stage::Retrieving && event is Searched ==> action == Action::Fail(
            ErrorKind::PromptTooLong,
        ),
        stage == Stage::Embedding && event == Event::Embedded(false) ==> action == Action::Fail(
            ErrorKind::PromptTooLong,
        ),
{
    if let Action::Generate(p) = action {
        let docs = choose|docs: Seq<Document>|
            assembly_step(config, request.messages@, docs, stage2, action);
        lemma_over_budget_fails(
            config.system_prompt@,
            docs,
            request.messages@,
            config.context_size as nat,
            Ok(p.parts()),
            i,
        );
    }
}

} // verus!
