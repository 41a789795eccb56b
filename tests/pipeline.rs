use rag_api_server::model::{Document, Message, Role};
use rag_api_server::pipeline::{
    Action, ErrorKind, Event, GenerationRequest, Pipeline, PipelineConfig, Stage,
};
use rag_api_server::prompt::{assemble, render_context, render_document, PromptError};
use rag_api_server::retrieval::{filter_results, is_ranked, latest_user_index, retrieval_query};

fn config(context_size: u64) -> PipelineConfig {
    PipelineConfig {
        system_prompt: "Be brief.".to_string(),
        chat_alias: "default".to_string(),
        embedding_alias: "embedding".to_string(),
        context_size,
        collection: "docs".to_string(),
        limit: 3,
        score_threshold: 400_000,
    }
}

fn doc(id: &str, score: i64, text: &str) -> Document {
    Document::new(id.to_string(), score, text.to_string(), None)
}

fn user(text: &str) -> Message {
    Message::new(Role::User, text.to_string())
}

fn assistant(text: &str) -> Message {
    Message::new(Role::Assistant, text.to_string())
}

fn request(messages: Vec<Message>) -> GenerationRequest {
    GenerationRequest { model: "default".to_string(), messages, stream: false }
}

fn scores(docs: &[Document]) -> Vec<i64> {
    docs.iter().map(|d| d.score).collect()
}

#[test]
fn scenario_a_both_documents_included_in_order() {
    let mut p = Pipeline::new(config(4096), request(vec![user("What is X?")]));
    match p.step(Event::Start) {
        Action::Embed { alias, text } => {
            assert_eq!(alias, "embedding");
            assert_eq!(text, "What is X?");
        }
        other => panic!("unexpected {:?}", other),
    }
    assert_eq!(p.stage, Stage::Embedding);
    match p.step(Event::Embedded(true)) {
        Action::Search { collection, limit, score_threshold } => {
            assert_eq!(collection, "docs");
            assert_eq!(limit, 3);
            assert_eq!(score_threshold, 400_000);
        }
        other => panic!("unexpected {:?}", other),
    }
    let found = vec![doc("a", 800_000, "X is a letter."), doc("b", 500_000, "X follows W.")];
    match p.step(Event::Searched(Some(found))) {
        Action::Generate(prompt) => {
            assert_eq!(scores(&prompt.context), vec![800_000, 500_000]);
            assert_eq!(prompt.system, "Be brief.");
            assert_eq!(prompt.history.len(), 1);
            assert_eq!(prompt.history[0].content, "What is X?");
        }
        other => panic!("unexpected {:?}", other),
    }
    assert_eq!(p.stage, Stage::Generating);
    assert!(!p.degraded);
    assert!(matches!(p.step(Event::Generated(true)), Action::Respond));
    assert_eq!(p.stage, Stage::Responding);
}

#[test]
fn scenario_b_search_timeout_degrades_to_history_only() {
    let mut p = Pipeline::new(config(4096), request(vec![user("What is X?")]));
    assert!(matches!(p.step(Event::Start), Action::Embed { .. }));
    assert!(matches!(p.step(Event::Embedded(true)), Action::Search { .. }));
    match p.step(Event::Searched(None)) {
        Action::Generate(prompt) => {
            assert!(prompt.context.is_empty());
            assert_eq!(prompt.history.len(), 1);
        }
        other => panic!("unexpected {:?}", other),
    }
    assert!(p.degraded);
    assert!(matches!(p.step(Event::Generated(true)), Action::Respond));
}

#[test]
fn embedding_failure_degrades_to_history_only() {
    let mut p = Pipeline::new(config(4096), request(vec![user("What is X?")]));
    assert!(matches!(p.step(Event::Start), Action::Embed { .. }));
    match p.step(Event::Embedded(false)) {
        Action::Generate(prompt) => assert!(prompt.context.is_empty()),
        other => panic!("unexpected {:?}", other),
    }
    assert!(p.degraded);
}

#[test]
fn no_user_message_skips_retrieval() {
    let mut p = Pipeline::new(
        config(4096),
        request(vec![Message::new(Role::System, "probe".to_string())]),
    );
    match p.step(Event::Start) {
        Action::Generate(prompt) => {
            assert!(prompt.context.is_empty());
            assert_eq!(prompt.history.len(), 1);
        }
        other => panic!("unexpected {:?}", other),
    }
    assert!(!p.degraded);
}

#[test]
fn wrong_model_is_rejected() {
    let mut r = request(vec![user("hi")]);
    r.model = "other".to_string();
    let mut p = Pipeline::new(config(4096), r);
    assert!(matches!(p.step(Event::Start), Action::Fail(ErrorKind::UnknownModel)));
    assert_eq!(p.stage, Stage::Responding);
    assert!(matches!(p.step(Event::Generated(true)), Action::Wait));
}

#[test]
fn empty_messages_are_rejected() {
    let mut p = Pipeline::new(config(4096), request(vec![]));
    assert!(matches!(p.step(Event::Start), Action::Fail(ErrorKind::EmptyMessages)));
}

#[test]
fn prompt_over_budget_never_generates() {
    // "Be brief." is 9 characters and the question 10: 19 > 15.
    let mut p = Pipeline::new(config(15), request(vec![user("What is X?")]));
    assert!(matches!(p.step(Event::Start), Action::Embed { .. }));
    assert!(matches!(p.step(Event::Embedded(true)), Action::Search { .. }));
    let found = vec![doc("a", 800_000, "X.")];
    assert!(matches!(p.step(Event::Searched(Some(found))), Action::Fail(ErrorKind::PromptTooLong)));
    assert_eq!(p.stage, Stage::Responding);
    assert!(matches!(p.step(Event::Generated(true)), Action::Wait));
}

#[test]
fn generation_failure_is_reported() {
    let mut p = Pipeline::new(config(4096), request(vec![assistant("hello")]));
    assert!(matches!(p.step(Event::Start), Action::Generate(_)));
    assert!(matches!(p.step(Event::Generated(false)), Action::Fail(ErrorKind::GenerationFailed)));
}

#[test]
fn events_out_of_turn_are_ignored() {
    let mut p = Pipeline::new(config(4096), request(vec![user("hi")]));
    assert!(matches!(p.step(Event::Embedded(true)), Action::Wait));
    assert_eq!(p.stage, Stage::Received);
}

#[test]
fn error_codes_are_stable() {
    assert_eq!(ErrorKind::UnknownModel.code(), 400);
    assert_eq!(ErrorKind::EmptyMessages.code(), 400);
    assert_eq!(ErrorKind::PromptTooLong.code(), 400);
    assert_eq!(ErrorKind::GenerationFailed.code(), 500);
    assert_eq!(ErrorKind::PromptTooLong.name(), "prompt_too_long");
    assert_eq!(ErrorKind::GenerationFailed.name(), "generation_failed");
}

#[test]
fn filter_drops_low_scores_and_caps_at_limit() {
    let docs = vec![
        doc("a", 900_000, "a"),
        doc("b", 700_000, "b"),
        doc("c", 300_000, "c"),
        doc("d", 600_000, "d"),
        doc("e", 500_000, "e"),
    ];
    let kept = filter_results(&docs, 3, 400_000);
    assert_eq!(scores(&kept), vec![900_000, 700_000, 600_000]);
    let all = filter_results(&docs, 10, 400_000);
    assert_eq!(scores(&all), vec![900_000, 700_000, 600_000, 500_000]);
}

#[test]
fn filter_keeps_score_equal_to_threshold() {
    let docs = vec![doc("a", 400_000, "a"), doc("b", 399_999, "b")];
    assert_eq!(scores(&filter_results(&docs, 3, 400_000)), vec![400_000]);
}

#[test]
fn filter_edge_cases() {
    assert!(filter_results(&vec![], 3, 0).is_empty());
    let docs = vec![doc("a", 500_000, "a"), doc("b", 500_000, "b")];
    assert!(filter_results(&docs, 0, 0).is_empty());
    let kept = filter_results(&docs, 3, 0);
    assert_eq!(kept.len(), 2);
    assert_eq!(kept[0].id, "a");
    assert_eq!(kept[1].id, "b");
}

#[test]
fn query_is_latest_user_message() {
    let msgs = vec![user("first"), assistant("answer"), user("second"), assistant("again")];
    assert_eq!(latest_user_index(&msgs), Some(2));
    assert_eq!(retrieval_query(&msgs), Some("second".to_string()));
    let none = vec![assistant("x")];
    assert_eq!(latest_user_index(&none), None);
    assert_eq!(retrieval_query(&none), None);
}

#[test]
fn render_context_formats_blocks() {
    let docs = vec![
        Document::new("1".to_string(), 9, "alpha".to_string(), Some("a.md".to_string())),
        doc("2", 8, "beta"),
    ];
    assert_eq!(render_document(&docs[1]), "beta\n\n");
    assert_eq!(render_context(&docs), "alpha\n(source: a.md)\n\nbeta\n\n");
    assert_eq!(render_context(&vec![]), "");
}

#[test]
fn assemble_keeps_everything_within_budget() {
    let docs = vec![doc("a", 9, "abc")];
    let history = vec![user("hi"), assistant("yo"), user("ok")];
    let p = assemble(&"S".to_string(), &docs, &history, 100).unwrap();
    assert_eq!(p.system, "S");
    assert_eq!(p.context.len(), 1);
    assert_eq!(p.history.len(), 3);
}

#[test]
fn assemble_drops_oldest_history_first() {
    // system 1 + block "abc\n\n" 5 + messages 2 + 2 + 2 = 12
    let docs = vec![doc("a", 9, "abc")];
    let history = vec![user("hi"), assistant("yo"), user("ok")];
    let p = assemble(&"S".to_string(), &docs, &history, 10).unwrap();
    assert_eq!(p.context.len(), 1);
    let kept: Vec<&str> = p.history.iter().map(|m| m.content.as_str()).collect();
    assert_eq!(kept, vec!["yo", "ok"]);
    let p = assemble(&"S".to_string(), &docs, &history, 8).unwrap();
    assert_eq!(p.context.len(), 1);
    assert_eq!(p.history.len(), 1);
    assert_eq!(p.history[0].content, "ok");
}

#[test]
fn assemble_drops_lowest_ranked_documents_next() {
    // system 1 + blocks 5 + 4 + message 2
    let docs = vec![doc("a", 9, "abc"), doc("b", 8, "de")];
    let history = vec![user("hi"), user("ok")];
    let p = assemble(&"S".to_string(), &docs, &history, 8).unwrap();
    assert_eq!(scores(&p.context), vec![9]);
    assert_eq!(p.history.len(), 1);
    let p = assemble(&"S".to_string(), &docs, &history, 3).unwrap();
    assert!(p.context.is_empty());
    assert_eq!(p.history[0].content, "ok");
}

#[test]
fn assemble_fails_when_system_and_latest_user_exceed_budget() {
    let history = vec![user("hello")];
    let r = assemble(&"system".to_string(), &vec![], &history, 10);
    assert_eq!(r.unwrap_err(), PromptError::BudgetExceeded);
    assert!(assemble(&"system".to_string(), &vec![], &history, 11).is_ok());
}

#[test]
fn assemble_is_deterministic() {
    let docs = vec![doc("a", 9, "abc"), doc("b", 8, "de")];
    let history = vec![user("hi"), assistant("yo"), user("ok")];
    let a = assemble(&"S".to_string(), &docs, &history, 9).unwrap();
    let b = assemble(&"S".to_string(), &docs, &history, 9).unwrap();
    assert_eq!(a.system, b.system);
    assert_eq!(scores(&a.context), scores(&b.context));
    let ha: Vec<&str> = a.history.iter().map(|m| m.content.as_str()).collect();
    let hb: Vec<&str> = b.history.iter().map(|m| m.content.as_str()).collect();
    assert_eq!(ha, hb);
}

#[test]
fn segments_put_system_then_context_then_history() {
    let docs = vec![doc("a", 9, "abc")];
    let history = vec![user("hi"), assistant("yo")];
    let p = assemble(&"S".to_string(), &docs, &history, 100).unwrap();
    let seg = p.segments();
    assert_eq!(seg.len(), 4);
    assert_eq!(seg[0].role, Role::System);
    assert_eq!(seg[0].content, "S");
    assert_eq!(seg[1].role, Role::System);
    assert_eq!(seg[1].content, "abc\n\n");
    assert_eq!(seg[2].role, Role::User);
    assert_eq!(seg[2].content, "hi");
    assert_eq!(seg[3].role, Role::Assistant);
    let bare = assemble(&"S".to_string(), &vec![], &history, 100).unwrap();
    assert_eq!(bare.segments().len(), 3);
}

#[test]
fn search_timeout_keeps_latest_user_message_only() {
    let mut cfg = config(3);
    cfg.system_prompt = String::new();
    let mut p = Pipeline::new(cfg, request(vec![user("q"), assistant("xxxxx")]));
    assert!(matches!(p.step(Event::Start), Action::Embed { .. }));
    assert!(matches!(p.step(Event::Embedded(true)), Action::Search { .. }));
    match p.step(Event::Searched(None)) {
        Action::Generate(prompt) => {
            assert!(prompt.context.is_empty());
            assert_eq!(prompt.history.len(), 1);
            assert_eq!(prompt.history[0].content, "q");
        }
        other => panic!("unexpected {:?}", other),
    }
    assert!(p.degraded);
}

#[test]
fn assemble_cuts_to_latest_user_message_before_dropping_documents() {
    // system 1 + block "ab\n\n" 4 + "hi" 2 + "q" 1 + "xxxx" 4
    let docs = vec![doc("a", 9, "ab")];
    let history = vec![user("hi"), user("q"), assistant("xxxx")];
    let p = assemble(&"S".to_string(), &docs, &history, 10).unwrap();
    assert_eq!(p.context.len(), 1);
    let kept: Vec<&str> = p.history.iter().map(|m| m.content.as_str()).collect();
    assert_eq!(kept, vec!["q", "xxxx"]);
    let p = assemble(&"S".to_string(), &docs, &history, 6).unwrap();
    assert_eq!(p.context.len(), 1);
    let kept: Vec<&str> = p.history.iter().map(|m| m.content.as_str()).collect();
    assert_eq!(kept, vec!["q"]);
    let p = assemble(&"S".to_string(), &docs, &history, 5).unwrap();
    assert!(p.context.is_empty());
    assert_eq!(p.history.len(), 1);
    assert_eq!(p.history[0].content, "q");
    assert_eq!(assemble(&"S".to_string(), &docs, &history, 1).unwrap_err(), PromptError::BudgetExceeded);
}

#[test]
fn unranked_store_answer_is_treated_as_a_failed_search() {
    let mut p = Pipeline::new(config(4096), request(vec![user("What is X?")]));
    assert!(matches!(p.step(Event::Start), Action::Embed { .. }));
    assert!(matches!(p.step(Event::Embedded(true)), Action::Search { .. }));
    let found = vec![doc("a", 500_000, "low"), doc("b", 800_000, "high")];
    match p.step(Event::Searched(Some(found))) {
        Action::Generate(prompt) => assert!(prompt.context.is_empty()),
        other => panic!("unexpected {:?}", other),
    }
    assert!(p.degraded);
}

#[test]
fn ranking_check() {
    assert!(is_ranked(&vec![]));
    assert!(is_ranked(&vec![doc("a", 5, "a"), doc("b", 5, "b"), doc("c", 1, "c")]));
    assert!(!is_ranked(&vec![doc("a", 1, "a"), doc("b", 2, "b")]));
}
