//! Data carried through the pipeline: messages, requests and retrieved documents.
use vstd::prelude::*;

verus! {

/// The author of a chat message.
#[derive(Clone, Copy, Debug, PartialEq, Eq, Structural)]
pub enum Role {
    System,
    User,
    Assistant,
}

/// One turn of a conversation.
#[derive(Debug)]
pub struct Message {
    pub role: Role,
    pub content: String,
}

impl Clone for Message {
    fn clone(&self) -> (r: Self)
        ensures
            r == *self,
    {
        Message { role: self.role, content: self.content.clone() }
    }
}

impl Message {
    pub fn new(role: Role, content: String) -> (r: Message)
        ensures
            r.role == role,
            r.content@ == content@,
    {
        Message { role, content }
    }
}

/// A document returned by the vector store.
///
/// The similarity score is held in fixed point, in millionths
/// (a score of 0.8 is `800_000`).
#[derive(Debug)]
pub struct Document {
    pub id: String,
    pub score: i64,
    pub text: String,
    pub source: Option<String>,
}

impl Clone for Document {
    fn clone(&self) -> (r: Self)
        ensures
            r == *self,
    {
        let source = match &self.source {
            Some(s) => Some(s.clone()),
            None => None,
        };
        Document { id: self.id.clone(), score: self.score, text: self.text.clone(), source }
    }
}

impl Document {
    pub fn new(id: String, score: i64, text: String, source: Option<String>) -> (r: Document)
        ensures
            r.id == id,
            r.score == score,
            r.text == text,
            r.source == source,
    {
        Document { id, score, text, source }
    }
}

} // verus!
