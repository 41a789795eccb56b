//! Choosing the retrieval query and cleaning up what the vector store returns.
use vstd::prelude::*;
use crate::model::{Document, Message, Role};

verus! {

/// The documents of `docs` whose score reaches `threshold`, in their order.
pub open spec fn above_threshold(docs: Seq<Document>, threshold: i64) -> Seq<Document> {
    docs.filter(reaches(threshold))
}

/// Whether a document's score is at least `threshold`.
pub open spec fn reaches(threshold: i64) -> spec_fn(Document) -> bool {
    |d: Document| d.score >= threshold
}

/// What the client keeps of a search response: entries under the threshold
/// are dropped, then the list is cut to `limit` entries.
pub open spec fn kept_results(docs: Seq<Document>, limit: nat, threshold: i64) -> Seq<Document> {
    let f = above_threshold(docs, threshold);
    if f.len() <= limit { f } else { f.take(limit as int) }
}

/// Scores never increase along the list.
pub open spec fn scores_non_increasing(docs: Seq<Document>) -> bool {
    forall|i: int, j: int| 0 <= i < j < docs.len() ==> docs[i].score >= docs[j].score
}

/// Scores strictly decrease along the list.
pub open spec fn scores_decreasing(docs: Seq<Document>) -> bool {
    forall|i: int, j: int| 0 <= i < j < docs.len() ==> docs[i].score > docs[j].score
}

/// Filters a search response: keeps, in order, the entries whose score is at
/// least `threshold`, and at most `limit` of them.
pub fn filter_results(docs: &Vec<Document>, limit: u64, threshold: i64) -> (r: Vec<Document>)
    ensures
        r@ == kept_results(docs@, limit as nat, threshold),
{
    let mut r: Vec<Document> = Vec::new();
    let mut i: usize = 0;
    while i < docs.len() && (r.len() as u64) < limit
        invariant
            i <= docs.len(),
            r.len() <= limit,
            r@ == above_threshold(docs@.take(i as int), threshold),
        decreases docs.len() - i,
    {
        proof {
            reveal(Seq::filter);
            assert(docs@.take(i as int + 1).drop_last() == docs@.take(i as int));
        }
        if docs[i].score >= threshold {
            r.push(docs[i].clone());
        }
        i = i + 1;
    }
    proof {
        lemma_filter_prefix(docs@, i as nat, threshold, limit as nat);
    }
    r
}

proof fn lemma_filter_prefix(docs: Seq<Document>, i: nat, threshold: i64, limit: nat)
    requires
        i <= docs.len(),
        above_threshold(docs.take(i as int), threshold).len() <= limit,
        i == docs.len() || above_threshold(docs.take(i as int), threshold).len() == limit,
    ensures
        above_threshold(docs.take(i as int), threshold) == kept_results(docs, limit, threshold),
{
    let p = reaches(threshold);
    if i < docs.len() {
        assert(docs == docs.take(i as int) + docs.skip(i as int));
        Seq::filter_distributes_over_add(docs.take(i as int), docs.skip(i as int), p);
        let f = above_threshold(docs, threshold);
        assert(f.take(limit as int) == above_threshold(docs.take(i as int), threshold));
    } else {
        assert(docs.take(i as int) == docs);
    }
}

proof fn lemma_filter_keeps_order(docs: Seq<Document>, threshold: i64)
    ensures
        forall|k: int|
            0 <= k < above_threshold(docs, threshold).len() ==> #[trigger] above_threshold(
                docs,
                threshold,
            )[k].score >= threshold,
        scores_non_increasing(docs) ==> scores_non_increasing(above_threshold(docs, threshold)),
        scores_decreasing(docs) ==> scores_decreasing(above_threshold(docs, threshold)),
    decreases docs.len(),
{
    reveal(Seq::filter);
    if docs.len() > 0 {
        let p = reaches(threshold);
        let init = docs.drop_last();
        lemma_filter_keeps_order(init, threshold);
        let fi = above_threshold(init, threshold);
        let f = above_threshold(docs, threshold);
        assert forall|k: int| 0 <= k < fi.len() implies init.contains(#[trigger] fi[k]) by {
            assert(fi.contains(fi[k]));
            init.lemma_filter_contains_rev(p, fi[k]);
        }
        if scores_non_increasing(docs) {
            assert forall|i: int, j: int| 0 <= i < j < f.len() implies f[i].score >= f[j].score by {
                if j == fi.len() {
                    assert(init.contains(fi[i]));
                }
            }
        }
        if scores_decreasing(docs) {
            assert forall|i: int, j: int| 0 <= i < j < f.len() implies f[i].score > f[j].score by {
                if j == fi.len() {
                    assert(init.contains(fi[i]));
                }
            }
        }
    }
}

/// Every kept search result reaches the threshold, at most `limit` are
/// kept, and the descending order in which the store ranks its results is
/// kept (strictly so where the store's scores are distinct).
pub proof fn lemma_kept_results_ranked(docs: Seq<Document>, limit: nat, threshold: i64)
    ensures
        forall|k: int|
            0 <= k < kept_results(docs, limit, threshold).len() ==> #[trigger] kept_results(
                docs,
                limit,
                threshold,
            )[k].score >= threshold,
        kept_results(docs, limit, threshold).len() <= limit,
        scores_non_increasing(docs) ==> scores_non_increasing(
            kept_results(docs, limit, threshold),
        ),
        scores_decreasing(docs) ==> scores_decreasing(kept_results(docs, limit, threshold)),
{
    lemma_filter_keeps_order(docs, threshold);
    let f = above_threshold(docs, threshold);
    let r = kept_results(docs, limit, threshold);
    if f.len() > limit {
        assert forall|k: int| 0 <= k < r.len() implies #[trigger] r[k].score >= threshold by {
            assert(r[k] == f[k]);
        }
    }
}

/// Whether the store ranked `docs` as it promises: scores never increase
/// along the list.
pub fn is_ranked(docs: &Vec<Document>) -> (r: bool)
    ensures
        r == scores_non_increasing(docs@),
{
    let mut i: usize = 1;
    while i < docs.len()
        invariant
            1 <= i,
            forall|a: int, b: int| 0 <= a < b < i && b < docs.len() ==> docs@[a].score >= docs@[b].score,
        decreases docs.len() - i,
    {
        if docs[i - 1].score < docs[i].score {
            return false;
        }
        i = i + 1;
    }
    true
}

/// The most recent user message of a conversation, by position.
pub open spec fn last_user_index(msgs: Seq<Message>) -> Option<int>
    decreases msgs.len(),
{
    if msgs.len() == 0 {
        None
    } else if msgs.last().role == Role::User {
        Some(msgs.len() - 1)
    } else {
        last_user_index(msgs.drop_last())
    }
}

pub(crate) proof fn lemma_last_user_index(msgs: Seq<Message>)
    ensures
        match last_user_index(msgs) {
            Some(i) => 0 <= i < msgs.len() && msgs[i].role == Role::User && forall|j: int|
                i < j < msgs.len() ==> msgs[j].role != Role::User,
            None => forall|j: int| 0 <= j < msgs.len() ==> msgs[j].role != Role::User,
        },
    decreases msgs.len(),
{
    if msgs.len() > 0 {
        let init = msgs.drop_last();
        lemma_last_user_index(init);
        assert forall|j: int| 0 <= j < init.len() implies init[j] == msgs[j] by {}
        if msgs.last().role != Role::User {
            match last_user_index(init) {
                Some(i) => {
                    assert forall|j: int| i < j < msgs.len() implies msgs[j].role != Role::User by {
                        if j < init.len() {
                            assert(init[j] == msgs[j]);
                        }
                    }
                },
                None => {
                    assert forall|j: int| 0 <= j < msgs.len() implies msgs[j].role != Role::User by {
                        if j < init.len() {
                            assert(init[j] == msgs[j]);
                        }
                    }
                },
            }
        }
    }
}

/// Position of the most recent user message, if there is one.
pub fn latest_user_index(msgs: &Vec<Message>) -> (r: Option<usize>)
    ensures
        match r {
            Some(i) => i < msgs.len() && last_user_index(msgs@) == Some(i as int),
            None => last_user_index(msgs@) == None::<int>,
        },
{
    proof {
        lemma_last_user_index(msgs@);
    }
    let mut i: usize = msgs.len();
    assert(msgs@.take(i as int) == msgs@);
    while i > 0
        invariant
            i <= msgs.len(),
            last_user_index(msgs@) == last_user_index(msgs@.take(i as int)),
            match last_user_index(msgs@) {
                Some(j) => 0 <= j < msgs.len(),
                None => true,
            },
        decreases i,
    {
        assert(msgs@.take(i as int).drop_last() == msgs@.take(i as int - 1));
        if msgs[i - 1].role == Role::User {
            return Some(i - 1);
        }
        i = i - 1;
    }
    None
}

/// The text to search the vector store with: the content of the most recent
/// user message, or nothing when the conversation has no user message.
pub fn retrieval_query(msgs: &Vec<Message>) -> (r: Option<String>)
    ensures
        match last_user_index(msgs@) {
            Some(i) => r == Some(msgs@[i].content),
            None => r.is_none(),
        },
{
    proof {
        lemma_last_user_index(msgs@);
    }
    match latest_user_index(msgs) {
        Some(i) => Some(msgs[i].content.clone()),
        None => None,
    }
}

} // verus!
