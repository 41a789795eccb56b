//! Token-budgeted assembly of the augmented prompt.
//!
//! Token counts are estimated conservatively as one token per character.
use vstd::prelude::*;
use crate::model::{Document, Message, Role};
use crate::retrieval::{last_user_index, latest_user_index, lemma_last_user_index};

verus! {

/// The prompt handed to the generation backend: the system prompt, the
/// retrieved documents that fit, and what is kept of the conversation.
#[derive(Debug)]
pub struct AugmentedPrompt {
    pub system: String,
    pub context: Vec<Document>,
    pub history: Vec<Message>,
}

/// The only way assembly fails.
#[derive(Clone, Copy, Debug, PartialEq, Eq, Structural)]
pub enum PromptError {
    /// The system prompt and the latest user turn alone exceed the budget.
    BudgetExceeded,
}

/// How one retrieved document is written into the context segment.
pub open spec fn doc_block(d: Document) -> Seq<char> {
    match d.source {
        Some(s) => d.text@ + "\n(source: "@ + s@ + ")\n\n"@,
        None => d.text@ + "\n\n"@,
    }
}

/// The context segment: the documents' blocks, in order.
pub open spec fn context_text(docs: Seq<Document>) -> Seq<char>
    decreases docs.len(),
{
    if docs.len() == 0 {
        Seq::empty()
    } else {
        context_text(docs.drop_last()) + doc_block(docs.last())
    }
}

/// Estimated tokens of the context segment.
pub open spec fn docs_cost(docs: Seq<Document>) -> nat
    decreases docs.len(),
{
    if docs.len() == 0 {
        0
    } else {
        docs_cost(docs.drop_last()) + doc_block(docs.last()).len()
    }
}

/// Estimated tokens of a run of messages.
pub open spec fn history_cost(msgs: Seq<Message>) -> nat
    decreases msgs.len(),
{
    if msgs.len() == 0 {
        0
    } else {
        history_cost(msgs.drop_last()) + msgs.last().content@.len()
    }
}

/// Estimated tokens of a prompt made of `system`, `docs` and `msgs`.
pub open spec fn prompt_cost(system: Seq<char>, docs: Seq<Document>, msgs: Seq<Message>) -> nat {
    system.len() + docs_cost(docs) + history_cost(msgs)
}

/// The history kept at cut level `c`. Up to the latest user message's
/// position, level `c` keeps the messages from position `c` on; one level
/// further, only the latest user message is left. Without a user message,
/// level `c` keeps the messages from position `c` on, down to none.
pub open spec fn kept_history(history: Seq<Message>, c: int) -> Seq<Message> {
    match last_user_index(history) {
        Some(i) => if c <= i {
            history.skip(c)
        } else {
            seq![history[i]]
        },
        None => history.skip(c),
    }
}

/// The deepest cut level: the latest user message alone, or no history
/// when there is no user message.
pub open spec fn history_floor(history: Seq<Message>) -> int {
    match last_user_index(history) {
        Some(i) => i + 1,
        None => history.len() as int,
    }
}

/// Whether the prompt keeping the first `n` documents and the history at
/// cut level `c` stays within `budget`.
pub open spec fn fits(
    system: Seq<char>,
    docs: Seq<Document>,
    n: int,
    history: Seq<Message>,
    c: int,
    budget: nat,
) -> bool {
    prompt_cost(system, docs.take(n), kept_history(history, c)) <= budget
}

/// What assembly owes for the inputs: `Err` exactly when the system prompt
/// and the latest user message alone (no documents) exceed the budget;
/// otherwise the prompt cuts the history the least that makes it fit with
/// every document, and only when even the latest user message alone does
/// not fit with them, drops the fewest lowest-ranked documents.
pub open spec fn assembled(
    system: Seq<char>,
    docs: Seq<Document>,
    history: Seq<Message>,
    budget: nat,
    r: Result<(Seq<char>, Seq<Document>, Seq<Message>), PromptError>,
) -> bool {
    let floor = history_floor(history);
    match r {
        Err(e) => e == PromptError::BudgetExceeded && !fits(
            system,
            docs,
            0,
            history,
            floor,
            budget,
        ),
        Ok((s, c, h)) => exists|n: int, k: int|
            {
                &&& 0 <= n <= docs.len()
                &&& 0 <= k <= floor
                &&& s == system
                &&& c == docs.take(n)
                &&& h == kept_history(history, k)
                &&& fits(system, docs, n, history, k, budget)
                &&& n == docs.len() ==> forall|j: int|
                    0 <= j < k ==> !fits(system, docs, n, history, j, budget)
                &&& n < docs.len() ==> k == floor && forall|j: int|
                    0 <= j <= floor ==> !fits(system, docs, docs.len() as int, history, j, budget)
                &&& n < docs.len() ==> forall|m: int|
                    n < m <= docs.len() ==> !fits(system, docs, m, history, floor, budget)
            },
    }
}

impl AugmentedPrompt {
    /// The prompt's parts as mathematical values.
    pub open spec fn parts(&self) -> (Seq<char>, Seq<Document>, Seq<Message>) {
        (self.system@, self.context@, self.history@)
    }
}

/// The abstract outcome of an assembly call.
pub open spec fn outcome(r: Result<AugmentedPrompt, PromptError>) -> Result<
    (Seq<char>, Seq<Document>, Seq<Message>),
    PromptError,
> {
    match r {
        Ok(p) => Ok(p.parts()),
        Err(e) => Err(e),
    }
}

/// A message as a role and its text.
pub open spec fn message_view(m: Message) -> (Role, Seq<char>) {
    (m.role, m.content@)
}

/// The segments that come before the history: the system prompt, then the
/// context segment when there is retrieved context.
pub open spec fn leading_segments(system: Seq<char>, docs: Seq<Document>) -> Seq<(Role, Seq<char>)> {
    if docs.len() == 0 {
        seq![(Role::System, system)]
    } else {
        seq![(Role::System, system), (Role::System, context_text(docs))]
    }
}

/// The prompt as the chat model reads it: the system prompt, then the
/// context segment when there is retrieved context, then the history.
pub open spec fn segments_of(system: Seq<char>, docs: Seq<Document>, history: Seq<Message>) -> Seq<
    (Role, Seq<char>),
> {
    leading_segments(system, docs) + history.map_values(|m: Message| message_view(m))
}

impl AugmentedPrompt {
    /// The prompt as a list of messages for the chat model.
    pub fn segments(&self) -> (r: Vec<Message>)
        ensures
            r@.map_values(|m: Message| message_view(m)) == segments_of(
                self.system@,
                self.context@,
                self.history@,
            ),
    {
        let ghost lead = leading_segments(self.system@, self.context@);
        let mut r: Vec<Message> = Vec::new();
        r.push(Message::new(Role::System, self.system.clone()));
        if self.context.len() > 0 {
            r.push(Message::new(Role::System, render_context(&self.context)));
        }
        let mut i: usize = 0;
        while i < self.history.len()
            invariant
                i <= self.history.len(),
                lead == leading_segments(self.system@, self.context@),
                r@.len() == lead.len() + i,
                forall|j: int| 0 <= j < lead.len() ==> message_view(#[trigger] r@[j]) == lead[j],
                forall|j: int|
                    0 <= j < i ==> message_view(#[trigger] r@[lead.len() + j]) == message_view(
                        self.history@[j],
                    ),
            decreases self.history.len() - i,
        {
            r.push(self.history[i].clone());
            i = i + 1;
        }
        let ghost want = segments_of(self.system@, self.context@, self.history@);
        let ghost hv = self.history@.map_values(|m: Message| message_view(m));
        assert forall|k: int| 0 <= k < r@.len() implies message_view(r@[k]) == want[k] by {
            if k >= lead.len() {
                let j = k - lead.len();
                assert(message_view(r@[lead.len() + j]) == message_view(self.history@[j]));
                assert(hv[j] == message_view(self.history@[j]));
            }
        }
        assert(r@.map_values(|m: Message| message_view(m)) =~= want);
        r
    }
}

/// Writes one document's block of the context segment.
pub fn render_document(d: &Document) -> (r: String)
    ensures
        r@ == doc_block(*d),
{
    let mut out = d.text.clone();
    match &d.source {
        Some(s) => {
            out.append("\n(source: ");
            out.append(s.as_str());
            out.append(")\n\n");
        },
        None => {
            out.append("\n\n");
        },
    }
    out
}

/// Writes the context segment for `docs`, highest-ranked first.
pub fn render_context(docs: &Vec<Document>) -> (r: String)
    ensures
        r@ == context_text(docs@),
{
    let mut out = String::new();
    let mut i: usize = 0;
    while i < docs.len()
        invariant
            i <= docs.len(),
            out@ == context_text(docs@.take(i as int)),
        decreases docs.len() - i,
    {
        assert(docs@.take(i as int + 1).drop_last() == docs@.take(i as int));
        let block = render_document(&docs[i]);
        out.append(block.as_str());
        i = i + 1;
    }
    assert(docs@.take(i as int) == docs@);
    out
}

proof fn lemma_history_cost_add(a: Seq<Message>, b: Seq<Message>)
    ensures
        history_cost(a + b) == history_cost(a) + history_cost(b),
    decreases b.len(),
{
    if b.len() > 0 {
        assert((a + b).drop_last() == a + b.drop_last());
        lemma_history_cost_add(a, b.drop_last());
    } else {
        assert(a + b == a);
    }
}

proof fn lemma_docs_cost_add(a: Seq<Document>, b: Seq<Document>)
    ensures
        docs_cost(a + b) == docs_cost(a) + docs_cost(b),
    decreases b.len(),
{
    if b.len() > 0 {
        assert((a + b).drop_last() == a + b.drop_last());
        lemma_docs_cost_add(a, b.drop_last());
    } else {
        assert(a + b == a);
    }
}

/// Keeping more documents never lowers the cost.
proof fn lemma_docs_cost_prefix(docs: Seq<Document>, i: int, n: int)
    requires
        0 <= i <= n <= docs.len(),
    ensures
        docs_cost(docs.take(i)) <= docs_cost(docs.take(n)),
{
    assert(docs.take(n) == docs.take(i) + docs.subrange(i, n));
    lemma_docs_cost_add(docs.take(i), docs.subrange(i, n));
}

/// Keeping more of the history never lowers the cost.
proof fn lemma_history_cost_suffix(history: Seq<Message>, k: int, j: int, end: int)
    requires
        0 <= k <= j <= end <= history.len(),
    ensures
        history_cost(history.subrange(j, end)) <= history_cost(history.subrange(k, end)),
        history_cost(history.subrange(k, j)) <= history_cost(history.subrange(k, end)),
{
    assert(history.subrange(k, end) == history.subrange(k, j) + history.subrange(j, end));
    lemma_history_cost_add(history.subrange(k, j), history.subrange(j, end));
}

/// The cost of a run of messages is at least that of its first message.
proof fn lemma_history_cost_first(msgs: Seq<Message>)
    requires
        msgs.len() > 0,
    ensures
        history_cost(msgs) >= msgs[0].content@.len(),
        history_cost(seq![msgs[0]]) == msgs[0].content@.len(),
{
    let tail = msgs.subrange(1, msgs.len() as int);
    assert(msgs == seq![msgs[0]] + tail);
    lemma_history_cost_add(seq![msgs[0]], tail);
    assert(seq![msgs[0]].drop_last() == Seq::<Message>::empty());
    assert(seq![msgs[0]].last() == msgs[0]);
    assert(history_cost(Seq::<Message>::empty()) == 0);
}

/// Cutting the history deeper never raises its cost.
proof fn lemma_kept_history_shrinks(history: Seq<Message>, c: int, d: int)
    requires
        0 <= c <= d <= history_floor(history),
    ensures
        history_cost(kept_history(history, d)) <= history_cost(kept_history(history, c)),
{
    lemma_floor_in_range(history);
    let len = history.len() as int;
    assert(history.skip(c) == history.subrange(c, len));
    match last_user_index(history) {
        Some(i) => {
            if d <= i {
                assert(history.skip(d) == history.subrange(d, len));
                lemma_history_cost_suffix(history, c, d, len);
            } else if c <= i {
                assert(history.skip(i) == history.subrange(i, len));
                lemma_history_cost_suffix(history, c, i, len);
                lemma_history_cost_first(history.skip(i));
                assert(history.skip(i)[0] == history[i]);
            }
        },
        None => {
            assert(history.skip(d) == history.subrange(d, len));
            lemma_history_cost_suffix(history, c, d, len);
        },
    }
}

/// Dropping documents or cutting the history deeper never makes a fitting
/// prompt stop fitting.
proof fn lemma_fits_shrink(
    system: Seq<char>,
    docs: Seq<Document>,
    n: int,
    m: int,
    history: Seq<Message>,
    k: int,
    j: int,
    budget: nat,
)
    requires
        0 <= m <= n <= docs.len(),
        0 <= k <= j <= history_floor(history),
        fits(system, docs, n, history, k, budget),
    ensures
        fits(system, docs, m, history, j, budget),
{
    lemma_docs_cost_prefix(docs, m, n);
    lemma_kept_history_shrinks(history, k, j);
    assert(docs.take(n).take(n) == docs.take(n));
    assert(docs.take(m).take(m) == docs.take(m));
}

/// Prompt assembly is deterministic: for the same system prompt, documents,
/// history and budget there is exactly one admissible outcome.
pub proof fn lemma_assembly_deterministic(
    system: Seq<char>,
    docs: Seq<Document>,
    history: Seq<Message>,
    budget: nat,
    r1: Result<(Seq<char>, Seq<Document>, Seq<Message>), PromptError>,
    r2: Result<(Seq<char>, Seq<Document>, Seq<Message>), PromptError>,
)
    requires
        assembled(system, docs, history, budget, r1),
        assembled(system, docs, history, budget, r2),
    ensures
        r1 == r2,
{
    let floor = history_floor(history);
    lemma_floor_in_range(history);
    match (r1, r2) {
        (Ok(_), Ok(_)) => {
            let (n1, k1) = choose|n: int, k: int|
                {
                    &&& 0 <= n <= docs.len()
                    &&& 0 <= k <= floor
                    &&& r1 == Ok::<_, PromptError>((system, docs.take(n), history.skip(k)))
                    &&& fits(system, docs, n, history, k, budget)
                    &&& n == docs.len() ==> forall|j: int|
                        0 <= j < k ==> !fits(system, docs, n, history, j, budget)
                    &&& n < docs.len() ==> k == floor && forall|j: int|
                        0 <= j <= floor ==> !fits(
                            system,
                            docs,
                            docs.len() as int,
                            history,
                            j,
                            budget,
                        )
                    &&& n < docs.len() ==> forall|m: int|
                        n < m <= docs.len() ==> !fits(system, docs, m, history, floor, budget)
                };
            let (n2, k2) = choose|n: int, k: int|
                {
                    &&& 0 <= n <= docs.len()
                    &&& 0 <= k <= floor
                    &&& r2 == Ok::<_, PromptError>((system, docs.take(n), history.skip(k)))
                    &&& fits(system, docs, n, history, k, budget)
                    &&& n == docs.len() ==> forall|j: int|
                        0 <= j < k ==> !fits(system, docs, n, history, j, budget)
                    &&& n < docs.len() ==> k == floor && forall|j: int|
                        0 <= j <= floor ==> !fits(
                            system,
                            docs,
                            docs.len() as int,
                            history,
                            j,
                            budget,
                        )
                    &&& n < docs.len() ==> forall|m: int|
                        n < m <= docs.len() ==> !fits(system, docs, m, history, floor, budget)
                };
            assert(n1 == n2 && k1 == k2);
        },
        (Ok(_), Err(_)) => {
            let (n1, k1) = choose|n: int, k: int|
                {
                    &&& 0 <= n <= docs.len()
                    &&& 0 <= k <= floor
                    &&& fits(system, docs, n, history, k, budget)
                };
            lemma_fits_shrink(system, docs, n1, 0, history, k1, floor, budget);
        },
        (Err(_), Ok(_)) => {
            let (n2, k2) = choose|n: int, k: int|
                {
                    &&& 0 <= n <= docs.len()
                    &&& 0 <= k <= floor
                    &&& fits(system, docs, n, history, k, budget)
                };
            lemma_fits_shrink(system, docs, n2, 0, history, k2, floor, budget);
        },
        (Err(_), Err(_)) => {},
    }
}

proof fn lemma_floor_in_range(history: Seq<Message>)
    ensures
        0 <= history_floor(history) <= history.len(),
        match last_user_index(history) {
            Some(i) => history_floor(history) == i + 1 && 0 <= i < history.len(),
            None => true,
        },
{
    lemma_last_user_index(history);
}

/// With the latest user message at position `i`, assembly fails exactly
/// when the system prompt and that message alone exceed the budget.
pub proof fn lemma_over_budget_fails(
    system: Seq<char>,
    docs: Seq<Document>,
    history: Seq<Message>,
    budget: nat,
    r: Result<(Seq<char>, Seq<Document>, Seq<Message>), PromptError>,
    i: int,
)
    requires
        assembled(system, docs, history, budget, r),
        last_user_index(history) == Some(i),
    ensures
        r is Err <==> system.len() + history[i].content@.len() > budget,
{
    lemma_floor_in_range(history);
    let floor = history_floor(history);
    lemma_history_cost_first(seq![history[i]]);
    assert(seq![history[i]][0] == history[i]);
    assert(docs.take(0) == Seq::<Document>::empty());
    assert(kept_history(history, floor) == seq![history[i]]);
    assert(fits(system, docs, 0, history, floor, budget) <==> system.len() + history[i].content@.len()
        <= budget);
    if let Ok(_) = r {
        let (n, k) = choose|n: int, k: int|
            {
                &&& 0 <= n <= docs.len()
                &&& 0 <= k <= floor
                &&& fits(system, docs, n, history, k, budget)
            };
        lemma_fits_shrink(system, docs, n, 0, history, k, floor, budget);
    }
}

/// Decides `fits` without computing sums that could overflow: the running
/// total stops as soon as it passes the budget.
fn prompt_fits(
    system: &String,
    docs: &Vec<Document>,
    n: usize,
    history: &Vec<Message>,
    k: usize,
    budget: u64,
) -> (r: bool)
    requires
        n <= docs.len(),
        k <= history.len(),
    ensures
        r == (prompt_cost(system@, docs@.take(n as int), history@.skip(k as int)) <= budget as nat),
{
    let ghost full_h = history@.subrange(k as int, history.len() as int);
    proof {
        assert(history@.skip(k as int) == full_h);
        assert(docs@.take(n as int).take(n as int) == docs@.take(n as int));
    }
    let mut total: u128 = system.as_str().unicode_len() as u128;
    if total > budget as u128 {
        return false;
    }
    let mut i: usize = 0;
    while i < n
        invariant
            i <= n <= docs.len(),
            total == system@.len() + docs_cost(docs@.take(i as int)),
            total <= budget,
        decreases n - i,
    {
        assert(docs@.take(i as int + 1).drop_last() == docs@.take(i as int));
        let block = render_document(&docs[i]);
        let c = block.as_str().unicode_len();
        total = total + c as u128;
        i = i + 1;
        if total > budget as u128 {
            proof {
                lemma_docs_cost_prefix(docs@, i as int, n as int);
            }
            return false;
        }
    }
    let mut j: usize = k;
    while j < history.len()
        invariant
            k <= j <= history.len(),
            i == n,
            total == system@.len() + docs_cost(docs@.take(n as int)) + history_cost(
                history@.subrange(k as int, j as int),
            ),
            total <= budget,
        decreases history.len() - j,
    {
        assert(history@.subrange(k as int, j as int + 1).drop_last() == history@.subrange(
            k as int,
            j as int,
        ));
        let c = history[j].content.as_str().unicode_len();
        total = total + c as u128;
        j = j + 1;
        if total > budget as u128 {
            proof {
                lemma_history_cost_suffix(history@, k as int, j as int, history.len() as int);
            }
            return false;
        }
    }
    true
}

/// The history at cut level `c`, given the latest user message's position.
fn keep_history(history: &Vec<Message>, c: usize, latest: Option<usize>) -> (r: Vec<Message>)
    requires
        match latest {
            Some(i) => i < history.len() && last_user_index(history@) == Some(i as int),
            None => last_user_index(history@) == None::<int>,
        },
        c <= history_floor(history@),
    ensures
        r@ == kept_history(history@, c as int),
{
    let mut kept: Vec<Message> = Vec::new();
    if let Some(i) = latest {
        if c > i {
            kept.push(history[i].clone());
            assert(kept@ =~= seq![history@[i as int]]);
            return kept;
        }
    }
    let mut j: usize = c;
    while j < history.len()
        invariant
            c <= j <= history.len(),
            kept@ == history@.subrange(c as int, j as int),
        decreases history.len() - j,
    {
        kept.push(history[j].clone());
        j = j + 1;
    }
    assert(kept@ == history@.skip(c as int));
    kept
}

/// The prompt that keeps the first `n` documents and the history `kept`.
fn build_prompt(system: &String, docs: &Vec<Document>, n: usize, kept: Vec<Message>) -> (r:
    AugmentedPrompt)
    requires
        n <= docs.len(),
    ensures
        r.parts() == (system@, docs@.take(n as int), kept@),
{
    let mut context: Vec<Document> = Vec::new();
    let mut i: usize = 0;
    while i < n
        invariant
            i <= n <= docs.len(),
            context@ == docs@.take(i as int),
        decreases n - i,
    {
        context.push(docs[i].clone());
        i = i + 1;
    }
    AugmentedPrompt { system: system.clone(), context, history: kept }
}

/// Builds the prompt for `system`, the retrieved `docs` (highest-ranked
/// first) and the conversation `history` (oldest first) within `budget`
/// estimated tokens. When everything does not fit, the oldest messages go
/// first, down to the latest user message alone; then the lowest-ranked
/// documents. Fails only when the system prompt and the latest user message
/// alone exceed the budget.
pub fn assemble(system: &String, docs: &Vec<Document>, history: &Vec<Message>, budget: u64) -> (r:
    Result<AugmentedPrompt, PromptError>)
    ensures
        assembled(system@, docs@, history@, budget as nat, outcome(r)),
{
    let latest = latest_user_index(history);
    let floor: usize = match latest {
        Some(i) => i + 1,
        None => history.len(),
    };
    let ghost s = system@;
    let ghost d = docs@;
    let ghost h = history@;
    let ghost b = budget as nat;
    proof {
        lemma_floor_in_range(h);
    }
    let mut k: usize = 0;
    loop
        invariant
            floor == history_floor(h),
            floor <= history.len(),
            match latest {
                Some(i) => i < history.len() && last_user_index(h) == Some(i as int),
                None => last_user_index(h) == None::<int>,
            },
            s == system@,
            d == docs@,
            h == history@,
            b == budget as nat,
            k <= floor,
            forall|j: int| 0 <= j < k ==> !fits(s, d, d.len() as int, h, j, b),
        ensures
            forall|j: int| 0 <= j <= floor ==> !fits(s, d, d.len() as int, h, j, b),
        decreases floor - k,
    {
        let kept = keep_history(history, k, latest);
        assert(kept@.skip(0) == kept@);
        let ghost kv = kept@;
        if prompt_fits(system, docs, docs.len(), &kept, 0, budget) {
            let p = build_prompt(system, docs, docs.len(), kept);
            assert(assembled(s, d, h, b, outcome(Ok(p)))) by {
                let n = docs.len() as int;
                let kk = k as int;
                assert(kv == kept_history(h, kk));
                assert(fits(s, d, n, h, kk, b));
                assert(0 <= n <= d.len() && 0 <= kk <= floor);
            }
            return Ok(p);
        }
        if k == floor {
            break;
        }
        k = k + 1;
    }
    let kept = keep_history(history, floor, latest);
    assert(kept@.skip(0) == kept@);
    let mut n: usize = docs.len();
    while n > 0
        invariant
            floor == history_floor(h),
            kept@ == kept_history(h, floor as int),
            kept@.skip(0) == kept@,
            s == system@,
            d == docs@,
            h == history@,
            b == budget as nat,
            n <= docs.len(),
            forall|j: int| 0 <= j <= floor ==> !fits(s, d, d.len() as int, h, j, b),
            forall|m: int| n <= m <= d.len() ==> !fits(s, d, m, h, floor as int, b),
        decreases n,
    {
        if prompt_fits(system, docs, n - 1, &kept, 0, budget) {
            let ghost kv = kept@;
            let p = build_prompt(system, docs, n - 1, kept);
            assert(assembled(s, d, h, b, outcome(Ok(p)))) by {
                let nn = n - 1;
                let kk = floor as int;
                assert(fits(s, d, nn, h, kk, b));
                assert(0 <= nn <= d.len() && 0 <= kk <= floor);
            }
            return Ok(p);
        }
        n = n - 1;
    }
    Err(PromptError::BudgetExceeded)
}

} // verus!
