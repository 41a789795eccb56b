//! Relaying a streamed generation to the caller: numbered chunks under one
//! request identifier, a terminal marker, and cancellation on disconnect.
use vstd::prelude::*;
use crate::pipeline::ErrorKind;

verus! {

/// What the backend or the connection reports.
#[derive(Debug)]
pub enum StreamEvent {
    /// The next piece of generated text.
    Chunk(String),
    /// The backend finished.
    Done,
    /// The backend failed.
    Failed,
    /// The caller went away.
    Disconnected,
}

/// What to write to the caller, or do to the backend.
#[derive(Debug)]
pub enum StreamOutput {
    /// Write the chunk numbered `index`.
    Write { id: String, index: u64, delta: String },
    /// Write the end-of-stream marker.
    End { id: String },
    /// Write an error and end the stream.
    Error { id: String, kind: ErrorKind },
    /// Stop the generation; write nothing more.
    Cancel,
    /// Nothing to write: the stream is over.
    Drop,
}

/// The relay of one streamed response.
#[derive(Debug)]
pub struct StreamRelay {
    /// The identifier carried by every chunk.
    pub id: String,
    /// The number of chunks written so far.
    pub written: u64,
    /// Whether chunks may still be written.
    pub open: bool,
    /// Whether the caller disconnected.
    pub cancelled: bool,
}

/// The relay's move on one event: the state after it and the output, given
/// the state before it.
pub open spec fn relay_step(
    old: StreamRelay,
    event: StreamEvent,
    new: StreamRelay,
    out: StreamOutput,
) -> bool {
    &&& new.id == old.id
    &&& if !old.open {
        new.written == old.written && !new.open && new.cancelled == old.cancelled && out
            == StreamOutput::Drop
    } else {
        match event {
            StreamEvent::Chunk(t) => if old.written < u64::MAX {
                new.written == old.written + 1 && new.open && new.cancelled == old.cancelled && match out {
                    StreamOutput::Write { id, index, delta } => id@ == old.id@ && index
                        == old.written && delta@ == t@,
                    _ => false,
                }
            } else {
                new.written == old.written && !new.open && new.cancelled == old.cancelled && match out {
                    StreamOutput::Error { id, kind } => id@ == old.id@ && kind
                        == ErrorKind::GenerationFailed,
                    _ => false,
                }
            },
            StreamEvent::Done => new.written == old.written && !new.open && new.cancelled == old.cancelled
                && match out {
                StreamOutput::End { id } => id@ == old.id@,
                _ => false,
            },
            StreamEvent::Failed => new.written == old.written && !new.open && new.cancelled == old.cancelled
                && match out {
                StreamOutput::Error { id, kind } => id@ == old.id@ && kind
                    == ErrorKind::GenerationFailed,
                _ => false,
            },
            StreamEvent::Disconnected => new.written == old.written && !new.open
                && new.cancelled && out == StreamOutput::Cancel,
        }
    }
}

impl StreamRelay {
    /// A relay for the stream with identifier `id`, before any chunk.
    pub fn new(id: String) -> (r: StreamRelay)
        ensures
            r.id == id,
            r.written == 0,
            r.open,
            !r.cancelled,
    {
        StreamRelay { id, written: 0, open: true, cancelled: false }
    }

    /// Takes in one event of the stream. Chunks are numbered in the order
    /// they arrive; after the end marker, an error or a disconnect nothing
    /// more is written.
    pub fn on_event(&mut self, event: StreamEvent) -> (out: StreamOutput)
        ensures
            relay_step(*old(self), event, *final(self), out),
    {
        if !self.open {
            return StreamOutput::Drop;
        }
        match event {
            StreamEvent::Chunk(t) => {
                if self.written < u64::MAX {
                    let index = self.written;
                    self.written = self.written + 1;
                    StreamOutput::Write { id: self.id.clone(), index, delta: t }
                } else {
                    self.open = false;
                    StreamOutput::Error { id: self.id.clone(), kind: ErrorKind::GenerationFailed }
                }
            },
            StreamEvent::Done => {
                self.open = false;
                StreamOutput::End { id: self.id.clone() }
            },
            StreamEvent::Failed => {
                self.open = false;
                StreamOutput::Error { id: self.id.clone(), kind: ErrorKind::GenerationFailed }
            },
            StreamEvent::Disconnected => {
                self.open = false;
                self.cancelled = true;
                StreamOutput::Cancel
            },
        }
    }
}

/// `states`, `events` and `outputs` record a run of the relay: each event
/// takes the state before it to the state after it with its output.
pub open spec fn is_run(
    states: Seq<StreamRelay>,
    events: Seq<StreamEvent>,
    outputs: Seq<StreamOutput>,
) -> bool {
    &&& states.len() == events.len() + 1
    &&& outputs.len() == events.len()
    &&& forall|i: int|
        0 <= i < events.len() ==> relay_step(
            #[trigger] states[i],
            events[i],
            states[i + 1],
            outputs[i],
        )
}

/// Whether an output ends the stream.
pub open spec fn is_terminal(out: StreamOutput) -> bool {
    out is End || out is Error || out is Cancel
}

proof fn lemma_run_monotone(
    states: Seq<StreamRelay>,
    events: Seq<StreamEvent>,
    outputs: Seq<StreamOutput>,
    i: int,
    j: int,
)
    requires
        is_run(states, events, outputs),
        0 <= i <= j < states.len(),
    ensures
        states[i].written <= states[j].written,
        !states[i].open ==> !states[j].open,
    decreases j - i,
{
    if i < j {
        lemma_run_monotone(states, events, outputs, i, j - 1);
        assert(relay_step(states[j - 1], events[j - 1], states[j], outputs[j - 1]));
    }
}

/// Over any run, the chunks are written with strictly increasing numbers,
/// and once the stream has ended (end marker, error or cancellation)
/// nothing more is written.
pub proof fn lemma_run_writes_in_order(
    states: Seq<StreamRelay>,
    events: Seq<StreamEvent>,
    outputs: Seq<StreamOutput>,
)
    requires
        is_run(states, events, outputs),
    ensures
        forall|i: int, j: int|
            0 <= i < j < outputs.len() && outputs[i] is Write && outputs[j] is Write ==> (
            #[trigger] outputs[i])->Write_index < (#[trigger] outputs[j])->Write_index,
        forall|i: int, j: int|
            0 <= i < j < outputs.len() && is_terminal(#[trigger] outputs[i]) ==> (
            #[trigger] outputs[j]) is Drop,
{
    assert forall|i: int, j: int|
        0 <= i < j < outputs.len() && outputs[i] is Write && outputs[j] is Write implies (
        #[trigger] outputs[i])->Write_index < (#[trigger] outputs[j])->Write_index by {
        assert(relay_step(states[i], events[i], states[i + 1], outputs[i]));
        assert(relay_step(states[j], events[j], states[j + 1], outputs[j]));
        lemma_run_monotone(states, events, outputs, i + 1, j);
    }
    assert forall|i: int, j: int|
        0 <= i < j < outputs.len() && is_terminal(#[trigger] outputs[i]) implies (
        #[trigger] outputs[j]) is Drop by {
        assert(relay_step(states[i], events[i], states[i + 1], outputs[i]));
        assert(relay_step(states[j], events[j], states[j + 1], outputs[j]));
        lemma_run_monotone(states, events, outputs, i + 1, j);
    }
}

proof fn lemma_chunk_run_state(
    states: Seq<StreamRelay>,
    events: Seq<StreamEvent>,
    outputs: Seq<StreamOutput>,
    i: int,
)
    requires
        is_run(states, events, outputs),
        states[0].open,
        states[0].written == 0,
        events.len() < u64::MAX,
        0 <= i <= events.len(),
        forall|j: int| 0 <= j < i ==> #[trigger] events[j] is Chunk,
    ensures
        states[i].open,
        states[i].written == i,
    decreases i,
{
    if i > 0 {
        lemma_chunk_run_state(states, events, outputs, i - 1);
        assert(events[i - 1] is Chunk);
        assert(relay_step(states[i - 1], events[i - 1], states[i], outputs[i - 1]));
    }
}

/// While the caller stays connected, a fresh relay writes every chunk, in
/// arrival order, numbered from zero and with its text unchanged, and then
/// exactly one end marker when the backend finishes.
pub proof fn lemma_run_relays_every_chunk(
    states: Seq<StreamRelay>,
    events: Seq<StreamEvent>,
    outputs: Seq<StreamOutput>,
)
    requires
        is_run(states, events, outputs),
        states[0].open,
        states[0].written == 0,
        events.len() < u64::MAX,
        forall|j: int|
            0 <= j < events.len() ==> #[trigger] events[j] is Chunk || (j == events.len() - 1
                && events[j] is Done),
    ensures
        forall|j: int|
            0 <= j < events.len() && #[trigger] events[j] is Chunk ==> outputs[j] is Write
                && outputs[j]->Write_index == j && outputs[j]->Write_delta@
                == events[j]->Chunk_0@,
        events.len() > 0 && events.last() is Done ==> outputs.last() is End,
{
    assert forall|j: int| 0 <= j < events.len() && #[trigger] events[j] is Chunk implies outputs[j]
        is Write && outputs[j]->Write_index == j && outputs[j]->Write_delta@
        == events[j]->Chunk_0@ by {
        assert forall|k: int| 0 <= k < j implies #[trigger] events[k] is Chunk by {
            assert(events[k] is Chunk || (k == events.len() - 1 && events[k] is Done));
        }
        lemma_chunk_run_state(states, events, outputs, j);
        assert(relay_step(states[j], events[j], states[j + 1], outputs[j]));
    }
    if events.len() > 0 && events.last() is Done {
        let l = events.len() - 1;
        assert forall|k: int| 0 <= k < l implies #[trigger] events[k] is Chunk by {
            assert(events[k] is Chunk || (k == events.len() - 1 && events[k] is Done));
        }
        lemma_chunk_run_state(states, events, outputs, l);
        assert(relay_step(states[l], events[l], states[l + 1], outputs[l]));
    }
}

} // verus!
