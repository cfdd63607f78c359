//! The buffering stream as mathematics: what a stream is, what it may be
//! told, what it may ask for, and the one transition function that relates
//! them.
//!
//! A stream never touches the source or the filesystem. It is driven: the
//! driver hands it an [`EventView`], and the stream answers with an
//! [`ActionView`] that is either a request (poll the source, write a file,
//! read a file) or the item that this production step yields.

use crate::error::{BufferingError, StreamError};
use crate::names::is_file_name;
use vstd::prelude::*;

verus! {

/// What a production step is suspended on.
pub enum AwaitingView {
    /// Nothing: the next event starts a new step.
    Demand,
    /// The source's next item.
    Source,
    /// The filesystem's word that `chunk` is in the backing file. `spill`
    /// holds the name of the file to be, while the store is still in memory.
    Store { chunk: Seq<u8>, spill: Option<Seq<char>> },
    /// The bytes of a chunk that was asked of the backing file.
    Load,
}

/// What the driver reports.
pub enum EventView<E> {
    /// The consumer asks for the next item.
    Demand,
    /// The source answered a poll: a chunk, an error of its own, or the end.
    Source(Option<Result<Seq<u8>, E>>),
    /// The filesystem carried out a write, or failed to.
    Stored(Result<(), std::io::Error>),
    /// The filesystem carried out a read, or failed to.
    Loaded(Result<Seq<u8>, std::io::Error>),
}

/// What the stream answers.
pub enum ActionView<E> {
    /// Poll the source and report what it gives.
    PollSource,
    /// Create `name` under `dir`, failing if it exists; write `head`, then
    /// `tail`.
    CreateFile { dir: Seq<char>, name: Seq<char>, head: Seq<u8>, tail: Seq<u8> },
    /// Write `data` to the backing file where its position stands, which
    /// is its end for as long as the source is drained from.
    AppendFile { data: Seq<u8> },
    /// Read exactly `len` bytes from the backing file, from its start if
    /// `rewind` is set and from where the last read ended otherwise.
    ReadFile { rewind: bool, len: usize },
    /// The step is complete and yields this: a chunk, an error, or nothing.
    Yield(Option<Result<Seq<u8>, StreamError<E>>>),
}

impl<E> ActionView<E> {
    /// The name that a `CreateFile` carries; empty for every other action.
    pub open spec fn created_name(self) -> Seq<char> {
        match self {
            ActionView::CreateFile { name, .. } => name,
            _ => Seq::empty(),
        }
    }
}

/// A stream, reduced to what its behaviour depends on.
pub struct StreamView {
    /// Directory in which a backing file is created.
    pub tmp_dir: Seq<char>,
    /// Most bytes that the memory region may hold.
    pub threshold: usize,
    /// Length of a replayed chunk, but for the last of a pass.
    pub chunk_size: usize,
    /// Most bytes that may be captured in all, if limited.
    pub limit: Option<usize>,
    /// Whether the source has signalled its end.
    pub drained: bool,
    /// Name of the backing file; `None` while the bytes are in memory.
    pub file: Option<Seq<char>>,
    /// Every byte captured so far, in the order of arrival.
    pub captured: Seq<u8>,
    /// Offset of the next replayed chunk.
    pub cursor: int,
    /// What the step in progress waits for.
    pub awaiting: AwaitingView,
}

impl StreamView {
    /// A stream that has captured nothing yet.
    pub open spec fn initial(
        tmp_dir: Seq<char>,
        threshold: usize,
        chunk_size: usize,
        limit: Option<usize>,
    ) -> StreamView {
        StreamView {
            tmp_dir,
            threshold,
            chunk_size,
            limit,
            drained: false,
            file: None,
            captured: Seq::empty(),
            cursor: 0,
            awaiting: AwaitingView::Demand,
        }
    }

    /// Whether `len` more bytes would pass the size limit.
    pub open spec fn overflows(self, len: int) -> bool {
        self.limit is Some && self.captured.len() + len > self.limit.unwrap()
    }

    /// The invariant of every reachable stream: the cursor is within the
    /// captured bytes and at their start while the source is drained from;
    /// the bytes are in memory exactly while they are no more than the
    /// threshold; the limit is kept; and what the stream waits for fits the
    /// phase it is in.
    pub open spec fn inv(self) -> bool {
        &&& 0 <= self.cursor <= self.captured.len()
        &&& !self.drained ==> self.cursor == 0
        &&& self.file is None <==> self.captured.len() <= self.threshold
        &&& self.file is Some ==> is_file_name(self.file.unwrap())
        &&& !self.overflows(0)
        &&& match self.awaiting {
            AwaitingView::Demand => true,
            AwaitingView::Source => !self.drained,
            AwaitingView::Store { chunk, spill } => {
                &&& !self.drained
                &&& !self.overflows(chunk.len() as int)
                &&& self.threshold < self.captured.len() + chunk.len()
                &&& spill is Some <==> self.file is None
                &&& spill is Some ==> is_file_name(spill.unwrap())
            },
            AwaitingView::Load => self.drained && self.file is Some,
        }
    }

    /// The count of captured bytes, with a chunk on its way to the file
    /// counted in, is a `usize`.
    pub open spec fn bounded(self) -> bool {
        match self.awaiting {
            AwaitingView::Store { chunk, spill } => self.captured.len() + chunk.len() <= usize::MAX,
            _ => self.captured.len() <= usize::MAX,
        }
    }

    /// What holds of every stream that the executable code can reach.
    pub open spec fn wf(self) -> bool {
        self.inv() && self.bounded()
    }

    /// The same stream with no step in progress.
    pub open spec fn settled(self) -> StreamView {
        StreamView { awaiting: AwaitingView::Demand, ..self }
    }

    /// Length of the chunk that a replay step takes at the cursor.
    pub open spec fn replay_len(self) -> int {
        let rest: int = self.captured.len() - self.cursor;
        if self.chunk_size <= rest {
            self.chunk_size as int
        } else {
            rest
        }
    }

    /// One replay step. At or past the end the cursor goes back to the start
    /// and nothing is yielded, which ends the pass. Before the end the cursor
    /// moves on by [`Self::replay_len`] bytes, and those bytes are yielded
    /// from memory or asked of the backing file. A chunk size of zero yields
    /// nothing and moves nothing.
    pub open spec fn replay<E>(self) -> (StreamView, ActionView<E>) {
        let n: int = self.replay_len();
        if self.cursor >= self.captured.len() {
            (StreamView { cursor: 0, ..self.settled() }, ActionView::Yield(None))
        } else if n == 0 {
            (self.settled(), ActionView::Yield(None))
        } else if self.file is None {
            (
                StreamView { cursor: self.cursor + n, ..self.settled() },
                ActionView::Yield(Some(Ok(self.captured.subrange(self.cursor, self.cursor + n)))),
            )
        } else {
            (
                StreamView { cursor: self.cursor + n, awaiting: AwaitingView::Load, ..self },
                ActionView::ReadFile { rewind: self.cursor == 0, len: n as usize },
            )
        }
    }

    /// A new step begins: the source is polled until it has ended, the
    /// store is replayed from then on.
    pub open spec fn on_demand<E>(self) -> (StreamView, ActionView<E>) {
        if !self.drained {
            (StreamView { awaiting: AwaitingView::Source, ..self }, ActionView::PollSource)
        } else {
            self.settled().replay()
        }
    }

    /// Where a chunk of the source goes. One that would pass the limit is
    /// refused and dropped. One that still fits the memory region is appended
    /// to it and yielded at once. Any other has to reach the backing file
    /// first: `fresh` names the file when this chunk is the one that spills.
    pub open spec fn write<E>(self, chunk: Seq<u8>, fresh: Seq<char>) -> (StreamView, ActionView<E>) {
        if self.overflows(chunk.len() as int) {
            (self.settled(), ActionView::Yield(Some(Err(StreamError::Buffering(BufferingError::Overflow)))))
        } else if self.file is Some {
            (
                StreamView { awaiting: AwaitingView::Store { chunk, spill: None }, ..self },
                ActionView::AppendFile { data: chunk },
            )
        } else if self.captured.len() + chunk.len() > self.threshold {
            (
                StreamView { awaiting: AwaitingView::Store { chunk, spill: Some(fresh) }, ..self },
                ActionView::CreateFile {
                    dir: self.tmp_dir,
                    name: fresh,
                    head: self.captured,
                    tail: chunk,
                },
            )
        } else {
            (
                StreamView { captured: self.captured + chunk, ..self.settled() },
                ActionView::Yield(Some(Ok(chunk))),
            )
        }
    }

    /// The source answered. Its end turns the stream to replay and yields
    /// nothing; its error is yielded as it came; its chunk is written.
    pub open spec fn on_source<E>(self, item: Option<Result<Seq<u8>, E>>, fresh: Seq<char>) -> (
        StreamView,
        ActionView<E>,
    ) {
        match item {
            None => (StreamView { drained: true, ..self.settled() }, ActionView::Yield(None)),
            Some(Err(e)) => (self.settled(), ActionView::Yield(Some(Err(StreamError::Source(e))))),
            Some(Ok(chunk)) => self.write(chunk, fresh),
        }
    }

    /// The filesystem answered a write. On success the chunk counts as
    /// captured, the store is on disk from now on, and the chunk is yielded.
    /// On failure the stream is as it was before the chunk came.
    pub open spec fn on_stored<E>(
        self,
        chunk: Seq<u8>,
        spill: Option<Seq<char>>,
        outcome: Result<(), std::io::Error>,
    ) -> (StreamView, ActionView<E>) {
        match outcome {
            Err(e) => (
                self.settled(),
                ActionView::Yield(Some(Err(StreamError::Buffering(BufferingError::Io(e))))),
            ),
            Ok(_) => (
                StreamView {
                    captured: self.captured + chunk,
                    file: if spill is Some {
                        spill
                    } else {
                        self.file
                    },
                    ..self.settled()
                },
                ActionView::Yield(Some(Ok(chunk))),
            ),
        }
    }

    /// The filesystem answered a read: its bytes are yielded as they came,
    /// nothing if there are none, and its error in their place.
    pub open spec fn on_loaded<E>(self, outcome: Result<Seq<u8>, std::io::Error>) -> (
        StreamView,
        ActionView<E>,
    ) {
        match outcome {
            Err(e) => (
                self.settled(),
                ActionView::Yield(Some(Err(StreamError::Buffering(BufferingError::Io(e))))),
            ),
            Ok(data) => (
                self.settled(),
                if data.len() == 0 {
                    ActionView::Yield(None)
                } else {
                    ActionView::Yield(Some(Ok(data)))
                },
            ),
        }
    }

    /// The transition function. An event that answers what the stream waits
    /// for completes or continues the step in progress. Any other event,
    /// a demand among them, abandons that step and begins a new one.
    pub open spec fn next<E>(self, event: EventView<E>, fresh: Seq<char>) -> (StreamView, ActionView<E>) {
        match (self.awaiting, event) {
            (AwaitingView::Source, EventView::Source(item)) => self.on_source(item, fresh),
            (AwaitingView::Store { chunk, spill }, EventView::Stored(outcome)) => self.on_stored(
                chunk,
                spill,
                outcome,
            ),
            (AwaitingView::Load, EventView::Loaded(outcome)) => self.on_loaded(outcome),
            _ => self.on_demand(),
        }
    }

    /// What the machine itself limits: the count of captured bytes is a
    /// `usize`, and a memory region cannot grow past `isize::MAX` bytes.
    /// Every other event is taken as it comes.
    pub open spec fn admits<E>(self, event: EventView<E>) -> bool {
        match (self.awaiting, event) {
            (AwaitingView::Source, EventView::Source(Some(Ok(chunk)))) => self.has_room(
                chunk.len() as int,
            ),
            _ => true,
        }
    }

    /// Whether counting `len` more bytes stays within the machine's limits.
    pub open spec fn has_room(self, len: int) -> bool {
        let total: int = self.captured.len() + len;
        &&& total <= usize::MAX
        &&& total <= self.threshold ==> total <= isize::MAX
    }
}

} // verus!
