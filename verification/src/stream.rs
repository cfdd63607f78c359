//! The buffering stream itself: the executable state machine, proved to
//! follow the transition function of [`crate::model`].

use crate::chunks::{chunk_bytes, region_bytes};
use crate::error::{BufferingError, StreamError};
use crate::model::{ActionView, AwaitingView, EventView, StreamView};
use crate::names::{fresh_file_name, is_file_name};
use actix_web::web::{Bytes, BytesMut};
use std::ops::Deref;
use vstd::prelude::*;
use vstd::slice::slice_subrange;

verus! {

/// Where the captured bytes are kept.
enum Buffer {
    /// In a growable region of memory.
    Memory(BytesMut),
    /// In the file of this name. The driver holds the handle; the stream
    /// keeps account of what has gone into the file.
    File(String, Ghost<Seq<u8>>),
}

impl Buffer {
    spec fn content(self) -> Seq<u8> {
        match self {
            Buffer::Memory(memory) => region_bytes(memory),
            Buffer::File(_, written) => written@,
        }
    }

    spec fn file(self) -> Option<Seq<char>> {
        match self {
            Buffer::Memory(_) => None,
            Buffer::File(name, _) => Some(name@),
        }
    }
}

/// What the step in progress waits for.
enum Awaiting {
    Demand,
    Source,
    Store(Bytes, Option<String>),
    Load,
}

impl Awaiting {
    spec fn view(self) -> AwaitingView {
        match self {
            Awaiting::Demand => AwaitingView::Demand,
            Awaiting::Source => AwaitingView::Source,
            Awaiting::Store(chunk, spill) => AwaitingView::Store {
                chunk: chunk_bytes(chunk),
                spill: name_view(spill),
            },
            Awaiting::Load => AwaitingView::Load,
        }
    }
}

/// A name that may be missing, taken by its characters.
pub open spec fn name_view(name: Option<String>) -> Option<Seq<char>> {
    match name {
        Some(name) => Some(name@),
        None => None,
    }
}

/// What a read gave, with the bytes taken as a sequence.
pub open spec fn load_view(outcome: Result<Vec<u8>, std::io::Error>) -> Result<
    Seq<u8>,
    std::io::Error,
> {
    match outcome {
        Ok(data) => Ok(data@),
        Err(e) => Err(e),
    }
}

/// What the source gave, with each chunk taken by its bytes.
pub open spec fn item_view<E>(item: Option<Result<Bytes, E>>) -> Option<Result<Seq<u8>, E>> {
    match item {
        None => None,
        Some(Err(e)) => Some(Err(e)),
        Some(Ok(chunk)) => Some(Ok(chunk_bytes(chunk))),
    }
}

/// What a step yields, with each chunk taken by its bytes.
pub open spec fn yield_view<E>(item: Option<Result<Bytes, StreamError<E>>>) -> Option<
    Result<Seq<u8>, StreamError<E>>,
> {
    match item {
        None => None,
        Some(Err(e)) => Some(Err(e)),
        Some(Ok(chunk)) => Some(Ok(chunk_bytes(chunk))),
    }
}

/// What the driver reports to the stream.
#[derive(Debug)]
pub enum Event<E> {
    /// The consumer asks for the next item.
    Demand,
    /// The source answered a poll.
    Source(Option<Result<Bytes, E>>),
    /// The write that the stream asked for succeeded or failed.
    Stored(Result<(), std::io::Error>),
    /// The read that the stream asked for gave these bytes, or failed.
    Loaded(Result<Vec<u8>, std::io::Error>),
}

impl<E> View for Event<E> {
    type V = EventView<E>;

    open spec fn view(&self) -> EventView<E> {
        match *self {
            Event::Demand => EventView::Demand,
            Event::Source(item) => EventView::Source(item_view(item)),
            Event::Stored(outcome) => EventView::Stored(outcome),
            Event::Loaded(outcome) => EventView::Loaded(load_view(outcome)),
        }
    }
}

/// What the stream asks of the driver, or yields through it.
#[derive(Debug)]
pub enum Action<E> {
    /// Poll the source, then report `Event::Source`.
    PollSource,
    /// Create the file `name` in `dir`, failing if it exists, and write
    /// `head` and then `tail` to it; then report `Event::Stored`.
    CreateFile { dir: String, name: String, head: Bytes, tail: Bytes },
    /// Write `data` to the backing file where its position stands, which
    /// is its end; then report `Event::Stored`.
    AppendFile { data: Bytes },
    /// Read exactly `len` bytes of the backing file, after seeking to its
    /// start if `rewind` is set; then report `Event::Loaded`.
    ReadFile { rewind: bool, len: usize },
    /// Hand this to the consumer: the step is over.
    Yield(Option<Result<Bytes, StreamError<E>>>),
}

impl<E> View for Action<E> {
    type V = ActionView<E>;

    open spec fn view(&self) -> ActionView<E> {
        match *self {
            Action::PollSource => ActionView::PollSource,
            Action::CreateFile { dir, name, head, tail } => ActionView::CreateFile {
                dir: dir@,
                name: name@,
                head: chunk_bytes(head),
                tail: chunk_bytes(tail),
            },
            Action::AppendFile { data } => ActionView::AppendFile { data: chunk_bytes(data) },
            Action::ReadFile { rewind, len } => ActionView::ReadFile { rewind, len },
            Action::Yield(item) => ActionView::Yield(yield_view(item)),
        }
    }
}

/// A source wrapped so that what it gives once can be replayed any number
/// of times.
pub struct FileBufferingStream<S> {
    inner: S,
    inner_eof: bool,
    tmp_dir: String,
    threshold: usize,
    produce_chunk_size: usize,
    buffer_limit: Option<usize>,
    buffer: Buffer,
    buffer_size: usize,
    produce_index: usize,
    awaiting: Awaiting,
}

impl<S> View for FileBufferingStream<S> {
    type V = StreamView;

    closed spec fn view(&self) -> StreamView {
        StreamView {
            tmp_dir: self.tmp_dir@,
            threshold: self.threshold,
            chunk_size: self.produce_chunk_size,
            limit: self.buffer_limit,
            drained: self.inner_eof,
            file: self.buffer.file(),
            captured: self.buffer.content(),
            cursor: self.produce_index as int,
            awaiting: self.awaiting.view(),
        }
    }
}

impl<S> FileBufferingStream<S> {
    /// The wrapped source.
    pub closed spec fn inner(&self) -> S {
        self.inner
    }

    /// The running count agrees with what the store holds.
    pub closed spec fn counted(&self) -> bool {
        self.buffer_size == self.buffer.content().len()
    }

    /// Well-formedness: the invariant of the model, and the count.
    pub open spec fn wf(&self) -> bool {
        self@.wf() && self.counted()
    }

    /// Wraps `inner` with an empty store and the given settings.
    pub fn new(
        inner: S,
        tmp_dir: String,
        threshold: usize,
        produce_chunk_size: usize,
        buffer_limit: Option<usize>,
    ) -> (stream: Self)
        ensures
            stream.wf(),
            stream.inner() == inner,
            stream@ == StreamView::initial(tmp_dir@, threshold, produce_chunk_size, buffer_limit),
    {
        FileBufferingStream {
            inner,
            inner_eof: false,
            tmp_dir,
            threshold,
            produce_chunk_size,
            buffer_limit,
            buffer: Buffer::Memory(BytesMut::new()),
            buffer_size: 0,
            produce_index: 0,
            awaiting: Awaiting::Demand,
        }
    }

    /// The source, for the driver to ask what it still expects to give.
    pub fn source(&self) -> (source: &S)
        ensures
            *source == self.inner(),
    {
        &self.inner
    }

    /// The source, for the driver to poll.
    pub fn source_mut(&mut self) -> (source: &mut S)
        ensures
            *source == old(self).inner(),
            final(self).inner() == *final(source),
            final(self)@ == old(self)@,
            final(self).counted() == old(self).counted(),
    {
        &mut self.inner
    }

    /// Whether the source has ended, so that the stream replays.
    pub fn is_drained(&self) -> (drained: bool)
        ensures
            drained == self@.drained,
    {
        self.inner_eof
    }

    /// The number of bytes captured so far.
    pub fn buffered_len(&self) -> (len: usize)
        requires
            self.wf(),
        ensures
            len == self@.captured.len(),
    {
        self.buffer_size
    }

    /// The size of the body: unknown while the source is being drained, the
    /// number of captured bytes from then on.
    pub fn size(&self) -> (size: Option<u64>)
        requires
            self.wf(),
        ensures
            size == if self@.drained {
                Some(self@.captured.len() as u64)
            } else {
                None
            },
    {
        if self.inner_eof {
            Some(self.buffer_size as u64)
        } else {
            None
        }
    }

    /// Bounds on what is left to yield, once the source has ended: the
    /// cursor below, the number of captured bytes above. While the source is
    /// being drained the bounds are the source's own, and the answer is
    /// `None`.
    pub fn size_hint(&self) -> (hint: Option<(usize, Option<usize>)>)
        requires
            self.wf(),
        ensures
            hint == if self@.drained {
                Some((self@.cursor as usize, Some(self@.captured.len() as usize)))
            } else {
                None
            },
    {
        if self.inner_eof {
            Some((self.produce_index, Some(self.buffer_size)))
        } else {
            None
        }
    }

    /// The directory in which this stream creates its backing file.
    pub fn tmp_dir(&self) -> (dir: &String)
        ensures
            dir@ == self@.tmp_dir,
    {
        &self.tmp_dir
    }

    /// The name of the backing file, if the store has spilled to disk: the
    /// file that is to be removed when the stream is dropped.
    pub fn backing_file(&self) -> (name: Option<&String>)
        ensures
            name is Some <==> self@.file is Some,
            name is Some ==> name.unwrap()@ == self@.file.unwrap(),
    {
        match &self.buffer {
            Buffer::Memory(_) => None,
            Buffer::File(name, _) => Some(name),
        }
    }

    /// Whether `event` is within the machine's limits, which is all that
    /// [`Self::step`] asks of it.
    pub fn admits<E>(&self, event: &Event<E>) -> (ok: bool)
        requires
            self.wf(),
        ensures
            ok == self@.admits(event@),
    {
        match (&self.awaiting, event) {
            (Awaiting::Source, Event::Source(Some(Ok(chunk)))) => {
                let len: usize = chunk.len();
                if len > usize::MAX - self.buffer_size {
                    false
                } else {
                    let total: usize = self.buffer_size + len;
                    total > self.threshold || total <= isize::MAX as usize
                }
            },
            _ => true,
        }
    }

    /// Takes a chunk of the source: refuses it, appends it to memory, or
    /// asks the driver to put it into the backing file.
    fn write_to_buffer<E>(&mut self, bytes: Bytes) -> (action: Action<E>)
        requires
            old(self).wf(),
            old(self)@.awaiting is Demand,
            !old(self)@.drained,
            old(self)@.has_room(chunk_bytes(bytes).len() as int),
        ensures
            final(self).wf(),
            final(self).inner() == old(self).inner(),
            (final(self)@, action@) == old(self)@.write::<E>(
                chunk_bytes(bytes),
                action@.created_name(),
            ),
            action@ is CreateFile ==> is_file_name(action@.created_name()),
    {
        let len: usize = bytes.len();
        if let Some(limit) = self.buffer_limit {
            if len > limit - self.buffer_size {
                return Action::Yield(Some(Err(StreamError::Buffering(BufferingError::Overflow))));
            }
        }
        match &mut self.buffer {
            Buffer::Memory(memory) => {
                if len > self.threshold - memory.len() {
                    let name = fresh_file_name();
                    let head = Bytes::copy_from_slice((&*memory).deref());
                    let tail = bytes.clone();
                    let dir = self.tmp_dir.clone();
                    self.awaiting = Awaiting::Store(bytes, Some(name.clone()));
                    Action::CreateFile { dir, name, head, tail }
                } else {
                    memory.extend_from_slice(bytes.deref());
                    self.buffer_size = self.buffer_size + len;
                    Action::Yield(Some(Ok(bytes)))
                }
            },
            Buffer::File(_, _) => {
                let data = bytes.clone();
                self.awaiting = Awaiting::Store(bytes, None);
                Action::AppendFile { data }
            },
        }
    }

    /// Handles what the source gave when polled.
    fn on_source<E>(&mut self, item: Option<Result<Bytes, E>>) -> (action: Action<E>)
        requires
            old(self).wf(),
            old(self)@.awaiting is Demand,
            !old(self)@.drained,
            item matches Some(Ok(chunk)) ==> old(self)@.has_room(chunk_bytes(chunk).len() as int),
        ensures
            final(self).wf(),
            final(self).inner() == old(self).inner(),
            (final(self)@, action@) == old(self)@.on_source(
                item_view(item),
                action@.created_name(),
            ),
            action@ is CreateFile ==> is_file_name(action@.created_name()),
    {
        match item {
            None => {
                self.inner_eof = true;
                Action::Yield(None)
            },
            Some(Err(e)) => Action::Yield(Some(Err(StreamError::Source(e)))),
            Some(Ok(chunk)) => self.write_to_buffer(chunk),
        }
    }

    /// Handles the filesystem's answer to a write.
    fn on_stored<E>(
        &mut self,
        chunk: Bytes,
        spill: Option<String>,
        outcome: Result<(), std::io::Error>,
    ) -> (action: Action<E>)
        requires
            old(self).counted(),
            old(self)@.awaiting is Demand,
            (StreamView {
                awaiting: AwaitingView::Store { chunk: chunk_bytes(chunk), spill: name_view(spill) },
                ..old(self)@
            }).wf(),
        ensures
            final(self).wf(),
            final(self).inner() == old(self).inner(),
            (final(self)@, action@) == old(self)@.on_stored::<E>(
                chunk_bytes(chunk),
                name_view(spill),
                outcome,
            ),
            !(action@ is CreateFile),
    {
        match outcome {
            Err(e) => Action::Yield(Some(Err(StreamError::Buffering(BufferingError::Io(e))))),
            Ok(_) => {
                let len: usize = chunk.len();
                match spill {
                    Some(name) => {
                        let ghost written = self.buffer.content() + chunk_bytes(chunk);
                        self.buffer = Buffer::File(name, Ghost(written));
                    },
                    None => {
                        match &mut self.buffer {
                            Buffer::File(_, written) => {
                                proof {
                                    *written = Ghost(written@ + chunk_bytes(chunk));
                                }
                            },
                            Buffer::Memory(_) => {},
                        }
                    },
                }
                self.buffer_size = self.buffer_size + len;
                Action::Yield(Some(Ok(chunk)))
            },
        }
    }

    /// Takes the next chunk of the current pass from the store, or ends the
    /// pass.
    fn read_from_buffer<E>(&mut self) -> (action: Action<E>)
        requires
            old(self).wf(),
            old(self)@.awaiting is Demand,
            old(self)@.drained,
        ensures
            final(self).wf(),
            final(self).inner() == old(self).inner(),
            (final(self)@, action@) == old(self)@.replay::<E>(),
            !(action@ is CreateFile),
    {
        let buffer_size: usize = self.buffer_size;
        let current_index: usize = self.produce_index;
        if buffer_size <= current_index {
            self.produce_index = 0;
            return Action::Yield(None);
        }
        let rest: usize = buffer_size - current_index;
        let len: usize = if self.produce_chunk_size <= rest {
            self.produce_chunk_size
        } else {
            rest
        };
        if len == 0 {
            return Action::Yield(None);
        }
        match &self.buffer {
            Buffer::Memory(memory) => {
                let part = slice_subrange(memory.deref(), current_index, current_index + len);
                let chunk = Bytes::copy_from_slice(part);
                self.produce_index = current_index + len;
                Action::Yield(Some(Ok(chunk)))
            },
            Buffer::File(_, _) => {
                self.produce_index = current_index + len;
                self.awaiting = Awaiting::Load;
                Action::ReadFile { rewind: current_index == 0, len }
            },
        }
    }

    /// Handles the filesystem's answer to a read.
    fn on_loaded<E>(&mut self, outcome: Result<Vec<u8>, std::io::Error>) -> (action: Action<E>)
        requires
            old(self).wf(),
            old(self)@.awaiting is Demand,
        ensures
            final(self).wf(),
            final(self).inner() == old(self).inner(),
            (final(self)@, action@) == old(self)@.on_loaded::<E>(load_view(outcome)),
            !(action@ is CreateFile),
    {
        match outcome {
            Err(e) => Action::Yield(Some(Err(StreamError::Buffering(BufferingError::Io(e))))),
            Ok(data) => {
                if data.len() == 0 {
                    Action::Yield(None)
                } else {
                    Action::Yield(Some(Ok(Bytes::from(data))))
                }
            },
        }
    }

    /// Begins a new step.
    fn on_demand<E>(&mut self) -> (action: Action<E>)
        requires
            old(self).wf(),
            old(self)@.awaiting is Demand,
        ensures
            final(self).wf(),
            final(self).inner() == old(self).inner(),
            (final(self)@, action@) == old(self)@.on_demand::<E>(),
            !(action@ is CreateFile),
    {
        if !self.inner_eof {
            self.awaiting = Awaiting::Source;
            Action::PollSource
        } else {
            self.read_from_buffer()
        }
    }

    /// Takes one event and answers with one action, as the transition
    /// function says. The name of a file to create is the one thing that
    /// the function does not fix: it is fresh, and has the shape of
    /// [`is_file_name`].
    pub fn step<E>(&mut self, event: Event<E>) -> (action: Action<E>)
        requires
            old(self).wf(),
            old(self)@.admits(event@),
        ensures
            final(self).wf(),
            final(self).inner() == old(self).inner(),
            (final(self)@, action@) == old(self)@.next(event@, action@.created_name()),
            action@ is CreateFile ==> is_file_name(action@.created_name()),
    {
        let mut awaiting = Awaiting::Demand;
        core::mem::swap(&mut self.awaiting, &mut awaiting);
        match (awaiting, event) {
            (Awaiting::Source, Event::Source(item)) => self.on_source(item),
            (Awaiting::Store(chunk, spill), Event::Stored(outcome)) => self.on_stored(
                chunk,
                spill,
                outcome,
            ),
            (Awaiting::Load, Event::Loaded(outcome)) => self.on_loaded(outcome),
            _ => self.on_demand(),
        }
    }
}

} // verus!
