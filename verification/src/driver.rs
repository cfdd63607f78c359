//! A driver that does as it is told, as mathematics: a filesystem of one
//! file that never fails, and the production step that such a driver makes
//! of the stream's transitions. The laws of this crate speak of it; the
//! executable driver lives outside and has a real filesystem to deal with.

use crate::error::StreamError;
use crate::model::{ActionView, EventView, StreamView};
use vstd::prelude::*;

verus! {

/// The backing file: what it holds, and where its read and write position
/// stands.
pub struct DiskView {
    pub content: Seq<u8>,
    pub position: int,
}

/// The content of a file after `data` was written at `position`.
pub open spec fn write_at(content: Seq<u8>, position: int, data: Seq<u8>) -> Seq<u8> {
    let end: int = position + data.len();
    content.subrange(0, position) + data + if end < content.len() {
        content.subrange(end, content.len() as int)
    } else {
        Seq::empty()
    }
}

/// Carries out a request on the file and reports its success. A new file
/// holds `head` and then `tail`. A write goes where the position stands. A
/// read starts at the position, or at the start of the file after a rewind.
/// Each leaves the position behind the bytes that it touched.
pub open spec fn perform<E>(disk: DiskView, action: ActionView<E>) -> (DiskView, EventView<E>) {
    match action {
        ActionView::CreateFile { head, tail, .. } => (
            DiskView { content: head + tail, position: (head + tail).len() as int },
            EventView::Stored(Ok(())),
        ),
        ActionView::AppendFile { data } => (
            DiskView {
                content: write_at(disk.content, disk.position, data),
                position: disk.position + data.len(),
            },
            EventView::Stored(Ok(())),
        ),
        ActionView::ReadFile { rewind, len } => {
            let from: int = if rewind {
                0
            } else {
                disk.position
            };
            (
                DiskView { position: from + len, ..disk },
                EventView::Loaded(Ok(disk.content.subrange(from, from + len))),
            )
        },
        _ => (disk, EventView::Demand),
    }
}

/// What the stream and the file agree on between two steps, once there is a
/// file: it holds the captured bytes; while the source is drained from, the
/// position is at its end; within a replay pass, the position is the cursor.
pub open spec fn coherent(s: StreamView, disk: DiskView) -> bool {
    s.file is Some ==> {
        &&& disk.content == s.captured
        &&& !s.drained ==> disk.position == disk.content.len()
        &&& s.drained && s.cursor != 0 ==> disk.position == s.cursor
    }
}

/// One production step, from the consumer's demand to what is yielded.
/// `item` is what the source gives if it is polled, `fresh` the name at
/// hand if a file is created.
pub open spec fn produce<E>(
    s: StreamView,
    disk: DiskView,
    item: Option<Result<Seq<u8>, E>>,
    fresh: Seq<char>,
) -> (StreamView, DiskView, Option<Result<Seq<u8>, StreamError<E>>>) {
    let (s1, a1) = s.next::<E>(EventView::Demand, fresh);
    let (s2, a2) = if a1 is PollSource {
        s1.next(EventView::Source(item), fresh)
    } else {
        (s1, a1)
    };
    if a2 is Yield {
        (s2, disk, a2->Yield_0)
    } else {
        let (d3, e3) = perform(disk, a2);
        let (s3, a3) = s2.next(e3, fresh);
        (s3, d3, a3->Yield_0)
    }
}

/// The chunks of a pass as a consumer sees them: each one yielded as a
/// success.
pub open spec fn yielded<E>(chunks: Seq<Seq<u8>>) -> Seq<Option<Result<Seq<u8>, StreamError<E>>>> {
    Seq::new(chunks.len(), |i: int| Some(Ok(chunks[i])))
}

/// So many production steps in a row, of a stream that replays: the state
/// they end in, and what they yield in order.
pub open spec fn replay_steps<E>(s: StreamView, disk: DiskView, steps: nat) -> (
    StreamView,
    DiskView,
    Seq<Option<Result<Seq<u8>, StreamError<E>>>>,
)
    decreases steps,
{
    if steps == 0 {
        (s, disk, Seq::empty())
    } else {
        let (s1, d1, y) = produce::<E>(s, disk, None, Seq::empty());
        let (s2, d2, ys) = replay_steps::<E>(s1, d1, (steps - 1) as nat);
        (s2, d2, seq![y] + ys)
    }
}

/// Chunks as a source without errors gives them.
pub open spec fn given<E>(chunks: Seq<Seq<u8>>) -> Seq<Result<Seq<u8>, E>> {
    Seq::new(chunks.len(), |i: int| Ok(chunks[i]))
}

/// One production step for each item that the source gives, in order: the
/// state they end in, and what they yield. `names[i]` is the name at hand
/// in step `i`.
pub open spec fn drain<E>(
    s: StreamView,
    disk: DiskView,
    items: Seq<Result<Seq<u8>, E>>,
    names: Seq<Seq<char>>,
) -> (StreamView, DiskView, Seq<Option<Result<Seq<u8>, StreamError<E>>>>)
    decreases items.len(),
{
    if items.len() == 0 {
        (s, disk, Seq::empty())
    } else {
        let (s1, d1, ys) = drain::<E>(s, disk, items.drop_last(), names);
        let (s2, d2, y) = produce::<E>(s1, d1, Some(items.last()), names[items.len() - 1]);
        (s2, d2, ys.push(y))
    }
}

/// The chunks that a store takes of the items offered: each chunk that
/// fits the limit together with those taken before it. `start` is the
/// number of bytes that the store holds already.
pub open spec fn kept<E>(start: int, limit: Option<usize>, items: Seq<Result<Seq<u8>, E>>) -> Seq<
    Seq<u8>,
>
    decreases items.len(),
{
    if items.len() == 0 {
        Seq::empty()
    } else {
        let before = kept(start, limit, items.drop_last());
        match items.last() {
            Ok(chunk) => if limit is Some && start + before.flatten().len() + chunk.len()
                > limit.unwrap() {
                before
            } else {
                before.push(chunk)
            },
            Err(_) => before,
        }
    }
}

/// The chunks among what was yielded, in order.
pub open spec fn successes<E>(ys: Seq<Option<Result<Seq<u8>, StreamError<E>>>>) -> Seq<Seq<u8>>
    decreases ys.len(),
{
    if ys.len() == 0 {
        Seq::empty()
    } else {
        let before = successes(ys.drop_last());
        match ys.last() {
            Some(Ok(chunk)) => before.push(chunk),
            _ => before,
        }
    }
}

} // verus!
