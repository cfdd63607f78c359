//! What holds of every stream, proved from the transition function.

use crate::driver::{
    coherent, drain, given, kept, perform, produce, replay_steps, successes, yielded, DiskView,
};
use crate::replay::{chunks_from, chunks_of, law_chunk_lengths, law_chunks_rejoin};
use crate::error::{BufferingError, StreamError};
use crate::model::{EventView, StreamView};
use crate::names::is_file_name;
use vstd::prelude::*;
use vstd::seq_lib::lemma_flatten_concat;

verus! {

/// A new stream satisfies the invariant.
pub proof fn law_initial_invariant(
    tmp_dir: Seq<char>,
    threshold: usize,
    chunk_size: usize,
    limit: Option<usize>,
)
    ensures
        StreamView::initial(tmp_dir, threshold, chunk_size, limit).wf(),
{
}

/// Every transition keeps the invariant, whatever the event and whether or
/// not it was expected.
pub proof fn law_invariant_kept<E>(s: StreamView, event: EventView<E>, fresh: Seq<char>)
    requires
        s.inv(),
        is_file_name(fresh),
    ensures
        s.next(event, fresh).0.inv(),
{
}

/// Within the machine's limits every transition keeps the count of captured
/// bytes a `usize`.
pub proof fn law_bound_kept<E>(s: StreamView, event: EventView<E>, fresh: Seq<char>)
    requires
        s.wf(),
        s.admits(event),
        is_file_name(fresh),
    ensures
        s.next(event, fresh).0.wf(),
{
}

/// The store is in memory exactly while it holds no more than the
/// threshold. No transition takes bytes away or changes those already
/// captured, none brings a store back from disk or gives it another file,
/// and none changes the settings. So a store whose total stays within the
/// threshold never leaves memory, and any other goes to disk once: in the
/// transition that takes the total past the threshold.
pub proof fn law_spills_once_past_threshold<E>(s: StreamView, event: EventView<E>, fresh: Seq<char>)
    requires
        s.inv(),
        is_file_name(fresh),
    ensures
        s.file is None <==> s.captured.len() <= s.threshold,
        ({
            let t = s.next(event, fresh).0;
            &&& t.file is None <==> t.captured.len() <= t.threshold
            &&& s.captured.is_prefix_of(t.captured)
            &&& s.file is Some ==> t.file == s.file
            &&& t.tmp_dir == s.tmp_dir
            &&& t.threshold == s.threshold
            &&& t.chunk_size == s.chunk_size
            &&& t.limit == s.limit
        }),
{
}

/// A chunk from the source, with a filesystem that does not fail. A chunk
/// that would pass the limit is refused: the step yields `Overflow` and
/// leaves stream and file as they were. Any other chunk is yielded
/// unchanged and stands behind the bytes captured before it; the store is
/// on disk afterwards exactly if the new total is past the threshold, in
/// the file it had or else in a new one of the fresh name; and the file,
/// if there is one, holds all that was captured.
pub proof fn law_capture<E>(s: StreamView, disk: DiskView, chunk: Seq<u8>, fresh: Seq<char>)
    requires
        s.inv(),
        !s.drained,
        coherent(s, disk),
        is_file_name(fresh),
    ensures
        ({
            let (t, d, y) = produce::<E>(s, disk, Some(Ok(chunk)), fresh);
            if s.overflows(chunk.len() as int) {
                &&& t == s.settled()
                &&& d == disk
                &&& y == Some(Err::<Seq<u8>, _>(StreamError::<E>::Buffering(BufferingError::Overflow)))
            } else {
                &&& t == StreamView {
                    captured: s.captured + chunk,
                    file: if s.captured.len() + chunk.len() <= s.threshold {
                        None
                    } else if s.file is Some {
                        s.file
                    } else {
                        Some(fresh)
                    },
                    ..s.settled()
                }
                &&& y == Some(Ok::<_, StreamError<E>>(chunk))
                &&& t.inv()
                &&& coherent(t, d)
            }
        }),
{
    let polled = s.next::<E>(EventView::Demand, fresh).0;
    let request = polled.next::<E>(EventView::Source(Some(Ok(chunk))), fresh).1;
    if !s.overflows(chunk.len() as int) && s.file is Some {
        assert(disk.content.subrange(0, disk.position) =~= disk.content);
        assert(perform(disk, request).0.content =~= s.captured + chunk);
    }
}

/// An error of the source is yielded as it came; nothing is captured and
/// the stream goes on draining.
pub proof fn law_source_error_passes<E>(s: StreamView, disk: DiskView, e: E, fresh: Seq<char>)
    requires
        s.inv(),
        !s.drained,
    ensures
        produce::<E>(s, disk, Some(Err(e)), fresh) == (
            s.settled(),
            disk,
            Some(Err::<Seq<u8>, _>(StreamError::Source(e))),
        ),
{
}

/// The end of the source turns the stream to replay, at once and for good:
/// the step yields nothing, and nothing else changes.
pub proof fn law_source_end_turns_to_replay<E>(s: StreamView, disk: DiskView, fresh: Seq<char>)
    requires
        s.inv(),
        !s.drained,
    ensures
        produce::<E>(s, disk, None, fresh) == (
            StreamView { drained: true, ..s.settled() },
            disk,
            None::<Result<Seq<u8>, StreamError<E>>>,
        ),
{
}

/// A replay step, with a filesystem that does not fail. At the end of the
/// captured bytes it yields nothing and puts the cursor back to the start.
/// Before the end it yields the bytes at the cursor, as many as the chunk
/// size says or as are left, and moves the cursor behind them; the file is
/// read where the cursor stood, though it is sought only at the start of a
/// pass. With a chunk size of zero it yields nothing and moves nothing.
pub proof fn law_replay_step<E>(
    s: StreamView,
    disk: DiskView,
    item: Option<Result<Seq<u8>, E>>,
    fresh: Seq<char>,
)
    requires
        s.inv(),
        s.drained,
        coherent(s, disk),
    ensures
        ({
            let (t, d, y) = produce::<E>(s, disk, item, fresh);
            let n = s.replay_len();
            &&& t.inv()
            &&& coherent(t, d)
            &&& d.content == disk.content
            &&& if s.cursor >= s.captured.len() {
                t == StreamView { cursor: 0, ..s.settled() } && y is None
            } else if n == 0 {
                t == s.settled() && y is None
            } else {
                &&& t == StreamView { cursor: s.cursor + n, ..s.settled() }
                &&& y == Some(
                    Ok::<_, StreamError<E>>(s.captured.subrange(s.cursor, s.cursor + n)),
                )
            }
        }),
{
}

/// Joining chunks in order, the last chunk comes last.
proof fn lemma_flatten_push(chunks: Seq<Seq<u8>>, last: Seq<u8>)
    ensures
        chunks.push(last).flatten() == chunks.flatten() + last,
{
    seq![last].lemma_flatten_one_element();
    lemma_flatten_concat(chunks, seq![last]);
    assert(chunks.push(last) =~= chunks + seq![last]);
}

/// A replay pass from wherever the cursor stands, with a filesystem that
/// does not fail: the steps yield the chunks that are left, in order, and
/// then nothing, which ends the pass with the cursor back at the start.
pub proof fn law_replay_pass_from<E>(s: StreamView, disk: DiskView)
    requires
        s.inv(),
        s.drained,
        s.chunk_size > 0,
        coherent(s, disk),
    ensures
        ({
            let chunks = chunks_from(s.captured, s.cursor, s.chunk_size as int);
            let (t, d, ys) = replay_steps::<E>(s, disk, chunks.len() + 1);
            &&& ys == yielded::<E>(chunks).push(None)
            &&& t == StreamView { cursor: 0, ..s.settled() }
            &&& t.inv()
            &&& coherent(t, d)
            &&& d.content == disk.content
        }),
    decreases s.captured.len() - s.cursor,
{
    let chunks = chunks_from(s.captured, s.cursor, s.chunk_size as int);
    let (s1, d1, y) = produce::<E>(s, disk, None, Seq::empty());
    law_replay_step::<E>(s, disk, None, Seq::empty());
    if s.cursor >= s.captured.len() {
        let (t, d, ys) = replay_steps::<E>(s, disk, 1);
        assert(replay_steps::<E>(s1, d1, 0).2 =~= Seq::empty());
        assert(ys =~= yielded::<E>(chunks).push(None));
    } else {
        let rest = chunks_from(s1.captured, s1.cursor, s1.chunk_size as int);
        law_replay_pass_from::<E>(s1, d1);
        let (t1, e1, ys1) = replay_steps::<E>(s1, d1, rest.len() + 1);
        let (t, d, ys) = replay_steps::<E>(s, disk, chunks.len() + 1);
        assert(chunks =~= seq![s.captured.subrange(s.cursor, s.cursor + s.replay_len())] + rest);
        assert(chunks.len() + 1 == rest.len() + 2);
        assert(ys == seq![y] + ys1);
        assert(ys =~= yielded::<E>(chunks).push(None));
    }
}

/// Round trip. One full replay pass yields chunks that, joined in order,
/// are the captured bytes, byte for byte; each chunk holds as many bytes
/// as the chunk size says, but the last, which holds what is left and at
/// least one; then the pass ends by yielding nothing, and the stream
/// stands where it stood before the pass.
pub proof fn law_replay_pass<E>(s: StreamView, disk: DiskView)
    requires
        s.inv(),
        s.drained,
        s.cursor == 0,
        s.chunk_size > 0,
        coherent(s, disk),
    ensures
        ({
            let chunks = chunks_of(s.captured, s.chunk_size as int);
            let (t, d, ys) = replay_steps::<E>(s, disk, chunks.len() + 1);
            &&& ys == yielded::<E>(chunks).push(None)
            &&& chunks.flatten() == s.captured
            &&& forall|i: int|
                0 <= i < chunks.len() ==> 0 < (#[trigger] chunks[i]).len() <= s.chunk_size
            &&& forall|i: int|
                0 <= i < chunks.len() - 1 ==> (#[trigger] chunks[i]).len() == s.chunk_size
            &&& t == s.settled()
            &&& coherent(t, d)
        }),
{
    let chunks = chunks_of(s.captured, s.chunk_size as int);
    law_replay_pass_from::<E>(s, disk);
    law_chunks_rejoin(s.captured, s.chunk_size as int);
    assert forall|i: int| 0 <= i < chunks.len() implies 0 < (#[trigger] chunks[i]).len()
        <= s.chunk_size && (i < chunks.len() - 1 ==> chunks[i].len() == s.chunk_size) by {
        law_chunk_lengths(s.captured, 0, s.chunk_size as int, i);
    }
}

/// Replay is idempotent: a second full pass yields what the first one
/// yielded and leaves the stream as the first one left it.
pub proof fn law_replay_twice_same<E>(s: StreamView, disk: DiskView)
    requires
        s.inv(),
        s.drained,
        s.cursor == 0,
        s.chunk_size > 0,
        coherent(s, disk),
    ensures
        ({
            let steps = chunks_of(s.captured, s.chunk_size as int).len() + 1;
            let (t1, d1, first) = replay_steps::<E>(s, disk, steps);
            let (t2, d2, second) = replay_steps::<E>(t1, d1, steps);
            second == first && t2 == t1
        }),
{
    let steps = chunks_of(s.captured, s.chunk_size as int).len() + 1;
    law_replay_pass::<E>(s, disk);
    let (t1, d1, first) = replay_steps::<E>(s, disk, steps);
    law_replay_pass::<E>(t1, d1);
}

/// Draining, with a filesystem that does not fail. Whatever the source
/// gives, in whatever order: its errors are yielded as they came and
/// change nothing; a chunk that would take the total past the limit is
/// answered with `Overflow` and dropped; every other chunk is yielded
/// unchanged and captured. What is captured in the end is what was there,
/// followed by the chunks that were yielded, in their order.
pub proof fn law_drain<E>(
    s: StreamView,
    disk: DiskView,
    items: Seq<Result<Seq<u8>, E>>,
    names: Seq<Seq<char>>,
)
    requires
        s.inv(),
        !s.drained,
        coherent(s, disk),
        names.len() >= items.len(),
        forall|i: int| 0 <= i < items.len() ==> is_file_name(#[trigger] names[i]),
    ensures
        ({
            let (t, d, ys) = drain::<E>(s, disk, items, names);
            let taken = kept(s.captured.len() as int, s.limit, items);
            &&& t.inv()
            &&& !t.drained
            &&& coherent(t, d)
            &&& t.captured == s.captured + taken.flatten()
            &&& successes(ys) == taken
            &&& ys.len() == items.len()
            &&& forall|i: int|
                0 <= i < items.len() ==> #[trigger] ys[i] == match items[i] {
                    Err(e) => Some(Err::<Seq<u8>, _>(StreamError::Source(e))),
                    Ok(chunk) => if s.limit is Some && s.captured.len() + kept(
                        s.captured.len() as int,
                        s.limit,
                        items.take(i),
                    ).flatten().len() + chunk.len() > s.limit.unwrap() {
                        Some(Err(StreamError::Buffering(BufferingError::Overflow)))
                    } else {
                        Some(Ok(chunk))
                    },
                }
            &&& t.tmp_dir == s.tmp_dir
            &&& t.threshold == s.threshold
            &&& t.chunk_size == s.chunk_size
            &&& t.limit == s.limit
        }),
    decreases items.len(),
{
    let (t, d, ys) = drain::<E>(s, disk, items, names);
    let start = s.captured.len() as int;
    let taken = kept(start, s.limit, items);
    if items.len() == 0 {
        assert(s.captured + taken.flatten() =~= s.captured);
    } else {
        let (s1, d1, ys1) = drain::<E>(s, disk, items.drop_last(), names);
        let before = kept(start, s.limit, items.drop_last());
        law_drain::<E>(s, disk, items.drop_last(), names);
        let fresh = names[items.len() - 1];
        assert(ys.drop_last() =~= ys1);
        match items.last() {
            Ok(chunk) => {
                law_capture::<E>(s1, d1, chunk, fresh);
                lemma_flatten_push(before, chunk);
                assert(s1.captured.len() == start + before.flatten().len());
                if !s1.overflows(chunk.len() as int) {
                    assert(t.captured =~= s.captured + taken.flatten());
                }
            },
            Err(e) => {
                law_source_error_passes::<E>(s1, d1, e, fresh);
            },
        }
        assert forall|i: int| 0 <= i < items.len() implies #[trigger] ys[i] == match items[i] {
            Err(e) => Some(Err::<Seq<u8>, _>(StreamError::Source(e))),
            Ok(chunk) => if s.limit is Some && s.captured.len() + kept(
                start,
                s.limit,
                items.take(i),
            ).flatten().len() + chunk.len() > s.limit.unwrap() {
                Some(Err(StreamError::Buffering(BufferingError::Overflow)))
            } else {
                Some(Ok(chunk))
            },
        } by {
            if i < items.len() - 1 {
                assert(ys[i] == ys1[i]);
                assert(items.drop_last()[i] == items[i]);
                assert(items.drop_last().take(i) =~= items.take(i));
            } else {
                assert(items.take(i) =~= items.drop_last());
            }
        }
    }
}

/// The chunks among the yield of a pass are the chunks of the pass.
proof fn lemma_successes_of_yielded<E>(chunks: Seq<Seq<u8>>)
    ensures
        successes(yielded::<E>(chunks)) == chunks,
        successes(yielded::<E>(chunks).push(None)) == chunks,
    decreases chunks.len(),
{
    let ys = yielded::<E>(chunks);
    assert(ys.push(None).drop_last() =~= ys);
    if chunks.len() == 0 {
        assert(successes(ys) =~= chunks);
    } else {
        lemma_successes_of_yielded::<E>(chunks.drop_last());
        assert(ys.drop_last() =~= yielded::<E>(chunks.drop_last()));
        assert(chunks.drop_last().push(chunks.last()) =~= chunks);
    }
}

/// Joined chunks are no shorter than the joined chunks of a prefix.
proof fn lemma_flatten_take_grows(chunks: Seq<Seq<u8>>, k: int)
    requires
        0 <= k <= chunks.len(),
    ensures
        chunks.take(k).flatten().len() <= chunks.flatten().len(),
    decreases chunks.len() - k,
{
    if k == chunks.len() {
        assert(chunks.take(k) =~= chunks);
    } else {
        lemma_flatten_take_grows(chunks, k + 1);
        assert(chunks.take(k + 1) =~= chunks.take(k).push(chunks[k]));
        lemma_flatten_push(chunks.take(k), chunks[k]);
    }
}

/// Chunks that fit the limit all together are all taken.
proof fn lemma_kept_all<E>(start: int, limit: Option<usize>, chunks: Seq<Seq<u8>>)
    requires
        limit is Some ==> start + chunks.flatten().len() <= limit.unwrap(),
    ensures
        kept(start, limit, given::<E>(chunks)) == chunks,
    decreases chunks.len(),
{
    let items = given::<E>(chunks);
    if chunks.len() == 0 {
        assert(kept(start, limit, items) =~= chunks);
    } else {
        lemma_flatten_take_grows(chunks, chunks.len() - 1);
        assert(chunks.take(chunks.len() - 1) =~= chunks.drop_last());
        lemma_kept_all::<E>(start, limit, chunks.drop_last());
        assert(items.drop_last() =~= given::<E>(chunks.drop_last()));
        lemma_flatten_push(chunks.drop_last(), chunks.last());
        assert(chunks.drop_last().push(chunks.last()) =~= chunks);
    }
}

/// Round trip, from the first chunk to the end of a pass, with a
/// filesystem that does not fail. Drain whatever the source gives, let the
/// source end, and replay one full pass: the chunks that the pass yields,
/// joined in order, are the bytes that were there before, followed by the
/// chunks that the drain yielded, joined in order. For a new stream
/// nothing was there before.
pub proof fn law_round_trip<E>(
    s: StreamView,
    disk: DiskView,
    items: Seq<Result<Seq<u8>, E>>,
    names: Seq<Seq<char>>,
)
    requires
        s.inv(),
        !s.drained,
        s.chunk_size > 0,
        coherent(s, disk),
        names.len() >= items.len(),
        forall|i: int| 0 <= i < items.len() ==> is_file_name(#[trigger] names[i]),
    ensures
        ({
            let (t, d, drained) = drain::<E>(s, disk, items, names);
            let (u, e, end) = produce::<E>(t, d, None, Seq::empty());
            let steps = chunks_of(u.captured, u.chunk_size as int).len() + 1;
            let (v, f, replayed) = replay_steps::<E>(u, e, steps);
            &&& end is None
            &&& u.drained
            &&& replayed.last() is None
            &&& successes(replayed).flatten() == s.captured + successes(drained).flatten()
        }),
{
    let (t, d, drained) = drain::<E>(s, disk, items, names);
    law_drain::<E>(s, disk, items, names);
    let (u, e, end) = produce::<E>(t, d, None, Seq::empty());
    law_source_end_turns_to_replay::<E>(t, d, Seq::empty());
    law_replay_pass::<E>(u, e);
    lemma_successes_of_yielded::<E>(chunks_of(u.captured, u.chunk_size as int));
}

/// Overflow. With a limit, offer chunks of which the first `k` fit the
/// limit together and the next one does not. Each of the first `k` steps
/// yields its chunk; step `k` yields `Overflow`; and what is captured then,
/// and what a replay pass yields once the source has ended, is what was
/// there before and those first `k` chunks: nothing of the chunk that was
/// refused.
pub proof fn law_overflow_at_first_excess<E>(
    s: StreamView,
    disk: DiskView,
    chunks: Seq<Seq<u8>>,
    names: Seq<Seq<char>>,
    k: int,
)
    requires
        s.inv(),
        !s.drained,
        s.chunk_size > 0,
        coherent(s, disk),
        0 <= k < chunks.len(),
        names.len() > k,
        forall|i: int| 0 <= i <= k ==> is_file_name(#[trigger] names[i]),
        s.limit is Some,
        s.captured.len() + chunks.take(k).flatten().len() <= s.limit.unwrap(),
        s.captured.len() + chunks.take(k + 1).flatten().len() > s.limit.unwrap(),
    ensures
        ({
            let (t, d, drained) = drain::<E>(s, disk, given(chunks.take(k + 1)), names);
            let (u, e, end) = produce::<E>(t, d, None, Seq::empty());
            let steps = chunks_of(u.captured, u.chunk_size as int).len() + 1;
            let (v, f, replayed) = replay_steps::<E>(u, e, steps);
            &&& forall|i: int| 0 <= i < k ==> #[trigger] drained[i] == Some(Ok::<_, StreamError<E>>(chunks[i]))
            &&& drained[k] == Some(Err::<Seq<u8>, _>(StreamError::<E>::Buffering(BufferingError::Overflow)))
            &&& t.captured == s.captured + chunks.take(k).flatten()
            &&& successes(replayed).flatten() == s.captured + chunks.take(k).flatten()
        }),
{
    let start = s.captured.len() as int;
    let offered = chunks.take(k + 1);
    let items = given::<E>(offered);
    let (t, d, drained) = drain::<E>(s, disk, items, names);
    law_drain::<E>(s, disk, items, names);
    law_round_trip::<E>(s, disk, items, names);
    assert(items.drop_last() =~= given::<E>(chunks.take(k)));
    assert(items.take(k) =~= given::<E>(chunks.take(k)));
    lemma_kept_all::<E>(start, s.limit, chunks.take(k));
    assert(offered.take(k) =~= chunks.take(k));
    assert(offered =~= chunks.take(k).push(chunks[k]));
    lemma_flatten_push(chunks.take(k), chunks[k]);
    assert(kept(start, s.limit, items) == chunks.take(k));
    assert forall|i: int| 0 <= i < k implies #[trigger] drained[i] == Some(
        Ok::<_, StreamError<E>>(chunks[i]),
    ) by {
        assert(items.take(i) =~= given::<E>(chunks.take(i)));
        lemma_flatten_take_grows(chunks.take(k), i);
        assert(chunks.take(k).take(i) =~= chunks.take(i));
        lemma_flatten_take_grows(chunks.take(k), i + 1);
        assert(chunks.take(k).take(i + 1) =~= chunks.take(i).push(chunks[i]));
        lemma_flatten_push(chunks.take(i), chunks[i]);
        lemma_kept_all::<E>(start, s.limit, chunks.take(i));
    }
}

/// Spill-over over a stream's lifetime, with a filesystem that does not
/// fail. After any number of steps of a drain the store is in memory
/// exactly if it holds no more than the threshold. One more step takes
/// nothing away, and leaves a store that is on disk in the file it has.
/// So a source of no more bytes than the threshold is kept in memory
/// throughout, and any other is moved to disk once: in the step that takes
/// the total past the threshold.
pub proof fn law_drain_spills_at_first_excess<E>(
    s: StreamView,
    disk: DiskView,
    items: Seq<Result<Seq<u8>, E>>,
    names: Seq<Seq<char>>,
    j: int,
)
    requires
        s.inv(),
        !s.drained,
        coherent(s, disk),
        0 <= j < items.len(),
        names.len() >= items.len(),
        forall|i: int| 0 <= i < items.len() ==> is_file_name(#[trigger] names[i]),
    ensures
        ({
            let before = drain::<E>(s, disk, items.take(j), names).0;
            let after = drain::<E>(s, disk, items.take(j + 1), names).0;
            &&& before.file is None <==> before.captured.len() <= s.threshold
            &&& after.file is None <==> after.captured.len() <= s.threshold
            &&& before.captured.is_prefix_of(after.captured)
            &&& before.file is Some ==> after.file == before.file
        }),
{
    let (a, d, _) = drain::<E>(s, disk, items.take(j), names);
    law_drain::<E>(s, disk, items.take(j), names);
    law_drain::<E>(s, disk, items.take(j + 1), names);
    assert(items.take(j + 1).drop_last() =~= items.take(j));
    assert(items.take(j + 1).last() == items[j]);
    match items[j] {
        Ok(chunk) => {
            law_capture::<E>(a, d, chunk, names[j]);
        },
        Err(e) => {
            law_source_error_passes::<E>(a, d, e, names[j]);
        },
    }
}

} // verus!
