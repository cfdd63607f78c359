//! How the captured bytes are cut into chunks for one replay pass.

use vstd::prelude::*;

verus! {

/// The chunks of a pass from `cursor` on: each takes `size` bytes, the last
/// one what is left. No chunk is cut when `size` is zero.
pub open spec fn chunks_from(content: Seq<u8>, cursor: int, size: int) -> Seq<Seq<u8>>
    decreases content.len() - cursor,
{
    if size <= 0 || cursor < 0 || cursor >= content.len() {
        Seq::empty()
    } else {
        let rest: int = content.len() - cursor;
        let n: int = if size <= rest {
            size
        } else {
            rest
        };
        seq![content.subrange(cursor, cursor + n)] + chunks_from(content, cursor + n, size)
    }
}

/// The chunks of a whole pass.
pub open spec fn chunks_of(content: Seq<u8>, size: int) -> Seq<Seq<u8>> {
    chunks_from(content, 0, size)
}

/// The chunks from a cursor on, joined in order, are the bytes from that
/// cursor on.
pub proof fn law_chunks_rejoin_from(content: Seq<u8>, cursor: int, size: int)
    requires
        0 <= cursor <= content.len(),
        size > 0,
    ensures
        chunks_from(content, cursor, size).flatten() == content.subrange(
            cursor,
            content.len() as int,
        ),
    decreases content.len() - cursor,
{
    let chunks = chunks_from(content, cursor, size);
    if cursor >= content.len() {
        assert(chunks.flatten() =~= content.subrange(cursor, content.len() as int));
    } else {
        let rest: int = content.len() - cursor;
        let n: int = if size <= rest {
            size
        } else {
            rest
        };
        let tail = chunks_from(content, cursor + n, size);
        law_chunks_rejoin_from(content, cursor + n, size);
        assert(chunks.first() == content.subrange(cursor, cursor + n));
        assert(chunks.drop_first() =~= tail);
        assert(chunks.flatten() =~= content.subrange(cursor, content.len() as int));
    }
}

/// The chunks of a pass, joined in order, are the content: a pass loses
/// nothing, adds nothing and keeps the order.
pub proof fn law_chunks_rejoin(content: Seq<u8>, size: int)
    requires
        size > 0,
    ensures
        chunks_of(content, size).flatten() == content,
{
    law_chunks_rejoin_from(content, 0, size);
    assert(content.subrange(0, content.len() as int) =~= content);
}

/// Every chunk of a pass holds at least one byte and at most `size`, and
/// every chunk but the last holds exactly `size`.
pub proof fn law_chunk_lengths(content: Seq<u8>, cursor: int, size: int, i: int)
    requires
        0 <= cursor <= content.len(),
        size > 0,
        0 <= i < chunks_from(content, cursor, size).len(),
    ensures
        0 < chunks_from(content, cursor, size)[i].len() <= size,
        i + 1 < chunks_from(content, cursor, size).len() ==> chunks_from(content, cursor, size)[i].len()
            == size,
    decreases content.len() - cursor,
{
    let chunks = chunks_from(content, cursor, size);
    let rest: int = content.len() - cursor;
    let n: int = if size <= rest {
        size
    } else {
        rest
    };
    let tail = chunks_from(content, cursor + n, size);
    assert(chunks =~= seq![content.subrange(cursor, cursor + n)] + tail);
    if i == 0 {
        if 1 < chunks.len() {
            assert(tail.len() > 0);
            assert(cursor + n < content.len());
        }
    } else {
        assert(chunks[i] == tail[i - 1]);
        law_chunk_lengths(content, cursor + n, size, i - 1);
    }
}

} // verus!
