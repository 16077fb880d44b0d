//! Splitting an outbound plaintext into bounded pieces.
//!
//! Every piece is sealed and sent on its own, and the receiver shows each as
//! a message of its own: nothing on the wire says that pieces belong
//! together.

use vstd::prelude::*;
use crate::wire::{byte_views, copy_range};

verus! {

/// The pieces of `input`: as many full pieces of `size` bytes as fit, from
/// the front, and then what is left, if anything.
pub open spec fn chunks_of(input: Seq<u8>, size: nat) -> Seq<Seq<u8>>
    decreases input.len(),
{
    if size == 0 || input.len() == 0 {
        seq![]
    } else if input.len() <= size {
        seq![input]
    } else {
        seq![input.take(size as int)] + chunks_of(input.skip(size as int), size)
    }
}

/// The pieces put back together, in their order.
pub open spec fn concat(chunks: Seq<Seq<u8>>) -> Seq<u8>
    decreases chunks.len(),
{
    if chunks.len() == 0 {
        seq![]
    } else {
        chunks[0] + concat(chunks.drop_first())
    }
}

/// The pieces cover the input exactly once and in order: put together again,
/// they are the input.
pub proof fn lemma_chunks_cover(input: Seq<u8>, size: nat)
    requires
        size > 0,
    ensures
        concat(chunks_of(input, size)) == input,
    decreases input.len(),
{
    let chunks = chunks_of(input, size);
    if input.len() == 0 {
        assert(concat(chunks) =~= input);
    } else if input.len() <= size {
        assert(chunks.drop_first() =~= Seq::<Seq<u8>>::empty());
        assert(concat(chunks.drop_first()) =~= Seq::<u8>::empty());
        assert(concat(chunks) =~= input);
    } else {
        let rest = input.skip(size as int);
        lemma_chunks_cover(rest, size);
        assert(chunks.drop_first() =~= chunks_of(rest, size));
        assert(concat(chunks) =~= input);
    }
}

/// No piece is empty and none is longer than `size` or than the input;
/// every piece but the last is exactly `size` bytes long.
pub proof fn lemma_chunks_bounded(input: Seq<u8>, size: nat, i: int)
    requires
        size > 0,
        0 <= i < chunks_of(input, size).len(),
    ensures
        0 < chunks_of(input, size)[i].len() <= size,
        chunks_of(input, size)[i].len() <= input.len(),
        i + 1 < chunks_of(input, size).len() ==> chunks_of(input, size)[i].len() == size,
    decreases input.len(),
{
    if input.len() > size && i > 0 {
        let rest = input.skip(size as int);
        lemma_chunks_bounded(rest, size, i - 1);
        assert(chunks_of(input, size)[i] == chunks_of(rest, size)[i - 1]);
    }
}

/// The number of pieces is the input's length divided by `size`, rounded up;
/// so an empty input has no pieces.
pub proof fn lemma_chunks_count(input: Seq<u8>, size: nat)
    requires
        size > 0,
    ensures
        chunks_of(input, size).len() == (input.len() + size - 1) / (size as int),
        input.len() == 0 ==> chunks_of(input, size).len() == 0,
    decreases input.len(),
{
    let n = input.len() as int;
    let s = size as int;
    if n == 0 {
        assert((n + s - 1) / s == 0) by (nonlinear_arith)
            requires
                n == 0,
                s > 0,
        ;
    } else if n <= s {
        assert((n + s - 1) / s == 1) by (nonlinear_arith)
            requires
                0 < n <= s,
        ;
    } else {
        lemma_chunks_count(input.skip(s), size);
        assert((n + s - 1) / s == (n - s + s - 1) / s + 1) by (nonlinear_arith)
            requires
                n > s,
                s > 0,
        ;
    }
}

/// The `i`-th piece is the input from `i * size` up to the next multiple of
/// `size`, or to the input's end where that comes first.
pub proof fn lemma_chunk_position(input: Seq<u8>, size: nat, i: int)
    requires
        size > 0,
        0 <= i < chunks_of(input, size).len(),
    ensures
        i * size < input.len(),
        chunks_of(input, size)[i] == input.subrange(
            i * size,
            if (i + 1) * size <= input.len() {
                (i + 1) * size
            } else {
                input.len() as int
            },
        ),
    decreases input.len(),
{
    let s = size as int;
    if input.len() <= size || i == 0 {
        assert(i == 0);
        assert(0 * s == 0 && (0 + 1) * s == s) by (nonlinear_arith);
        assert(chunks_of(input, size)[0] =~= input.subrange(
            0,
            if s <= input.len() {
                s
            } else {
                input.len() as int
            },
        ));
    } else {
        let rest = input.skip(s);
        lemma_chunk_position(rest, size, i - 1);
        assert(chunks_of(input, size)[i] == chunks_of(rest, size)[i - 1]);
        assert((i - 1) * s + s == i * s && i * s + s == (i + 1) * s) by (nonlinear_arith);
        let hi = if i * s <= rest.len() {
            i * s
        } else {
            rest.len() as int
        };
        assert(rest.subrange((i - 1) * s, hi) =~= input.subrange(i * s, hi + s));
    }
}

/// Splits `plaintext` into pieces of at most `chunk_size` bytes, in order.
pub fn split(plaintext: &[u8], chunk_size: usize) -> (chunks: Vec<Vec<u8>>)
    requires
        chunk_size > 0,
    ensures
        byte_views(chunks@) == chunks_of(plaintext@, chunk_size as nat),
        concat(byte_views(chunks@)) == plaintext@,
        forall|i: int| 0 <= i < chunks@.len() ==> 0 < (#[trigger] chunks@[i])@.len() <= chunk_size,
        plaintext@.len() == 0 ==> chunks@.len() == 0,
{
    proof {
        lemma_chunks_cover(plaintext@, chunk_size as nat);
        lemma_chunks_count(plaintext@, chunk_size as nat);
        assert forall|i: int| 0 <= i < chunks_of(plaintext@, chunk_size as nat).len() implies 0
            < (#[trigger] chunks_of(plaintext@, chunk_size as nat)[i]).len() <= chunk_size by {
            lemma_chunks_bounded(plaintext@, chunk_size as nat, i);
        }
    }
    let mut chunks: Vec<Vec<u8>> = Vec::new();
    let mut start: usize = 0;
    let len: usize = plaintext.len();
    assert(plaintext@.skip(0) =~= plaintext@);
    assert(byte_views(chunks@) =~= Seq::<Seq<u8>>::empty());
    while start < len
        invariant
            chunk_size > 0,
            len == plaintext@.len(),
            start <= len,
            byte_views(chunks@) + chunks_of(plaintext@.skip(start as int), chunk_size as nat)
                == chunks_of(plaintext@, chunk_size as nat),
        decreases len - start,
    {
        let end: usize = if len - start <= chunk_size {
            len
        } else {
            start + chunk_size
        };
        let chunk = copy_range(plaintext, start, end);
        proof {
            let rest = plaintext@.skip(start as int);
            let done = byte_views(chunks@);
            if end == len {
                assert(rest =~= chunk@);
                assert(plaintext@.skip(end as int).len() == 0);
                assert(chunks_of(rest, chunk_size as nat) =~= seq![chunk@] + chunks_of(
                    plaintext@.skip(end as int),
                    chunk_size as nat,
                ));
            } else {
                assert(rest.take(chunk_size as int) =~= chunk@);
                assert(rest.skip(chunk_size as int) =~= plaintext@.skip(end as int));
            }
            assert(done.push(chunk@) + chunks_of(plaintext@.skip(end as int), chunk_size as nat)
                =~= done + chunks_of(rest, chunk_size as nat));
        }
        let ghost before = byte_views(chunks@);
        chunks.push(chunk);
        assert(byte_views(chunks@) =~= before.push(chunk@));
        start = end;
    }
    assert(byte_views(chunks@) + Seq::<Seq<u8>>::empty() =~= byte_views(chunks@));
    assert forall|i: int| 0 <= i < chunks@.len() implies 0 < (#[trigger] chunks@[i])@.len()
        <= chunk_size by {
        assert(byte_views(chunks@)[i] == chunks@[i]@);
    }
    chunks
}

} // verus!
