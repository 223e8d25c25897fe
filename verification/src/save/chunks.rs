//! Bytes in pieces: a file is written piece by piece, so that it is known how far a write that
//! fails has come.
use vstd::prelude::*;

verus! {

/// The bytes of some pieces.
pub open spec fn chunk_views(chunks: Seq<Vec<u8>>) -> Seq<Seq<u8>> {
    chunks.map_values(|chunk: Vec<u8>| chunk@)
}

/// The bytes of some pieces, one after the other.
pub open spec fn flat(chunks: Seq<Seq<u8>>) -> Seq<u8>
    decreases chunks.len(),
{
    if chunks.len() == 0 {
        seq![]
    } else {
        flat(chunks.drop_last()) + chunks.last()
    }
}

/// A piece at the end comes after the others.
pub proof fn lemma_flat_push(chunks: Seq<Seq<u8>>, chunk: Seq<u8>)
    ensures
        flat(chunks.push(chunk)) == flat(chunks) + chunk,
{
    assert(chunks.push(chunk).drop_last() =~= chunks);
}

/// The bytes of some pieces are those of each, one after the other; no pieces have none.
pub proof fn law_pieces_are_joined(chunks: Seq<Seq<u8>>, chunk: Seq<u8>)
    ensures
        flat(seq![]).len() == 0,
        flat(seq![chunk]) == chunk,
        flat(chunks + seq![chunk]) == flat(chunks) + chunk,
{
    let none = Seq::<Seq<u8>>::empty();
    lemma_flat_push(none, chunk);
    assert(none.push(chunk) =~= seq![chunk]);
    assert(flat(none) + chunk =~= chunk);
    lemma_flat_push(chunks, chunk);
    assert(chunks.push(chunk) =~= chunks + seq![chunk]);
}

/// The pieces are seen as they are, in their order.
pub proof fn law_pieces_are_seen_as_they_are(chunks: Seq<Vec<u8>>, i: int)
    requires
        0 <= i < chunks.len(),
    ensures
        chunk_views(chunks).len() == chunks.len(),
        chunk_views(chunks)[i] == chunks[i]@,
{
}

} // verus!
