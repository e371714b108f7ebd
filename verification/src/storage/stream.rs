//! Streams of chunks, on their way into the store or out of it. A stream
//! ends at its first empty chunk, whatever comes after it.

use crate::storage::filesystem::stale;
use vstd::prelude::*;

verus! {

/// Whether none of the chunks is empty.
pub open spec fn all_full(chunks: Seq<Seq<u8>>) -> bool {
    forall|i: int| 0 <= i < chunks.len() ==> (#[trigger] chunks[i]).len() > 0
}

/// The bytes that pass when a stream of the given chunks is relayed: its
/// chunks one after the other, up to the first empty chunk.
pub open spec fn relayed(chunks: Seq<Seq<u8>>) -> Seq<u8>
    decreases chunks.len(),
{
    if chunks.len() == 0 || chunks.first().len() == 0 {
        Seq::empty()
    } else {
        chunks.first() + relayed(chunks.drop_first())
    }
}

/// The course of one stream through the store. Each chunk of the stream is
/// offered in turn, and the relay says whether to pass it on.
pub struct Relay {
    open: bool,
    seen: Ghost<Seq<Seq<u8>>>,
}

impl Relay {
    #[verifier::type_invariant]
    spec fn well_formed(self) -> bool {
        self.open == all_full(self.seen@)
    }

    /// The chunks offered so far, in their order.
    pub closed spec fn offered(self) -> Seq<Seq<u8>> {
        self.seen@
    }

    /// The relay of a stream of which no chunk has been offered yet.
    pub fn new() -> (relay: Relay)
        ensures
            relay.offered() == Seq::<Seq<u8>>::empty(),
    {
        Relay { open: true, seen: Ghost(Seq::empty()) }
    }

    /// Whether the stream still goes on: no empty chunk has been offered.
    pub fn is_open(&self) -> (open: bool)
        ensures
            open == all_full(self.offered()),
    {
        proof {
            use_type_invariant(self);
        }
        self.open
    }

    /// Offers the next chunk of the stream. The chunk is to be passed on if
    /// it is not empty and no empty chunk came before it; the first empty
    /// chunk ends the stream, and nothing that follows is passed on.
    ///
    /// So the chunks that were passed on make up, one after the other, what
    /// [`relayed`] says of the chunks that were offered.
    pub fn offer(&mut self, chunk: &[u8]) -> (pass: bool)
        ensures
            final(self).offered() == old(self).offered().push(chunk@),
            pass == (all_full(old(self).offered()) && chunk@.len() > 0),
            relayed(final(self).offered()) == if pass {
                relayed(old(self).offered()) + chunk@
            } else {
                relayed(old(self).offered())
            },
    {
        proof {
            use_type_invariant(&*self);
            lemma_relayed_push(self.seen@, chunk@);
        }
        let pass = self.open && chunk.len() > 0;
        let ghost seen = self.seen@.push(chunk@);
        proof {
            if pass {
                assert forall|i: int| 0 <= i < seen.len() implies (#[trigger] seen[i]).len()
                    > 0 by {
                    if i < self.seen@.len() {
                        assert(seen[i] == self.seen@[i]);
                    }
                }
            } else if self.open {
                assert(seen[seen.len() - 1].len() == 0);
            } else {
                let i = choose|i: int|
                    0 <= i < self.seen@.len() && !((#[trigger] self.seen@[i]).len() > 0);
                assert(seen[i] == self.seen@[i]);
            }
            assert(relayed(self.seen@) + Seq::<u8>::empty() =~= relayed(self.seen@));
        }
        *self = Relay { open: pass, seen: Ghost(seen) };
        pass
    }
}

/// One more chunk at the end of a stream adds its bytes to what is relayed
/// if no chunk before it was empty, and nothing otherwise.
pub proof fn lemma_relayed_push(chunks: Seq<Seq<u8>>, chunk: Seq<u8>)
    ensures
        all_full(chunks) ==> relayed(chunks.push(chunk)) == relayed(chunks) + chunk,
        !all_full(chunks) ==> relayed(chunks.push(chunk)) == relayed(chunks),
    decreases chunks.len(),
{
    let longer = chunks.push(chunk);
    if chunks.len() == 0 {
        assert(longer.first() == chunk);
        assert(relayed(longer.drop_first()) =~= Seq::<u8>::empty());
        assert(relayed(longer) =~= relayed(chunks) + chunk);
    } else {
        let rest = chunks.drop_first();
        assert(longer.first() == chunks.first());
        assert(longer.drop_first() =~= rest.push(chunk));
        lemma_relayed_push(rest, chunk);
        if chunks.first().len() == 0 {
            assert(!(chunks[0].len() > 0));
        } else {
            if all_full(chunks) {
                assert forall|i: int| 0 <= i < rest.len() implies (#[trigger] rest[i]).len()
                    > 0 by {
                    assert(rest[i] == chunks[i + 1]);
                }
                assert(relayed(longer) =~= relayed(chunks) + chunk);
            } else {
                let i = choose|i: int| 0 <= i < chunks.len() && !((#[trigger] chunks[i]).len() > 0);
                assert(rest[i - 1] == chunks[i]);
            }
        }
    }
}

/// Whether the stream holds nothing after its first empty chunk: every
/// chunk that follows an empty chunk is empty too.
pub open spec fn ends_cleanly(chunks: Seq<Seq<u8>>) -> bool {
    forall|i: int, j: int|
        0 <= i < j < chunks.len() && (#[trigger] chunks[i]).len() == 0 ==> (#[trigger] chunks[j]).len()
            == 0
}

/// Chunks that are all empty hold no bytes.
proof fn lemma_empty_chunks_hold_nothing(chunks: Seq<Seq<u8>>)
    requires
        forall|i: int| 0 <= i < chunks.len() ==> (#[trigger] chunks[i]).len() == 0,
    ensures
        chunks.flatten() == Seq::<u8>::empty(),
    decreases chunks.len(),
{
    if chunks.len() > 0 {
        let rest = chunks.drop_first();
        assert(chunks[0].len() == 0);
        assert forall|i: int| 0 <= i < rest.len() implies (#[trigger] rest[i]).len() == 0 by {
            assert(rest[i] == chunks[i + 1]);
        }
        lemma_empty_chunks_hold_nothing(rest);
        assert(chunks.flatten() =~= Seq::<u8>::empty());
    }
}

/// A stream that holds nothing after its first empty chunk is relayed
/// whole: what passes is every byte of every chunk, in order.
pub proof fn lemma_clean_stream_is_relayed_whole(chunks: Seq<Seq<u8>>)
    requires
        ends_cleanly(chunks),
    ensures
        relayed(chunks) == chunks.flatten(),
    decreases chunks.len(),
{
    if chunks.len() > 0 {
        let rest = chunks.drop_first();
        if chunks.first().len() == 0 {
            assert forall|i: int| 0 <= i < chunks.len() implies (#[trigger] chunks[i]).len()
                == 0 by {
                if i > 0 {
                    assert(chunks[0].len() == 0);
                }
            }
            lemma_empty_chunks_hold_nothing(chunks);
        } else {
            assert forall|i: int, j: int|
                0 <= i < j < rest.len() && (#[trigger] rest[i]).len() == 0 implies (
                #[trigger] rest[j]).len() == 0 by {
                assert(rest[i] == chunks[i + 1]);
                assert(rest[j] == chunks[j + 1]);
            }
            lemma_clean_stream_is_relayed_whole(rest);
        }
    }
}

/// An empty chunk in the middle of a stream ends it: what is relayed is
/// what came before the empty chunk, and nothing of what comes after it.
pub proof fn lemma_relay_ends_at_empty_chunk(head: Seq<Seq<u8>>, tail: Seq<Seq<u8>>)
    requires
        all_full(head),
    ensures
        relayed(head + seq![Seq::<u8>::empty()] + tail) == head.flatten(),
    decreases head.len(),
{
    let stream = head + seq![Seq::<u8>::empty()] + tail;
    if head.len() == 0 {
        assert(stream.first() == Seq::<u8>::empty());
    } else {
        let rest = head.drop_first();
        assert(head[0].len() > 0);
        assert(stream.first() == head.first());
        assert(stream.drop_first() =~= rest + seq![Seq::<u8>::empty()] + tail);
        assert forall|i: int| 0 <= i < rest.len() implies (#[trigger] rest[i]).len() > 0 by {
            assert(rest[i] == head[i + 1]);
        }
        lemma_relay_ends_at_empty_chunk(rest, tail);
    }
}

/// What is written and read back at once comes back whole.
///
/// A stream that holds nothing after its first empty chunk is stored as the
/// bytes of its chunks. An object read at the time it was written is stale
/// under no window. And when the backend hands the stored bytes back in
/// buffers that are not empty, with an empty buffer at the end of the
/// object, the stream that is read holds the bytes that were written, all
/// of them and in order.
pub proof fn lemma_round_trip(
    written: Seq<Seq<u8>>,
    buffers: Seq<Seq<u8>>,
    at: nat,
    window: nat,
)
    requires
        ends_cleanly(written),
        all_full(buffers),
        buffers.flatten() == relayed(written),
    ensures
        !stale(at, at, window),
        relayed(buffers.push(Seq::empty())) == written.flatten(),
{
    lemma_clean_stream_is_relayed_whole(written);
    lemma_clean_stream_is_relayed_whole(buffers);
    lemma_relayed_push(buffers, Seq::empty());
    assert(relayed(buffers) + Seq::<u8>::empty() =~= relayed(buffers));
}

} // verus!
