use vstd::prelude::*;

verus! {

/// One direction of an established tunnel: how many bytes it has
/// relayed, whether it has terminated, and the exact bytes handed on.
pub struct RelayChannel {
    /// Bytes relayed in this direction so far.
    pub transferred: u64,
    /// This direction has reached end-of-stream or an I/O error.
    pub closed: bool,
    /// The bytes handed on so far, in order.
    pub log: Ghost<Seq<u8>>,
}

impl RelayChannel {
    /// The counter agrees with the relayed stream.
    pub open spec fn wf(self) -> bool {
        self.transferred == self.log@.len()
    }

    /// A fresh direction: nothing relayed, still open.
    pub fn new() -> (r: RelayChannel)
        ensures
            r.wf(),
            r.transferred == 0,
            !r.closed,
            r.log@ == Seq::<u8>::empty(),
    {
        RelayChannel { transferred: 0, closed: false, log: Ghost(Seq::empty()) }
    }

    /// Relays one chunk: what goes out is exactly the chunk that came
    /// in, appended to this direction's stream after everything relayed
    /// before it — no reordering, no duplication, no loss.
    pub fn forward_chunk(&mut self, chunk: &Vec<u8>) -> (out: Vec<u8>)
        requires
            !old(self).closed,
            old(self).wf(),
            old(self).transferred + chunk@.len() <= u64::MAX,
        ensures
            final(self).wf(),
            out@ == chunk@,
            final(self).log@ == old(self).log@ + chunk@,
            final(self).transferred == old(self).transferred + chunk@.len(),
            !final(self).closed,
    {
        let mut out: Vec<u8> = Vec::new();
        let n = chunk.len();
        let mut i: usize = 0;
        while i < n
            invariant
                i <= n,
                n == chunk@.len(),
                out@ == chunk@.take(i as int),
            decreases n - i,
    {
            out.push(chunk[i]);
            proof {
                assert(chunk@.take(i as int + 1) =~= chunk@.take(i as int).push(
                    chunk@[i as int],
                ));
            }
            i = i + 1;
        }
        proof {
            assert(chunk@.take(n as int) =~= chunk@);
        }
        self.log = Ghost(self.log@ + chunk@);
        self.transferred = self.transferred + n as u64;
        out
    }

    /// Marks this direction terminated; the counter and the relayed
    /// stream stand as they are, and nothing is relayed afterwards.
    pub fn close(&mut self)
        ensures
            final(self).closed,
            final(self).transferred == old(self).transferred,
            final(self).log@ == old(self).log@,
    {
        self.closed = true;
    }
}

/// The termination rule of the relay pair: it continues only while both
/// directions stand; the first direction to close or error tears the
/// whole relay down.
pub fn relay_continue(client_to_upstream: &RelayChannel, upstream_to_client: &RelayChannel) -> (c:
    bool)
    ensures
        c == (!client_to_upstream.closed && !upstream_to_client.closed),
{
    !client_to_upstream.closed && !upstream_to_client.closed
}

/// The bytes of a run of chunks, in arrival order.
pub open spec fn concat_chunks(chunks: Seq<Seq<u8>>) -> Seq<u8>
    decreases chunks.len(),
{
    if chunks.len() == 0 {
        Seq::empty()
    } else {
        concat_chunks(chunks.drop_last()) + chunks.last()
    }
}

/// The total byte count of a run of chunks.
pub open spec fn total_len(chunks: Seq<Seq<u8>>) -> int
    decreases chunks.len(),
{
    if chunks.len() == 0 {
        0
    } else {
        total_len(chunks.drop_last()) + chunks.last().len()
    }
}

/// The relayed stream holds exactly as many bytes as arrived: nothing
/// dropped, nothing duplicated.
pub proof fn lemma_stream_length(chunks: Seq<Seq<u8>>)
    ensures
        concat_chunks(chunks).len() == total_len(chunks),
    decreases chunks.len(),
{
    if chunks.len() > 0 {
        lemma_stream_length(chunks.drop_last());
    }
}

/// One more chunk extends the stream at its end.
pub proof fn lemma_concat_take_step(chunks: Seq<Seq<u8>>, i: int)
    requires
        0 <= i < chunks.len(),
    ensures
        concat_chunks(chunks.take(i + 1)) == concat_chunks(chunks.take(i)) + chunks[i],
{
    assert(chunks.take(i + 1).drop_last() =~= chunks.take(i));
    assert(chunks.take(i + 1).last() == chunks[i]);
}

/// The stream of the first `n` chunks is a prefix of the whole stream.
pub proof fn lemma_concat_take_prefix(chunks: Seq<Seq<u8>>, n: int)
    requires
        0 <= n <= chunks.len(),
    ensures
        concat_chunks(chunks.take(n)).len() <= concat_chunks(chunks).len(),
        concat_chunks(chunks).subrange(0, concat_chunks(chunks.take(n)).len() as int)
            == concat_chunks(chunks.take(n)),
    decreases chunks.len(),
{
    if n == chunks.len() {
        assert(chunks.take(n) =~= chunks);
        assert(concat_chunks(chunks).subrange(0, concat_chunks(chunks).len() as int)
            =~= concat_chunks(chunks));
    } else {
        assert(chunks.drop_last().take(n) =~= chunks.take(n));
        lemma_concat_take_prefix(chunks.drop_last(), n);
        let a = concat_chunks(chunks.drop_last());
        let p = concat_chunks(chunks.take(n));
        assert(concat_chunks(chunks) == a + chunks.last());
        assert((a + chunks.last()).subrange(0, p.len() as int) =~= a.subrange(
            0,
            p.len() as int,
        ));
    }
}

/// Every relayed chunk appears in the stream contiguously, in arrival
/// order, right after the bytes of the chunks before it: the stream
/// delivers the bytes exactly as they were written, unreordered.
pub proof fn lemma_stream_in_order(chunks: Seq<Seq<u8>>, i: int)
    requires
        0 <= i < chunks.len(),
    ensures
        ({
            let off = concat_chunks(chunks.take(i)).len() as int;
            &&& off + chunks[i].len() <= concat_chunks(chunks).len()
            &&& concat_chunks(chunks).subrange(off, off + chunks[i].len() as int) == chunks[i]
        }),
{
    let off = concat_chunks(chunks.take(i)).len() as int;
    lemma_concat_take_step(chunks, i);
    lemma_concat_take_prefix(chunks, i + 1);
    let p = concat_chunks(chunks.take(i + 1));
    assert(p == concat_chunks(chunks.take(i)) + chunks[i]);
    assert(p.len() == off + chunks[i].len());
    let whole = concat_chunks(chunks);
    assert(whole.subrange(0, p.len() as int) == p);
    assert forall|j: int| 0 <= j < chunks[i].len() implies whole[off + j] == chunks[i][j] by {
        assert(whole.subrange(0, p.len() as int)[off + j] == whole[off + j]);
        assert(p[off + j] == chunks[i][j]);
    }
    assert(whole.subrange(off, off + chunks[i].len() as int) =~= chunks[i]);
}

} // verus!
