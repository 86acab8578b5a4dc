//! Collecting a response body that arrives in chunks, keeping at most a
//! given number of bytes and telling whether anything was cut off.
//!
//! The collector is a state machine: each chunk that arrives is an event,
//! and the answer says whether to read on or to stop reading.
use vstd::prelude::*;

use crate::headers::Headers;
use crate::http_client::FetchOutcome;

verus! {

/// The bytes of a stream of chunks, in order.
pub open spec fn flatten(chunks: Seq<Seq<u8>>) -> Seq<u8>
    decreases chunks.len(),
{
    if chunks.len() == 0 {
        Seq::empty()
    } else {
        flatten(chunks.drop_last()) + chunks.last()
    }
}

/// The part of `data` that a limit of `max` bytes keeps.
pub open spec fn kept(data: Seq<u8>, max: nat) -> Seq<u8> {
    if data.len() <= max {
        data
    } else {
        data.take(max as int)
    }
}

/// Whether a stream of chunks is cut off by a limit of `max` bytes: it
/// holds more than `max` bytes, or a further chunk (even an empty one)
/// followed once `max` bytes had arrived.
pub open spec fn truncates(chunks: Seq<Seq<u8>>, max: nat) -> bool {
    ||| flatten(chunks).len() > max
    ||| (chunks.len() >= 2 && flatten(chunks.drop_last()).len() >= max)
}

/// What the caller does after handing a chunk to the collector.
#[derive(Debug, Clone, Copy, PartialEq, Eq, Structural)]
pub enum CollectStep {
    /// Read the next chunk, if the stream has one.
    Continue,
    /// Stop reading: the body is complete as far as it will be kept.
    Stop,
}

/// Gathers the chunks of a response body up to a byte limit.
pub struct BodyCollector {
    max: usize,
    buf: Vec<u8>,
    truncated: bool,
    at_limit: bool,
    received: Ghost<Seq<Seq<u8>>>,
}

impl BodyCollector {
    /// The chunks handed to the collector and taken into account, in order.
    pub closed spec fn received(self) -> Seq<Seq<u8>> {
        self.received@
    }

    /// The most bytes the collector keeps.
    pub closed spec fn limit(self) -> nat {
        self.max as nat
    }

    #[verifier::type_invariant]
    closed spec fn inv(self) -> bool {
        &&& self.buf@ == kept(flatten(self.received@), self.max as nat)
        &&& self.truncated == truncates(self.received@, self.max as nat)
        &&& self.at_limit == (!self.truncated && self.received@.len() >= 1 && flatten(
            self.received@,
        ).len() == self.max)
    }

    /// A collector that has received nothing and keeps at most `max` bytes.
    pub fn new(max: usize) -> (res: BodyCollector)
        ensures
            res.received() == Seq::<Seq<u8>>::empty(),
            res.limit() == max,
    {
        let cap: usize = if max < 64 * 1024 {
            max
        } else {
            64 * 1024
        };
        BodyCollector {
            max,
            buf: Vec::with_capacity(cap),
            truncated: false,
            at_limit: false,
            received: Ghost(Seq::empty()),
        }
    }

    /// Takes in the next chunk of the body and says whether to read on.
    /// Once the collector has said `Stop`, it ignores further chunks.
    pub fn accept(self, chunk: &[u8]) -> (res: (BodyCollector, CollectStep))
        ensures
            res.0.limit() == self.limit(),
            truncates(self.received(), self.limit()) ==> res.0.received() == self.received(),
            !truncates(self.received(), self.limit()) ==> res.0.received() == self.received().push(
                chunk@,
            ),
            res.1 == CollectStep::Stop <==> truncates(res.0.received(), res.0.limit()),
    {
        proof {
            use_type_invariant(&self);
        }
        let BodyCollector { max, mut buf, truncated, at_limit, received } = self;
        if truncated {
            return (BodyCollector { max, buf, truncated, at_limit, received }, CollectStep::Stop);
        }
        let ghost old_flat = flatten(received@);
        let ghost new_received = received@.push(chunk@);
        proof {
            assert(new_received.drop_last() =~= received@);
            assert(new_received.last() == chunk@);
            assert(flatten(new_received) == old_flat + chunk@);
            assert(buf@ == old_flat);
        }
        if at_limit {
            proof {
                assert((old_flat + chunk@).take(max as int) =~= old_flat);
                assert((old_flat + chunk@).len() == max ==> old_flat + chunk@ =~= old_flat);
            }
            let next = BodyCollector {
                max,
                buf,
                truncated: true,
                at_limit: false,
                received: Ghost(new_received),
            };
            return (next, CollectStep::Stop);
        }
        if chunk.len() > max - buf.len() {
            let take = max - buf.len();
            append_prefix(&mut buf, chunk, take);
            proof {
                assert(old_flat + chunk@.take(take as int) =~= (old_flat + chunk@).take(max as int));
            }
            let next = BodyCollector {
                max,
                buf,
                truncated: true,
                at_limit: false,
                received: Ghost(new_received),
            };
            return (next, CollectStep::Stop);
        }
        let n = chunk.len();
        append_prefix(&mut buf, chunk, n);
        proof {
            assert(chunk@.take(n as int) =~= chunk@);
        }
        let reached = buf.len() == max;
        let next = BodyCollector {
            max,
            buf,
            truncated: false,
            at_limit: reached,
            received: Ghost(new_received),
        };
        (next, CollectStep::Continue)
    }

    /// The outcome of a fetch whose body is what the collector kept.
    pub fn finish(self, status: u16, final_url: String, headers: Headers) -> (res: FetchOutcome)
        ensures
            res.status == status,
            res.final_url == final_url,
            res.headers@ == headers@,
            res.body@ == kept(flatten(self.received()), self.limit()),
            res.truncated == truncates(self.received(), self.limit()),
    {
        proof {
            use_type_invariant(&self);
        }
        let BodyCollector { max, buf, truncated, at_limit, received } = self;
        FetchOutcome { status, final_url, headers, body: buf, truncated }
    }
}

/// Appends the first `n` bytes of `data` to `buf`.
fn append_prefix(buf: &mut Vec<u8>, data: &[u8], n: usize)
    requires
        n <= data@.len(),
    ensures
        final(buf)@ == old(buf)@ + data@.take(n as int),
{
    let mut i: usize = 0;
    while i < n
        invariant
            i <= n <= data@.len(),
            buf@ == old(buf)@ + data@.take(i as int),
        decreases n - i,
    {
        buf.push(data[i]);
        proof {
            assert(data@.take(i + 1) =~= data@.take(i as int).push(data@[i as int]));
        }
        i = i + 1;
    }
}

/// Whether every chunk of a stream holds at least one byte.
pub open spec fn all_nonempty(chunks: Seq<Seq<u8>>) -> bool {
    forall|i: int| 0 <= i < chunks.len() ==> #[trigger] chunks[i].len() > 0
}

/// For a stream whose chunks each hold some bytes, the kept body is the
/// first `min(len, max)` bytes, and the body is cut off exactly when the
/// stream is longer than `max`. A body no longer than the limit is kept
/// whole and not reported as cut off.
pub proof fn law_nonempty_stream(chunks: Seq<Seq<u8>>, max: nat)
    requires
        all_nonempty(chunks),
    ensures
        kept(flatten(chunks), max) == flatten(chunks).take(
            if flatten(chunks).len() <= max {
                flatten(chunks).len() as int
            } else {
                max as int
            },
        ),
        truncates(chunks, max) <==> flatten(chunks).len() > max,
        flatten(chunks).len() <= max ==> kept(flatten(chunks), max) == flatten(chunks)
            && !truncates(chunks, max),
{
    let flat = flatten(chunks);
    assert(flat.take(flat.len() as int) =~= flat);
    if chunks.len() >= 2 {
        assert(chunks.last() == chunks[chunks.len() - 1]);
        assert(chunks.last().len() > 0);
    }
}

/// The bytes of two streams, one after the other, are the bytes of each.
pub proof fn lemma_flatten_concat(a: Seq<Seq<u8>>, b: Seq<Seq<u8>>)
    ensures
        flatten(a + b) == flatten(a) + flatten(b),
    decreases b.len(),
{
    if b.len() == 0 {
        assert(a + b =~= a);
        assert(flatten(a) + flatten(b) =~= flatten(a));
    } else {
        lemma_flatten_concat(a, b.drop_last());
        assert((a + b).drop_last() =~= a + b.drop_last());
        assert((a + b).last() == b.last());
        assert(flatten(a) + flatten(b) =~= flatten(a) + flatten(b.drop_last()) + b.last());
    }
}

/// The bytes of a stream: none for no chunks, a chunk's own bytes for one
/// chunk, and for a stream followed by a chunk, the stream's bytes then the
/// chunk's.
pub proof fn law_flatten(chunks: Seq<Seq<u8>>, chunk: Seq<u8>)
    ensures
        flatten(Seq::<Seq<u8>>::empty()) == Seq::<u8>::empty(),
        flatten(seq![chunk]) == chunk,
        flatten(chunks.push(chunk)) == flatten(chunks) + chunk,
        flatten(chunks.push(chunk)).len() == flatten(chunks).len() + chunk.len(),
{
    assert(seq![chunk].drop_last() =~= Seq::<Seq<u8>>::empty());
    assert(Seq::<u8>::empty() + chunk =~= chunk);
    assert(chunks.push(chunk).drop_last() =~= chunks);
}

/// Once a stream is cut off, whatever follows it changes nothing: the
/// longer stream is cut off too and keeps the same bytes. So a collector
/// that stops reading reports what reading the whole body would report.
pub proof fn law_stop_loses_nothing(chunks: Seq<Seq<u8>>, rest: Seq<Seq<u8>>, max: nat)
    requires
        truncates(chunks, max),
    ensures
        truncates(chunks + rest, max),
        kept(flatten(chunks + rest), max) == kept(flatten(chunks), max),
{
    lemma_flatten_concat(chunks, rest);
    let all = chunks + rest;
    if flatten(chunks).len() <= max {
        // A further chunk followed after `max` bytes: the limit was met.
        assert(flatten(chunks).len() == max);
        if rest.len() > 0 {
            assert(all.drop_last() =~= chunks + rest.drop_last());
            lemma_flatten_concat(chunks, rest.drop_last());
        } else {
            assert(all =~= chunks);
        }
    }
    assert(flatten(chunks).len() >= max);
    assert(flatten(all).take(max as int) =~= flatten(chunks).take(max as int));
    if flatten(chunks).len() == max {
        assert(flatten(chunks).take(max as int) =~= flatten(chunks));
    }
}

/// What the truncation flag tells of a body: a cut-off body holds exactly
/// the limit; a body not cut off is the whole stream; a stream longer than
/// the limit is always reported as cut off; and no body exceeds the limit.
pub proof fn law_truncation_flag(chunks: Seq<Seq<u8>>, max: nat)
    ensures
        kept(flatten(chunks), max).len() <= max,
        kept(flatten(chunks), max) == flatten(chunks).take(kept(flatten(chunks), max).len() as int),
        truncates(chunks, max) ==> kept(flatten(chunks), max).len() == max,
        !truncates(chunks, max) ==> kept(flatten(chunks), max) == flatten(chunks),
        flatten(chunks).len() > max ==> truncates(chunks, max),
{
    let flat = flatten(chunks);
    assert(flat.take(flat.len() as int) =~= flat);
}

} // verus!
