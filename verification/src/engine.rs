//! The transfer engine: a bounded FIFO hand-off queue of byte chunks, the
//! producer's and consumer's decision rules, and the progress accounting for
//! a running transfer.
//!
//! At run time the producer reads the socket and the consumer writes the
//! destination file; those reads and writes happen outside this crate. What
//! is here is everything the two sides decide: which read results become
//! chunks, how the queue bounds buffered-but-unwritten data, how written
//! bytes are counted, and when the transfer is finished. `pump` runs the
//! whole pipeline over an in-memory source and shows that every byte that
//! arrives before end-of-stream is drained to the output, whatever the
//! declared size said.

use vstd::prelude::*;

verus! {

broadcast use vstd::prelude::Seq::lemma_flatten_push;

/// Largest chunk a single socket read produces: one mebibyte.
pub const BUF_SIZE: usize = 1048576;

/// How many chunks the hand-off queue may hold at once; with `BUF_SIZE` this
/// bounds buffered-but-unwritten data at 64 MiB per connection.
pub const QUEUE_CAPACITY: usize = 64;

/// The bounded FIFO queue between the socket-reading producer and the
/// file-writing consumer. Each chunk has exactly one owner: pushing hands it
/// over, popping hands it out.
pub struct ChunkQueue {
    chunks: Vec<Vec<u8>>,
}

impl View for ChunkQueue {
    type V = Seq<Seq<u8>>;

    closed spec fn view(&self) -> Seq<Seq<u8>> {
        self.chunks.deep_view()
    }
}

impl ChunkQueue {
    /// The queue never holds more than its capacity, and only the nonempty,
    /// bounded chunks the producer forwards.
    pub open spec fn wf(self) -> bool {
        &&& self@.len() <= QUEUE_CAPACITY
        &&& forall|i: int| 0 <= i < self@.len() ==> 0 < #[trigger] self@[i].len() <= BUF_SIZE
    }

    /// An empty queue.
    pub fn new() -> (q: ChunkQueue)
        ensures
            q@ == Seq::<Seq<u8>>::empty(),
            q.wf(),
    {
        let q = ChunkQueue { chunks: Vec::new() };
        proof {
            assert(q@ =~~= Seq::<Seq<u8>>::empty());
        }
        q
    }

    /// How many chunks are buffered.
    pub fn len(&self) -> (n: usize)
        ensures
            n == self@.len(),
    {
        self.chunks.len()
    }

    /// The producer's hand-off. A chunk enters the queue only while there is
    /// room; against a full queue the queue is unchanged and the chunk comes
    /// back to the caller, who must wait for the consumer. This is the
    /// backpressure that keeps buffered data bounded.
    pub fn try_push(&mut self, chunk: Vec<u8>) -> (r: Result<(), Vec<u8>>)
        requires
            old(self).wf(),
            0 < chunk@.len() <= BUF_SIZE,
        ensures
            final(self).wf(),
            old(self)@.len() < QUEUE_CAPACITY ==> r is Ok && final(self)@ == old(self)@.push(
                chunk@,
            ),
            old(self)@.len() >= QUEUE_CAPACITY ==> (r matches Err(c) && c == chunk && final(self)@
                == old(self)@),
    {
        if self.chunks.len() < QUEUE_CAPACITY {
            self.chunks.push(chunk);
            proof {
                assert(self@ =~~= old(self)@.push(chunk@));
            }
            Ok(())
        } else {
            Err(chunk)
        }
    }

    /// The consumer's take: the oldest chunk leaves the queue. Arrival order
    /// is kept, so the file is written in the order the bytes came.
    pub fn pop_front(&mut self) -> (c: Vec<u8>)
        requires
            old(self).wf(),
            old(self)@.len() > 0,
        ensures
            final(self).wf(),
            c@ == old(self)@[0],
            final(self)@ == old(self)@.drop_first(),
    {
        let c = self.chunks.remove(0);
        proof {
            assert(self@ =~~= old(self)@.drop_first());
        }
        c
    }
}

/// The count a queue holds never exceeds the queue's capacity: buffered
/// data is bounded however fast the source is.
pub proof fn lemma_queue_bounded(q: ChunkQueue)
    requires
        q.wf(),
    ensures
        q@.len() <= QUEUE_CAPACITY,
        q@.flatten().len() <= QUEUE_CAPACITY * BUF_SIZE,
{
    lemma_flatten_len_bounded(q@);
}

/// A sequence of chunks each at most `BUF_SIZE` long flattens to at most
/// `BUF_SIZE` bytes per chunk.
proof fn lemma_flatten_len_bounded(s: Seq<Seq<u8>>)
    requires
        forall|i: int| 0 <= i < s.len() ==> #[trigger] s[i].len() <= BUF_SIZE,
    ensures
        s.flatten().len() <= s.len() * BUF_SIZE,
    decreases s.len(),
{
    if s.len() > 0 {
        lemma_flatten_len_bounded(s.drop_first());
        assert(s.flatten() == s[0] + s.drop_first().flatten());
        assert((s.len() - 1) * BUF_SIZE == s.len() * BUF_SIZE - BUF_SIZE) by (nonlinear_arith);
    }
}

/// What one socket read gave the producer.
pub enum ReadEvent {
    /// The read returned these bytes; a zero-length read means end of stream.
    Data(Vec<u8>),
    /// The source signalled end of stream.
    EndOfStream,
    /// The read failed; the producer gives up exactly as on end of stream.
    ReadFailed,
}

/// What the producer does with a read result.
#[derive(PartialEq, Eq, Debug)]
pub enum ProducerAction {
    /// Hand this chunk to the queue (blocking while it is full).
    Forward(Vec<u8>),
    /// Close the producer's end of the queue and stop reading.
    Stop,
}

/// The producer's decision rule: every nonempty read is forwarded whole, in
/// order; a zero-length read, end of stream, or a failed read stops the
/// producer and closes its end of the queue.
pub fn producer_step(ev: ReadEvent) -> (a: ProducerAction)
    ensures
        ev matches ReadEvent::Data(c) ==> (if c@.len() > 0 {
            a matches ProducerAction::Forward(f) && f@ == c@
        } else {
            a == ProducerAction::Stop
        }),
        ev is EndOfStream || ev is ReadFailed ==> a == ProducerAction::Stop,
{
    match ev {
        ReadEvent::Data(c) => {
            if c.len() > 0 {
                ProducerAction::Forward(c)
            } else {
                ProducerAction::Stop
            }
        },
        ReadEvent::EndOfStream => ProducerAction::Stop,
        ReadEvent::ReadFailed => ProducerAction::Stop,
    }
}

/// The running state of one connection's transfer: how much has been written
/// against the size the header declared, and whether the transfer is done.
pub struct TransferEngine {
    pub declared_size: u64,
    pub bytes_written: u64,
    pub finished: bool,
}

/// Progress of a transfer as a whole percentage: bytes written so far over
/// the declared size. A declared size of zero disables the figure.
pub open spec fn spec_progress(bytes_written: u64, declared_size: u64) -> Option<int> {
    if declared_size == 0 {
        None
    } else {
        Some(bytes_written * 100 / declared_size as int)
    }
}

impl TransferEngine {
    /// A fresh engine for a transfer whose header declared `declared_size`
    /// body bytes; nothing written yet.
    pub fn new(declared_size: u64) -> (e: TransferEngine)
        ensures
            e.declared_size == declared_size,
            e.bytes_written == 0,
            !e.finished,
    {
        TransferEngine { declared_size, bytes_written: 0, finished: false }
    }

    /// Accounts one written chunk: the running total grows by exactly the
    /// chunk's length.
    pub fn record_chunk(&mut self, chunk_len: usize)
        requires
            !old(self).finished,
            0 < chunk_len <= BUF_SIZE,
            old(self).bytes_written + chunk_len <= u64::MAX,
        ensures
            final(self).bytes_written == old(self).bytes_written + chunk_len,
            final(self).declared_size == old(self).declared_size,
            !final(self).finished,
    {
        self.bytes_written = self.bytes_written + (chunk_len as u64);
    }

    /// The whole-percent progress figure to report, or `None` when the
    /// declared size was zero and no percentage is defined.
    pub fn progress_percent(&self) -> (r: Option<u128>)
        ensures
            (r matches Some(p) ==> Some(p as int) == spec_progress(
                self.bytes_written,
                self.declared_size,
            )),
            r is None <==> self.declared_size == 0,
    {
        if self.declared_size == 0 {
            None
        } else {
            Some(((self.bytes_written as u128) * 100) / (self.declared_size as u128))
        }
    }

    /// Marks the transfer complete once the queue is closed and drained; the
    /// byte total is final.
    pub fn finish(&mut self)
        requires
            !old(self).finished,
        ensures
            final(self).finished,
            final(self).bytes_written == old(self).bytes_written,
            final(self).declared_size == old(self).declared_size,
    {
        self.finished = true;
    }
}

/// What the consumer found when it asked the queue for the next chunk.
pub enum QueueEvent {
    /// The oldest buffered chunk.
    Chunk(Vec<u8>),
    /// The queue is empty and no producer remains.
    Closed,
}

/// What the consumer does next.
#[derive(PartialEq, Eq, Debug)]
pub enum ConsumerAction {
    /// Append this chunk to the destination file.
    Write(Vec<u8>),
    /// Flush the file and report the transfer complete.
    Finish,
}

/// The consumer's decision rule: every chunk that leaves the queue is
/// written, whole and in order, and is counted the moment it is; a closed,
/// drained queue ends the transfer, however many bytes the header promised.
pub fn consumer_step(engine: &mut TransferEngine, ev: QueueEvent) -> (a: ConsumerAction)
    requires
        !old(engine).finished,
        ev matches QueueEvent::Chunk(c) ==> 0 < c@.len() <= BUF_SIZE && old(engine).bytes_written
            + c@.len() <= u64::MAX,
    ensures
        ev matches QueueEvent::Chunk(c) ==> (a matches ConsumerAction::Write(w) && w@ == c@
            && final(engine).bytes_written == old(engine).bytes_written + c@.len()
            && !final(engine).finished),
        ev is Closed ==> (a == ConsumerAction::Finish && final(engine).finished
            && final(engine).bytes_written == old(engine).bytes_written),
        final(engine).declared_size == old(engine).declared_size,
{
    match ev {
        QueueEvent::Chunk(c) => {
            engine.record_chunk(c.len());
            ConsumerAction::Write(c)
        },
        QueueEvent::Closed => {
            engine.finish();
            ConsumerAction::Finish
        },
    }
}

/// A prefix of a chunk sequence never flattens to more bytes than the whole.
proof fn lemma_flatten_take_le(s: Seq<Seq<u8>>, i: int)
    requires
        0 <= i <= s.len(),
    ensures
        s.take(i).flatten().len() <= s.flatten().len(),
{
    assert(s =~= s.take(i) + s.skip(i));
    vstd::seq_lib::lemma_flatten_concat(s.take(i), s.skip(i));
}

/// Runs the producer, the bounded queue and the consumer over an in-memory
/// source: the chunks the socket yielded before it signalled end of stream.
/// Every byte received is drained to the output, in arrival order, and the
/// engine finishes — whatever the declared size said, so a body shorter than
/// its header promised never leaves the engine waiting for phantom bytes.
pub fn pump(source: &Vec<Vec<u8>>, declared_size: u64) -> (r: (Vec<u8>, TransferEngine))
    requires
        forall|i: int| 0 <= i < source@.len() ==> 0 < #[trigger] source@[i]@.len() <= BUF_SIZE,
        source.deep_view().flatten().len() <= u64::MAX,
    ensures
        r.0@ == source.deep_view().flatten(),
        r.1.finished,
        r.1.declared_size == declared_size,
        r.1.bytes_written == source.deep_view().flatten().len(),
{
    let ghost all = source.deep_view();
    let n = source.len();
    let mut q = ChunkQueue::new();
    let mut eng = TransferEngine::new(declared_size);
    let mut out: Vec<u8> = Vec::new();
    let mut i: usize = 0;
    proof {
        assert(all.take(0int).flatten() =~= Seq::<u8>::empty());
    }
    while i < n
        invariant
            n == source@.len(),
            n == all.len(),
            all == source.deep_view(),
            all.flatten().len() <= u64::MAX,
            forall|j: int| 0 <= j < source@.len() ==> 0 < #[trigger] source@[j]@.len() <= BUF_SIZE,
            0 <= i <= n,
            q.wf(),
            !eng.finished,
            eng.declared_size == declared_size,
            eng.bytes_written == out@.len(),
            out@ + q@.flatten() == all.take(i as int).flatten(),
        decreases n - i,
    {
        proof {
            assert(all[i as int] =~= source@[i as int]@);
            assert(all.take(i as int + 1) =~= all.take(i as int).push(all[i as int]));
            lemma_flatten_take_le(all, i as int + 1);
        }
        let chunk = source[i].clone();
        proof {
            assert(chunk@ =~= source@[i as int]@);
        }
        match producer_step(ReadEvent::Data(chunk)) {
            ProducerAction::Forward(f) => {
                match q.try_push(f) {
                    Ok(()) => {},
                    Err(c) => {
                        proof {
                            assert(q@.flatten() == q@[0] + q@.drop_first().flatten());
                        }
                        let front = q.pop_front();
                        let ghost out_pre = out@;
                        match consumer_step(&mut eng, QueueEvent::Chunk(front)) {
                            ConsumerAction::Write(w) => {
                                out.extend_from_slice(w.as_slice());
                                proof {
                                    assert(out@ =~= out_pre + w@);
                                }
                            },
                            ConsumerAction::Finish => {
                                proof {
                                    assert(false);
                                }
                            },
                        }
                        match q.try_push(c) {
                            Ok(()) => {},
                            Err(_) => {
                                proof {
                                    assert(false);
                                }
                            },
                        }
                    },
                }
                proof {
                    assert(out@ + q@.flatten() =~= all.take(i as int + 1).flatten());
                }
            },
            ProducerAction::Stop => {
                proof {
                    assert(false);
                }
            },
        }
        i += 1;
    }
    proof {
        assert(all.take(n as int) =~= all);
    }
    while q.len() > 0
        invariant
            all.flatten().len() <= u64::MAX,
            q.wf(),
            !eng.finished,
            eng.declared_size == declared_size,
            eng.bytes_written == out@.len(),
            out@ + q@.flatten() == all.flatten(),
        decreases q@.len(),
    {
        proof {
            assert(q@.flatten() == q@[0] + q@.drop_first().flatten());
        }
        let front = q.pop_front();
        let ghost out_pre = out@;
        match consumer_step(&mut eng, QueueEvent::Chunk(front)) {
            ConsumerAction::Write(w) => {
                out.extend_from_slice(w.as_slice());
                proof {
                    assert(out@ =~= out_pre + w@);
                }
            },
            ConsumerAction::Finish => {
                proof {
                    assert(false);
                }
            },
        }
    }
    proof {
        assert(q@.flatten() =~= Seq::<u8>::empty());
        assert(out@ =~= all.flatten());
    }
    match consumer_step(&mut eng, QueueEvent::Closed) {
        ConsumerAction::Finish => {},
        ConsumerAction::Write(_) => {
            proof {
                assert(false);
            }
        },
    }
    (out, eng)
}

} // verus!
