//! A bounded combined stdout/stderr byte queue with an independent capped tail.
use std::collections::VecDeque;
use vstd::prelude::*;
use vstd::string::StringExecFns;

verus! {

/// Which OS pipe produced a chunk.
#[derive(Debug, Clone, Copy, PartialEq, Eq, Structural)]
pub enum OutputStream {
    /// Standard output.
    Stdout,
    /// Standard error.
    Stderr,
}

/// A byte chunk; decoding belongs to the caller.
#[derive(Debug, Clone, PartialEq, Eq)]
pub struct OutputChunk {
    /// The pipe it came from.
    pub stream: OutputStream,
    /// The bytes, as they were read.
    pub bytes: Vec<u8>,
}

/// What a chunk holds.
#[verifier::ext_equal]
pub struct ChunkView {
    /// The pipe it came from.
    pub stream: OutputStream,
    /// The bytes, as they were read.
    pub bytes: Seq<u8>,
}

impl View for OutputChunk {
    type V = ChunkView;

    open spec fn view(&self) -> ChunkView {
        ChunkView { stream: self.stream, bytes: self.bytes@ }
    }
}

/// What a sequence of chunks holds.
pub open spec fn chunk_views(chunks: Seq<OutputChunk>) -> Seq<ChunkView> {
    Seq::new(chunks.len(), |i: int| chunks[i]@)
}

/// A nonblocking drain of the bounded consumer queue, plus current post-mortem tail.
#[derive(Debug, Clone)]
pub struct OutputSnapshot {
    /// The chunks taken from the queue, oldest first.
    pub chunks: Vec<OutputChunk>,
    /// The retained tail, oldest first.
    pub tail: Vec<OutputChunk>,
    /// How many bytes the queue has dropped so far.
    pub dropped_bytes: u64,
    /// Standard output reached its end.
    pub stdout_closed: bool,
    /// Standard error reached its end.
    pub stderr_closed: bool,
    /// What went wrong while reading, in order.
    pub errors: Vec<String>,
}

/// The bytes of all chunks, each with its stream, oldest first.
pub open spec fn tagged(chunks: Seq<ChunkView>) -> Seq<(OutputStream, u8)>
    decreases chunks.len(),
{
    if chunks.len() == 0 {
        Seq::empty()
    } else {
        tagged_bytes(chunks[0].stream, chunks[0].bytes) + tagged(chunks.skip(1))
    }
}

/// Bytes with the stream they came from.
pub open spec fn tagged_bytes(stream: OutputStream, bytes: Seq<u8>) -> Seq<(OutputStream, u8)> {
    Seq::new(bytes.len(), |i: int| (stream, bytes[i]))
}

/// The last `count` elements, or all of them where there are fewer.
pub open spec fn last_of<T>(items: Seq<T>, count: nat) -> Seq<T> {
    if items.len() > count {
        items.skip(items.len() - count)
    } else {
        items
    }
}

/// The chunks without their oldest `count` bytes; a chunk that loses all its bytes goes.
pub open spec fn trimmed(chunks: Seq<ChunkView>, count: nat) -> Seq<ChunkView>
    decreases chunks.len(),
{
    if count == 0 || chunks.len() == 0 {
        chunks
    } else if chunks[0].bytes.len() <= count {
        trimmed(chunks.skip(1), (count - chunks[0].bytes.len()) as nat)
    } else {
        chunks.update(
            0,
            ChunkView {
                stream: chunks[0].stream,
                bytes: chunks[0].bytes.skip(count as int),
            },
        )
    }
}

/// No chunk is empty.
pub open spec fn no_empty_chunk(chunks: Seq<ChunkView>) -> bool {
    forall|i: int| 0 <= i < chunks.len() ==> (#[trigger] chunks[i]).bytes.len() > 0
}

/// How many of the oldest bytes make way when `incoming` bytes join `held` bytes.
pub open spec fn overflow(held: nat, incoming: nat, capacity: nat) -> nat {
    let retained = if incoming < capacity {
        incoming
    } else {
        capacity
    };
    if held + retained > capacity {
        (held + retained - capacity) as nat
    } else {
        0
    }
}

/// The queue after `bytes` were appended: the oldest bytes make way, and of a chunk that does
/// not fit at all only the end is kept.
pub open spec fn appended(
    chunks: Seq<ChunkView>,
    capacity: nat,
    stream: OutputStream,
    bytes: Seq<u8>,
) -> Seq<ChunkView> {
    let kept = trimmed(chunks, overflow(tagged(chunks).len(), bytes.len(), capacity));
    let newest = last_of(bytes, capacity);
    if newest.len() > 0 {
        kept.push(ChunkView { stream, bytes: newest })
    } else {
        kept
    }
}

/// Trimming chunks drops exactly their oldest bytes.
pub proof fn lemma_trimmed(chunks: Seq<ChunkView>, count: nat)
    requires
        count <= tagged(chunks).len(),
    ensures
        tagged(trimmed(chunks, count)) == tagged(chunks).skip(count as int),
        no_empty_chunk(chunks) ==> no_empty_chunk(trimmed(chunks, count)),
    decreases chunks.len(),
{
    if count == 0 || chunks.len() == 0 {
        assert(tagged(chunks).skip(0) =~= tagged(chunks));
    } else {
        let first = tagged_bytes(chunks[0].stream, chunks[0].bytes);
        let rest = tagged(chunks.skip(1));
        if chunks[0].bytes.len() <= count {
            let left = (count - chunks[0].bytes.len()) as nat;
            lemma_trimmed(chunks.skip(1), left);
            assert((first + rest).skip(count as int) =~= rest.skip(left as int));
            if no_empty_chunk(chunks) {
                assert forall|i: int| 0 <= i < chunks.skip(1).len() implies (
                #[trigger] chunks.skip(1)[i]).bytes.len() > 0 by {
                    assert(chunks.skip(1)[i] == chunks[i + 1]);
                }
            }
        } else {
            let cut = trimmed(chunks, count);
            assert(cut.skip(1) =~= chunks.skip(1));
            assert(tagged_bytes(cut[0].stream, cut[0].bytes) + rest =~= (first + rest).skip(
                count as int,
            ));
        }
    }
}

/// The bytes of appended chunks follow one another.
pub proof fn lemma_tagged_push(chunks: Seq<ChunkView>, chunk: ChunkView)
    ensures
        tagged(chunks.push(chunk)) == tagged(chunks) + tagged_bytes(chunk.stream, chunk.bytes),
    decreases chunks.len(),
{
    let grown = chunks.push(chunk);
    if chunks.len() == 0 {
        reveal_with_fuel(tagged, 2);
        assert(grown.skip(1) =~= Seq::empty());
        assert(tagged(grown) =~= tagged(chunks) + tagged_bytes(chunk.stream, chunk.bytes));
    } else {
        lemma_tagged_push(chunks.skip(1), chunk);
        assert(grown.skip(1) =~= chunks.skip(1).push(chunk));
        assert(tagged(grown) =~= tagged(chunks) + tagged_bytes(chunk.stream, chunk.bytes));
    }
}

/// A bounded queue keeps exactly its newest bytes, in order and with their streams: what it
/// holds after an append is the end of what it held before with the new bytes behind.
pub proof fn queue_keeps_the_newest_bytes(
    chunks: Seq<ChunkView>,
    capacity: nat,
    stream: OutputStream,
    bytes: Seq<u8>,
)
    requires
        tagged(chunks).len() <= capacity,
    ensures
        tagged(appended(chunks, capacity, stream, bytes)) == last_of(
            tagged(chunks) + tagged_bytes(stream, bytes),
            capacity,
        ),
        tagged(appended(chunks, capacity, stream, bytes)).len() <= capacity,
        no_empty_chunk(chunks) ==> no_empty_chunk(appended(chunks, capacity, stream, bytes)),
{
    let held = tagged(chunks);
    let count = overflow(held.len(), bytes.len(), capacity);
    let kept = trimmed(chunks, count);
    let newest = last_of(bytes, capacity);
    lemma_trimmed(chunks, count);
    if newest.len() > 0 {
        lemma_tagged_push(kept, ChunkView { stream, bytes: newest });
    }
    assert(tagged(appended(chunks, capacity, stream, bytes)) =~= held.skip(count as int)
        + tagged_bytes(stream, newest));
    assert(held.skip(count as int) + tagged_bytes(stream, newest) =~= last_of(
        held + tagged_bytes(stream, bytes),
        capacity,
    ));
}

/// A byte queue with its size.
#[derive(Debug)]
struct ByteQueue {
    chunks: VecDeque<OutputChunk>,
    size: usize,
    capacity: usize,
}

impl ByteQueue {
    spec fn held(self) -> Seq<ChunkView> {
        chunk_views(self.chunks@)
    }

    spec fn wf(self) -> bool {
        &&& self.size == tagged(self.held()).len()
        &&& self.size <= self.capacity
        &&& no_empty_chunk(self.held())
    }

    fn new(capacity: usize) -> (queue: Self)
        ensures
            queue.wf(),
            queue.held() == Seq::<ChunkView>::empty(),
            queue.capacity == capacity,
    {
        let queue = ByteQueue { chunks: VecDeque::new(), size: 0, capacity };
        assert(queue.held() =~= Seq::<ChunkView>::empty());
        queue
    }

    /// Drops the oldest `count` bytes.
    fn trim(&mut self, count: usize)
        requires
            old(self).wf(),
            count <= old(self).size,
        ensures
            final(self).wf(),
            final(self).held() == trimmed(old(self).held(), count as nat),
            final(self).size == old(self).size - count,
            final(self).capacity == old(self).capacity,
    {
        let mut remove: usize = count;
        let ghost goal = trimmed(self.held(), count as nat);
        while remove > 0
            invariant
                self.wf(),
                remove <= self.size,
                self.capacity == old(self).capacity,
                self.size - remove == old(self).size - count,
                goal == trimmed(self.held(), remove as nat),
            decreases remove,
        {
            let ghost before = self.held();
            let ghost stored = self.chunks@;
            let ghost left = remove;
            proof {
                lemma_trimmed(before, remove as nat);
            }
            match self.chunks.pop_front() {
                None => {
                    assert(false);
                    remove = 0;
                },
                Some(first) => {
                    let mut chunk = first;
                    assert(before[0] == chunk@);
                    assert(chunk_views(self.chunks@) =~= before.skip(1));
                    assert(no_empty_chunk(before.skip(1))) by {
                        assert forall|i: int| 0 <= i < before.skip(1).len() implies (
                        #[trigger] before.skip(1)[i]).bytes.len() > 0 by {
                            assert(before.skip(1)[i] == before[i + 1]);
                        }
                    }
                    if chunk.bytes.len() <= remove {
                        remove = remove - chunk.bytes.len();
                        self.size = self.size - chunk.bytes.len();
                    } else {
                        let ghost whole = chunk.bytes@;
                        let rest: Vec<u8> = chunk.bytes.split_off(remove);
                        assert(rest@ =~= whole.skip(remove as int));
                        self.chunks.push_front(OutputChunk { stream: chunk.stream, bytes: rest });
                        self.size = self.size - remove;
                        remove = 0;
                        assert(self.held() =~= goal);
                        assert(trimmed(self.held(), 0) == self.held());
                    }
                },
            }
        }
        assert(goal == self.held());
    }

    /// Appends `bytes` and answers how many bytes had to go.
    fn append(&mut self, stream: OutputStream, bytes: &[u8]) -> (dropped: u64)
        requires
            old(self).wf(),
        ensures
            final(self).wf(),
            final(self).held() == appended(
                old(self).held(),
                old(self).capacity as nat,
                stream,
                bytes@,
            ),
            final(self).capacity == old(self).capacity,
            dropped == old(self).size + bytes@.len() - final(self).size,
    {
        let ghost before = self.held();
        let incoming: usize = bytes.len();
        let retain: usize = if incoming < self.capacity {
            incoming
        } else {
            self.capacity
        };
        let need: usize = if self.size > self.capacity - retain {
            self.size - (self.capacity - retain)
        } else {
            0
        };
        proof {
            queue_keeps_the_newest_bytes(before, self.capacity as nat, stream, bytes@);
        }
        self.trim(need);
        let dropped: u64 = need as u64 + (incoming - retain) as u64;
        if retain > 0 {
            let newest: Vec<u8> = vstd::slice::slice_to_vec(
                vstd::slice::slice_subrange(bytes, incoming - retain, incoming),
            );
            let ghost kept = self.held();
            assert(newest@ =~= last_of(bytes@, self.capacity as nat));
            self.chunks.push_back(OutputChunk { stream, bytes: newest });
            self.size = self.size + retain;
            assert(self.held() =~= kept.push(ChunkView { stream, bytes: newest@ }));
        } else {
            assert(last_of(bytes@, self.capacity as nat).len() == 0);
        }
        dropped
    }
}

/// What a capture buffer holds.
#[verifier::ext_equal]
pub struct OutputView {
    /// How many bytes the consumer queue may hold.
    pub capacity: nat,
    /// How many bytes the tail may hold.
    pub tail_capacity: nat,
    /// The consumer queue, oldest first.
    pub queue: Seq<ChunkView>,
    /// The retained tail, oldest first.
    pub tail: Seq<ChunkView>,
    /// How many bytes the queue has dropped so far.
    pub dropped: u64,
    /// Standard output reached its end.
    pub stdout_closed: bool,
    /// Standard error reached its end.
    pub stderr_closed: bool,
    /// What went wrong while reading, in order.
    pub errors: Seq<String>,
}

impl OutputView {
    /// Queue and tail respect their bounds and hold no empty chunk.
    pub open spec fn wf(self) -> bool {
        &&& tagged(self.queue).len() <= self.capacity
        &&& tagged(self.tail).len() <= self.tail_capacity
        &&& no_empty_chunk(self.queue)
        &&& no_empty_chunk(self.tail)
    }

    /// How many bytes the queue drops to make room for `incoming` more.
    pub open spec fn drops(self, stream: OutputStream, bytes: Seq<u8>) -> nat {
        (tagged(self.queue).len() + bytes.len() - tagged(
            appended(self.queue, self.capacity, stream, bytes),
        ).len()) as nat
    }

    /// After `bytes` arrived.
    pub open spec fn pushed(self, stream: OutputStream, bytes: Seq<u8>) -> OutputView {
        OutputView {
            queue: appended(self.queue, self.capacity, stream, bytes),
            tail: appended(self.tail, self.tail_capacity, stream, bytes),
            dropped: if self.dropped + self.drops(stream, bytes) > u64::MAX {
                u64::MAX
            } else {
                (self.dropped + self.drops(stream, bytes)) as u64
            },
            ..self
        }
    }

    /// `stream` reached its end.
    pub open spec fn is_closed(self, stream: OutputStream) -> bool {
        match stream {
            OutputStream::Stdout => self.stdout_closed,
            OutputStream::Stderr => self.stderr_closed,
        }
    }

    /// After `stream` reached its end, with `error` if reading failed. The first end counts.
    pub open spec fn closed(self, stream: OutputStream, error: Option<String>) -> OutputView {
        if self.is_closed(stream) {
            self
        } else {
            OutputView {
                stdout_closed: self.stdout_closed || stream is Stdout,
                stderr_closed: self.stderr_closed || stream is Stderr,
                errors: match error {
                    Some(cause) => self.errors.push(cause),
                    None => self.errors,
                },
                ..self
            }
        }
    }

    /// After the queue was read: the tail stays.
    pub open spec fn drained(self) -> OutputView {
        OutputView { queue: Seq::empty(), ..self }
    }
}

/// A bounded capture of what a process writes.
#[derive(Debug)]
pub struct ProcessOutput {
    queue: ByteQueue,
    tail: ByteQueue,
    dropped: u64,
    stdout_closed: bool,
    stderr_closed: bool,
    errors: Vec<String>,
}

impl View for ProcessOutput {
    type V = OutputView;

    closed spec fn view(&self) -> OutputView {
        OutputView {
            capacity: self.queue.capacity as nat,
            tail_capacity: self.tail.capacity as nat,
            queue: self.queue.held(),
            tail: self.tail.held(),
            dropped: self.dropped,
            stdout_closed: self.stdout_closed,
            stderr_closed: self.stderr_closed,
            errors: self.errors@,
        }
    }
}

impl ProcessOutput {
    /// The byte accounting agrees with what is held.
    pub closed spec fn wf(self) -> bool {
        self.queue.wf() && self.tail.wf()
    }

    /// A consistent buffer shows bounded contents.
    pub proof fn lemma_wf(self)
        requires
            self.wf(),
        ensures
            self@.wf(),
    {
    }

    /// An empty capture with the given bounds.
    #[must_use]
    pub fn capture(capacity: usize, tail_capacity: usize) -> (buffer: Self)
        ensures
            buffer.wf(),
            buffer@ == (OutputView {
                capacity: capacity as nat,
                tail_capacity: tail_capacity as nat,
                queue: Seq::empty(),
                tail: Seq::empty(),
                dropped: 0,
                stdout_closed: false,
                stderr_closed: false,
                errors: Seq::empty(),
            }),
    {
        ProcessOutput {
            queue: ByteQueue::new(capacity),
            tail: ByteQueue::new(tail_capacity),
            dropped: 0,
            stdout_closed: false,
            stderr_closed: false,
            errors: Vec::new(),
        }
    }

    /// Takes in bytes that were read from `stream`.
    pub fn push(&mut self, stream: OutputStream, bytes: &[u8])
        requires
            old(self).wf(),
        ensures
            final(self).wf(),
            final(self)@ == old(self)@.pushed(stream, bytes@),
    {
        let dropped: u64 = self.queue.append(stream, bytes);
        self.dropped = match self.dropped.checked_add(dropped) {
            Some(sum) => sum,
            None => u64::MAX,
        };
        self.tail.append(stream, bytes);
        assert(self@ =~= old(self)@.pushed(stream, bytes@));
    }

    /// Notes that `stream` reached its end, or that reading it failed. The first end counts.
    pub fn close(&mut self, stream: OutputStream, error: Option<String>)
        requires
            old(self).wf(),
        ensures
            final(self).wf(),
            final(self)@ == old(self)@.closed(stream, error),
    {
        let closed = match stream {
            OutputStream::Stdout => self.stdout_closed,
            OutputStream::Stderr => self.stderr_closed,
        };
        if closed {
            return;
        }
        match stream {
            OutputStream::Stdout => {
                self.stdout_closed = true;
            },
            OutputStream::Stderr => {
                self.stderr_closed = true;
            },
        }
        if let Some(cause) = error {
            self.errors.push(cause);
        }
        assert(self@ =~= old(self)@.closed(stream, error));
    }

    /// Takes the queued chunks, without waiting for more.
    pub fn read(&mut self) -> (snapshot: OutputSnapshot)
        requires
            old(self).wf(),
        ensures
            final(self).wf(),
            final(self)@ == old(self)@.drained(),
            chunk_views(snapshot.chunks@) == old(self)@.queue,
            chunk_views(snapshot.tail@) == old(self)@.tail,
            snapshot.dropped_bytes == old(self)@.dropped,
            snapshot.stdout_closed == old(self)@.stdout_closed,
            snapshot.stderr_closed == old(self)@.stderr_closed,
            snapshot.errors@ == old(self)@.errors,
    {
        let ghost queued = self.queue.held();
        let capacity: usize = self.queue.capacity;
        let mut chunks: Vec<OutputChunk> = Vec::new();
        while self.queue.chunks.len() > 0
            invariant
                self.tail.wf(),
                self.queue.capacity == capacity,
                self@.tail == old(self)@.tail,
                self@.tail_capacity == old(self)@.tail_capacity,
                self@.dropped == old(self)@.dropped,
                self@.stdout_closed == old(self)@.stdout_closed,
                self@.stderr_closed == old(self)@.stderr_closed,
                self@.errors == old(self)@.errors,
                chunk_views(chunks@) + self.queue.held() == queued,
            decreases self.queue.chunks@.len(),
        {
            let ghost before = self.queue.held();
            let ghost taken = chunk_views(chunks@);
            if let Some(chunk) = self.queue.chunks.pop_front() {
                assert(chunk@ == before[0]);
                chunks.push(chunk);
                assert(self.queue.held() =~= before.skip(1));
                assert(chunk_views(chunks@) =~= taken.push(before[0]));
                assert(chunk_views(chunks@) + self.queue.held() =~= taken + before);
            }
        }
        self.queue.size = 0;
        assert(self.queue.held() =~= Seq::<ChunkView>::empty());
        assert(chunk_views(chunks@) =~= queued);
        let mut tail: Vec<OutputChunk> = Vec::new();
        let mut i: usize = 0;
        while i < self.tail.chunks.len()
            invariant
                i <= self.tail.chunks@.len(),
                chunk_views(tail@) == self.tail.held().take(i as int),
            decreases self.tail.chunks@.len() - i,
        {
            let ghost copied = chunk_views(tail@);
            let chunk = &self.tail.chunks[i];
            let bytes: Vec<u8> = vstd::slice::slice_to_vec(chunk.bytes.as_slice());
            tail.push(OutputChunk { stream: chunk.stream, bytes });
            assert(tail@.last()@ == self.tail.held()[i as int]);
            assert(chunk_views(tail@) =~= copied.push(self.tail.held()[i as int]));
            assert(self.tail.held().take(i + 1) =~= self.tail.held().take(i as int).push(
                self.tail.held()[i as int],
            ));
            i = i + 1;
        }
        assert(self.tail.held().take(i as int) =~= self.tail.held());
        let errors: Vec<String> = clone_errors(&self.errors);
        assert(self@ =~= old(self)@.drained());
        OutputSnapshot {
            chunks,
            tail,
            dropped_bytes: self.dropped,
            stdout_closed: self.stdout_closed,
            stderr_closed: self.stderr_closed,
            errors,
        }
    }
}

fn clone_errors(errors: &Vec<String>) -> (copies: Vec<String>)
    ensures
        copies@ == errors@,
{
    let mut copies: Vec<String> = Vec::new();
    let mut i: usize = 0;
    while i < errors.len()
        invariant
            i <= errors@.len(),
            copies@ == errors@.take(i as int),
        decreases errors@.len() - i,
    {
        copies.push(errors[i].clone());
        assert(errors@.take(i + 1) =~= errors@.take(i as int).push(errors@[i as int]));
        i = i + 1;
    }
    assert(errors@.take(i as int) =~= errors@);
    copies
}

/// What a reader that died for `cause` is noted as.
#[must_use]
pub fn reader_failure(cause: &str) -> (text: String)
    ensures
        text@ == "output reader failed: "@ + cause@,
{
    let mut text = String::from_str("output reader failed: ");
    text.append(cause);
    text
}

/// What a reader is noted as that was stopped because a descendant kept the pipe open.
#[must_use]
pub fn reader_stopped() -> (text: String)
    ensures
        text@ == "pipe remained open after root reap; reader stopped"@,
{
    String::from_str("pipe remained open after root reap; reader stopped")
}

} // verus!
