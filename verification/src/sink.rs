//! Sinks: the non-real-time destinations for forwarded blocks. The
//! archival sink turns each block into the bytes to append to a
//! durable stream; the diagnostic sink turns each audible block into
//! one trace record and stays silent on all-zero blocks.

use vstd::prelude::*;

use crate::codec::block_bytes;
use crate::codec::blocks_bytes;
use crate::codec::lemma_block_bytes_len;
use crate::codec::lemma_blocks_bytes_snoc;
use crate::frame::FrameBuffer;

verus! {

/// Whether a sample bit pattern has zero magnitude: the two IEEE-754
/// zero patterns, positive and negative zero.
pub open spec fn is_zero_sample(s: u32) -> bool {
    s == 0u32 || s == 0x8000_0000u32
}

/// A block is silent when every one of its samples has zero magnitude.
pub open spec fn is_silent_block(samples: Seq<u32>) -> bool {
    forall|i: int| 0 <= i < samples.len() ==> is_zero_sample(samples[i])
}

/// How many blocks of a consumed history are audible, and so produce a
/// trace record each.
pub open spec fn trace_count(blocks: Seq<Seq<u32>>) -> nat
    decreases blocks.len(),
{
    if blocks.len() == 0 {
        0
    } else {
        (if is_silent_block(blocks[0]) {
            0nat
        } else {
            1nat
        }) + trace_count(blocks.drop_first())
    }
}

/// Consuming one more block adds one to the trace count exactly when
/// the block is audible.
pub proof fn lemma_trace_count_snoc(blocks: Seq<Seq<u32>>, blk: Seq<u32>)
    ensures
        trace_count(blocks.push(blk)) == trace_count(blocks) + (if is_silent_block(blk) {
            0nat
        } else {
            1nat
        }),
    decreases blocks.len(),
{
    if blocks.len() == 0 {
        assert(blocks.push(blk).drop_first() =~= blocks);
    } else {
        assert(blocks.push(blk).drop_first() =~= blocks.drop_first().push(blk));
        lemma_trace_count_snoc(blocks.drop_first(), blk);
    }
}

/// Checks a block for silence: true exactly when every sample has
/// zero magnitude.
pub fn block_is_silent(block: &FrameBuffer) -> (r: bool)
    ensures
        r == is_silent_block(block@),
{
    let n = block.len();
    let mut i: usize = 0;
    while i < n
        invariant
            n == block@.len(),
            i <= n,
            forall|j: int| 0 <= j < i ==> is_zero_sample(block@[j]),
        decreases n - i,
    {
        let s: u32 = block.sample(i);
        if !(s == 0u32 || s == 0x8000_0000u32) {
            assert(!is_zero_sample(block@[i as int]));
            return false;
        }
        i = i + 1;
    }
    true
}

/// One human-readable diagnostic record: the full sample sequence of
/// one audible block, in order.
pub struct TraceRecord {
    pub samples: Vec<u32>,
}

impl TraceRecord {
    /// The record as the sequence of sample bit patterns it reports.
    pub open spec fn view(&self) -> Seq<u32> {
        self.samples@
    }
}

/// Accumulation state of the durable recording destination: the byte
/// count written so far and the ghost history of consumed blocks. The
/// open stream handle itself lives with the caller, which appends and
/// flushes the chunk each consume returns.
pub struct ArchivalSink {
    bytes_written: u64,
    finalized: bool,
    consumed: Ghost<Seq<Seq<u32>>>,
}

impl ArchivalSink {
    /// Every block consumed so far, in consumption order.
    pub closed spec fn consumed(&self) -> Seq<Seq<u32>> {
        self.consumed@
    }

    /// The byte stream the sink has produced so far.
    pub open spec fn stream(&self) -> Seq<u8> {
        blocks_bytes(self.consumed())
    }

    /// Bytes handed out for writing so far.
    pub closed spec fn written(&self) -> u64 {
        self.bytes_written
    }

    /// Whether the sink has been finalized.
    pub closed spec fn is_finalized(&self) -> bool {
        self.finalized
    }

    /// Sink invariant: the byte count matches the stream produced.
    pub closed spec fn wf(&self) -> bool {
        self.bytes_written == self.stream().len()
    }

    /// A fresh sink that has produced nothing.
    pub fn new() -> (r: ArchivalSink)
        ensures
            r.wf(),
            !r.is_finalized(),
            r.consumed() == Seq::<Seq<u32>>::empty(),
            r.written() == 0,
    {
        ArchivalSink { bytes_written: 0, finalized: false, consumed: Ghost(Seq::empty()) }
    }

    /// Consumes one block: returns exactly the bytes this block
    /// appends to the archival stream, four per sample in sample
    /// order. The caller appends and flushes them before the next
    /// consume, so that an abrupt termination loses at most the block
    /// in flight.
    pub fn consume(&mut self, block: &FrameBuffer) -> (chunk: Vec<u8>)
        requires
            old(self).wf(),
            !old(self).is_finalized(),
            old(self).written() + 4 * block@.len() <= u64::MAX,
        ensures
            final(self).wf(),
            !final(self).is_finalized(),
            chunk@ == block_bytes(block@),
            final(self).consumed() == old(self).consumed().push(block@),
            final(self).stream() == old(self).stream() + chunk@,
            final(self).written() == old(self).written() + 4 * block@.len(),
    {
        let chunk = crate::codec::encode_block(block);
        proof {
            lemma_block_bytes_len(block@);
            lemma_blocks_bytes_snoc(self.consumed@, block@);
        }
        self.bytes_written = self.bytes_written + chunk.len() as u64;
        proof {
            self.consumed@ = self.consumed@.push(block@);
        }
        chunk
    }

    /// Bytes handed out for writing so far.
    pub fn written_bytes(&self) -> (r: u64)
        ensures
            r == self.written(),
    {
        self.bytes_written
    }

    /// Finalizes the sink: the stream is complete and the caller may
    /// flush and close the destination. Adds nothing to the stream.
    pub fn finalize(&mut self)
        requires
            old(self).wf(),
            !old(self).is_finalized(),
        ensures
            final(self).wf(),
            final(self).is_finalized(),
            final(self).consumed() == old(self).consumed(),
            final(self).written() == old(self).written(),
    {
        self.finalized = true;
    }
}

/// Accumulation state of the diagnostic monitor: how many trace
/// records it has emitted, with the ghost history of consumed blocks.
pub struct DiagnosticSink {
    records_emitted: u64,
    finalized: bool,
    consumed: Ghost<Seq<Seq<u32>>>,
}

impl DiagnosticSink {
    /// Every block consumed so far, in consumption order.
    pub closed spec fn consumed(&self) -> Seq<Seq<u32>> {
        self.consumed@
    }

    /// How many trace records have been emitted.
    pub closed spec fn emitted(&self) -> u64 {
        self.records_emitted
    }

    /// Whether the sink has been finalized.
    pub closed spec fn is_finalized(&self) -> bool {
        self.finalized
    }

    /// Sink invariant: one record per audible block consumed, none for
    /// silent ones.
    pub closed spec fn wf(&self) -> bool {
        self.records_emitted == trace_count(self.consumed())
    }

    /// A fresh sink that has emitted nothing.
    pub fn new() -> (r: DiagnosticSink)
        ensures
            r.wf(),
            !r.is_finalized(),
            r.consumed() == Seq::<Seq<u32>>::empty(),
            r.emitted() == 0,
    {
        DiagnosticSink { records_emitted: 0, finalized: false, consumed: Ghost(Seq::empty()) }
    }

    /// Inspects one block: an audible block (some sample of non-zero
    /// magnitude) yields exactly one trace record carrying the block's
    /// full sample sequence in order; an all-zero block yields none.
    pub fn consume(&mut self, block: &FrameBuffer) -> (r: Option<TraceRecord>)
        requires
            old(self).wf(),
            !old(self).is_finalized(),
            old(self).emitted() < u64::MAX,
        ensures
            final(self).wf(),
            !final(self).is_finalized(),
            final(self).consumed() == old(self).consumed().push(block@),
            r is Some <==> !is_silent_block(block@),
            r matches Some(rec) ==> rec@ == block@,
            final(self).emitted() == old(self).emitted() + (if is_silent_block(block@) {
                0int
            } else {
                1int
            }),
    {
        proof {
            lemma_trace_count_snoc(self.consumed@, block@);
        }
        let silent = block_is_silent(block);
        proof {
            self.consumed@ = self.consumed@.push(block@);
        }
        if silent {
            None
        } else {
            self.records_emitted = self.records_emitted + 1;
            let samples = block.copy_samples();
            Some(TraceRecord { samples })
        }
    }

    /// How many trace records have been emitted so far.
    pub fn emitted_records(&self) -> (r: u64)
        ensures
            r == self.emitted(),
    {
        self.records_emitted
    }

    /// Finalizes the sink: a no-op beyond marking completion.
    pub fn finalize(&mut self)
        requires
            old(self).wf(),
            !old(self).is_finalized(),
        ensures
            final(self).wf(),
            final(self).is_finalized(),
            final(self).consumed() == old(self).consumed(),
            final(self).emitted() == old(self).emitted(),
    {
        self.finalized = true;
    }
}

/// The one active sink of a session, selected at startup: archival
/// when a target path was given, diagnostic otherwise.
pub enum Sink {
    Archival(ArchivalSink),
    Diagnostic(DiagnosticSink),
}

/// What consuming one block produced: bytes to append to the durable
/// stream, one trace record, or nothing (a silent block in diagnostic
/// mode).
pub enum SinkOutput {
    Bytes(Vec<u8>),
    Trace(TraceRecord),
    Quiet,
}

impl Sink {
    /// Every block consumed so far, in consumption order.
    pub open spec fn consumed(&self) -> Seq<Seq<u32>> {
        match self {
            Sink::Archival(a) => a.consumed(),
            Sink::Diagnostic(d) => d.consumed(),
        }
    }

    /// Whether the sink has been finalized.
    pub open spec fn is_finalized(&self) -> bool {
        match self {
            Sink::Archival(a) => a.is_finalized(),
            Sink::Diagnostic(d) => d.is_finalized(),
        }
    }

    /// Sink invariant, whichever variant is active.
    pub open spec fn wf(&self) -> bool {
        match self {
            Sink::Archival(a) => a.wf(),
            Sink::Diagnostic(d) => d.wf(),
        }
    }

    /// Room left before a machine counter of the sink would overflow,
    /// were one more block of `len` samples consumed.
    pub open spec fn can_accept(&self, len: nat) -> bool {
        match self {
            Sink::Archival(a) => a.written() + 4 * len <= u64::MAX,
            Sink::Diagnostic(d) => d.emitted() < u64::MAX,
        }
    }

    /// Room left in the sink's machine counters for a whole backlog of
    /// blocks, consumed one after the other.
    pub open spec fn can_accept_all(&self, blocks: Seq<Seq<u32>>) -> bool {
        match self {
            Sink::Archival(a) => a.written() + 4 * blocks.flatten().len() <= u64::MAX,
            Sink::Diagnostic(d) => d.emitted() + blocks.len() <= u64::MAX,
        }
    }

    /// Consumes one block with the active variant: archival mode hands
    /// back the block's archival bytes; diagnostic mode hands back one
    /// trace record for an audible block and nothing for a silent one.
    /// Either way the block joins the consumed history unchanged.
    pub fn consume(&mut self, block: &FrameBuffer) -> (r: SinkOutput)
        requires
            old(self).wf(),
            !old(self).is_finalized(),
            old(self).can_accept(block@.len()),
        ensures
            final(self).wf(),
            !final(self).is_finalized(),
            final(self).consumed() == old(self).consumed().push(block@),
            (*final(self)) is Archival <==> (*old(self)) is Archival,
            (*old(self)) is Archival ==> ({
                &&& r matches SinkOutput::Bytes(chunk) && chunk@ == block_bytes(block@)
                &&& final(self)->Archival_0.stream() == old(self)->Archival_0.stream()
                    + block_bytes(block@)
                &&& final(self)->Archival_0.written() == old(self)->Archival_0.written() + 4
                    * block@.len()
            }),
            (*old(self)) is Diagnostic ==> ({
                &&& !is_silent_block(block@) ==> (r matches SinkOutput::Trace(rec) && rec@
                    == block@)
                &&& is_silent_block(block@) ==> r is Quiet
                &&& final(self)->Diagnostic_0.emitted() == old(self)->Diagnostic_0.emitted() + (
                if is_silent_block(block@) {
                    0int
                } else {
                    1int
                })
            }),
    {
        match self {
            Sink::Archival(a) => {
                let chunk = a.consume(block);
                SinkOutput::Bytes(chunk)
            },
            Sink::Diagnostic(d) => {
                match d.consume(block) {
                    Some(rec) => SinkOutput::Trace(rec),
                    None => SinkOutput::Quiet,
                }
            },
        }
    }

    /// Finalizes the active variant exactly once.
    pub fn finalize(&mut self)
        requires
            old(self).wf(),
            !old(self).is_finalized(),
        ensures
            final(self).wf(),
            final(self).is_finalized(),
            final(self).consumed() == old(self).consumed(),
            (*final(self)) is Archival <==> (*old(self)) is Archival,
            (*old(self)) is Archival ==> final(self)->Archival_0.written() == old(
                self,
            )->Archival_0.written(),
            (*old(self)) is Diagnostic ==> final(self)->Diagnostic_0.emitted() == old(
                self,
            )->Diagnostic_0.emitted(),
    {
        match self {
            Sink::Archival(a) => a.finalize(),
            Sink::Diagnostic(d) => d.finalize(),
        }
    }
}

} // verus!
