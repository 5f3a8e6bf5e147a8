//! The session's two halves: the real-time processing cycle (the tee
//! and the handoff), and the consumer side that drains the channel
//! into the active sink.

use vstd::prelude::*;

use crate::channel::HandoffChannel;
use crate::channel::OfferOutcome;
use crate::channel::ReceiveOutcome;
use crate::codec::block_bytes;
use crate::codec::blocks_bytes;
use crate::codec::lemma_blocks_bytes_concat;
use crate::frame::tee_forward;
use crate::sink::Sink;
use crate::sink::SinkOutput;
use crate::sink::is_silent_block;
use crate::sink::lemma_trace_count_snoc;
use crate::sink::trace_count;

verus! {

/// Decision returned to the external audio scheduler after each cycle
/// or notification: keep the processing graph running, or end the
/// session.
#[derive(Clone, Copy, PartialEq, Eq, Debug)]
pub enum SessionControl {
    Continue,
    Quit,
}

/// The sink variant a session runs with, fixed at startup.
#[derive(Clone, Copy, PartialEq, Eq, Debug)]
pub enum Mode {
    Archival,
    Diagnostic,
}

/// An asynchronous event the host reports during a session.
pub enum NotificationEvent {
    /// The session's sample rate changed to the given value.
    SampleRateChange(u32),
}

/// Selects the session's mode from the command surface: a target file
/// path present selects archival mode, absent selects diagnostic mode.
pub fn mode_for_target(has_archive_target: bool) -> (m: Mode)
    ensures
        m is Archival <==> has_archive_target,
{
    if has_archive_target {
        Mode::Archival
    } else {
        Mode::Diagnostic
    }
}

/// Host notifications are informational only: they are reported by the
/// caller and never alter processing state, so the session always
/// continues.
pub fn notification_control(_event: &NotificationEvent) -> (c: SessionControl)
    ensures
        c is Continue,
{
    SessionControl::Continue
}

/// The real-time callback's decision after offering a block: it never
/// fails the audio graph. Only a vanished consumer in archival mode
/// ends the session (a lost recorder makes forwarding pointless); a
/// counted drop, an accepted block, or diagnostic mode always
/// continue.
pub fn control_after_offer(mode: Mode, outcome: OfferOutcome) -> (c: SessionControl)
    ensures
        c is Quit <==> (outcome is Disconnected && mode is Archival),
{
    match outcome {
        OfferOutcome::Disconnected => match mode {
            Mode::Archival => SessionControl::Quit,
            Mode::Diagnostic => SessionControl::Continue,
        },
        OfferOutcome::Accepted => SessionControl::Continue,
        OfferOutcome::Dropped => SessionControl::Continue,
    }
}

/// One real-time processing cycle: copies all samples of the input
/// port buffer to the output port buffer unchanged, then offers a
/// fresh copy of the block to the handoff channel without blocking.
/// The cycle never fails the audio graph: a full queue only counts a
/// drop and continues, and a vanished consumer becomes a quiet "stop
/// processing" decision in archival mode (a lost recorder makes
/// forwarding pointless) while diagnostic mode merely suppresses the
/// forward and keeps the tee running.
pub fn process_cycle(
    input: &Vec<u32>,
    output: &mut Vec<u32>,
    chan: &mut HandoffChannel,
    mode: Mode,
) -> (c: SessionControl)
    requires
        old(output).len() == input.len(),
        old(chan).wf(),
        old(chan).producer_live(),
        old(chan).dropped_count() < u64::MAX,
    ensures
        final(output)@ == input@,
        final(chan).wf(),
        final(chan).producer_live(),
        final(chan).bound() == old(chan).bound(),
        final(chan).consumer_live() == old(chan).consumer_live(),
        final(chan).delivered() == old(chan).delivered(),
        old(chan).consumer_live() && old(chan).pending().len() < old(chan).bound() ==> ({
            &&& final(chan).sent() == old(chan).sent().push(input@)
            &&& final(chan).pending() == old(chan).pending().push(input@)
            &&& final(chan).dropped_count() == old(chan).dropped_count()
        }),
        old(chan).consumer_live() && old(chan).pending().len() == old(chan).bound() ==> ({
            &&& final(chan).sent() == old(chan).sent()
            &&& final(chan).pending() == old(chan).pending()
            &&& final(chan).dropped_count() == old(chan).dropped_count() + 1
        }),
        !old(chan).consumer_live() ==> ({
            &&& final(chan).sent() == old(chan).sent()
            &&& final(chan).pending() == old(chan).pending()
            &&& final(chan).dropped_count() == old(chan).dropped_count()
        }),
        c is Quit <==> (!old(chan).consumer_live() && mode is Archival),
{
    let block = tee_forward(input, output);
    let outcome = chan.offer(block);
    control_after_offer(mode, outcome)
}

/// The consumer loop's final run: once the producer side is released,
/// receives every pending block strictly in arrival order, feeds each
/// to the active sink, and on closure finalizes the sink exactly once
/// before returning. Returns what the sink produced for each received
/// block, in order. On return every block the channel ever accepted
/// has been delivered to the sink, in production order.
pub fn drain(chan: &mut HandoffChannel, sink: &mut Sink) -> (outputs: Vec<SinkOutput>)
    requires
        old(chan).wf(),
        old(chan).consumer_live(),
        !old(chan).producer_live(),
        old(sink).wf(),
        !old(sink).is_finalized(),
        old(sink).can_accept_all(old(chan).pending()),
    ensures
        final(chan).wf(),
        final(sink).wf(),
        final(chan).pending().len() == 0,
        final(chan).sent() == old(chan).sent(),
        final(chan).delivered() == old(chan).sent(),
        final(chan).dropped_count() == old(chan).dropped_count(),
        final(sink).is_finalized(),
        final(sink).consumed() == old(sink).consumed() + old(chan).pending(),
        (*final(sink)) is Archival <==> (*old(sink)) is Archival,
        (*old(sink)) is Archival ==> final(sink)->Archival_0.stream() == old(
            sink,
        )->Archival_0.stream() + blocks_bytes(old(chan).pending()),
        (*old(sink)) is Diagnostic ==> final(sink)->Diagnostic_0.emitted() == old(
            sink,
        )->Diagnostic_0.emitted() + trace_count(old(chan).pending()),
        outputs@.len() == old(chan).pending().len(),
        (*old(sink)) is Archival ==> (forall|i: int|
            0 <= i < outputs@.len() ==> ((#[trigger] outputs@[i]) matches SinkOutput::Bytes(c)
                && c@ == block_bytes(old(chan).pending()[i]))),
        (*old(sink)) is Diagnostic ==> (forall|i: int|
            0 <= i < outputs@.len() ==> ({
                let blk = old(chan).pending()[i];
                &&& !is_silent_block(blk) ==> ((#[trigger] outputs@[i]) matches SinkOutput::Trace(
                    rec,
                ) && rec@ == blk)
                &&& is_silent_block(blk) ==> outputs@[i] is Quiet
            })),
{
    let ghost all_pending = old(chan).pending();
    let ghost sunk0 = old(sink).consumed();
    let ghost delivered0 = old(chan).delivered();
    let ghost emitted0 = if (*old(sink)) is Diagnostic {
        old(sink)->Diagnostic_0.emitted() as int
    } else {
        0int
    };
    let mut outputs: Vec<SinkOutput> = Vec::new();
    let mut done = false;
    proof {
        assert(all_pending.take(0) =~= Seq::<Seq<u32>>::empty());
        assert(all_pending.skip(0) =~= all_pending);
        assert(delivered0 + all_pending.take(0) =~= delivered0);
        assert(sunk0 + all_pending.take(0) =~= sunk0);
    }
    while !done
        invariant
            chan.wf(),
            chan.consumer_live(),
            !chan.producer_live(),
            chan.sent() == old(chan).sent(),
            chan.dropped_count() == old(chan).dropped_count(),
            sink.wf(),
            !sink.is_finalized(),
            (*sink) is Archival <==> (*old(sink)) is Archival,
            outputs@.len() <= all_pending.len(),
            chan.pending() == all_pending.skip(outputs@.len() as int),
            chan.delivered() == delivered0 + all_pending.take(outputs@.len() as int),
            sink.consumed() == sunk0 + all_pending.take(outputs@.len() as int),
            sink.can_accept_all(chan.pending()),
            (*sink) is Diagnostic ==> sink->Diagnostic_0.emitted() == emitted0 + trace_count(
                all_pending.take(outputs@.len() as int),
            ),
            done ==> (chan.pending().len() == 0 && chan.delivered() == chan.sent()),
            (*old(sink)) is Archival ==> (forall|i: int|
                0 <= i < outputs@.len() ==> ((#[trigger] outputs@[i]) matches SinkOutput::Bytes(
                    c,
                ) && c@ == block_bytes(all_pending[i]))),
            (*old(sink)) is Diagnostic ==> (forall|i: int|
                0 <= i < outputs@.len() ==> ({
                    let blk = all_pending[i];
                    &&& !is_silent_block(blk) ==> ((#[trigger] outputs@[i]) matches
                        SinkOutput::Trace(rec) && rec@ == blk)
                    &&& is_silent_block(blk) ==> outputs@[i] is Quiet
                })),
        decreases all_pending.len() - outputs@.len() + (if done {
            0int
        } else {
            1int
        }),
    {
        let ghost k = outputs@.len() as int;
        match chan.receive() {
            ReceiveOutcome::Closed => {
                done = true;
            },
            ReceiveOutcome::Block(block) => {
                proof {
                    assert(all_pending.skip(k)[0] == all_pending[k]);
                    assert(all_pending.skip(k).len() > 0);
                    let rest = all_pending.skip(k);
                    assert(rest.drop_first() =~= all_pending.skip(k + 1));
                    assert(rest.flatten() == rest.first() + rest.drop_first().flatten());
                    assert(all_pending.take(k).push(block@) =~= all_pending.take(k + 1));
                    lemma_trace_count_snoc(all_pending.take(k), block@);
                }
                let out = sink.consume(&block);
                let ghost o = out;
                outputs.push(out);
                proof {
                    assert(outputs@[k] == o);
                }
            },
        }
    }
    sink.finalize();
    proof {
        assert(all_pending.skip(outputs@.len() as int).len() == 0);
        assert(outputs@.len() == all_pending.len());
        assert(all_pending.take(all_pending.len() as int) =~= all_pending);
        lemma_blocks_bytes_concat(sunk0, all_pending);
    }
    outputs
}

} // verus!
