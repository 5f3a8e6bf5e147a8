//! Behavior of the tee, the handoff channel and the consumer loop.

use audio_tee::channel::{HandoffChannel, OfferOutcome, ReceiveOutcome};
use audio_tee::frame::{tee_forward, FrameBuffer};
use audio_tee::session::{
    drain, mode_for_target, notification_control, process_cycle, Mode, NotificationEvent,
    SessionControl,
};
use audio_tee::sink::{DiagnosticSink, Sink, SinkOutput};

fn bits(samples: &[f32]) -> Vec<u32> {
    samples.iter().map(|s| s.to_bits()).collect()
}

#[test]
fn tee_copies_input_to_output() {
    let input = bits(&[0.25, -1.5, 0.0, 3.75]);
    let mut output: Vec<u32> = vec![0; 4];
    let block = tee_forward(&input, &mut output);
    assert_eq!(output, input);
    assert_eq!(block.into_samples(), input);
}

#[test]
fn tee_handles_empty_cycle() {
    let input: Vec<u32> = Vec::new();
    let mut output: Vec<u32> = Vec::new();
    let block = tee_forward(&input, &mut output);
    assert_eq!(output.len(), 0);
    assert_eq!(block.len(), 0);
}

#[test]
fn channel_preserves_order() {
    let mut ch = HandoffChannel::new(8);
    for k in 0..5u32 {
        let outcome = ch.offer(FrameBuffer::from_samples(vec![k, k + 100]));
        assert_eq!(outcome, OfferOutcome::Accepted);
    }
    assert_eq!(ch.pending_len(), 5);
    for k in 0..5u32 {
        match ch.receive() {
            ReceiveOutcome::Block(b) => assert_eq!(b.into_samples(), vec![k, k + 100]),
            ReceiveOutcome::Closed => panic!("channel reported closure too early"),
        }
    }
    assert_eq!(ch.pending_len(), 0);
    assert_eq!(ch.dropped_blocks(), 0);
}

#[test]
fn closed_channel_reports_closure_not_a_block() {
    let mut ch = HandoffChannel::new(2);
    let _ = ch.offer(FrameBuffer::from_samples(vec![1]));
    ch.close_producer();
    match ch.receive() {
        ReceiveOutcome::Block(b) => assert_eq!(b.into_samples(), vec![1]),
        ReceiveOutcome::Closed => panic!("pending block lost at closure"),
    }
    assert!(matches!(ch.receive(), ReceiveOutcome::Closed));
    assert!(matches!(ch.receive(), ReceiveOutcome::Closed));
}

#[test]
fn backpressure_drops_newest_and_counts() {
    let capacity = 3usize;
    let extra = 2u32;
    let mut ch = HandoffChannel::new(capacity);
    for k in 0..(capacity as u32 + extra) {
        let outcome = ch.offer(FrameBuffer::from_samples(vec![k]));
        if (k as usize) < capacity {
            assert_eq!(outcome, OfferOutcome::Accepted);
        } else {
            assert_eq!(outcome, OfferOutcome::Dropped);
        }
    }
    assert_eq!(ch.dropped_blocks(), extra as u64);
    assert_eq!(ch.pending_len(), capacity);
    // The oldest blocks survive: drop-newest keeps 0, 1, 2.
    for k in 0..capacity as u32 {
        match ch.receive() {
            ReceiveOutcome::Block(b) => assert_eq!(b.into_samples(), vec![k]),
            ReceiveOutcome::Closed => panic!("channel reported closure too early"),
        }
    }
}

#[test]
fn offer_after_consumer_left_reports_disconnection() {
    let mut ch = HandoffChannel::new(2);
    ch.close_consumer();
    let outcome = ch.offer(FrameBuffer::from_samples(vec![9]));
    assert_eq!(outcome, OfferOutcome::Disconnected);
    assert_eq!(ch.dropped_blocks(), 0);
}

#[test]
fn cycle_tees_and_forwards() {
    let mut ch = HandoffChannel::new(4);
    let input = bits(&[0.5, -0.5]);
    let mut output: Vec<u32> = vec![0; 2];
    let control = process_cycle(&input, &mut output, &mut ch, Mode::Archival);
    assert_eq!(control, SessionControl::Continue);
    assert_eq!(output, input);
    assert_eq!(ch.pending_len(), 1);
}

#[test]
fn cycle_without_consumer_quits_archival_continues_diagnostic() {
    let mut ch = HandoffChannel::new(4);
    ch.close_consumer();
    let input = bits(&[1.0]);
    let mut output: Vec<u32> = vec![0; 1];
    let control = process_cycle(&input, &mut output, &mut ch, Mode::Archival);
    assert_eq!(control, SessionControl::Quit);
    assert_eq!(output, input);
    let control = process_cycle(&input, &mut output, &mut ch, Mode::Diagnostic);
    assert_eq!(control, SessionControl::Continue);
    assert_eq!(output, input);
}

#[test]
fn drain_delivers_everything_in_order_and_finalizes() {
    let mut ch = HandoffChannel::new(8);
    let first = bits(&[0.0, 0.0]);
    let second = bits(&[0.0, 0.25]);
    let third = bits(&[0.75, 0.0]);
    for blk in [&first, &second, &third] {
        let outcome = ch.offer(FrameBuffer::from_samples(blk.clone()));
        assert_eq!(outcome, OfferOutcome::Accepted);
    }
    ch.close_producer();
    let mut sink = Sink::Diagnostic(DiagnosticSink::new());
    let outputs = drain(&mut ch, &mut sink);
    assert_eq!(outputs.len(), 3);
    assert!(matches!(outputs[0], SinkOutput::Quiet));
    match &outputs[1] {
        SinkOutput::Trace(rec) => assert_eq!(rec.samples, second),
        _ => panic!("audible block produced no trace record"),
    }
    match &outputs[2] {
        SinkOutput::Trace(rec) => assert_eq!(rec.samples, third),
        _ => panic!("audible block produced no trace record"),
    }
    assert_eq!(ch.pending_len(), 0);
    match sink {
        Sink::Diagnostic(d) => assert_eq!(d.emitted_records(), 2),
        _ => unreachable!(),
    }
}

#[test]
fn mode_selection_follows_target_presence() {
    assert_eq!(mode_for_target(true), Mode::Archival);
    assert_eq!(mode_for_target(false), Mode::Diagnostic);
}

#[test]
fn notifications_never_stop_the_session() {
    let event = NotificationEvent::SampleRateChange(48000);
    assert_eq!(notification_control(&event), SessionControl::Continue);
}
