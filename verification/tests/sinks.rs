//! Behavior of the archival byte stream and the diagnostic sink.

use audio_tee::channel::{HandoffChannel, OfferOutcome};
use audio_tee::codec::{decode_stream, encode_block};
use audio_tee::frame::FrameBuffer;
use audio_tee::session::drain;
use audio_tee::sink::{ArchivalSink, DiagnosticSink, Sink, SinkOutput};

fn bits(samples: &[f32]) -> Vec<u32> {
    samples.iter().map(|s| s.to_bits()).collect()
}

fn floats(samples: &[u32]) -> Vec<f32> {
    samples.iter().map(|b| f32::from_bits(*b)).collect()
}

#[test]
fn archival_round_trip_two_blocks() {
    let mut sink = ArchivalSink::new();
    let mut stream: Vec<u8> = Vec::new();
    let first = FrameBuffer::from_samples(bits(&[1.0, -1.0]));
    let second = FrameBuffer::from_samples(bits(&[0.0, 0.5]));
    stream.extend(sink.consume(&first));
    stream.extend(sink.consume(&second));
    sink.finalize();
    assert_eq!(sink.written_bytes(), 16);
    let decoded = decode_stream(&stream).expect("stream holds whole samples");
    assert_eq!(floats(&decoded), vec![1.0, -1.0, 0.0, 0.5]);
}

#[test]
fn archival_bytes_are_least_significant_first() {
    let mut sink = ArchivalSink::new();
    let block = FrameBuffer::from_samples(vec![0x0102_0304]);
    let chunk = sink.consume(&block);
    assert_eq!(chunk, vec![0x04, 0x03, 0x02, 0x01]);
    assert_eq!(chunk, 0x0102_0304u32.to_le_bytes().to_vec());
}

#[test]
fn archival_stream_matches_sample_encoding() {
    let samples = [0.0f32, 1.0, -2.5, 1.0e-4, 3.4e38];
    let block = FrameBuffer::from_samples(bits(&samples));
    let encoded = encode_block(&block);
    let mut expected: Vec<u8> = Vec::new();
    for s in samples {
        expected.extend(s.to_bits().to_le_bytes());
    }
    assert_eq!(encoded, expected);
}

#[test]
fn truncated_stream_is_rejected() {
    assert!(decode_stream(&vec![0u8, 1, 2]).is_none());
    assert!(decode_stream(&vec![0u8; 5]).is_none());
    let empty = decode_stream(&Vec::new()).expect("empty stream is whole");
    assert_eq!(empty.len(), 0);
}

#[test]
fn diagnostic_silent_on_zero_block() {
    let mut sink = DiagnosticSink::new();
    let zeros = FrameBuffer::from_samples(bits(&[0.0, 0.0, 0.0, 0.0]));
    assert!(sink.consume(&zeros).is_none());
    assert_eq!(sink.emitted_records(), 0);
}

#[test]
fn diagnostic_negative_zero_is_still_silent() {
    let mut sink = DiagnosticSink::new();
    let zeros = FrameBuffer::from_samples(bits(&[0.0, -0.0]));
    assert!(sink.consume(&zeros).is_none());
    assert_eq!(sink.emitted_records(), 0);
}

#[test]
fn diagnostic_traces_audible_block_once_with_all_samples() {
    let mut sink = DiagnosticSink::new();
    let block = FrameBuffer::from_samples(bits(&[0.0, 0.0, 0.3, 0.0]));
    let record = sink.consume(&block).expect("audible block yields a record");
    assert_eq!(floats(&record.samples), vec![0.0, 0.0, 0.3, 0.0]);
    assert_eq!(sink.emitted_records(), 1);
}

#[test]
fn drained_archival_sink_reproduces_the_full_take() {
    let mut ch = HandoffChannel::new(4);
    let blocks = [bits(&[1.0, -1.0]), bits(&[0.0, 0.5])];
    for blk in &blocks {
        let outcome = ch.offer(FrameBuffer::from_samples(blk.clone()));
        assert_eq!(outcome, OfferOutcome::Accepted);
    }
    ch.close_producer();
    let mut sink = Sink::Archival(ArchivalSink::new());
    let outputs = drain(&mut ch, &mut sink);
    let mut stream: Vec<u8> = Vec::new();
    for out in outputs {
        match out {
            SinkOutput::Bytes(chunk) => stream.extend(chunk),
            _ => panic!("archival drain produced a non-byte output"),
        }
    }
    let decoded = decode_stream(&stream).expect("stream holds whole samples");
    assert_eq!(floats(&decoded), vec![1.0, -1.0, 0.0, 0.5]);
    match sink {
        Sink::Archival(a) => assert_eq!(a.written_bytes(), 16),
        _ => unreachable!(),
    }
}
