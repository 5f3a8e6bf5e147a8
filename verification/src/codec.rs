//! The persisted archival format: a flat, headerless stream of
//! samples, each written as its 32-bit pattern split into four bytes,
//! least-significant byte first, in strict production order — no
//! framing, no block boundaries, no metadata.

use vstd::prelude::*;

use crate::frame::FrameBuffer;

verus! {

/// The four-byte encoding of one sample: its 32-bit pattern split into
/// bytes, least-significant first.
pub open spec fn sample_bytes(s: u32) -> Seq<u8> {
    seq![
        (s % 256) as u8,
        ((s / 256) % 256) as u8,
        ((s / 65536) % 256) as u8,
        (s / 16777216) as u8,
    ]
}

/// The sample whose four-byte encoding is `b0, b1, b2, b3`.
pub open spec fn decoded_sample(b0: u8, b1: u8, b2: u8, b3: u8) -> u32 {
    (b0 + b1 * 256 + b2 * 65536 + b3 * 16777216) as u32
}

/// The byte stream one block of samples contributes: each sample's
/// four bytes, in sample order.
pub open spec fn block_bytes(samples: Seq<u32>) -> Seq<u8>
    decreases samples.len(),
{
    if samples.len() == 0 {
        Seq::empty()
    } else {
        sample_bytes(samples[0]) + block_bytes(samples.drop_first())
    }
}

/// The byte stream a whole sequence of blocks produces, block then
/// sample order.
pub open spec fn blocks_bytes(blocks: Seq<Seq<u32>>) -> Seq<u8>
    decreases blocks.len(),
{
    if blocks.len() == 0 {
        Seq::empty()
    } else {
        block_bytes(blocks[0]) + blocks_bytes(blocks.drop_first())
    }
}

/// The samples read back from a byte stream, four bytes at a time.
pub open spec fn stream_samples(bytes: Seq<u8>) -> Seq<u32>
    decreases bytes.len(),
{
    if bytes.len() < 4 {
        Seq::empty()
    } else {
        seq![decoded_sample(bytes[0], bytes[1], bytes[2], bytes[3])] + stream_samples(bytes.skip(4))
    }
}

/// Decoding undoes the encoding of one sample.
pub proof fn lemma_sample_round_trip(s: u32)
    ensures
        decoded_sample(
            (s % 256) as u8,
            ((s / 256) % 256) as u8,
            ((s / 65536) % 256) as u8,
            (s / 16777216) as u8,
        ) == s,
{
    assert(((s % 256) as u8) + (((s / 256) % 256) as u8) * 256 + (((s / 65536) % 256) as u8)
        * 65536 + ((s / 16777216) as u8) * 16777216 == s) by (bit_vector);
}

/// A block's byte stream is four bytes per sample.
pub proof fn lemma_block_bytes_len(samples: Seq<u32>)
    ensures
        block_bytes(samples).len() == 4 * samples.len(),
    decreases samples.len(),
{
    if samples.len() > 0 {
        lemma_block_bytes_len(samples.drop_first());
    }
}

/// Appending one sample to a block appends its four bytes to the
/// block's byte stream.
pub proof fn lemma_block_bytes_snoc(samples: Seq<u32>, s: u32)
    ensures
        block_bytes(samples.push(s)) == block_bytes(samples) + sample_bytes(s),
    decreases samples.len(),
{
    if samples.len() == 0 {
        assert(samples.push(s).drop_first() =~= samples);
        assert(block_bytes(samples.push(s)) =~= block_bytes(samples) + sample_bytes(s));
    } else {
        assert(samples.push(s).drop_first() =~= samples.drop_first().push(s));
        lemma_block_bytes_snoc(samples.drop_first(), s);
        assert(block_bytes(samples.push(s)) =~= block_bytes(samples) + sample_bytes(s));
    }
}

/// Encoding distributes over concatenation of sample sequences.
pub proof fn lemma_block_bytes_concat(a: Seq<u32>, b: Seq<u32>)
    ensures
        block_bytes(a + b) == block_bytes(a) + block_bytes(b),
    decreases a.len(),
{
    if a.len() == 0 {
        assert(a + b =~= b);
        assert(block_bytes(a + b) =~= block_bytes(a) + block_bytes(b));
    } else {
        assert((a + b).drop_first() =~= a.drop_first() + b);
        lemma_block_bytes_concat(a.drop_first(), b);
        assert(block_bytes(a + b) =~= block_bytes(a) + block_bytes(b));
    }
}

/// The stream of a sequence of blocks is the stream of their samples
/// laid out end to end.
pub proof fn lemma_blocks_bytes_flatten(blocks: Seq<Seq<u32>>)
    ensures
        blocks_bytes(blocks) == block_bytes(blocks.flatten()),
    decreases blocks.len(),
{
    if blocks.len() == 0 {
        assert(blocks_bytes(blocks) =~= block_bytes(blocks.flatten()));
    } else {
        lemma_blocks_bytes_flatten(blocks.drop_first());
        lemma_block_bytes_concat(blocks[0], blocks.drop_first().flatten());
        assert(blocks.flatten() == blocks[0] + blocks.drop_first().flatten());
        assert(blocks_bytes(blocks) =~= block_bytes(blocks.flatten()));
    }
}

/// Accepting one more block extends the blocks' byte stream by that
/// block's bytes.
pub proof fn lemma_blocks_bytes_snoc(blocks: Seq<Seq<u32>>, blk: Seq<u32>)
    ensures
        blocks_bytes(blocks.push(blk)) == blocks_bytes(blocks) + block_bytes(blk),
    decreases blocks.len(),
{
    if blocks.len() == 0 {
        assert(blocks.push(blk).drop_first() =~= blocks);
        assert(blocks_bytes(blocks.push(blk)) =~= blocks_bytes(blocks) + block_bytes(blk));
    } else {
        assert(blocks.push(blk).drop_first() =~= blocks.drop_first().push(blk));
        lemma_blocks_bytes_snoc(blocks.drop_first(), blk);
        assert(blocks_bytes(blocks.push(blk)) =~= blocks_bytes(blocks) + block_bytes(blk));
    }
}

/// The blocks' byte stream distributes over concatenation of block
/// sequences.
pub proof fn lemma_blocks_bytes_concat(a: Seq<Seq<u32>>, b: Seq<Seq<u32>>)
    ensures
        blocks_bytes(a + b) == blocks_bytes(a) + blocks_bytes(b),
    decreases a.len(),
{
    if a.len() == 0 {
        assert(a + b =~= b);
        assert(blocks_bytes(a + b) =~= blocks_bytes(a) + blocks_bytes(b));
    } else {
        assert((a + b).drop_first() =~= a.drop_first() + b);
        lemma_blocks_bytes_concat(a.drop_first(), b);
        assert(blocks_bytes(a + b) =~= blocks_bytes(a) + blocks_bytes(b));
    }
}

/// Reading a block's byte stream back yields exactly its samples.
pub proof fn lemma_block_round_trip(samples: Seq<u32>)
    ensures
        stream_samples(block_bytes(samples)) == samples,
    decreases samples.len(),
{
    if samples.len() == 0 {
        assert(stream_samples(block_bytes(samples)) =~= samples);
    } else {
        let s: u32 = samples[0];
        let bytes = block_bytes(samples);
        lemma_block_bytes_len(samples.drop_first());
        assert(bytes.len() >= 4);
        assert(bytes[0] == (s % 256) as u8);
        assert(bytes[1] == ((s / 256) % 256) as u8);
        assert(bytes[2] == ((s / 65536) % 256) as u8);
        assert(bytes[3] == (s / 16777216) as u8);
        lemma_sample_round_trip(s);
        assert(bytes.skip(4) =~= block_bytes(samples.drop_first()));
        lemma_block_round_trip(samples.drop_first());
        assert(stream_samples(bytes) =~= samples);
    }
}

/// Archival round-trip law: decoding the byte stream that a sequence
/// of blocks produced yields exactly the blocks' samples, in block
/// then sample order, with nothing lost, added or reordered.
pub proof fn lemma_archival_round_trip(blocks: Seq<Seq<u32>>)
    ensures
        stream_samples(blocks_bytes(blocks)) == blocks.flatten(),
{
    lemma_blocks_bytes_flatten(blocks);
    lemma_block_round_trip(blocks.flatten());
}

/// Encodes one block for the archival stream.
pub fn encode_block(block: &FrameBuffer) -> (r: Vec<u8>)
    ensures
        r@ == block_bytes(block@),
{
    let mut out: Vec<u8> = Vec::new();
    let n = block.len();
    let mut i: usize = 0;
    while i < n
        invariant
            n == block@.len(),
            i <= n,
            out@ == block_bytes(block@.subrange(0, i as int)),
        decreases n - i,
    {
        let s: u32 = block.sample(i);
        out.push((s % 256) as u8);
        out.push(((s / 256) % 256) as u8);
        out.push(((s / 65536) % 256) as u8);
        out.push((s / 16777216) as u8);
        proof {
            assert(block@.subrange(0, i + 1) =~= block@.subrange(0, i as int).push(s));
            lemma_block_bytes_snoc(block@.subrange(0, i as int), s);
            assert(out@ =~= block_bytes(block@.subrange(0, i + 1)));
        }
        i = i + 1;
    }
    proof {
        assert(block@.subrange(0, n as int) =~= block@);
    }
    out
}

/// Reads a flat sample stream back. Returns the decoded samples when
/// the stream is a whole number of four-byte samples, and nothing when
/// it is truncated.
pub fn decode_stream(bytes: &Vec<u8>) -> (r: Option<Vec<u32>>)
    ensures
        r is Some <==> bytes@.len() % 4 == 0,
        r matches Some(v) ==> v@ == stream_samples(bytes@),
{
    let n = bytes.len();
    if n % 4 != 0 {
        return None;
    }
    let mut out: Vec<u32> = Vec::new();
    let mut i: usize = 0;
    while i < n
        invariant
            n == bytes@.len(),
            n % 4 == 0,
            i <= n,
            i % 4 == 0,
            out@ == stream_samples(bytes@.subrange(0, i as int)),
        decreases n - i,
    {
        let b0: u32 = bytes[i] as u32;
        let b1: u32 = bytes[i + 1] as u32;
        let b2: u32 = bytes[i + 2] as u32;
        let b3: u32 = bytes[i + 3] as u32;
        let s: u32 = b0 + b1 * 256 + b2 * 65536 + b3 * 16777216;
        out.push(s);
        proof {
            let prefix = bytes@.subrange(0, i as int);
            let chunk = bytes@.subrange(i as int, i + 4);
            assert(bytes@.subrange(0, i + 4) =~= prefix + chunk);
            lemma_stream_samples_concat(prefix, chunk);
            assert(chunk.skip(4) =~= Seq::<u8>::empty());
            assert(stream_samples(Seq::<u8>::empty()) =~= Seq::<u32>::empty());
            assert(stream_samples(chunk) =~= seq![
                decoded_sample(chunk[0], chunk[1], chunk[2], chunk[3]),
            ]);
            assert(s == decoded_sample(chunk[0], chunk[1], chunk[2], chunk[3]));
            assert(out@ =~= stream_samples(bytes@.subrange(0, i + 4)));
        }
        i = i + 4;
    }
    proof {
        assert(bytes@.subrange(0, n as int) =~= bytes@);
    }
    Some(out)
}

/// Reading a stream made of whole samples proceeds chunk by chunk.
pub proof fn lemma_stream_samples_concat(a: Seq<u8>, b: Seq<u8>)
    requires
        a.len() % 4 == 0,
    ensures
        stream_samples(a + b) == stream_samples(a) + stream_samples(b),
    decreases a.len(),
{
    if a.len() == 0 {
        assert(a + b =~= b);
        assert(stream_samples(a + b) =~= stream_samples(a) + stream_samples(b));
    } else {
        assert(a.len() >= 4);
        assert((a + b).skip(4) =~= a.skip(4) + b);
        assert(a.skip(4).len() % 4 == 0);
        lemma_stream_samples_concat(a.skip(4), b);
        assert(stream_samples(a + b) =~= stream_samples(a) + stream_samples(b));
    }
}

} // verus!
