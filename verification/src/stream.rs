//! The sample-stream production discipline.
//!
//! Audio leaves the device through two fixed-size buffers: while one (the
//! front) drains through an asynchronous transfer, the other (the back) is
//! filled with fresh samples; when the transfer completes the roles swap.
//! [`SampleStreamProducer`] is that two-phase state machine; the unverified
//! driver loop asks it which buffer to hand to the sink and which to fill,
//! and reports each completion back.
//!
//! The module also holds the small exact computations of the fill loop: the
//! stereo word packing of one 16-bit sample, the scan-interval decision, and
//! the chunking of a block request.

use vstd::prelude::*;

verus! {

/// Number of samples per buffer.
pub const BUFFER_SIZE: usize = 480;

/// Minimum time between two key-matrix scan passes, in microseconds.
pub const SCAN_INTERVAL_MICROS: u64 = 250;

/// Largest number of samples produced in one block-processing step.
pub const MAX_CHUNK: usize = 64;

/// The index (0 or 1) of the buffer drained by transfer number `cycles`,
/// counting from a state whose front buffer is `f0`: the front role
/// alternates once per completed transfer.
pub open spec fn spec_front_after(f0: int, cycles: nat) -> int
    decreases cycles,
{
    if cycles == 0 {
        f0
    } else {
        1 - spec_front_after(f0, (cycles - 1) as nat)
    }
}

/// The model of the producer: which buffer is front, whether a transfer
/// is in flight, and the contents of the two word buffers.
#[verifier::ext_equal]
pub ghost struct ProducerModel {
    /// Index (0 or 1) of the buffer in the draining role.
    pub front: int,
    /// Whether a transfer of the front buffer is in flight.
    pub draining: bool,
    /// The two word buffers, by index.
    pub words: Seq<Seq<u32>>,
}

/// Well-formedness of the producer model: two buffers of the fixed size,
/// front designating one of them.
pub open spec fn wf_producer(m: ProducerModel) -> bool {
    &&& m.front == 0 || m.front == 1
    &&& m.words.len() == 2
    &&& m.words[0].len() == BUFFER_SIZE
    &&& m.words[1].len() == BUFFER_SIZE
}

/// Double-buffer production state machine.
///
/// The producer owns the two fixed-size word buffers. `front` is the buffer
/// currently in the draining role; `draining` says whether a transfer of it
/// is in flight. Writes go only to the other buffer, so the two roles never
/// alias; the roles swap exactly when a transfer completion is reported.
pub struct SampleStreamProducer {
    words: Vec<Vec<u32>>,
    front: usize,
    draining: bool,
}

impl View for SampleStreamProducer {
    type V = ProducerModel;

    closed spec fn view(&self) -> ProducerModel {
        ProducerModel {
            front: self.front as int,
            draining: self.draining,
            words: self.words@.map_values(|b: Vec<u32>| b@),
        }
    }
}

impl SampleStreamProducer {
    /// Well-formedness of the producer state.
    pub open spec fn wf(&self) -> bool {
        wf_producer(self@)
    }

    /// Whether a transfer is in flight.
    pub open spec fn spec_draining(&self) -> bool {
        self@.draining
    }

    /// The buffer currently in the draining role.
    pub open spec fn spec_front(&self) -> int {
        self@.front
    }

    /// Start with buffer 0 in the draining role, both buffers silent, and
    /// no transfer in flight.
    pub fn new() -> (s: SampleStreamProducer)
        ensures
            s.wf(),
            s.spec_front() == 0,
            !s.spec_draining(),
            s@.words[0] =~= Seq::new(BUFFER_SIZE as nat, |i: int| 0u32),
            s@.words[1] =~= Seq::new(BUFFER_SIZE as nat, |i: int| 0u32),
    {
        let mut words: Vec<Vec<u32>> = Vec::new();
        let mut b: usize = 0;
        while b < 2
            invariant
                b <= 2,
                words@.len() == b as int,
                forall|a: int|
                    0 <= a < b ==> (#[trigger] words@[a])@ =~= Seq::new(
                        BUFFER_SIZE as nat,
                        |i: int| 0u32,
                    ),
            decreases 2 - b,
        {
            let mut buffer: Vec<u32> = Vec::new();
            let mut i: usize = 0;
            while i < BUFFER_SIZE
                invariant
                    i <= BUFFER_SIZE,
                    buffer@.len() == i as int,
                    forall|j: int| 0 <= j < i ==> buffer@[j] == 0u32,
                decreases BUFFER_SIZE - i,
            {
                buffer.push(0);
                i += 1;
            }
            proof {
                assert(buffer@ =~= Seq::new(BUFFER_SIZE as nat, |i: int| 0u32));
            }
            words.push(buffer);
            b += 1;
        }
        SampleStreamProducer { words, front: 0, draining: false }
    }

    /// Begin a transfer: the front buffer goes to the sink. May only be
    /// called while no transfer is in flight; the buffer roles and contents
    /// do not change until the completion is reported.
    pub fn begin_transfer(&mut self) -> (drain: usize)
        requires
            old(self).wf(),
            !old(self).spec_draining(),
        ensures
            final(self).wf(),
            final(self)@ == (ProducerModel { draining: true, ..old(self)@ }),
            drain as int == old(self).spec_front(),
    {
        self.draining = true;
        self.front
    }

    /// The buffer to fill now: always the one not in the draining role.
    pub fn fill_index(&self) -> (fill: usize)
        requires
            self.wf(),
        ensures
            fill as int == 1 - self.spec_front(),
            fill as int != self.spec_front(),
    {
        1 - self.front
    }

    /// Write one word of fresh audio into the back buffer. The front
    /// buffer — the one a transfer may be draining — is never touched, so
    /// the two roles never write-alias.
    pub fn set_word(&mut self, pos: usize, word: u32)
        requires
            old(self).wf(),
            pos < BUFFER_SIZE,
        ensures
            final(self).wf(),
            final(self)@.front == old(self)@.front,
            final(self)@.draining == old(self)@.draining,
            final(self)@.words[1 - old(self)@.front] == old(self)@.words[1 - old(self)@.front]
                .update(pos as int, word),
            final(self)@.words[old(self)@.front] == old(self)@.words[old(self)@.front],
    {
        let fill = 1 - self.front;
        let buffer = &mut self.words[fill];
        buffer.set(pos, word);
    }

    /// Read one word of the front buffer, as the sink drains it.
    pub fn front_word(&self, pos: usize) -> (word: u32)
        requires
            self.wf(),
            pos < BUFFER_SIZE,
        ensures
            word == self@.words[self@.front][pos as int],
    {
        proof {
            assert(self@.words[self@.front] == self.words@[self@.front]@);
        }
        self.words[self.front][pos]
    }

    /// Report that the transfer in flight completed: the freshly filled
    /// back buffer becomes the new front, so the buffer that just drained
    /// is exactly the next fill target. Contents move with their buffers.
    pub fn complete_transfer(&mut self)
        requires
            old(self).wf(),
            old(self).spec_draining(),
        ensures
            final(self).wf(),
            final(self)@ == (ProducerModel {
                front: 1 - old(self)@.front,
                draining: false,
                ..old(self)@
            }),
    {
        self.front = 1 - self.front;
        self.draining = false;
    }
}

/// Buffer alternation: over any run of completed transfers, the buffer that
/// drained during transfer `i` is exactly the buffer filled during transfer
/// `i + 1`, and no buffer ever drains twice in a row — the roles neither
/// skip nor repeat.
pub proof fn lemma_buffer_alternation(f0: int, i: nat)
    requires
        f0 == 0 || f0 == 1,
    ensures
        1 - spec_front_after(f0, i + 1) == spec_front_after(f0, i),
        spec_front_after(f0, i + 1) != spec_front_after(f0, i),
        spec_front_after(f0, i) == if i % 2 == 0 {
            f0
        } else {
            1 - f0
        },
    decreases i,
{
    if i > 0 {
        lemma_buffer_alternation(f0, (i - 1) as nat);
    }
}

/// The 32-bit word sent to the sink for one mono 16-bit sample: the sample
/// duplicated into the low and the high half-word.
pub open spec fn spec_sample_word(sample: i16) -> u32 {
    ((sample as u16 as u32) * 0x10001) as u32
}

/// Pack one mono sample into the stereo transfer word.
pub fn pack_sample_word(sample: i16) -> (w: u32)
    ensures
        w == spec_sample_word(sample),
        w & 0xFFFF == sample as u16,
        w >> 16 == sample as u16,
{
    let half = sample as u16 as u32;
    let w = half * 0x10001;
    proof {
        assert(half <= 0xFFFF ==> (half * 0x10001 == (half << 16 | half)
            && (half << 16 | half) & 0xFFFF == half
            && (half << 16 | half) >> 16 == half)) by (bit_vector);
    }
    w
}

/// Whether a scan pass is due: the elapsed time since the last pass has
/// reached the scan interval. When it is not due, the fill step proceeds
/// without scanning, so filling never waits on the matrix.
pub fn scan_due(elapsed_micros: u64) -> (due: bool)
    ensures
        due == (elapsed_micros >= SCAN_INTERVAL_MICROS),
{
    elapsed_micros >= SCAN_INTERVAL_MICROS
}

/// Number of samples the next block-processing step should produce when
/// `remaining` samples of the buffer are still unfilled: full chunks of
/// `MAX_CHUNK`, then the remainder, so the chunks tile the buffer exactly
/// and the fill loop always makes progress.
pub fn next_chunk_len(remaining: usize) -> (len: usize)
    ensures
        len == if remaining < MAX_CHUNK {
            remaining as int
        } else {
            MAX_CHUNK as int
        },
        len <= remaining,
        remaining > 0 ==> len > 0,
{
    if remaining < MAX_CHUNK {
        remaining
    } else {
        MAX_CHUNK
    }
}

} // verus!
