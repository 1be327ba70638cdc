//! Audio output: how much is played, and out of which buffers.
//!
//! The audio device asks for samples, and so paces the emulator: the game
//! runs exactly as fast as the device consumes what it plays.

#[allow(unused_imports)]
use vstd::arithmetic::power2::{lemma2_to64, lemma_pow2_strictly_increases, lemma_pow2_unfold, pow2};
use vstd::prelude::*;

verus! {

/// Left and right.
pub const NUM_CHANNELS: usize = 2;

/// How many frames a second are played.
pub const SAMPLE_RATE: i32 = 48000;

/// How many frames the device takes at a time.
pub const SAMPLES: usize = 512;

/// Frames as one row of samples, left before right.
pub open spec fn flat(frames: Seq<[i16; NUM_CHANNELS]>) -> Seq<i16> {
    Seq::new(frames.len() * 2, |i: int| frames[i / 2]@[i % 2])
}

/// `bytemuck::cast_slice`, from frames to samples: the same memory seen as
/// single samples, in order.
#[verifier::external_body]
fn cast_slice(frames: &[[i16; NUM_CHANNELS]]) -> (samples: &[i16])
    ensures
        samples@ == flat(frames@),
{
    bytemuck::cast_slice(frames)
}

/// `bytemuck::cast_slice_mut`, from frames to samples: the same memory seen
/// as single samples, in order. What is written to the samples is written to
/// the frames.
#[verifier::external_body]
fn cast_slice_mut(frames: &mut [[i16; NUM_CHANNELS]]) -> (samples: &mut [i16])
    ensures
        samples@ == flat(old(frames)@),
        flat(final(frames)@) == final(samples)@,
        final(frames)@.len() == old(frames)@.len(),
{
    bytemuck::cast_slice_mut(frames)
}

/// The number of whole frames that a device asks for, given the number of
/// samples.
pub open spec fn frames_in(requested: i32) -> int {
    if requested <= 0 {
        0
    } else {
        requested as int / 2
    }
}

/// The number of whole frames that a device asks for, given the number of
/// samples.
pub fn frames_requested(requested: i32) -> (frames: usize)
    ensures
        frames == frames_in(requested),
        requested <= 0 ==> frames == 0,
        requested > 0 ==> 2 * frames <= requested < 2 * frames + 2,
{
    if requested <= 0 {
        0
    } else {
        requested as usize / NUM_CHANNELS
    }
}

/// `r` is the smallest power of two that is at least `n`.
pub open spec fn is_next_power_of_two(r: int, n: int) -> bool {
    &&& exists|k: nat| r == pow2(k)
    &&& r >= n
    &&& forall|k: nat| #[trigger] pow2(k) >= n ==> r <= pow2(k)
}

/// The smallest power of two that is at least `n`.
fn next_power_of_two(n: usize) -> (r: usize)
    requires
        n <= usize::MAX / 2 + 1,
    ensures
        is_next_power_of_two(r as int, n as int),
{
    let mut r: usize = 1;
    let ghost mut k: nat = 0;
    proof {
        lemma2_to64();
    }
    while r < n
        invariant
            n <= usize::MAX / 2 + 1,
            r == pow2(k),
            r > 0,
            k > 0 ==> pow2((k - 1) as nat) < n,
        decreases 2 * n - r,
    {
        proof {
            lemma_pow2_unfold(k + 1);
        }
        r = r * 2;
        proof {
            k = k + 1;
        }
    }
    assert forall|j: nat| #[trigger] pow2(j) >= n implies r <= pow2(j) by {
        if j < k {
            if j < k - 1 {
                lemma_pow2_strictly_increases(j, (k - 1) as nat);
            }
        } else if j > k {
            lemma_pow2_strictly_increases(k, j);
        }
    }
    r
}

/// The larger of two numbers.
pub open spec fn at_least(a: int, b: int) -> int {
    if a >= b {
        a
    } else {
        b
    }
}

/// How many of the frames that were asked for can be filled.
pub fn frames_available(held: usize, frames: usize) -> (filled: usize)
    ensures
        filled <= held,
        filled <= frames,
        filled == held || filled == frames,
{
    if held < frames {
        held
    } else {
        frames
    }
}

/// The stream that the audio device pulls from.
pub struct MgbaStream {
    /// The frames that are handed to the device.
    pub buf: Vec<[i16; NUM_CHANNELS]>,
    /// The capacity of the buffer that the resampler fills, in frames.
    pub dest_capacity: usize,
}

/// What a frame of silence holds.
pub open spec fn is_silent(frame: [i16; NUM_CHANNELS]) -> bool {
    frame@ == seq![0i16, 0i16]
}

/// Nothing is to be heard.
pub open spec fn all_silent(frames: Seq<[i16; NUM_CHANNELS]>) -> bool {
    forall|i: int| 0 <= i < frames.len() ==> is_silent(#[trigger] frames[i])
}

impl MgbaStream {
    /// A stream with an empty buffer.
    pub fn new() -> (stream: MgbaStream)
        ensures
            stream.buf@.len() == 0,
            stream.dest_capacity == SAMPLES * 2,
    {
        MgbaStream { buf: Vec::new(), dest_capacity: SAMPLES * 2 }
    }

    /// See that the resampler's buffer holds twice the frames that are asked
    /// for. A value is the capacity of a new buffer to be made for it.
    pub fn fit(&mut self, frames: usize) -> (capacity: Option<usize>)
        requires
            2 * frames <= usize::MAX / 2 + 1,
        ensures
            final(self).buf == old(self).buf,
            2 * frames <= old(self).dest_capacity ==> capacity is None && final(self).dest_capacity
                == old(self).dest_capacity,
            2 * frames > old(self).dest_capacity ==> capacity == Some(final(self).dest_capacity)
                && is_next_power_of_two(
                final(self).dest_capacity as int,
                at_least(2 * frames, SAMPLES * 2),
            ),
            final(self).dest_capacity >= 2 * frames,
            final(self).dest_capacity >= old(self).dest_capacity,
    {
        let needed: usize = frames * 2;
        if needed > self.dest_capacity {
            let power: usize = next_power_of_two(needed);
            let capacity: usize = if power > SAMPLES * 2 {
                power
            } else {
                SAMPLES * 2
            };
            self.dest_capacity = capacity;
            proof {
                lemma2_to64();
                assert(pow2(10) == SAMPLES * 2);
                assert(needed <= SAMPLES * 2 ==> power <= SAMPLES * 2);
                assert(is_next_power_of_two(
                    capacity as int,
                    at_least(2 * frames, SAMPLES * 2),
                ));
            }
            Some(capacity)
        } else {
            None
        }
    }

    /// See that the buffer holds as many frames as are asked for. Those it
    /// held stay, and new ones are silent.
    pub fn reserve(&mut self, frames: usize)
        ensures
            final(self).dest_capacity == old(self).dest_capacity,
            final(self).buf@.len() == at_least(old(self).buf@.len() as int, frames as int),
            final(self).buf@.take(old(self).buf@.len() as int) == old(self).buf@,
            all_silent(final(self).buf@.skip(old(self).buf@.len() as int)),
    {
        let ghost before = self.buf@;
        while self.buf.len() < frames
            invariant
                self.dest_capacity == old(self).dest_capacity,
                self.buf@.len() == before.len() || self.buf@.len() <= frames,
                self.buf@.len() >= before.len(),
                self.buf@.take(before.len() as int) == before,
                all_silent(self.buf@.skip(before.len() as int)),
            decreases frames - self.buf.len(),
        {
            let ghost held = self.buf@;
            self.buf.push([0, 0]);
            proof {
                let now = self.buf@;
                assert(now.take(before.len() as int) =~= held.take(before.len() as int));
                let fresh = now.skip(before.len() as int);
                assert forall|i: int| 0 <= i < fresh.len() implies is_silent(#[trigger] fresh[i]) by {
                    if i + before.len() < held.len() {
                        assert(fresh[i] == held.skip(before.len() as int)[i]);
                    } else {
                        assert(fresh[i]@ =~= seq![0i16, 0i16]);
                    }
                }
            }
        }
    }

    /// The samples of the first `frames` frames, to be written to.
    pub fn linear_mut(&mut self, frames: usize) -> (samples: &mut [i16])
        requires
            frames <= old(self).buf@.len(),
        ensures
            samples@ == flat(old(self).buf@.take(frames as int)),
            final(self).dest_capacity == old(self).dest_capacity,
            final(self).buf@.len() == old(self).buf@.len(),
            flat(final(self).buf@.take(frames as int)) == final(samples)@,
            final(self).buf@.skip(frames as int) == old(self).buf@.skip(frames as int),
    {
        let (head, _) = self.buf.as_mut_slice().split_at_mut(frames);
        cast_slice_mut(head)
    }

    /// Silence what was asked for but could not be filled.
    pub fn silence(&mut self, filled: usize, frames: usize)
        requires
            filled <= frames <= old(self).buf@.len(),
        ensures
            final(self).dest_capacity == old(self).dest_capacity,
            final(self).buf@.len() == old(self).buf@.len(),
            final(self).buf@.take(filled as int) == old(self).buf@.take(filled as int),
            all_silent(final(self).buf@.subrange(filled as int, frames as int)),
            final(self).buf@.skip(frames as int) == old(self).buf@.skip(frames as int),
    {
        let ghost before = self.buf@;
        let mut i: usize = filled;
        while i < frames
            invariant
                filled <= i <= frames <= before.len(),
                self.dest_capacity == old(self).dest_capacity,
                self.buf@.len() == before.len(),
                forall|j: int| 0 <= j < filled ==> self.buf@[j] == before[j],
                forall|j: int| frames <= j < before.len() ==> self.buf@[j] == before[j],
                forall|j: int| filled <= j < i ==> is_silent(#[trigger] self.buf@[j]),
            decreases frames - i,
        {
            let quiet: [i16; NUM_CHANNELS] = [0, 0];
            assert(quiet@ =~= seq![0i16, 0i16]);
            self.buf.set(i, quiet);
            i = i + 1;
        }
        assert(self.buf@.take(filled as int) =~= before.take(filled as int));
        assert(self.buf@.skip(frames as int) =~= before.skip(frames as int));
    }

    /// The samples of the first `frames` frames, to be handed to the device.
    pub fn linear(&self, frames: usize) -> (samples: &[i16])
        requires
            frames <= self.buf@.len(),
        ensures
            samples@ == flat(self.buf@.take(frames as int)),
    {
        let (head, _) = self.buf.as_slice().split_at(frames);
        assert(head@ =~= self.buf@.take(frames as int));
        cast_slice(head)
    }
}

/// What the device is handed is what was filled, and silence behind it.
pub proof fn law_the_rest_is_silence(buf: Seq<[i16; NUM_CHANNELS]>, filled: int, frames: int)
    requires
        0 <= filled <= frames <= buf.len(),
        all_silent(buf.subrange(filled, frames)),
    ensures
        flat(buf.take(frames)) == flat(buf.take(filled)) + Seq::new(
            (2 * (frames - filled)) as nat,
            |i: int| 0i16,
        ),
{
    let all = flat(buf.take(frames));
    let head = flat(buf.take(filled));
    let tail = Seq::new((2 * (frames - filled)) as nat, |i: int| 0i16);
    assert forall|i: int| 0 <= i < all.len() implies all[i] == (head + tail)[i] by {
        if i >= 2 * filled {
            assert(is_silent(buf.subrange(filled, frames)[i / 2 - filled]));
        }
    }
    assert(all =~= head + tail);
}

/// The next power of two of a number is less than twice as large.
pub proof fn law_the_next_power_of_two_is_near(r: int, n: int)
    requires
        n >= 1,
        is_next_power_of_two(r, n),
    ensures
        n <= r < 2 * n,
        exists|k: nat| r == pow2(k),
{
    let k = choose|k: nat| r == pow2(k);
    if k == 0 {
        lemma2_to64();
    } else {
        lemma_pow2_unfold(k);
        assert(pow2((k - 1) as nat) < n) by {
            if pow2((k - 1) as nat) >= n {
                assert(r <= pow2((k - 1) as nat));
                lemma_pow2_strictly_increases((k - 1) as nat, k);
            }
        }
    }
}

/// Silence is two zeros, and a silent row is silent throughout. The larger of
/// two numbers is one of them and less than neither.
pub proof fn law_silence_is_zeros(frames: Seq<[i16; NUM_CHANNELS]>, i: int, a: int, b: int)
    ensures
        all_silent(frames) && 0 <= i < frames.len() ==> frames[i]@[0] == 0 && frames[i]@[1] == 0,
        at_least(a, b) >= a && at_least(a, b) >= b,
        at_least(a, b) == a || at_least(a, b) == b,
{
    if all_silent(frames) && 0 <= i < frames.len() {
        assert(is_silent(frames[i]));
    }
}

/// A row of samples is the frames one after the other, left before right.
pub proof fn law_frames_are_left_before_right(frames: Seq<[i16; NUM_CHANNELS]>, i: int)
    ensures
        flat(frames).len() == 2 * frames.len(),
        0 <= i < frames.len() ==> flat(frames)[2 * i] == frames[i]@[0] && flat(frames)[2 * i + 1]
            == frames[i]@[1],
{
}

} // verus!
