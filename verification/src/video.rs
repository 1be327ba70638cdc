//! From the emulator's picture to one that can be shown.

use vstd::prelude::*;

verus! {

/// How much five bits of colour are worth in eight.
pub open spec fn widened(five_bits: int) -> u8 {
    (five_bits * 8) as u8
}

/// One pixel as red, green, blue and opacity. The emulator's pixels are two
/// bytes, the lower first, with five bits of red, then green, then blue.
pub open spec fn pixel(low: u8, high: u8) -> Seq<u8> {
    let v = low + 256 * high;
    seq![widened(v % 32), widened(v / 32 % 32), widened(v / 1024 % 32), 0xff]
}

/// How many pixels there are both to be had and to be written.
pub open spec fn pixels_in(rgba_len: nat, vbuf_len: nat) -> nat {
    if rgba_len / 4 <= vbuf_len / 2 {
        rgba_len / 4
    } else {
        vbuf_len / 2
    }
}

/// `rgba` with its first `n` pixels taken from `vbuf`.
pub open spec fn painted(rgba: Seq<u8>, vbuf: Seq<u8>, n: nat) -> Seq<u8> {
    Seq::new(
        rgba.len(),
        |i: int|
            if i < 4 * n {
                pixel(vbuf[i / 4 * 2], vbuf[i / 4 * 2 + 1])[i % 4]
            } else {
                rgba[i]
            },
    )
}

proof fn lemma_channels(v: u16)
    ensures
        ((v & 0x1f) << 3) == v % 32 * 8,
        (((v >> 5) & 0x1f) << 3) == v / 32 % 32 * 8,
        (((v >> 10) & 0x1f) << 3) == v / 1024 % 32 * 8,
{
    assert(((v & 0x1f) << 3) == v % 32 * 8) by (bit_vector);
    assert((((v >> 5) & 0x1f) << 3) == v / 32 % 32 * 8) by (bit_vector);
    assert((((v >> 10) & 0x1f) << 3) == v / 1024 % 32 * 8) by (bit_vector);
}

/// Paint the emulator's picture into `rgba`, as many pixels as both have.
pub fn paint(rgba: &mut Vec<u8>, vbuf: &[u8])
    ensures
        final(rgba)@ == painted(
            old(rgba)@,
            vbuf@,
            pixels_in(old(rgba)@.len(), vbuf@.len()),
        ),
{
    let ghost before = rgba@;
    let dst: usize = rgba.len() / 4;
    let src: usize = vbuf.len() / 2;
    let n: usize = if dst <= src {
        dst
    } else {
        src
    };
    let mut k: usize = 0;
    assert(rgba@ =~= painted(before, vbuf@, 0));
    while k < n
        invariant
            k <= n,
            n == pixels_in(before.len(), vbuf@.len()),
            4 * n <= before.len() <= usize::MAX,
            2 * n <= vbuf@.len() <= usize::MAX,
            rgba@ == painted(before, vbuf@, k as nat),
        decreases n - k,
    {
        let v: u16 = vbuf[2 * k] as u16 + 256 * (vbuf[2 * k + 1] as u16);
        proof {
            lemma_channels(v);
        }
        let ghost held = rgba@;
        rgba.set(4 * k, ((v & 0x1f) << 3) as u8);
        rgba.set(4 * k + 1, (((v >> 5) & 0x1f) << 3) as u8);
        rgba.set(4 * k + 2, (((v >> 10) & 0x1f) << 3) as u8);
        rgba.set(4 * k + 3, 0xff);
        assert(rgba@ =~= painted(before, vbuf@, (k + 1) as nat)) by {
            let next = painted(before, vbuf@, (k + 1) as nat);
            assert forall|i: int| 0 <= i < before.len() implies rgba@[i] == next[i] by {
                if i < 4 * k {
                    assert(rgba@[i] == held[i]);
                } else if i < 4 * k + 4 {
                    assert(i / 4 == k);
                } else {
                    assert(rgba@[i] == held[i]);
                }
            }
        }
        k = k + 1;
    }
}

/// A picture of the right size is painted over wholly: nothing is left of
/// what was there before, and every pixel is opaque.
pub proof fn law_whole_picture_is_painted(rgba: Seq<u8>, other: Seq<u8>, vbuf: Seq<u8>, pixels: nat)
    requires
        rgba.len() == 4 * pixels,
        other.len() == 4 * pixels,
        vbuf.len() == 2 * pixels,
    ensures
        painted(rgba, vbuf, pixels_in(rgba.len(), vbuf.len())) == painted(
            other,
            vbuf,
            pixels_in(other.len(), vbuf.len()),
        ),
        forall|k: int|
            0 <= k < pixels ==> #[trigger] painted(rgba, vbuf, pixels).subrange(4 * k, 4 * k + 4)
                == pixel(vbuf[2 * k], vbuf[2 * k + 1]),
{
    assert(pixels_in(rgba.len(), vbuf.len()) == pixels);
    assert(painted(rgba, vbuf, pixels) =~= painted(other, vbuf, pixels));
    assert forall|k: int| 0 <= k < pixels implies #[trigger] painted(rgba, vbuf, pixels).subrange(
        4 * k,
        4 * k + 4,
    ) == pixel(vbuf[2 * k], vbuf[2 * k + 1]) by {
        let one = painted(rgba, vbuf, pixels).subrange(4 * k, 4 * k + 4);
        assert forall|i: int| 0 <= i < 4 implies one[i] == pixel(vbuf[2 * k], vbuf[2 * k + 1])[i] by {
            assert((4 * k + i) / 4 == k && (4 * k + i) % 4 == i);
        }
        assert(one =~= pixel(vbuf[2 * k], vbuf[2 * k + 1]));
    }
}

/// The channels of a painted pixel, by the bits of the emulator's: the lowest
/// five bits are its red, the next five its green and the next five its blue,
/// each eight times as bright, and it is opaque.
pub proof fn law_channels_go_by_the_bits(rgba: Seq<u8>, vbuf: Seq<u8>, k: int)
    requires
        0 <= k,
        4 * k + 4 <= rgba.len(),
        2 * k + 2 <= vbuf.len(),
    ensures
        ({
            let v = vbuf[2 * k] + 256 * vbuf[2 * k + 1];
            let after = painted(rgba, vbuf, pixels_in(rgba.len(), vbuf.len()));
            &&& after[4 * k] == 8 * (v % 32)
            &&& after[4 * k + 1] == 8 * (v / 32 % 32)
            &&& after[4 * k + 2] == 8 * (v / 1024 % 32)
            &&& after[4 * k + 3] == 255
        }),
{
    assert(k < pixels_in(rgba.len(), vbuf.len()));
    assert(4 * k / 4 == k && 4 * k % 4 == 0);
    assert((4 * k + 1) / 4 == k && (4 * k + 1) % 4 == 1);
    assert((4 * k + 2) / 4 == k && (4 * k + 2) % 4 == 2);
    assert((4 * k + 3) / 4 == k && (4 * k + 3) % 4 == 3);
}

/// What has no whole pixel to be painted from, or no room for a whole one,
/// stays as it was; and the picture keeps its size.
pub proof fn law_the_rest_is_not_painted(rgba: Seq<u8>, vbuf: Seq<u8>, i: int)
    requires
        0 <= i < rgba.len(),
        i >= rgba.len() - rgba.len() % 4 || i / 4 >= vbuf.len() / 2,
    ensures
        painted(rgba, vbuf, pixels_in(rgba.len(), vbuf.len())).len() == rgba.len(),
        painted(rgba, vbuf, pixels_in(rgba.len(), vbuf.len()))[i] == rgba[i],
{
}

} // verus!
