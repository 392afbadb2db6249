//! Expansion of pixel bytes into the byte-clocked waveform that the LED
//! strip reads as a one-wire signal.
//!
//! Every payload bit, most significant first, becomes two bus bytes: a long
//! high phase followed by a short low phase for a one, a short high phase
//! followed by a long low phase for a zero. A run of zero bytes after the
//! payload holds the line low long enough for the strip to latch.

use bitvec::order::Msb0;
use bitvec::view::BitView;
use vstd::prelude::*;

verus! {

/// First bus byte of a logical one: the line stays high for the whole byte.
pub const ONE_HEAD: u8 = 0b1111_1111;

/// Second bus byte of a logical one: high for the first half, then low.
pub const ONE_TAIL: u8 = 0b1111_0000;

/// First bus byte of a logical zero: high for the first half only.
pub const ZERO_HEAD: u8 = 0b1111_0000;

/// Second bus byte of a logical zero: the line stays low.
pub const ZERO_TAIL: u8 = 0b0000_0000;

/// Number of zero bytes sent after a frame so that the strip latches it:
/// about 65 microseconds of low line at a bus clock of 15.6 MHz.
pub const LATCH_GAP: usize = 128;

/// Longest payload that `encode` accepts, far below the longest region that
/// a bit view can describe on a 32-bit machine.
pub const MAX_PAYLOAD: usize = 0x00ff_ffff;

/// Bit `k` of `byte`, counted from the most significant bit (`k` in `0..8`).
pub open spec fn msb_bit(byte: u8, k: int) -> bool {
    byte & (0x80u8 >> (k as u8)) != 0
}

/// The bits of `bytes`, byte after byte, each byte most significant bit first.
pub open spec fn msb_bits(bytes: Seq<u8>) -> Seq<bool> {
    Seq::new(8 * bytes.len(), |i: int| msb_bit(bytes[i / 8], i % 8))
}

/// The two bus bytes that carry one logical bit.
pub open spec fn pulse(bit: bool) -> Seq<u8> {
    if bit {
        seq![ONE_HEAD, ONE_TAIL]
    } else {
        seq![ZERO_HEAD, ZERO_TAIL]
    }
}

/// The bus bytes for a payload: sixteen per payload byte, then `gap` zeros.
pub open spec fn wire(bytes: Seq<u8>, gap: nat) -> Seq<u8> {
    Seq::new(
        16 * bytes.len() + gap,
        |j: int|
            if j < 16 * bytes.len() {
                pulse(msb_bit(bytes[j / 16], (j % 16) / 2))[j % 2]
            } else {
                0u8
            },
    )
}

/// Reads the payload through bitvec's `view_bits::<Msb0>()` and copies the
/// bits out in iteration order. Trusted: the view has eight bits per byte,
/// walks the bytes in order and, within a byte, selects bit `k` with the mask
/// `0x80 >> k`. The length bound keeps the view from refusing the slice.
#[verifier::external_body]
fn msb_first_bits(bytes: &[u8]) -> (bits: Vec<bool>)
    requires
        bytes@.len() <= MAX_PAYLOAD,
    ensures
        bits@ == msb_bits(bytes@),
{
    bytes.view_bits::<Msb0>().iter().by_vals().collect()
}

/// Appends the two bus bytes of one logical bit.
pub fn push_pulse(out: &mut Vec<u8>, bit: bool)
    ensures
        final(out)@ == old(out)@ + pulse(bit),
{
    if bit {
        out.push(ONE_HEAD);
        out.push(ONE_TAIL);
    } else {
        out.push(ZERO_HEAD);
        out.push(ZERO_TAIL);
    }
}

/// Encodes a payload for the bus and appends `gap` zero bytes.
pub fn encode(bytes: &[u8], gap: usize) -> (out: Vec<u8>)
    requires
        bytes@.len() <= MAX_PAYLOAD,
    ensures
        out@ == wire(bytes@, gap as nat),
{
    let bits = msb_first_bits(bytes);
    let mut out: Vec<u8> = Vec::new();
    let mut i: usize = 0;
    while i < bits.len()
        invariant
            i <= bits@.len(),
            bits@ == msb_bits(bytes@),
            out@.len() == 2 * i,
            forall|j: int| 0 <= j < 2 * i ==> out@[j] == pulse(bits@[j / 2])[j % 2],
        decreases bits@.len() - i,
    {
        push_pulse(&mut out, bits[i]);
        i += 1;
    }
    let mut k: usize = 0;
    while k < gap
        invariant
            k <= gap,
            bits@ == msb_bits(bytes@),
            out@.len() == 2 * bits@.len() + k,
            forall|j: int| 0 <= j < 2 * bits@.len() ==> out@[j] == pulse(bits@[j / 2])[j % 2],
            forall|j: int| 2 * bits@.len() <= j < out@.len() ==> out@[j] == 0u8,
        decreases gap - k,
    {
        out.push(0u8);
        k += 1;
    }
    proof {
        let want = wire(bytes@, gap as nat);
        assert(out@.len() == want.len());
        assert forall|j: int| 0 <= j < out@.len() implies out@[j] == want[j] by {
            if j < 16 * bytes@.len() {
                assert((j / 2) / 8 == j / 16 && (j / 2) % 8 == (j % 16) / 2) by (nonlinear_arith)
                    requires
                        0 <= j,
                ;
                assert(bits@[j / 2] == msb_bit(bytes@[(j / 2) / 8], (j / 2) % 8));
            }
        }
        assert(out@ =~= want);
    }
    out
}

/// Encoding depends on the payload and the gap alone: equal payloads and
/// equal gaps give equal bus bytes, sixteen per payload byte plus the gap.
/// A frame of 768 bytes therefore always takes 12288 bus bytes and the gap.
pub proof fn lemma_wire_deterministic(a: Seq<u8>, b: Seq<u8>, gap: nat)
    requires
        a == b,
    ensures
        wire(a, gap) == wire(b, gap),
        wire(a, gap).len() == 16 * a.len() + gap,
        a.len() == 768 ==> wire(a, gap).len() == 12288 + gap,
{
}

/// Every payload bit shows on the bus as its own pair of bytes, and what
/// follows the payload is low throughout.
pub proof fn lemma_wire_layout(bytes: Seq<u8>, gap: nat, i: int, k: int)
    requires
        0 <= i < bytes.len(),
        0 <= k < 8,
    ensures
        wire(bytes, gap)[16 * i + 2 * k] == pulse(msb_bit(bytes[i], k))[0],
        wire(bytes, gap)[16 * i + 2 * k + 1] == pulse(msb_bit(bytes[i], k))[1],
        forall|j: int| 16 * bytes.len() <= j < 16 * bytes.len() + gap ==> wire(bytes, gap)[j] == 0u8,
{
    let a = 16 * i + 2 * k;
    assert(a / 16 == i && (a % 16) / 2 == k && a % 2 == 0);
    assert((a + 1) / 16 == i && ((a + 1) % 16) / 2 == k && (a + 1) % 2 == 1);
}

} // verus!
