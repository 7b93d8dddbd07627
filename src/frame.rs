use vstd::prelude::*;
use crate::pixel::{PixelState, MARKER_BITS};

verus! {

/// Clock pulses of the start-of-frame, with the data line held low.
pub const START_PULSES: usize = 32;

/// Clock pulses of the end-of-frame, with the data line held low: enough to
/// shift the last pixel's data through a chain of eight.
pub const END_PULSES: usize = 36;

/// Line writes of the start-of-frame: one data write, two per pulse.
pub const START_WRITES: usize = 65;

/// Line writes of the end-of-frame: one data write, two per pulse.
pub const END_WRITES: usize = 73;

/// Line writes of one byte: a data write and a clock pulse per bit.
pub const BYTE_WRITES: usize = 24;

/// Line writes of one pixel: four bytes.
pub const PIXEL_WRITES: usize = 96;

/// One of the two output lines.
#[derive(Clone, Copy, Debug, PartialEq, Eq, Structural)]
pub enum Line {
    Data,
    Clock,
}

/// Setting one line to a value, 0 (low) or 1 (high).
#[derive(Clone, Copy, Debug, PartialEq, Eq, Structural)]
pub struct LineWrite {
    pub line: Line,
    pub value: u8,
}

/// A byte of a pixel's frame, in the order they are sent.
#[derive(Clone, Copy, Debug, PartialEq, Eq, Structural)]
pub enum Channel {
    Brightness,
    Blue,
    Green,
    Red,
}

/// The part of a frame that a line write belongs to.
#[derive(Clone, Copy, Debug, PartialEq, Eq, Structural)]
pub enum Stage {
    StartOfFrame,
    PixelByte { pixel: usize, channel: Channel },
    EndOfFrame,
}

/// The channel sent `k`-th within a pixel.
pub open spec fn channel_at(k: int) -> Channel {
    if k == 0 {
        Channel::Brightness
    } else if k == 1 {
        Channel::Blue
    } else if k == 2 {
        Channel::Green
    } else {
        Channel::Red
    }
}

/// The stage of the `i`-th write of a frame for eight pixels; every write
/// after the payload belongs to the end-of-frame.
pub open spec fn stage_at(i: int) -> Stage {
    if i < START_WRITES {
        Stage::StartOfFrame
    } else if i < START_WRITES + 8 * PIXEL_WRITES {
        Stage::PixelByte {
            pixel: ((i - START_WRITES) / PIXEL_WRITES as int) as usize,
            channel: channel_at(((i - START_WRITES) % PIXEL_WRITES as int) / BYTE_WRITES as int),
        }
    } else {
        Stage::EndOfFrame
    }
}

/// The stage of the `i`-th write of a frame, to say where a transmission
/// stopped.
pub fn write_stage(i: usize) -> (r: Stage)
    ensures
        r == stage_at(i as int),
{
    if i < START_WRITES {
        Stage::StartOfFrame
    } else if i < START_WRITES + 8 * PIXEL_WRITES {
        let offset: usize = i - START_WRITES;
        let k: usize = (offset % PIXEL_WRITES) / BYTE_WRITES;
        let channel = if k == 0 {
            Channel::Brightness
        } else if k == 1 {
            Channel::Blue
        } else if k == 2 {
            Channel::Green
        } else {
            Channel::Red
        };
        Stage::PixelByte { pixel: offset / PIXEL_WRITES, channel }
    } else {
        Stage::EndOfFrame
    }
}

pub open spec fn data(value: u8) -> LineWrite {
    LineWrite { line: Line::Data, value }
}

pub open spec fn clock(value: u8) -> LineWrite {
    LineWrite { line: Line::Clock, value }
}

/// One clock pulse: clock high, then low.
pub open spec fn pulse() -> Seq<LineWrite> {
    seq![clock(1), clock(0)]
}

/// `n` clock pulses.
pub open spec fn pulses(n: nat) -> Seq<LineWrite>
    decreases n,
{
    if n == 0 {
        Seq::empty()
    } else {
        pulses((n - 1) as nat) + pulse()
    }
}

/// Data low, then the start-of-frame pulses.
pub open spec fn start_of_frame() -> Seq<LineWrite> {
    seq![data(0)] + pulses(START_PULSES as nat)
}

/// Data low, then the end-of-frame pulses.
pub open spec fn end_of_frame() -> Seq<LineWrite> {
    seq![data(0)] + pulses(END_PULSES as nat)
}

/// Bit `k` of a byte counted from the most significant (k = 0) down.
pub open spec fn msb_bit(byte: u8, k: nat) -> u8 {
    (byte >> ((7 - k) as u8)) & 1u8
}

/// The first `n` bits of a byte, most significant first: for each the data
/// line is set to the bit, then the clock is pulsed.
pub open spec fn bits_writes(byte: u8, n: nat) -> Seq<LineWrite>
    decreases n,
{
    if n == 0 {
        Seq::empty()
    } else {
        bits_writes(byte, (n - 1) as nat) + seq![data(msb_bit(byte, (n - 1) as nat))] + pulse()
    }
}

/// A whole byte, most significant bit first.
pub open spec fn byte_writes(byte: u8) -> Seq<LineWrite> {
    bits_writes(byte, 8)
}

/// One pixel: brightness byte (marker bits forced), then blue, green, red.
pub open spec fn pixel_writes(p: PixelState) -> Seq<LineWrite> {
    byte_writes(p.brightness | MARKER_BITS) + byte_writes(p.blue) + byte_writes(p.green)
        + byte_writes(p.red)
}

/// The pixels in chain order, index 0 first.
pub open spec fn payload_writes(pixels: Seq<PixelState>) -> Seq<LineWrite>
    decreases pixels.len(),
{
    if pixels.len() == 0 {
        Seq::empty()
    } else {
        payload_writes(pixels.drop_last()) + pixel_writes(pixels.last())
    }
}

/// A whole frame: start-of-frame, the pixels, end-of-frame.
pub open spec fn frame_writes(pixels: Seq<PixelState>) -> Seq<LineWrite> {
    start_of_frame() + payload_writes(pixels) + end_of_frame()
}

/// The number of clock pulses in a run of writes: the writes that set the
/// clock line high.
pub open spec fn clock_pulses(ws: Seq<LineWrite>) -> nat
    decreases ws.len(),
{
    if ws.len() == 0 {
        0
    } else {
        clock_pulses(ws.drop_last()) + if ws.last() == clock(1) {
            1nat
        } else {
            0nat
        }
    }
}

/// Pulse counts add up over concatenation.
proof fn lemma_clock_pulses_append(a: Seq<LineWrite>, b: Seq<LineWrite>)
    ensures
        clock_pulses(a + b) == clock_pulses(a) + clock_pulses(b),
    decreases b.len(),
{
    if b.len() > 0 {
        lemma_clock_pulses_append(a, b.drop_last());
        assert((a + b).drop_last() =~= a + b.drop_last());
    }
}

/// A single write counts as a pulse when it sets the clock high.
proof fn lemma_clock_pulses_one(w: LineWrite)
    ensures
        clock_pulses(seq![w]) == if w == clock(1) {
            1nat
        } else {
            0nat
        },
{
    let s = seq![w];
    assert(s.drop_last() =~= Seq::<LineWrite>::empty());
    assert(s.last() == w);
    assert(clock_pulses(Seq::<LineWrite>::empty()) == 0);
}

/// `n` pulses: `2n` writes, all to the clock line, `n` of them high.
proof fn lemma_pulses(n: nat)
    ensures
        pulses(n).len() == 2 * n,
        clock_pulses(pulses(n)) == n,
        forall|i: int| 0 <= i < pulses(n).len() ==> (#[trigger] pulses(n)[i]).line == Line::Clock,
    decreases n,
{
    if n > 0 {
        lemma_pulses((n - 1) as nat);
        lemma_clock_pulses_append(pulses((n - 1) as nat), pulse());
        assert(clock_pulses(pulse()) == 1) by {
            lemma_clock_pulses_one(clock(1));
            lemma_clock_pulses_one(clock(0));
            lemma_clock_pulses_append(seq![clock(1)], seq![clock(0)]);
            assert(seq![clock(1)] + seq![clock(0)] =~= pulse());
        }
    }
}

/// `n` bits of a byte: `3n` writes with `n` clock pulses.
proof fn lemma_bits_writes(byte: u8, n: nat)
    ensures
        bits_writes(byte, n).len() == 3 * n,
        clock_pulses(bits_writes(byte, n)) == n,
    decreases n,
{
    if n > 0 {
        let prev = bits_writes(byte, (n - 1) as nat);
        let d = seq![data(msb_bit(byte, (n - 1) as nat))];
        lemma_bits_writes(byte, (n - 1) as nat);
        lemma_pulses(1);
        assert(pulses(1) =~= pulse());
        lemma_clock_pulses_one(data(msb_bit(byte, (n - 1) as nat)));
        lemma_clock_pulses_append(prev, d);
        lemma_clock_pulses_append(prev + d, pulse());
    }
}

/// One pixel: 96 writes with 32 clock pulses.
proof fn lemma_pixel_writes(p: PixelState)
    ensures
        pixel_writes(p).len() == PIXEL_WRITES,
        clock_pulses(pixel_writes(p)) == 32,
{
    let b0 = byte_writes(p.brightness | MARKER_BITS);
    let b1 = byte_writes(p.blue);
    let b2 = byte_writes(p.green);
    let b3 = byte_writes(p.red);
    lemma_bits_writes(p.brightness | MARKER_BITS, 8);
    lemma_bits_writes(p.blue, 8);
    lemma_bits_writes(p.green, 8);
    lemma_bits_writes(p.red, 8);
    lemma_clock_pulses_append(b0, b1);
    lemma_clock_pulses_append(b0 + b1, b2);
    lemma_clock_pulses_append(b0 + b1 + b2, b3);
}

/// The payload: 96 writes and 32 clock pulses per pixel.
proof fn lemma_payload_writes(pixels: Seq<PixelState>)
    ensures
        payload_writes(pixels).len() == PIXEL_WRITES * pixels.len(),
        clock_pulses(payload_writes(pixels)) == 32 * pixels.len(),
    decreases pixels.len(),
{
    if pixels.len() > 0 {
        lemma_payload_writes(pixels.drop_last());
        lemma_pixel_writes(pixels.last());
        lemma_clock_pulses_append(payload_writes(pixels.drop_last()), pixel_writes(pixels.last()));
    }
}

/// Pixel `k` of the chain takes writes `96k` to `96k + 95` of the payload.
proof fn lemma_payload_slice(pixels: Seq<PixelState>, k: int)
    requires
        0 <= k < pixels.len(),
    ensures
        payload_writes(pixels).subrange(PIXEL_WRITES * k, PIXEL_WRITES * (k + 1))
            == pixel_writes(pixels[k]),
    decreases pixels.len(),
{
    let prefix = payload_writes(pixels.drop_last());
    lemma_payload_writes(pixels.drop_last());
    lemma_pixel_writes(pixels.last());
    assert(PIXEL_WRITES * (k + 1) == PIXEL_WRITES * k + PIXEL_WRITES);
    if k < pixels.len() - 1 {
        lemma_payload_slice(pixels.drop_last(), k);
        assert(PIXEL_WRITES * (k + 1) <= PIXEL_WRITES * (pixels.len() - 1)) by (nonlinear_arith)
            requires
                k + 1 <= pixels.len() - 1,
        ;
        assert(payload_writes(pixels).subrange(PIXEL_WRITES * k, PIXEL_WRITES * (k + 1))
            =~= prefix.subrange(PIXEL_WRITES * k, PIXEL_WRITES * (k + 1)));
    } else {
        assert(payload_writes(pixels).subrange(PIXEL_WRITES * k, PIXEL_WRITES * (k + 1))
            =~= pixel_writes(pixels.last()));
    }
}

/// In a frame for eight pixels, the writes that `stage_at` gives to pixel
/// `k` are exactly that pixel's writes, brightness byte first.
pub proof fn lemma_stage_pixel(pixels: Seq<PixelState>, k: int)
    requires
        pixels.len() == 8,
        0 <= k < 8,
    ensures
        frame_writes(pixels).subrange(
            START_WRITES + PIXEL_WRITES * k,
            START_WRITES + PIXEL_WRITES * (k + 1),
        ) == pixel_writes(pixels[k]),
        forall|i: int|
            START_WRITES + PIXEL_WRITES * k <= i < START_WRITES + PIXEL_WRITES * (k + 1)
                ==> #[trigger] stage_at(i) == (Stage::PixelByte {
                pixel: k as usize,
                channel: channel_at((i - START_WRITES - PIXEL_WRITES * k) / BYTE_WRITES as int),
            }),
{
    let s = start_of_frame();
    let p = payload_writes(pixels);
    lemma_pulses(START_PULSES as nat);
    lemma_payload_writes(pixels);
    lemma_payload_slice(pixels, k);
    assert(PIXEL_WRITES * (k + 1) <= PIXEL_WRITES * 8) by (nonlinear_arith)
        requires
            k + 1 <= 8,
    ;
    assert(frame_writes(pixels).subrange(
        START_WRITES + PIXEL_WRITES * k,
        START_WRITES + PIXEL_WRITES * (k + 1),
    ) =~= p.subrange(PIXEL_WRITES * k, PIXEL_WRITES * (k + 1)));
    assert forall|i: int|
        START_WRITES + PIXEL_WRITES * k <= i < START_WRITES + PIXEL_WRITES * (k + 1)
            implies #[trigger] stage_at(i) == (Stage::PixelByte {
            pixel: k as usize,
            channel: channel_at((i - START_WRITES - PIXEL_WRITES * k) / BYTE_WRITES as int),
        }) by {
        vstd::arithmetic::div_mod::lemma_div_is_ordered(PIXEL_WRITES * k, i - START_WRITES, PIXEL_WRITES as int);
        vstd::arithmetic::div_mod::lemma_div_is_ordered(i - START_WRITES, PIXEL_WRITES * (k + 1) - 1, PIXEL_WRITES as int);
        vstd::arithmetic::div_mod::lemma_div_by_multiple(k, PIXEL_WRITES as int);
        vstd::arithmetic::div_mod::lemma_fundamental_div_mod(PIXEL_WRITES * (k + 1) - 1, PIXEL_WRITES as int);
        assert((PIXEL_WRITES * (k + 1) - 1) / PIXEL_WRITES as int == k) by {
            vstd::arithmetic::div_mod::lemma_div_multiples_vanish_fancy(k, 95, PIXEL_WRITES as int);
        }
        vstd::arithmetic::div_mod::lemma_fundamental_div_mod(i - START_WRITES, PIXEL_WRITES as int);
    }
}

/// A frame for a chain of eight pixels, whatever they hold, is 906 line
/// writes with 324 clock pulses: 32 at the start and 36 at the end, each
/// run after a write that sets the data line low and with no other data
/// write among its pulses, and 32 per pixel between them.
pub proof fn lemma_frame_shape(pixels: Seq<PixelState>)
    requires
        pixels.len() == 8,
    ensures
        frame_writes(pixels).len() == START_WRITES + 8 * PIXEL_WRITES + END_WRITES,
        clock_pulses(frame_writes(pixels)) == START_PULSES + 8 * 32 + END_PULSES,
        frame_writes(pixels).subrange(0, START_WRITES as int) == start_of_frame(),
        frame_writes(pixels).subrange(
            (START_WRITES + 8 * PIXEL_WRITES) as int,
            frame_writes(pixels).len() as int,
        ) == end_of_frame(),
        clock_pulses(start_of_frame()) == START_PULSES,
        clock_pulses(end_of_frame()) == END_PULSES,
        start_of_frame()[0] == data(0),
        end_of_frame()[0] == data(0),
        forall|i: int| 1 <= i < START_WRITES ==> (#[trigger] start_of_frame()[i]).line == Line::Clock,
        forall|i: int| 1 <= i < END_WRITES ==> (#[trigger] end_of_frame()[i]).line == Line::Clock,
{
    let s = start_of_frame();
    let e = end_of_frame();
    let p = payload_writes(pixels);
    lemma_pulses(START_PULSES as nat);
    lemma_pulses(END_PULSES as nat);
    lemma_payload_writes(pixels);
    lemma_clock_pulses_one(data(0));
    lemma_clock_pulses_append(seq![data(0)], pulses(START_PULSES as nat));
    lemma_clock_pulses_append(seq![data(0)], pulses(END_PULSES as nat));
    lemma_clock_pulses_append(s, p);
    lemma_clock_pulses_append(s + p, e);
    assert(frame_writes(pixels).subrange(0, START_WRITES as int) =~= s);
    assert(frame_writes(pixels).subrange(
        (START_WRITES + 8 * PIXEL_WRITES) as int,
        frame_writes(pixels).len() as int,
    ) =~= e);
    assert forall|i: int| 1 <= i < START_WRITES implies (#[trigger] s[i]).line == Line::Clock by {
        assert(s[i] == pulses(START_PULSES as nat)[i - 1]);
    }
    assert forall|i: int| 1 <= i < END_WRITES implies (#[trigger] e[i]).line == Line::Clock by {
        assert(e[i] == pulses(END_PULSES as nat)[i - 1]);
    }
}

/// Appends `n` clock pulses.
fn push_pulses(out: &mut Vec<LineWrite>, n: usize)
    ensures
        final(out)@ == old(out)@ + pulses(n as nat),
{
    let mut i: usize = 0;
    while i < n
        invariant
            i <= n,
            out@ == old(out)@ + pulses(i as nat),
        decreases n - i,
    {
        out.push(LineWrite { line: Line::Clock, value: 1 });
        out.push(LineWrite { line: Line::Clock, value: 0 });
        assert(pulses((i + 1) as nat) == pulses(i as nat) + pulse());
        assert(out@ =~= old(out)@ + pulses((i + 1) as nat));
        i = i + 1;
    }
}

/// Appends the start-of-frame.
pub(crate) fn push_start_of_frame(out: &mut Vec<LineWrite>)
    ensures
        final(out)@ == old(out)@ + start_of_frame(),
{
    out.push(LineWrite { line: Line::Data, value: 0 });
    push_pulses(out, START_PULSES);
    assert(out@ =~= old(out)@ + start_of_frame());
}

/// Appends the end-of-frame.
pub(crate) fn push_end_of_frame(out: &mut Vec<LineWrite>)
    ensures
        final(out)@ == old(out)@ + end_of_frame(),
{
    out.push(LineWrite { line: Line::Data, value: 0 });
    push_pulses(out, END_PULSES);
    assert(out@ =~= old(out)@ + end_of_frame());
}

/// Appends one byte, most significant bit first.
pub(crate) fn push_byte(out: &mut Vec<LineWrite>, byte: u8)
    ensures
        final(out)@ == old(out)@ + byte_writes(byte),
{
    let mut x: usize = 0;
    while x < 8
        invariant
            x <= 8,
            out@ == old(out)@ + bits_writes(byte, x as nat),
        decreases 8 - x,
    {
        let shift: u8 = 7 - x as u8;
        let bit: u8 = (byte >> shift) & 1;
        out.push(LineWrite { line: Line::Data, value: bit });
        out.push(LineWrite { line: Line::Clock, value: 1 });
        out.push(LineWrite { line: Line::Clock, value: 0 });
        assert(bits_writes(byte, (x + 1) as nat) == bits_writes(byte, x as nat) + seq![
            data(msb_bit(byte, x as nat)),
        ] + pulse());
        assert(out@ =~= old(out)@ + bits_writes(byte, (x + 1) as nat));
        x = x + 1;
    }
}

} // verus!
