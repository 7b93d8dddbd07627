use vstd::prelude::*;
use crate::frame::{
    frame_writes, payload_writes, pixel_writes, push_byte, push_end_of_frame, push_start_of_frame,
    start_of_frame, LineWrite,
};
use crate::pixel::{
    packed_brightness, pixel_state, Pixel, PixelState, CLEAR_BRIGHTNESS, DEFAULT_LEVEL,
    MARKER_BITS,
};

verus! {

/// The number of LEDs in the chain.
pub const PIXEL_COUNT: usize = 8;

/// A pixel index past the end of the chain.
#[derive(Clone, Copy, Debug, PartialEq, Eq, Structural)]
pub struct PixelIndexError {
    pub index: usize,
}

/// The state of a chain of LEDs: one pixel per position, index 0 first, and
/// whether the chain is blanked when the driver is torn down.
pub struct Blinkt {
    clear_on_drop: bool,
    pixels: Vec<Pixel>,
}

impl View for Blinkt {
    type V = Seq<PixelState>;

    closed spec fn view(&self) -> Seq<PixelState> {
        self.pixels@.map_values(|p: Pixel| p@)
    }
}

/// The state of a pixel that has never been set: black at the default level.
pub open spec fn default_state() -> PixelState {
    PixelState { red: 0, green: 0, blue: 0, brightness: packed_brightness(DEFAULT_LEVEL) }
}

impl Blinkt {
    /// Whether tearing the driver down blanks the chain.
    pub closed spec fn clears_on_teardown(&self) -> bool {
        self.clear_on_drop
    }

    /// A chain of eight black pixels at the default level that is blanked on
    /// teardown.
    pub fn new() -> (r: Blinkt)
        ensures
            r@.len() == PIXEL_COUNT,
            forall|i: int| 0 <= i < PIXEL_COUNT ==> #[trigger] r@[i] == default_state(),
            r.clears_on_teardown(),
    {
        let mut pixels: Vec<Pixel> = Vec::new();
        let mut i: usize = 0;
        while i < PIXEL_COUNT
            invariant
                i <= PIXEL_COUNT,
                pixels@.len() == i,
                forall|j: int| 0 <= j < i ==> #[trigger] pixels@[j]@ == default_state(),
            decreases PIXEL_COUNT - i,
        {
            pixels.push(Pixel::default());
            i = i + 1;
        }
        Blinkt { clear_on_drop: true, pixels }
    }

    /// The line writes of one frame showing the current pixels.
    pub fn show(&self) -> (r: Vec<LineWrite>)
        ensures
            r@ == frame_writes(self@),
    {
        let mut out: Vec<LineWrite> = Vec::new();
        push_start_of_frame(&mut out);
        assert(out@ =~= start_of_frame());
        let mut i: usize = 0;
        while i < self.pixels.len()
            invariant
                i <= self.pixels@.len(),
                out@ == start_of_frame() + payload_writes(self@.subrange(0, i as int)),
            decreases self.pixels@.len() - i,
        {
            let data = self.pixels[i].data();
            push_byte(&mut out, data[3] | MARKER_BITS);
            push_byte(&mut out, data[2]);
            push_byte(&mut out, data[1]);
            push_byte(&mut out, data[0]);
            proof {
                let next = self@.subrange(0, i + 1);
                assert(next.drop_last() =~= self@.subrange(0, i as int));
                assert(next.last() == self@[i as int]);
                assert(out@ =~= start_of_frame() + payload_writes(self@.subrange(0, i as int))
                    + pixel_writes(self@[i as int]));
            }
            i = i + 1;
        }
        push_end_of_frame(&mut out);
        assert(self@.subrange(0, self@.len() as int) =~= self@);
        out
    }

    /// The colour and brightness level of the pixel at `pixel`.
    pub fn get_pixel(&mut self, pixel: usize) -> (r: Result<(u8, u8, u8, u8), PixelIndexError>)
        ensures
            *final(self) == *old(self),
            pixel < old(self)@.len() ==> r == Ok::<(u8, u8, u8, u8), PixelIndexError>(
                (
                    old(self)@[pixel as int].red,
                    old(self)@[pixel as int].green,
                    old(self)@[pixel as int].blue,
                    old(self)@[pixel as int].level(),
                ),
            ),
            pixel >= old(self)@.len() ==> r == Err::<(u8, u8, u8, u8), PixelIndexError>(
                PixelIndexError { index: pixel },
            ),
    {
        if pixel < self.pixels.len() {
            Ok(self.pixels[pixel].rgbb())
        } else {
            Err(PixelIndexError { index: pixel })
        }
    }

    /// Sets the colour and brightness of the pixel at `pixel`; an index past
    /// the end of the chain changes nothing.
    pub fn set_pixel(&mut self, pixel: usize, red: u8, green: u8, blue: u8, brightness: i64)
        ensures
            final(self).clears_on_teardown() == old(self).clears_on_teardown(),
            pixel < old(self)@.len() ==> final(self)@ == old(self)@.update(
                pixel as int,
                pixel_state(red, green, blue, brightness as int),
            ),
            pixel >= old(self)@.len() ==> final(self)@ == old(self)@,
    {
        if pixel < self.pixels.len() {
            self.pixels[pixel].set_rgbb(red, green, blue, brightness);
            assert(self@ =~= old(self)@.update(
                pixel as int,
                pixel_state(red, green, blue, brightness as int),
            ));
        }
    }

    /// Sets every pixel to the same colour and brightness.
    pub fn set_all_pixels(&mut self, red: u8, green: u8, blue: u8, brightness: i64)
        ensures
            final(self).clears_on_teardown() == old(self).clears_on_teardown(),
            final(self)@.len() == old(self)@.len(),
            forall|i: int|
                0 <= i < old(self)@.len() ==> #[trigger] final(self)@[i] == pixel_state(
                    red,
                    green,
                    blue,
                    brightness as int,
                ),
    {
        let n = self.pixels.len();
        let mut i: usize = 0;
        while i < n
            invariant
                n == old(self)@.len(),
                i <= n,
                self.clears_on_teardown() == old(self).clears_on_teardown(),
                self@.len() == n,
                forall|j: int|
                    0 <= j < i ==> #[trigger] self@[j] == pixel_state(
                        red,
                        green,
                        blue,
                        brightness as int,
                    ),
            decreases n - i,
        {
            self.set_pixel(i, red, green, blue, brightness);
            i = i + 1;
        }
    }

    /// Sets every pixel to black at one fifth of full brightness, without
    /// showing it.
    pub fn clear(&mut self)
        ensures
            final(self).clears_on_teardown() == old(self).clears_on_teardown(),
            final(self)@.len() == old(self)@.len(),
            forall|i: int|
                0 <= i < old(self)@.len() ==> #[trigger] final(self)@[i] == pixel_state(
                    0,
                    0,
                    0,
                    CLEAR_BRIGHTNESS as int,
                ),
    {
        self.set_all_pixels(0, 0, 0, CLEAR_BRIGHTNESS);
    }

    /// What tearing the driver down does to the chain: when it is to be
    /// blanked, every pixel is cleared and the frame that shows it is
    /// returned; otherwise nothing changes and there is nothing to send.
    pub fn teardown(&mut self) -> (r: Option<Vec<LineWrite>>)
        ensures
            old(self).clears_on_teardown() ==> {
                &&& final(self)@.len() == old(self)@.len()
                &&& forall|i: int|
                    0 <= i < old(self)@.len() ==> #[trigger] final(self)@[i] == pixel_state(
                        0,
                        0,
                        0,
                        CLEAR_BRIGHTNESS as int,
                    )
                &&& r is Some
                &&& r.unwrap()@ == frame_writes(final(self)@)
            },
            !old(self).clears_on_teardown() ==> *final(self) == *old(self) && r is None,
    {
        if self.clear_on_drop {
            self.clear();
            Some(self.show())
        } else {
            None
        }
    }
}

} // verus!
