//! Pixel state and wire encoding for a chain of eight APA102 LEDs driven
//! over two GPIO lines (data and clock).
//!
//! The library computes everything: the packed brightness byte, the pixel
//! buffer, and the exact sequence of line writes that one frame consists of.
//! Performing those writes on real lines is left to the caller.

mod blinkt;
mod frame;
mod pixel;

pub use pixel::{
    brightness_level, clamped, lemma_brightness_clamped, lemma_brightness_floor, lemma_marker_bits_set,
    lemma_rgb_round_trip, level_of, packed_brightness, pixel_state, rgb_of, with_brightness,
    with_rgb, Pixel, PixelState, CLEAR_BRIGHTNESS, DEFAULT_LEVEL, FULL_BRIGHTNESS, LEVEL_MASK,
    MARKER_BITS, MAX_LEVEL,
};

pub use blinkt::{default_state, Blinkt, PixelIndexError, PIXEL_COUNT};

pub use frame::{
    byte_writes, channel_at, clock_pulses, end_of_frame, frame_writes, lemma_frame_shape,
    lemma_stage_pixel, payload_writes, pixel_writes, start_of_frame, stage_at, write_stage, Channel,
    Line, LineWrite, Stage, BYTE_WRITES, END_PULSES, END_WRITES, PIXEL_WRITES, START_PULSES,
    START_WRITES,
};
