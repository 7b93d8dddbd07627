use vstd::prelude::*;

verus! {

/// The three high bits that the protocol requires in every brightness byte.
pub const MARKER_BITS: u8 = 0b1110_0000;

/// The low five bits of a brightness byte: the brightness level.
pub const LEVEL_MASK: u8 = 0b0001_1111;

/// The largest brightness level (five bits).
pub const MAX_LEVEL: u8 = 31;

/// The brightness level of a pixel that has never been set.
pub const DEFAULT_LEVEL: u8 = 7;

/// Full brightness in the fixed-point scale that setters take: a brightness
/// `b` stands for the fraction `b / FULL_BRIGHTNESS`, 32 fractional bits.
pub const FULL_BRIGHTNESS: i64 = 4_294_967_296;

/// The brightness that clearing uses: one fifth of full scale (level 6).
pub const CLEAR_BRIGHTNESS: i64 = 858_993_459;

/// A brightness clamped to the range from zero to full scale.
pub open spec fn clamped(b: int) -> int {
    if b < 0 {
        0
    } else if b > FULL_BRIGHTNESS {
        FULL_BRIGHTNESS as int
    } else {
        b
    }
}

/// The five-bit level of a fixed-point brightness: the brightness is clamped
/// to `[0, 1]` and scaled by 31, rounding down.
pub open spec fn level_of(b: int) -> int {
    31 * clamped(b) / (FULL_BRIGHTNESS as int)
}

/// The stored brightness byte for a level: the level under the marker bits.
pub open spec fn packed_brightness(level: u8) -> u8 {
    MARKER_BITS | level
}

/// The state that setting a pixel to a colour and a fixed-point brightness
/// gives.
pub open spec fn pixel_state(red: u8, green: u8, blue: u8, brightness: int) -> PixelState {
    with_brightness(PixelState { red, green, blue, brightness: 0 }, brightness)
}

/// What a pixel holds: its colour channels and its packed brightness byte.
pub struct PixelState {
    pub red: u8,
    pub green: u8,
    pub blue: u8,
    pub brightness: u8,
}

impl PixelState {
    /// The marker bits of the brightness byte are all set.
    pub open spec fn well_formed(self) -> bool {
        self.brightness & MARKER_BITS == MARKER_BITS
    }

    /// The brightness level that the brightness byte holds.
    pub open spec fn level(self) -> u8 {
        self.brightness & LEVEL_MASK
    }
}

/// The colour channels of a pixel state.
pub open spec fn rgb_of(s: PixelState) -> (u8, u8, u8) {
    (s.red, s.green, s.blue)
}

/// A pixel state with its colour replaced.
pub open spec fn with_rgb(s: PixelState, red: u8, green: u8, blue: u8) -> PixelState {
    PixelState { red, green, blue, ..s }
}

/// A pixel state with its brightness set from a fixed-point value.
pub open spec fn with_brightness(s: PixelState, brightness: int) -> PixelState {
    PixelState { brightness: packed_brightness(level_of(brightness) as u8), ..s }
}

/// Level arithmetic: on inputs from zero to full scale the level is `31 * b`
/// over full scale, rounded down, and within five bits.
proof fn lemma_level_of(b: int)
    requires
        0 <= b <= FULL_BRIGHTNESS,
    ensures
        level_of(b) == 31 * b / (FULL_BRIGHTNESS as int),
        level_of(b) * FULL_BRIGHTNESS <= 31 * b,
        31 * b < (level_of(b) + 1) * FULL_BRIGHTNESS,
        0 <= level_of(b) <= MAX_LEVEL,
{
    let f = FULL_BRIGHTNESS as int;
    assert(0 <= 31 * b / f <= 31) by (nonlinear_arith)
        requires
            0 <= b <= f,
            f > 0,
    ;
    vstd::arithmetic::div_mod::lemma_fundamental_div_mod(31 * b, f);
}

/// Packing a level keeps the marker bits set and the level readable from
/// the low five bits.
proof fn lemma_packed(level: u8)
    requires
        level <= MAX_LEVEL,
    ensures
        packed_brightness(level) & MARKER_BITS == MARKER_BITS,
        packed_brightness(level) & LEVEL_MASK == level,
{
    assert((0b1110_0000u8 | level) & 0b1110_0000u8 == 0b1110_0000u8) by (bit_vector);
    assert((0b1110_0000u8 | level) & 0b0001_1111u8 == level) by (bit_vector)
        requires
            level <= 31u8,
    ;
}

/// Setting a brightness below zero reads back as level 0 (brightness 0);
/// setting one above full scale reads back as the top level 31 (31/31,
/// full brightness).
pub proof fn lemma_brightness_clamped(s: PixelState, b: int)
    ensures
        b <= 0 ==> with_brightness(s, b).level() == 0,
        b >= FULL_BRIGHTNESS ==> with_brightness(s, b).level() == MAX_LEVEL,
{
    lemma_packed(0);
    lemma_packed(MAX_LEVEL);
}

/// Setting a brightness from zero to full scale reads back as `31 * b` over
/// full scale, rounded down: the largest level whose share of full scale
/// does not exceed the input. The quantisation loses what lies below one
/// level.
pub proof fn lemma_brightness_floor(s: PixelState, b: int)
    requires
        0 <= b <= FULL_BRIGHTNESS,
    ensures
        with_brightness(s, b).level() == 31 * b / (FULL_BRIGHTNESS as int),
        with_brightness(s, b).level() * FULL_BRIGHTNESS <= 31 * b,
        31 * b < (with_brightness(s, b).level() + 1) * FULL_BRIGHTNESS,
{
    lemma_level_of(b);
    lemma_packed(level_of(b) as u8);
}

/// Whatever the input, setting a brightness leaves the three marker bits of
/// the stored byte set.
pub proof fn lemma_marker_bits_set(s: PixelState, b: int)
    ensures
        with_brightness(s, b).well_formed(),
        with_brightness(s, b).level() <= MAX_LEVEL,
{
    lemma_level_of(clamped(b));
    lemma_packed(level_of(b) as u8);
}

/// Setting a colour and reading it back gives the same three channels, for
/// every byte value; the brightness is untouched.
pub proof fn lemma_rgb_round_trip(s: PixelState, red: u8, green: u8, blue: u8)
    ensures
        rgb_of(with_rgb(s, red, green, blue)) == (red, green, blue),
        with_rgb(s, red, green, blue).brightness == s.brightness,
{
}

/// The five-bit level of a fixed-point brightness.
pub fn brightness_level(b: i64) -> (r: u8)
    ensures
        r == level_of(b as int),
        r <= MAX_LEVEL,
{
    let c: i64 = if b < 0 {
        0
    } else if b > FULL_BRIGHTNESS {
        FULL_BRIGHTNESS
    } else {
        b
    };
    proof {
        lemma_level_of(c as int);
    }
    (31 * c / FULL_BRIGHTNESS) as u8
}

/// One LED: three colour channels and a brightness byte whose three high
/// bits are the protocol's marker bits.
#[derive(Clone, Copy, Debug)]
pub struct Pixel {
    red: u8,
    green: u8,
    blue: u8,
    brightness: u8,
}

impl View for Pixel {
    type V = PixelState;

    closed spec fn view(&self) -> PixelState {
        PixelState { red: self.red, green: self.green, blue: self.blue, brightness: self.brightness }
    }
}

impl Default for Pixel {
    /// A black pixel at the default level.
    fn default() -> (r: Pixel)
        ensures
            r@ == (PixelState {
                red: 0,
                green: 0,
                blue: 0,
                brightness: packed_brightness(DEFAULT_LEVEL),
            }),
            r@.well_formed(),
    {
        proof {
            lemma_packed(DEFAULT_LEVEL);
        }
        Pixel { red: 0, green: 0, blue: 0, brightness: MARKER_BITS | DEFAULT_LEVEL }
    }
}

impl Pixel {
    /// The colour channels.
    pub fn rgb(&self) -> (r: (u8, u8, u8))
        ensures
            r == rgb_of(self@),
    {
        (self.red, self.green, self.blue)
    }

    /// The colour channels and the brightness level (0 to 31; the brightness
    /// as a fraction of full is this level over 31).
    pub fn rgbb(&self) -> (r: (u8, u8, u8, u8))
        ensures
            r == (self@.red, self@.green, self@.blue, self@.level()),
            r.3 <= MAX_LEVEL,
    {
        let byte = self.brightness;
        let level = byte & LEVEL_MASK;
        assert(level <= 31) by (bit_vector)
            requires
                level == byte & 0b0001_1111u8,
        ;
        (self.red, self.green, self.blue, level)
    }

    /// Sets the brightness from a fixed-point value, clamped to full scale.
    pub fn set_brightness(&mut self, brightness: i64)
        ensures
            final(self)@ == with_brightness(old(self)@, brightness as int),
    {
        let level = brightness_level(brightness);
        self.brightness = MARKER_BITS | level;
    }

    /// Sets the colour channels; the brightness is kept.
    pub fn set_rgb(&mut self, red: u8, green: u8, blue: u8)
        ensures
            final(self)@ == with_rgb(old(self)@, red, green, blue),
    {
        self.red = red;
        self.green = green;
        self.blue = blue;
    }

    /// Sets the colour channels and the brightness.
    pub fn set_rgbb(&mut self, red: u8, green: u8, blue: u8, brightness: i64)
        ensures
            final(self)@ == pixel_state(red, green, blue, brightness as int),
    {
        self.set_rgb(red, green, blue);
        self.set_brightness(brightness);
    }

    /// The stored bytes in the order red, green, blue, brightness.
    pub(crate) fn data(&self) -> (r: [u8; 4])
        ensures
            r@ == seq![self@.red, self@.green, self@.blue, self@.brightness],
    {
        [self.red, self.green, self.blue, self.brightness]
    }

    /// Sets the colour to black; the brightness is kept.
    pub fn clear(&mut self)
        ensures
            final(self)@ == with_rgb(old(self)@, 0, 0, 0),
    {
        self.set_rgb(0, 0, 0);
    }
}

} // verus!
