//! Core of a small particle simulation drawn on a square canvas.
//!
//! Simulation space is a centered, y-up coordinate system; the canvas is a
//! top-left-origin, y-down integer pixel grid of `WIDTH x HEIGHT` cells.
//! Positions and velocities are carried in fixed-point sub-units: `SCALE`
//! sub-units make one simulation unit, so one pixel spans `SCALE` sub-units.
//! All state is plain integers, which lets every step of the simulation be
//! specified and proved exactly.
use vstd::prelude::*;

pub mod rng;
pub mod scene;

verus! {

/// Canvas width in pixels.
pub const WIDTH: usize = 600;

/// Canvas height in pixels.
pub const HEIGHT: usize = 600;

/// Fixed-point scale: sub-units per simulation unit (and per pixel).
pub const SCALE: i64 = 10;

/// Half the canvas width in pixels; the simulation origin sits at the canvas center.
pub const HALF_WIDTH: i64 = 300;

/// Half the canvas height in pixels.
pub const HALF_HEIGHT: i64 = 300;

/// Half the canvas width in sub-units (`HALF_WIDTH * SCALE`).
pub const HALF_WIDTH_SUB: i64 = 3000;

/// Half the canvas height in sub-units (`HALF_HEIGHT * SCALE`).
pub const HALF_HEIGHT_SUB: i64 = 3000;

/// The value `v` brought back into the representable range of `i64`.
pub open spec fn clamped(v: int) -> i64 {
    if v > i64::MAX as int {
        i64::MAX
    } else if v < i64::MIN as int {
        i64::MIN
    } else {
        v as i64
    }
}

/// Addition on coordinates; sums beyond the range of `i64` stop at its ends.
pub fn saturating_add(a: i64, b: i64) -> (r: i64)
    ensures
        r == clamped(a as int + b as int),
{
    if b >= 0 {
        if a <= i64::MAX - b {
            a + b
        } else {
            i64::MAX
        }
    } else {
        if a >= i64::MIN - b {
            a + b
        } else {
            i64::MIN
        }
    }
}

/// Subtraction on coordinates; differences beyond the range of `i64` stop at its ends.
pub fn saturating_sub(a: i64, b: i64) -> (r: i64)
    ensures
        r == clamped(a as int - b as int),
{
    if b >= 0 {
        if a >= i64::MIN + b {
            a - b
        } else {
            i64::MIN
        }
    } else {
        if a <= i64::MAX + b {
            a - b
        } else {
            i64::MAX
        }
    }
}

/// Multiplication on coordinates; products beyond the range of `i64` stop at
/// its ends.
pub fn saturating_mul(a: i64, b: i64) -> (r: i64)
    ensures
        r == clamped(a as int * b as int),
{
    proof {
        assert((i64::MIN as int) * (i64::MIN as int) <= 0x4000_0000_0000_0000_0000_0000_0000_0000)
            by (nonlinear_arith);
        assert(-0x4000_0000_0000_0000_0000_0000_0000_0000 <= (a as int) * (b as int)
            <= 0x4000_0000_0000_0000_0000_0000_0000_0000) by (nonlinear_arith)
            requires
                i64::MIN <= a <= i64::MAX,
                i64::MIN <= b <= i64::MAX;
    }
    let wide: i128 = (a as i128) * (b as i128);
    if wide > i64::MAX as i128 {
        i64::MAX
    } else if wide < i64::MIN as i128 {
        i64::MIN
    } else {
        wide as i64
    }
}

/// A color with four 8-bit channels, the form in which the frame buffer
/// stores it. One channel step corresponds to 1/255 of full intensity.
#[derive(Clone, Copy, Debug, PartialEq, Eq, Structural)]
pub struct Color {
    pub r: u8,
    pub g: u8,
    pub b: u8,
    pub a: u8,
}

impl Color {
    /// The packed 32-bit form: one byte per channel, r in the least
    /// significant byte, then g, b, a.
    pub open spec fn packed(self) -> u32 {
        (self.r as u32) | ((self.g as u32) << 8) | ((self.b as u32) << 16) | (
        (self.a as u32) << 24)
    }

    pub fn new(r: u8, g: u8, b: u8, a: u8) -> (c: Color)
        ensures
            c == (Color { r, g, b, a }),
    {
        Color { r, g, b, a }
    }

    /// Packs the four channels into one 32-bit value, r in the least
    /// significant byte, then g, b, a.
    pub fn to_u32(&self) -> (packed: u32)
        ensures
            packed == self.packed(),
            packed == self.r + self.g * 0x100 + self.b * 0x10000 + self.a * 0x1000000,
    {
        proof {
            lemma_packed_is_weighted_sum(*self);
        }
        (self.r as u32) | ((self.g as u32) << 8) | ((self.b as u32) << 16) | (
        (self.a as u32) << 24)
    }
}

/// The packed form of a color is the weighted sum of its channels: the four
/// shifted bytes occupy disjoint bit ranges, so the bitwise or adds them.
pub proof fn lemma_packed_is_weighted_sum(c: Color)
    ensures
        c.packed() == c.r + c.g * 0x100 + c.b * 0x10000 + c.a * 0x1000000,
{
    let (r, g, b, a) = (c.r, c.g, c.b, c.a);
    assert((r as u32) | ((g as u32) << 8) | ((b as u32) << 16) | ((a as u32) << 24) == (r as u32) + (
    g as u32) * 0x100 + (b as u32) * 0x10000 + (a as u32) * 0x1000000) by (bit_vector);
}

/// A point in simulation space, in fixed-point sub-units (`SCALE` sub-units
/// per simulation unit). The origin is the canvas center; y grows upward.
#[derive(Clone, Copy, Debug, PartialEq, Eq, Structural)]
pub struct Vec2 {
    pub x: i64,
    pub y: i64,
}

impl Vec2 {
    /// Componentwise sum, each component saturating at the ends of `i64`.
    pub open spec fn spec_add(self, other: Vec2) -> Vec2 {
        Vec2 { x: clamped(self.x + other.x), y: clamped(self.y + other.y) }
    }

    /// Componentwise difference, each component saturating at the ends of `i64`.
    pub open spec fn spec_sub(self, other: Vec2) -> Vec2 {
        Vec2 { x: clamped(self.x - other.x), y: clamped(self.y - other.y) }
    }

    /// The pixel this point falls on: translate the origin to the canvas
    /// center, flip the vertical axis, and truncate to whole pixels; `None`
    /// when the point falls off the canvas in either axis.
    pub open spec fn spec_to_px(self) -> Option<Pixel> {
        let sx = self.x as int + HALF_WIDTH_SUB as int;
        let sy = HALF_HEIGHT_SUB as int - self.y as int;
        if 0 <= sx < WIDTH as int * SCALE as int && 0 <= sy < HEIGHT as int * SCALE as int {
            Some(Pixel { x: (sx / SCALE as int) as u32, y: (sy / SCALE as int) as u32 })
        } else {
            None
        }
    }

    pub fn new(x: i64, y: i64) -> (v: Vec2)
        ensures
            v == (Vec2 { x, y }),
    {
        Vec2 { x, y }
    }

    /// Componentwise sum; saturates instead of overflowing.
    pub fn add(self, other: Vec2) -> (v: Vec2)
        ensures
            v == self.spec_add(other),
    {
        Vec2 { x: saturating_add(self.x, other.x), y: saturating_add(self.y, other.y) }
    }

    /// Componentwise difference; saturates instead of overflowing.
    pub fn sub(self, other: Vec2) -> (v: Vec2)
        ensures
            v == self.spec_sub(other),
    {
        Vec2 { x: saturating_sub(self.x, other.x), y: saturating_sub(self.y, other.y) }
    }

    /// Raw componentwise product; saturates instead of overflowing. The
    /// factors multiply as bare sub-unit values, so the result's scale is the
    /// product of the operands' scales.
    pub fn mul(self, other: Vec2) -> (v: Vec2)
        ensures
            v == (Vec2 { x: clamped(self.x * other.x), y: clamped(self.y * other.y) }),
    {
        Vec2 { x: saturating_mul(self.x, other.x), y: saturating_mul(self.y, other.y) }
    }

    /// The point stretched by a dimensionless integer factor; saturates
    /// instead of overflowing.
    pub fn scale(self, factor: i64) -> (v: Vec2)
        ensures
            v == (Vec2 { x: clamped(self.x * factor), y: clamped(self.y * factor) }),
    {
        Vec2 { x: saturating_mul(self.x, factor), y: saturating_mul(self.y, factor) }
    }

    /// Maps this point onto the pixel grid, clipping points off the canvas.
    pub fn to_px(&self) -> (r: Option<Pixel>)
        ensures
            r == self.spec_to_px(),
            r matches Some(px) ==> px.x < WIDTH as u32 && px.y < HEIGHT as u32,
    {
        if self.x >= -HALF_WIDTH_SUB && self.x < HALF_WIDTH_SUB && self.y > -HALF_HEIGHT_SUB
            && self.y <= HALF_HEIGHT_SUB {
            let sx: u32 = (self.x + HALF_WIDTH_SUB) as u32;
            let sy: u32 = (HALF_HEIGHT_SUB - self.y) as u32;
            Some(Pixel::new(sx / (SCALE as u32), sy / (SCALE as u32)))
        } else {
            None
        }
    }
}

/// A cell of the canvas: integer coordinates with the origin at the top-left
/// corner, y growing downward.
#[derive(Clone, Copy, Debug, PartialEq, Eq, Structural)]
pub struct Pixel {
    pub x: u32,
    pub y: u32,
}

impl Pixel {
    /// The linear index of this pixel in a row-major frame buffer.
    pub open spec fn spec_index(self) -> int {
        self.y as int * WIDTH as int + self.x as int
    }

    /// The simulation-space point at this pixel's top-left corner, in
    /// sub-units: the exact inverse of the center-and-flip mapping.
    pub open spec fn spec_to_pos(self) -> Vec2 {
        Vec2 {
            x: ((self.x as int - HALF_WIDTH as int) * SCALE as int) as i64,
            y: ((HALF_HEIGHT as int - self.y as int) * SCALE as int) as i64,
        }
    }

    pub fn new(x: u32, y: u32) -> (p: Pixel)
        ensures
            p == (Pixel { x, y }),
    {
        Pixel { x, y }
    }

    /// The linear index of this pixel in a row-major frame buffer.
    pub fn to_index(&self) -> (i: usize)
        requires
            self.x < WIDTH as u32,
            self.y < HEIGHT as u32,
        ensures
            i == self.spec_index(),
            i < WIDTH * HEIGHT,
    {
        self.y as usize * WIDTH + self.x as usize
    }

    /// Converts raw pixel coordinates (for example a mouse sample) back into
    /// simulation space.
    pub fn to_pos(&self) -> (v: Vec2)
        ensures
            v == self.spec_to_pos(),
    {
        let x: i64 = (self.x as i64 - HALF_WIDTH) * SCALE;
        let y: i64 = (HALF_HEIGHT - self.y as i64) * SCALE;
        Vec2 { x, y }
    }
}

/// Round-trip law: for any pixel inside the canvas, mapping it into
/// simulation space and back yields the same pixel.
pub proof fn lemma_pixel_roundtrip(px: Pixel)
    requires
        px.x < WIDTH as u32,
        px.y < HEIGHT as u32,
    ensures
        px.spec_to_pos().spec_to_px() == Some(px),
{
    let pos = px.spec_to_pos();
    let sx = pos.x as int + HALF_WIDTH_SUB as int;
    let sy = HALF_HEIGHT_SUB as int - pos.y as int;
    assert(sx == SCALE * px.x as int);
    assert(sy == SCALE * px.y as int);
    vstd::arithmetic::div_mod::lemma_div_multiples_vanish(px.x as int, SCALE as int);
    vstd::arithmetic::div_mod::lemma_div_multiples_vanish(px.y as int, SCALE as int);
}

/// State of one mouse button.
#[derive(Clone, Copy, Debug, PartialEq, Eq, Structural)]
pub enum ButtonState {
    Released,
    Pressed,
}

impl From<u8> for ButtonState {
    /// Decodes a raw button code: 1 means pressed, any other code released.
    fn from(s: u8) -> (r: Self) {
        match s {
            1 => ButtonState::Pressed,
            _ => ButtonState::Released,
        }
    }
}

impl vstd::std_specs::convert::FromSpecImpl<u8> for ButtonState {
    open spec fn obeys_from_spec() -> bool {
        true
    }

    open spec fn from_spec(s: u8) -> ButtonState {
        if s == 1 {
            ButtonState::Pressed
        } else {
            ButtonState::Released
        }
    }
}

impl Default for ButtonState {
    fn default() -> (r: Self)
        ensures
            r == ButtonState::Released,
    {
        ButtonState::Released
    }
}

/// One mouse sample: position already converted into simulation space,
/// plus the state of both buttons.
#[derive(Clone, Copy, Debug, PartialEq, Eq, Structural)]
pub struct MouseState {
    pub position: Vec2,
    pub left_button: ButtonState,
    pub right_button: ButtonState,
}

impl Default for MouseState {
    fn default() -> (r: Self)
        ensures
            r == (MouseState {
                position: Vec2 { x: 0, y: 0 },
                left_button: ButtonState::Released,
                right_button: ButtonState::Released,
            }),
    {
        MouseState {
            position: Vec2 { x: 0, y: 0 },
            left_button: ButtonState::Released,
            right_button: ButtonState::Released,
        }
    }
}

/// The host's per-frame input sample. The integrator takes a single fixed
/// step per frame whenever the host reports that time advanced (`dt_positive`);
/// the step is never scaled by the elapsed time, so only that gate is kept.
#[derive(Clone, Copy, Debug, PartialEq, Eq, Structural)]
pub struct InputState {
    pub frame: u32,
    pub dt_positive: bool,
    pub mouse: MouseState,
}

impl Default for InputState {
    fn default() -> (r: Self)
        ensures
            r == (InputState {
                frame: 0,
                dt_positive: false,
                mouse: MouseState {
                    position: Vec2 { x: 0, y: 0 },
                    left_button: ButtonState::Released,
                    right_button: ButtonState::Released,
                },
            }),
    {
        InputState { frame: 0, dt_positive: false, mouse: MouseState::default() }
    }
}

/// Copies a diagnostic message into a fixed-size byte buffer, truncating it
/// to the buffer's length and leaving any bytes past the message unchanged.
pub fn record_message(buffer: &mut Vec<u8>, message: &[u8])
    ensures
        final(buffer)@.len() == old(buffer)@.len(),
        forall|i: int|
            0 <= i < old(buffer)@.len() && i < message@.len() ==> final(buffer)@[i] == message@[i],
        forall|i: int|
            message@.len() <= i < old(buffer)@.len() ==> final(buffer)@[i] == old(buffer)@[i],
{
    let n: usize = if message.len() < buffer.len() {
        message.len()
    } else {
        buffer.len()
    };
    for i in 0..n
        invariant
            n <= message@.len(),
            n <= buffer@.len(),
            buffer@.len() == old(buffer)@.len(),
            forall|j: int| 0 <= j < i ==> buffer@[j] == message@[j],
            forall|j: int| i <= j < buffer@.len() ==> buffer@[j] == old(buffer)@[j],
    {
        let byte: u8 = message[i];
        buffer[i] = byte;
    }
}

} // verus!

