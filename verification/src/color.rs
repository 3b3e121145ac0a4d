//! RGB565 colours and the cyclic animation palette.

use vstd::prelude::*;

verus! {

/// Raw values of the named colours.
pub const BLACK: u16 = 0x0000;

pub const WHITE: u16 = 0xFFFF;

pub const RED: u16 = 0xF800;

pub const GREEN: u16 = 0x07E0;

pub const BLUE: u16 = 0x001F;

pub const MAGENTA: u16 = 0xF81F;

pub const CYAN: u16 = 0x07FF;

/// Number of entries in the palette.
pub const PALETTE_LEN: usize = 12;

/// Palette index of the background colour, which no moving object may take.
pub const SENTINEL_INDEX: usize = 3;

/// The palette that the animations cycle through, as raw RGB565 words.
pub const CIRCLE_COLORS: [u16; 12] = [
    0xF800,
    0x07E0,
    0x001F,
    0x0000,
    0xF81F,
    0x07FF,
    0xFBE0,
    0xF9E0,
    0x7BE0,
    0x03EF,
    0x781F,
    0xF80F,
];

/// Packs three channels into one word: five bits of red on top, six of
/// green in the middle, five of blue at the bottom. Bits of a channel that
/// do not fit are dropped.
pub open spec fn pack565(r: u8, g: u8, b: u8) -> u16 {
    (((r & 0x1f) as u16) << 11u16) | (((g & 0x3f) as u16) << 5u16) | ((b & 0x1f) as u16)
}

/// A 16-bit colour with 5-6-5 channel packing.
#[derive(Clone, Copy, Debug, PartialEq, Eq, Structural)]
pub struct Rgb565 {
    pub raw: u16,
}

impl Rgb565 {
    pub open spec fn red_channel(self) -> u8 {
        ((self.raw >> 11u16) & 0x1f) as u8
    }

    pub open spec fn green_channel(self) -> u8 {
        ((self.raw >> 5u16) & 0x3f) as u8
    }

    pub open spec fn blue_channel(self) -> u8 {
        (self.raw & 0x1f) as u8
    }

    /// The colour with the given channels; bits above a channel's width are dropped.
    pub fn new(r: u8, g: u8, b: u8) -> (c: Self)
        ensures
            c.raw == pack565(r, g, b),
            c.red_channel() == r & 0x1f,
            c.green_channel() == g & 0x3f,
            c.blue_channel() == b & 0x1f,
    {
        let raw: u16 = (((r & 0x1f) as u16) << 11) | (((g & 0x3f) as u16) << 5) | ((b & 0x1f) as u16);
        proof {
            lemma_pack565_channels(r, g, b);
        }
        Rgb565 { raw }
    }

    pub fn from_raw(raw: u16) -> (c: Self)
        ensures
            c.raw == raw,
    {
        Rgb565 { raw }
    }

    pub fn into_raw(self) -> (raw: u16)
        ensures
            raw == self.raw,
    {
        self.raw
    }

    pub fn r(self) -> (v: u8)
        ensures
            v == self.red_channel(),
            v < 32,
    {
        let raw: u16 = self.raw;
        assert(((raw >> 11u16) & 0x1f) < 32) by (bit_vector);
        ((raw >> 11) & 0x1f) as u8
    }

    pub fn g(self) -> (v: u8)
        ensures
            v == self.green_channel(),
            v < 64,
    {
        let raw: u16 = self.raw;
        assert(((raw >> 5u16) & 0x3f) < 64) by (bit_vector);
        ((raw >> 5) & 0x3f) as u8
    }

    pub fn b(self) -> (v: u8)
        ensures
            v == self.blue_channel(),
            v < 32,
    {
        let raw: u16 = self.raw;
        assert((raw & 0x1f) < 32) by (bit_vector);
        (raw & 0x1f) as u8
    }

    /// Whether this is the background colour, on which nothing drawn in it shows.
    pub fn is_sentinel(self) -> (b: bool)
        ensures
            b == (self.raw == BLACK),
    {
        self.raw == BLACK
    }
}

/// Packing keeps the low bits of each channel and nothing else.
pub proof fn lemma_pack565_channels(r: u8, g: u8, b: u8)
    ensures
        ((pack565(r, g, b) >> 11u16) & 0x1f) as u8 == r & 0x1f,
        ((pack565(r, g, b) >> 5u16) & 0x3f) as u8 == g & 0x3f,
        (pack565(r, g, b) & 0x1f) as u8 == b & 0x1f,
{
    let p = pack565(r, g, b);
    assert(((p >> 11u16) & 0x1f) as u8 == r & 0x1f) by (bit_vector)
        requires
            p == pack565(r, g, b),
    ;
    assert(((p >> 5u16) & 0x3f) as u8 == g & 0x3f) by (bit_vector)
        requires
            p == pack565(r, g, b),
    ;
    assert((p & 0x1f) as u8 == b & 0x1f) by (bit_vector)
        requires
            p == pack565(r, g, b),
    ;
}

/// The palette entry at `index`.
pub open spec fn palette(index: int) -> Rgb565 {
    Rgb565 { raw: CIRCLE_COLORS[index] }
}

/// The palette index that follows `index` when an object changes colour:
/// one further round the palette, and one more where that lands on the
/// background colour.
pub open spec fn next_color_index(index: int) -> int {
    let step = (index + 1) % (PALETTE_LEN as int);
    if step == SENTINEL_INDEX as int {
        (step + 1) % (PALETTE_LEN as int)
    } else {
        step
    }
}

pub fn palette_color(index: usize) -> (c: Rgb565)
    requires
        index < PALETTE_LEN,
    ensures
        c == palette(index as int),
        (c.raw == BLACK) == (index == SENTINEL_INDEX),
{
    Rgb565 { raw: CIRCLE_COLORS[index] }
}

pub fn next_color(index: usize) -> (next: usize)
    requires
        index < PALETTE_LEN,
    ensures
        next == next_color_index(index as int),
        next < PALETTE_LEN,
        palette(next as int).raw != BLACK,
{
    let mut next: usize = (index + 1) % PALETTE_LEN;
    if CIRCLE_COLORS[next] == BLACK {
        next = (next + 1) % PALETTE_LEN;
    }
    next
}

/// The background colour sits at one palette index only, so one extra step
/// always leaves it.
pub proof fn lemma_sentinel_is_unique(index: int)
    requires
        0 <= index < PALETTE_LEN,
    ensures
        (palette(index).raw == BLACK) == (index == SENTINEL_INDEX),
        palette(next_color_index(index)).raw != BLACK,
        0 <= next_color_index(index) < PALETTE_LEN,
{
}

} // verus!
