//! Colors of Box2D's debug drawing.

use vstd::prelude::*;

verus! {

/// The largest packed `0xRRGGBB` value.
pub const MAX_RGB_U32: u32 = 0x00ff_ffff;

/// Packed Box2D debug-draw RGB color (`0xRRGGBB`).
#[derive(Clone, Copy, Debug, PartialEq, Eq, Structural, Hash)]
pub struct HexColor(u32);

impl HexColor {
    /// A packed color never has bits above the blue, green and red bytes.
    #[verifier::type_invariant]
    spec fn rgb_only(self) -> bool {
        self.0 <= MAX_RGB_U32
    }

    /// The packed value.
    pub closed spec fn rgb_spec(self) -> u32 {
        self.0
    }

    /// Black, `0x000000`.
    pub fn black() -> (c: Self)
        ensures
            c.rgb_spec() == 0x000000,
    {
        HexColor(0x000000)
    }

    /// White, `0xFFFFFF`.
    pub fn white() -> (c: Self)
        ensures
            c.rgb_spec() == 0xFFFFFF,
    {
        HexColor(0xFFFFFF)
    }

    /// Pure red, `0xFF0000`.
    pub fn red() -> (c: Self)
        ensures
            c.rgb_spec() == 0xFF0000,
    {
        HexColor(0xFF0000)
    }

    /// Pure green, `0x00FF00`.
    pub fn green() -> (c: Self)
        ensures
            c.rgb_spec() == 0x00FF00,
    {
        HexColor(0x00FF00)
    }

    /// Pure blue, `0x0000FF`.
    pub fn blue() -> (c: Self)
        ensures
            c.rgb_spec() == 0x0000FF,
    {
        HexColor(0x0000FF)
    }

    /// Box2D's red, `0xDC3132`.
    pub fn box2d_red() -> (c: Self)
        ensures
            c.rgb_spec() == 0xDC3132,
    {
        HexColor(0xDC3132)
    }

    /// Box2D's blue, `0x30AEBF`.
    pub fn box2d_blue() -> (c: Self)
        ensures
            c.rgb_spec() == 0x30AEBF,
    {
        HexColor(0x30AEBF)
    }

    /// Box2D's green, `0x8CC924`.
    pub fn box2d_green() -> (c: Self)
        ensures
            c.rgb_spec() == 0x8CC924,
    {
        HexColor(0x8CC924)
    }

    /// Box2D's yellow, `0xFFEE8C`.
    pub fn box2d_yellow() -> (c: Self)
        ensures
            c.rgb_spec() == 0xFFEE8C,
    {
        HexColor(0xFFEE8C)
    }

    /// The color with the given red, green and blue bytes.
    pub fn from_rgb(red: u8, green: u8, blue: u8) -> (c: Self)
        ensures
            c.rgb_spec() == red as int * 0x10000 + green as int * 0x100 + blue as int,
    {
        let r = red as u32;
        let g = green as u32;
        let b = blue as u32;
        let packed = (r << 16u32) | (g << 8u32) | b;
        assert(packed == r * 0x10000 + g * 0x100 + b && packed <= 0xffffff) by (bit_vector)
            requires
                r < 256 && g < 256 && b < 256,
                packed == (r << 16u32) | (g << 8u32) | b,
        ;
        HexColor(packed)
    }

    /// The color of a packed value, keeping its low 24 bits.
    pub fn from_rgb_u32(rgb: u32) -> (c: Self)
        ensures
            c.rgb_spec() == rgb % 0x100_0000,
    {
        let packed = rgb & MAX_RGB_U32;
        assert(packed == rgb % 0x100_0000 && packed <= 0xffffff) by (bit_vector)
            requires
                packed == rgb & 0x00ff_ffffu32,
        ;
        HexColor(packed)
    }

    /// The color of a native color value, keeping its low 24 bits.
    pub fn from_raw(raw: u32) -> (c: Self)
        ensures
            c.rgb_spec() == raw % 0x100_0000,
    {
        Self::from_rgb_u32(raw)
    }

    /// The packed `0xRRGGBB` value.
    pub fn rgb_u32(self) -> (rgb: u32)
        ensures
            rgb == self.rgb_spec(),
            rgb <= MAX_RGB_U32,
    {
        proof { use_type_invariant(self); }
        self.0
    }

    /// The native color value.
    pub fn into_raw(self) -> (raw: u32)
        ensures
            raw == self.rgb_spec(),
    {
        self.0
    }

    /// The packed `0xAARRGGBB` value with the given alpha byte.
    pub fn with_alpha(self, alpha: u8) -> (argb: u32)
        ensures
            argb == alpha as int * 0x100_0000 + self.rgb_spec(),
    {
        proof { use_type_invariant(self); }
        let a = alpha as u32;
        let rgb = self.0;
        let packed = (a << 24u32) | rgb;
        assert(packed == a * 0x100_0000 + rgb) by (bit_vector)
            requires
                a < 256,
                rgb <= 0x00ff_ffff,
                packed == (a << 24u32) | rgb,
        ;
        packed
    }
}

impl HexColor {
    /// A color is determined by its packed value, so rebuilding a color from the packed value it
    /// reports gives back the same color.
    pub proof fn lemma_rebuilt_from_packed(c: HexColor, rebuilt: HexColor)
        requires
            c.rgb_spec() <= MAX_RGB_U32,
            rebuilt.rgb_spec() == c.rgb_spec() % 0x100_0000,
        ensures
            rebuilt == c,
    {
    }
}

impl Default for HexColor {
    fn default() -> (c: Self)
        ensures
            c.rgb_spec() == 0,
    {
        HexColor(0)
    }
}

/// The number of vertices a native debug-draw callback hands over, when its pointer and count
/// describe a readable buffer: a count that is not negative and at most `max_vertices`; for a
/// non-empty buffer, a non-null address aligned to `align` whose `count * size` bytes neither
/// exceed `isize::MAX` nor wrap the address space.
pub open spec fn vertex_buffer_len(addr: usize, count: i32, size: usize, align: usize, max_vertices: usize) -> Option<usize> {
    if count < 0 {
        None
    } else if count == 0 {
        Some(0)
    } else if addr == 0 || addr % align != 0 || count > max_vertices || count > (isize::MAX as int) / (size as int)
        || addr + count * size > usize::MAX {
        None
    } else {
        Some(count as usize)
    }
}

/// Checks the vertex buffer of a native debug-draw callback before any vertex is read; `size` and
/// `align` are those of the native vertex type and `max_vertices` the native polygon limit.
pub fn checked_vertex_buffer(addr: usize, count: i32, size: usize, align: usize, max_vertices: usize) -> (r: Option<usize>)
    requires
        size > 0,
        align > 0,
    ensures
        r == vertex_buffer_len(addr, count, size, align, max_vertices),
{
    if count < 0 {
        return None;
    }
    let len = count as usize;
    if len == 0 {
        return Some(0);
    }
    if addr == 0 || addr % align != 0 || len > max_vertices || len > (isize::MAX as usize) / size {
        return None;
    }
    assert(len * size <= isize::MAX) by (nonlinear_arith)
        requires
            len <= (isize::MAX as int) / (size as int),
            size > 0,
    ;
    match addr.checked_add(len * size) {
        Some(_) => Some(len),
        None => None,
    }
}

/// Whether the context pointer a native debug-draw callback hands back can be the one installed:
/// not null and aligned to `align`.
pub fn checked_native_context(addr: usize, align: usize) -> (ok: bool)
    requires
        align > 0,
    ensures
        ok == (addr != 0 && addr % align == 0),
{
    addr != 0 && addr % align == 0
}

} // verus!
