use vstd::prelude::*;

verus! {

/// A terrain or figure vertex as the GPU reads it: position, normal and
/// flags packed into `pos_norm`, texture-atlas position into `atlas_pos`.
#[derive(Clone, Copy, Debug, PartialEq, Eq, Structural)]
pub struct Vertex {
    pub pos_norm: u32,
    pub atlas_pos: u32,
}

/// The atlas position of a terrain vertex: x in the low 16 bits, y in the
/// high 16 bits.
pub open spec fn terrain_atlas_bits(ax: u16, ay: u16) -> u32 {
    ((ax as u32) & 0xFFFFu32) | (((ay as u32) & 0xFFFFu32) << 16u32)
}

/// The position word of a terrain vertex: x and y in 6 bits each, the
/// shifted z in 16 bits from bit 12, the water flag at bit 28 and the
/// normal in 3 bits from bit 29.
pub open spec fn terrain_pos_norm_bits(x: u32, y: u32, z: u32, meta: bool, norm_bits: u32) -> u32 {
    (x & 0x003Fu32) | ((y & 0x003Fu32) << 6u32) | ((z & 0xFFFFu32) << 12u32) | ((if meta {
        1u32
    } else {
        0u32
    }) << 28u32) | ((norm_bits & 0x7u32) << 29u32)
}

/// The position word of a figure vertex: x, y, z in 9 bits each, the bone
/// index in 4 bits from bit 27, the normal sign at bit 31.
pub open spec fn figure_pos_norm_bits(x: u32, y: u32, z: u32, bone_idx: u8, norm_bits: u32) -> u32 {
    (x & 0x1FFu32) | ((y & 0x1FFu32) << 9u32) | ((z & 0x1FFu32) << 18u32) | ((((bone_idx & 0xFu8) as u32))
        << 27u32) | (norm_bits << 31u32)
}

/// The atlas word of a figure vertex: the axis in the low 2 bits, x and y
/// in 15 bits each from bits 2 and 17.
pub open spec fn figure_atlas_bits(ax: u16, ay: u16, axis_bits: u32) -> u32 {
    (((ax as u32) & 0x7FFFu32) << 2u32) | (((ay as u32) & 0x7FFFu32) << 17u32) | (axis_bits & 3u32)
}

/// The colour-and-light texel: light and glow (each capped at 31) in the
/// high 5 bits of the first two bytes, with 3 bits of red and blue below;
/// the high nibbles of red and blue in the third byte; green unchanged.
pub open spec fn col_light_bytes(light: u8, glow: u8, r: u8, g: u8, b: u8) -> Seq<u8> {
    let l = if light < 31 { light } else { 31u8 };
    let w = if glow < 31 { glow } else { 31u8 };
    seq![
        ((l << 3u8) | ((r >> 1u8) & 0x7u8)) as u8,
        ((w << 3u8) | ((b >> 1u8) & 0x7u8)) as u8,
        ((r & 0xF0u8) | (b >> 4u8)) as u8,
        g,
    ]
}

impl Vertex {
    /// A terrain vertex from its already quantised parts: atlas position,
    /// the x and y offsets within the chunk, the z position shifted by
    /// 32768 and clamped to `0..=65536`, whether the vertex touches water,
    /// and the normal's direction code (0 to 5).
    pub fn new_terrain(ax: u16, ay: u16, x: u32, y: u32, z: u32, meta: bool, norm_bits: u32) -> (v: Vertex)
        ensures
            v.pos_norm == terrain_pos_norm_bits(x, y, z, meta, norm_bits),
            v.atlas_pos == terrain_atlas_bits(ax, ay),
    {
        let meta_bit: u32 = if meta { 1 } else { 0 };
        Vertex {
            pos_norm: (x & 0x003F) | ((y & 0x003F) << 6) | ((z & 0xFFFF) << 12) | (meta_bit << 28) | ((
            norm_bits & 0x7) << 29),
            atlas_pos: ((ax as u32) & 0xFFFF) | (((ay as u32) & 0xFFFF) << 16),
        }
    }

    /// A figure vertex from its already quantised parts: atlas position,
    /// the x, y, z coordinates as 9-bit values, the bone index, the normal
    /// sign (0 or 1) and its axis (0 to 2).
    pub fn new_figure(ax: u16, ay: u16, x: u32, y: u32, z: u32, bone_idx: u8, norm_bits: u32, axis_bits: u32) -> (v: Vertex)
        ensures
            v.pos_norm == figure_pos_norm_bits(x, y, z, bone_idx, norm_bits),
            v.atlas_pos == figure_atlas_bits(ax, ay, axis_bits),
    {
        Vertex {
            pos_norm: (x & 0x1FF) | ((y & 0x1FF) << 9) | ((z & 0x1FF) << 18) | (((bone_idx & 0xF) as u32) << 27)
                | (norm_bits << 31),
            atlas_pos: (((ax as u32) & 0x7FFF) << 2) | (((ay as u32) & 0x7FFF) << 17) | (axis_bits & 3),
        }
    }

    /// Packs light, glow and colour into one texel.
    pub fn make_col_light(light: u8, glow: u8, r: u8, g: u8, b: u8) -> (out: [u8; 4])
        ensures
            out@ == col_light_bytes(light, glow, r, g, b),
    {
        let l = if light < 31 { light } else { 31u8 };
        let w = if glow < 31 { glow } else { 31u8 };
        let out = [(l << 3) | ((r >> 1) & 0b111), (w << 3) | ((b >> 1) & 0b111), (r & 0b11110000) | (b >> 4), g];
        assert(out@ =~= col_light_bytes(light, glow, r, g, b));
        out
    }

    /// Replaces the bone index of a figure vertex.
    pub fn set_bone_idx(&mut self, bone_idx: u8)
        ensures
            final(self).pos_norm == (old(self).pos_norm & !(0xFu32 << 27u32)) | (((bone_idx as u32) & 0xFu32) << 27u32),
            final(self).atlas_pos == old(self).atlas_pos,
    {
        self.pos_norm = (self.pos_norm & !(0xFu32 << 27)) | (((bone_idx as u32) & 0xF) << 27);
    }
}

/// Setting the bone index stores it (modulo 16) in bits 27 to 30 and leaves
/// every other bit of the position word alone.
pub proof fn lemma_set_bone_idx(word: u32, bone_idx: u8)
    ensures
        ({
            let w2 = (word & !(0xFu32 << 27u32)) | (((bone_idx as u32) & 0xFu32) << 27u32);
            &&& (w2 >> 27u32) & 0xFu32 == (bone_idx as u32) & 0xFu32
            &&& w2 & !(0xFu32 << 27u32) == word & !(0xFu32 << 27u32)
        }),
{
    let b = bone_idx as u32;
    assert(((((word & !(0xFu32 << 27u32)) | ((b & 0xFu32) << 27u32)) >> 27u32) & 0xFu32 == b & 0xFu32)
        && ((word & !(0xFu32 << 27u32)) | ((b & 0xFu32) << 27u32)) & !(0xFu32 << 27u32) == word & !(0xFu32
        << 27u32)) by (bit_vector);
}

/// Each part of a terrain position word can be read back from it.
pub proof fn lemma_terrain_pos_norm_fields(x: u32, y: u32, z: u32, meta: bool, norm_bits: u32)
    ensures
        ({
            let w = terrain_pos_norm_bits(x, y, z, meta, norm_bits);
            &&& w & 0x3Fu32 == x & 0x3Fu32
            &&& (w >> 6u32) & 0x3Fu32 == y & 0x3Fu32
            &&& (w >> 12u32) & 0xFFFFu32 == z & 0xFFFFu32
            &&& ((w >> 28u32) & 1u32 == 1u32) == meta
            &&& (w >> 29u32) & 0x7u32 == norm_bits & 0x7u32
        }),
{
    let m: u32 = if meta { 1u32 } else { 0u32 };
    assert({
        let w = (x & 0x003Fu32) | ((y & 0x003Fu32) << 6u32) | ((z & 0xFFFFu32) << 12u32) | (m << 28u32) | ((
        norm_bits & 0x7u32) << 29u32);
        &&& w & 0x3Fu32 == x & 0x3Fu32
        &&& (w >> 6u32) & 0x3Fu32 == y & 0x3Fu32
        &&& (w >> 12u32) & 0xFFFFu32 == z & 0xFFFFu32
        &&& (w >> 28u32) & 1u32 == m
        &&& (w >> 29u32) & 0x7u32 == norm_bits & 0x7u32
    }) by (bit_vector)
        requires
            m == 0u32 || m == 1u32,
    ;
}

/// Both atlas coordinates of a terrain vertex can be read back.
pub proof fn lemma_terrain_atlas_fields(ax: u16, ay: u16)
    ensures
        terrain_atlas_bits(ax, ay) & 0xFFFFu32 == ax as u32,
        terrain_atlas_bits(ax, ay) >> 16u32 == ay as u32,
{
    let x = ax as u32;
    let y = ay as u32;
    assert(((x & 0xFFFFu32) | ((y & 0xFFFFu32) << 16u32)) & 0xFFFFu32 == x && ((x & 0xFFFFu32) | ((y & 0xFFFFu32)
        << 16u32)) >> 16u32 == y) by (bit_vector)
        requires
            x <= 0xFFFFu32,
            y <= 0xFFFFu32,
    ;
}

/// The colour-and-light texel keeps the capped light and glow, green, and
/// the high nibbles of red and blue.
pub proof fn lemma_col_light_fields(light: u8, glow: u8, r: u8, g: u8, b: u8)
    ensures
        ({
            let out = col_light_bytes(light, glow, r, g, b);
            &&& out[0] >> 3u8 == (if light < 31 { light } else { 31u8 })
            &&& out[1] >> 3u8 == (if glow < 31 { glow } else { 31u8 })
            &&& out[2] & 0xF0u8 == r & 0xF0u8
            &&& out[2] & 0x0Fu8 == b >> 4u8
            &&& out[3] == g
        }),
{
    let l = if light < 31 { light } else { 31u8 };
    let w = if glow < 31 { glow } else { 31u8 };
    assert(((l << 3u8) | ((r >> 1u8) & 0x7u8)) >> 3u8 == l && ((w << 3u8) | ((b >> 1u8) & 0x7u8)) >> 3u8 == w
        && ((r & 0xF0u8) | (b >> 4u8)) & 0xF0u8 == r & 0xF0u8 && ((r & 0xF0u8) | (b >> 4u8)) & 0x0Fu8 == b >> 4u8)
        by (bit_vector)
        requires
            l <= 31u8,
            w <= 31u8,
    ;
}

} // verus!
