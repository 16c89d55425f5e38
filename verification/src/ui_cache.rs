use vstd::prelude::*;

verus! {

/// The glyph cache spans this many window sizes.
pub const GLYPH_CACHE_SIZE: u16 = 1;

/// One side of the glyph cache for a window side of `e`: the window side
/// times `GLYPH_CACHE_SIZE`, no larger than the largest texture and no
/// smaller than 512.
pub open spec fn glyph_cache_side(e: u16, max_texture_size: u16) -> u16 {
    let scaled = (e * GLYPH_CACHE_SIZE) as u16;
    let capped = if scaled < max_texture_size { scaled } else { max_texture_size };
    if capped > 512 { capped } else { 512 }
}

/// The glyph cache's dimensions for a window of `resolution` (width,
/// height) on a device whose textures are at most `max_texture_size` a side.
pub fn glyph_cache_dims(resolution: (u16, u16), max_texture_size: u16) -> (r: (u16, u16))
    ensures
        r == (glyph_cache_side(resolution.0, max_texture_size), glyph_cache_side(resolution.1, max_texture_size)),
{
    let (w, h) = resolution;
    let ws = w * GLYPH_CACHE_SIZE;
    let hs = h * GLYPH_CACHE_SIZE;
    let wc = if ws < max_texture_size { ws } else { max_texture_size };
    let hc = if hs < max_texture_size { hs } else { max_texture_size };
    (if wc > 512 { wc } else { 512 }, if hc > 512 { hc } else { 512 })
}

} // verus!
