use vstd::prelude::*;

verus! {

/// How far sprite z positions are shifted up before packing.
pub const EXTRA_NEG_Z: i32 = 32768i32;

/// The atlas position of a sprite vertex: x in the low 16 bits, y in the
/// high 16 bits.
pub open spec fn sprite_atlas_bits(ax: u16, ay: u16) -> u32 {
    ((ax as u32) & 0xFFFFu32) | (((ay as u32) & 0xFFFFu32) << 16u32)
}

/// The shifted z of a sprite instance, clamped to `0..=65536`.
pub open spec fn shifted_z(z: i32) -> int {
    let s = z + EXTRA_NEG_Z;
    if s < 0 {
        0
    } else if s > 65536 {
        65536
    } else {
        s
    }
}

/// The position-and-orientation word of a sprite instance: x and y (taken
/// modulo 64) in 6 bits each, the shifted z in 16 bits from bit 12, the
/// orientation in 3 bits from bit 29.
pub open spec fn pos_ori_bits(x: i32, y: i32, z: i32, ori_bits: u8) -> u32 {
    ((x as u32) & 0x003Fu32) | (((y as u32) & 0x003Fu32) << 6u32) | (((shifted_z(z) as u32) & 0xFFFFu32)
        << 12u32) | (((ori_bits as u32) & 0x7u32) << 29u32)
}

/// Packs an atlas position for a sprite vertex.
pub fn pack_atlas_pos(ax: u16, ay: u16) -> (r: u32)
    ensures
        r == sprite_atlas_bits(ax, ay),
{
    ((ax as u32) & 0xFFFF) | (((ay as u32) & 0xFFFF) << 16)
}

/// Packs the block position and orientation of a sprite instance. The
/// whole position is shifted by `EXTRA_NEG_Z` before z is taken, which
/// overflows unless each coordinate leaves room for the shift.
pub fn pack_pos_ori(x: i32, y: i32, z: i32, ori_bits: u8) -> (r: u32)
    requires
        x <= i32::MAX - EXTRA_NEG_Z,
        y <= i32::MAX - EXTRA_NEG_Z,
        z <= i32::MAX - EXTRA_NEG_Z,
    ensures
        r == pos_ori_bits(x, y, z, ori_bits),
{
    let sz: i32 = z + EXTRA_NEG_Z;
    let clamped: i32 = if sz < 0 {
        0
    } else if sz > 65536 {
        65536
    } else {
        sz
    };
    ((x as u32) & 0x003F) | (((y as u32) & 0x003F) << 6) | (((clamped as u32) & 0xFFFF) << 12) | (((ori_bits as u32)
        & 0x7) << 29)
}

} // verus!
