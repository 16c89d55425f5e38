use veloren_logic::pipelines::sprite::{pack_atlas_pos, pack_pos_ori, EXTRA_NEG_Z};
use veloren_logic::pipelines::terrain::Vertex;

#[test]
fn terrain_vertex_packs_its_fields() {
    let v = Vertex::new_terrain(3, 5, 1, 2, 32768, true, 4);
    assert_eq!(v.pos_norm, 1 | (2 << 6) | (32768 << 12) | (1 << 28) | (4 << 29));
    assert_eq!(v.atlas_pos, 3 | (5 << 16));
    let w = Vertex::new_terrain(0, 0, 64, 65, 0, false, 9);
    assert_eq!(w.pos_norm, 1 << 6 | (1 << 29));
}

#[test]
fn figure_vertex_packs_and_bone_index_can_change() {
    let mut v = Vertex::new_figure(7, 9, 1, 2, 3, 5, 1, 2);
    assert_eq!(v.pos_norm, 1 | (2 << 9) | (3 << 18) | (5 << 27) | (1 << 31));
    assert_eq!(v.atlas_pos, (7 << 2) | (9 << 17) | 2);
    v.set_bone_idx(12);
    assert_eq!(v.pos_norm, 1 | (2 << 9) | (3 << 18) | (12 << 27) | (1 << 31));
    assert_eq!(v.atlas_pos, (7 << 2) | (9 << 17) | 2);
}

#[test]
fn col_light_caps_light_and_glow() {
    assert_eq!(Vertex::make_col_light(40, 2, 0xFF, 0x12, 0x34), [(31 << 3) | 7, (2 << 3) | 2, 0xF0 | 0x3, 0x12]);
}

#[test]
fn sprite_instance_words() {
    assert_eq!(pack_atlas_pos(1, 2), 1 | (2 << 16));
    assert_eq!(EXTRA_NEG_Z, 32768);
    assert_eq!(pack_pos_ori(65, 3, 0, 5), 1 | (3 << 6) | (32768 << 12) | (5 << 29));
    assert_eq!(pack_pos_ori(0, 0, -40000, 0), 0);
    assert_eq!(pack_pos_ori(0, 0, 40000, 0), (65536 & 0xFFFF) << 12);
}
