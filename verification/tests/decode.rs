use delphai::decode::{
    clamp_i16, clamp_size, index_in, tiles_from_i32_pairs, walkable_from_bytes,
    walkable_map_from_bytes,
};
use delphai::pathfinding::TilePos;

#[test]
fn berry_resources_from_i32_pairs_parses_coordinate_pairs() {
    let out = tiles_from_i32_pairs(&[3, 4, 10, 12]);
    assert_eq!(out.len(), 2);
    assert_eq!(out[0], TilePos::new(3, 4));
    assert_eq!(out[1], TilePos::new(10, 12));
}

#[test]
fn berry_resources_from_i32_pairs_drops_unpaired_tail() {
    let out = tiles_from_i32_pairs(&[1, 2, 9]);
    assert_eq!(out.len(), 1);
    assert_eq!(out[0], TilePos::new(1, 2));
}

#[test]
fn berry_resources_from_i32_pairs_clamps_out_of_range_to_i16_bounds() {
    let out = tiles_from_i32_pairs(&[i32::MAX, i32::MIN]);
    assert_eq!(out.len(), 1);
    assert_eq!(out[0], TilePos::new(i16::MAX, i16::MIN));
}

#[test]
fn empty_pairs_give_no_tiles() {
    assert!(tiles_from_i32_pairs(&[]).is_empty());
    assert!(tiles_from_i32_pairs(&[5]).is_empty());
}

#[test]
fn zero_bytes_are_blocked() {
    assert_eq!(walkable_from_bytes(&[0, 1, 255, 0]), vec![false, true, true, false]);
}

#[test]
fn clamps_to_i16_and_sizes() {
    assert_eq!(clamp_i16(70000), i16::MAX);
    assert_eq!(clamp_i16(-70000), i16::MIN);
    assert_eq!(clamp_i16(-5), -5);
    assert_eq!(clamp_size(-3, 0), 0);
    assert_eq!(clamp_size(0, 1), 1);
    assert_eq!(clamp_size(40000, 1), i16::MAX);
    assert_eq!(clamp_size(24, 1), 24);
}

#[test]
fn signed_index_lookup() {
    assert_eq!(index_in(0, 1), Some(0));
    assert_eq!(index_in(1, 1), None);
    assert_eq!(index_in(-1, 5), None);
    assert_eq!(index_in(i64::MAX, usize::MAX), Some(i64::MAX as usize));
}

#[test]
fn walkable_map_needs_one_byte_per_tile() {
    let (w, h, cells) = walkable_map_from_bytes(3, 2, &[1, 0, 1, 1, 1, 7]).unwrap();
    assert_eq!((w, h), (3, 2));
    assert_eq!(cells, vec![true, false, true, true, true, true]);
    assert!(walkable_map_from_bytes(3, 2, &[1, 1, 1]).is_none());
    let (w, h, cells) = walkable_map_from_bytes(-4, 9, &[]).unwrap();
    assert_eq!((w, h), (0, 9));
    assert!(cells.is_empty());
}
