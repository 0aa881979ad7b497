use explora::atlas::{ceil_sqrt, Atlas, Image, TileSource, DEFAULT_TILE};
use explora::block::BlockId;

fn solid_image(width: u32, height: u32, rgba: [u8; 4]) -> Image {
    let mut pixels = Vec::new();
    for _ in 0..width * height {
        pixels.extend_from_slice(&rgba);
    }
    Image { width, height, pixels }
}

fn source(name: &str, width: u32, height: u32, rgba: [u8; 4]) -> TileSource {
    TileSource { name: name.to_string(), image: Some(solid_image(width, height, rgba)) }
}

fn pixel(atlas: &Atlas, x: usize, y: usize) -> [u8; 4] {
    let image = atlas.image();
    let i = (y * image.width as usize + x) * 4;
    [image.pixels[i], image.pixels[i + 1], image.pixels[i + 2], image.pixels[i + 3]]
}

const RED: [u8; 4] = [200, 10, 10, 255];
const GREEN: [u8; 4] = [10, 200, 10, 255];
const BLUE: [u8; 4] = [10, 10, 200, 255];
const BLACK: [u8; 4] = [0, 0, 0, 255];
const WHITE: [u8; 4] = [255, 255, 255, 255];

fn three_tiles() -> Vec<TileSource> {
    vec![source("dirt", 16, 16, RED), source("grass_side", 16, 16, GREEN), source("stone", 16, 16, BLUE)]
}

#[test]
fn ceil_sqrt_is_the_smallest_covering_side() {
    let expected = [(0, 0), (1, 1), (2, 2), (3, 2), (4, 2), (5, 3), (9, 3), (10, 4), (16, 4), (17, 5)];
    for (n, r) in expected {
        assert_eq!(ceil_sqrt(n), r, "ceil_sqrt({n})");
    }
}

#[test]
fn three_tiles_pack_into_a_two_by_two_sheet() {
    let atlas = Atlas::pack(&three_tiles()).unwrap();
    assert_eq!(atlas.tile_count(), 2);
    assert_eq!(atlas.tile_size(), 16);
    assert_eq!(atlas.image().width, 32);
    assert_eq!(atlas.image().height, 32);
    assert_eq!(atlas.image().pixels.len(), 32 * 32 * 4);
    assert_eq!(atlas.get("default"), DEFAULT_TILE);
    assert_eq!(atlas.get("dirt"), 1);
    assert_eq!(atlas.get("grass_side"), 2);
    assert_eq!(atlas.get("stone"), 3);
}

#[test]
fn tile_zero_is_the_placeholder_pattern() {
    let atlas = Atlas::pack(&three_tiles()).unwrap();
    assert_eq!(pixel(&atlas, 0, 0), BLACK);
    assert_eq!(pixel(&atlas, 7, 7), BLACK);
    assert_eq!(pixel(&atlas, 8, 0), WHITE);
    assert_eq!(pixel(&atlas, 0, 8), WHITE);
    assert_eq!(pixel(&atlas, 8, 8), BLACK);
    assert_eq!(pixel(&atlas, 15, 15), BLACK);
}

#[test]
fn tiles_are_placed_by_id_in_rows() {
    let atlas = Atlas::pack(&three_tiles()).unwrap();
    assert_eq!(pixel(&atlas, 16, 0), RED);
    assert_eq!(pixel(&atlas, 31, 15), RED);
    assert_eq!(pixel(&atlas, 0, 16), GREEN);
    assert_eq!(pixel(&atlas, 15, 31), GREEN);
    assert_eq!(pixel(&atlas, 16, 16), BLUE);
    assert_eq!(pixel(&atlas, 31, 31), BLUE);
}

#[test]
fn source_pixels_are_copied_in_place() {
    let mut image = solid_image(16, 16, RED);
    let at = (3 * 16 + 5) * 4;
    image.pixels[at..at + 4].copy_from_slice(&[1, 2, 3, 4]);
    let sources = vec![TileSource { name: "marked".to_string(), image: Some(image) }];
    let atlas = Atlas::pack(&sources).unwrap();
    assert_eq!(atlas.tile_count(), 2);
    assert_eq!(pixel(&atlas, 16 + 5, 3), [1, 2, 3, 4]);
    assert_eq!(pixel(&atlas, 16 + 6, 3), RED);
    assert_eq!(pixel(&atlas, 0, 16), [0, 0, 0, 0]);
}

#[test]
fn mismatched_tile_is_left_out() {
    let mut sources = three_tiles();
    sources.push(source("odd", 8, 8, WHITE));
    let atlas = Atlas::pack(&sources).unwrap();
    assert_eq!(atlas.get("dirt"), 1);
    assert_eq!(atlas.get("grass_side"), 2);
    assert_eq!(atlas.get("stone"), 3);
    assert_eq!(atlas.get("odd"), DEFAULT_TILE);
    assert_eq!(atlas.tile_count(), 3);
    assert_eq!(atlas.tile_size(), 16);
}

#[test]
fn unreadable_sources_are_skipped() {
    let sources = vec![
        TileSource { name: "broken".to_string(), image: None },
        TileSource { name: "short".to_string(), image: Some(Image { width: 4, height: 4, pixels: vec![0; 10] }) },
        source("stone", 4, 4, BLUE),
        source("dirt", 4, 4, RED),
    ];
    let atlas = Atlas::pack(&sources).unwrap();
    assert_eq!(atlas.tile_size(), 4);
    assert_eq!(atlas.tile_count(), 3);
    assert_eq!(atlas.get("broken"), DEFAULT_TILE);
    assert_eq!(atlas.get("short"), DEFAULT_TILE);
    assert_eq!(atlas.get("stone"), 1);
    assert_eq!(atlas.get("dirt"), 2);
    assert_eq!(pixel(&atlas, 4, 0), BLUE);
    assert_eq!(pixel(&atlas, 8, 0), RED);
}

#[test]
fn nothing_readable_packs_nothing() {
    assert!(Atlas::pack(&Vec::new()).is_none());
    let sources = vec![TileSource { name: "broken".to_string(), image: None }];
    assert!(Atlas::pack(&sources).is_none());
}

#[test]
fn unknown_name_falls_back_to_the_placeholder() {
    let atlas = Atlas::pack(&three_tiles()).unwrap();
    assert_eq!(atlas.get("lava"), DEFAULT_TILE);
    assert_eq!(atlas.get(""), DEFAULT_TILE);
}

#[test]
fn block_textures_follow_face_names() {
    let mut sources = three_tiles();
    sources.push(source("grass_top", 16, 16, WHITE));
    let atlas = Atlas::pack(&sources).unwrap();
    assert_eq!(atlas.block_texture(BlockId::Dirt).values, [1; 6]);
    assert_eq!(atlas.block_texture(BlockId::Stone).values, [3; 6]);
    assert_eq!(atlas.block_texture(BlockId::Grass).values, [2, 2, 2, 2, 4, 1]);
    assert_eq!(atlas.block_texture(BlockId::Air).values, [0; 6]);
}

#[test]
fn block_texture_of_missing_names_uses_the_placeholder() {
    let sources = vec![source("stone", 16, 16, BLUE)];
    let atlas = Atlas::pack(&sources).unwrap();
    assert_eq!(atlas.block_texture(BlockId::Grass).values, [0; 6]);
    assert_eq!(atlas.block_texture(BlockId::Stone).values, [1; 6]);
}
