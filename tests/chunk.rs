use explora::block::BlockId;
use explora::chunk::{Chunk, SIZE_X, SIZE_Y, SIZE_Z, VOLUME};
use explora::math::IVec3;

#[test]
fn block_kinds_classify_solidity() {
    assert!(BlockId::Air.is_air());
    assert!(!BlockId::Air.is_solid());
    for b in [BlockId::Dirt, BlockId::Grass, BlockId::Stone] {
        assert!(!b.is_air());
        assert!(b.is_solid());
    }
}

#[test]
fn flat_chunk_has_stone_dirt_and_grass_layers() {
    let chunk = Chunk::flat();
    assert_eq!(chunk.get(IVec3::new(0, 0, 0)), Some(BlockId::Stone));
    assert_eq!(chunk.get(IVec3::new(7, 32, 9)), Some(BlockId::Stone));
    assert_eq!(chunk.get(IVec3::new(7, 33, 9)), Some(BlockId::Dirt));
    assert_eq!(chunk.get(IVec3::new(15, 254, 15)), Some(BlockId::Dirt));
    assert_eq!(chunk.get(IVec3::new(15, 255, 15)), Some(BlockId::Grass));
    assert_eq!(chunk.get(IVec3::new(0, 256, 0)), None);
}

#[test]
fn index_is_row_major_with_x_fastest() {
    assert_eq!(Chunk::index(IVec3::new(0, 0, 0)), Some(0));
    assert_eq!(Chunk::index(IVec3::new(1, 0, 0)), Some(1));
    assert_eq!(Chunk::index(IVec3::new(0, 1, 0)), Some(16));
    assert_eq!(Chunk::index(IVec3::new(0, 0, 1)), Some(4096));
    assert_eq!(Chunk::index(IVec3::new(1, 2, 3)), Some(16 * 256 * 3 + 16 * 2 + 1));
    assert_eq!(Chunk::index(IVec3::new(15, 255, 15)), Some(VOLUME - 1));
}

#[test]
fn index_is_injective_on_every_cell() {
    let mut seen = vec![false; VOLUME];
    for x in 0..SIZE_X as i32 {
        for y in 0..SIZE_Y as i32 {
            for z in 0..SIZE_Z as i32 {
                let p = IVec3::new(x, y, z);
                let i = Chunk::index(p).unwrap();
                assert!(!seen[i]);
                seen[i] = true;
                assert!(!Chunk::out_of_bounds(p));
            }
        }
    }
    assert!(seen.iter().all(|s| *s));
}

#[test]
fn positions_outside_the_extent_are_out_of_bounds() {
    let chunk = Chunk::flat();
    let outside = [
        IVec3::new(-1, 0, 0),
        IVec3::new(0, -1, 0),
        IVec3::new(0, 0, -1),
        IVec3::new(16, 0, 0),
        IVec3::new(0, 256, 0),
        IVec3::new(0, 0, 16),
        IVec3::new(i32::MIN, i32::MAX, 3),
        IVec3::new(i32::MAX, 0, 0),
    ];
    for p in outside {
        assert!(Chunk::out_of_bounds(p));
        assert_eq!(Chunk::index(p), None);
        assert_eq!(chunk.get(p), None);
    }
    assert!(!Chunk::out_of_bounds(IVec3::new(0, 0, 0)));
    assert!(!Chunk::out_of_bounds(IVec3::new(15, 255, 15)));
}

#[test]
fn with_block_replaces_one_cell_only() {
    let chunk = Chunk::filled(BlockId::Air).with_block(IVec3::new(3, 4, 5), BlockId::Stone);
    assert_eq!(chunk.get(IVec3::new(3, 4, 5)), Some(BlockId::Stone));
    assert_eq!(chunk.get(IVec3::new(4, 4, 5)), Some(BlockId::Air));
    let same = chunk.with_block(IVec3::new(16, 0, 0), BlockId::Dirt);
    assert_eq!(same.get(IVec3::new(3, 4, 5)), Some(BlockId::Stone));
    assert_eq!(same.get(IVec3::new(0, 0, 0)), Some(BlockId::Air));
}
