use ldtk_map::{gridpx_to_idx, src_to_atlas_index};

#[test]
fn test_gridpx_to_idx() {
    let px = (0 / 8, 0);
    let px2 = (48 / 8, 0);

    let idx = gridpx_to_idx(px, 40);
    let idx2 = gridpx_to_idx(px2, 40);

    assert_eq!(idx, 0, "idx did not match the expected");
    assert_eq!(idx2, 6, "idx2 did not match the expected.");
}

#[test]
fn test_src_to_atlas_idx() {
    let src = (0, 0);
    let src2 = (48, 0);

    let idx = src_to_atlas_index(src, 8);
    let idx2 = src_to_atlas_index(src2, 8);

    assert_eq!(idx, 0, "idx did not match the expected.");
    assert_eq!(idx2, 6, "idx2 did not match the expected.");
}

#[test]
fn atlas_index_uses_sixteen_cells_per_row() {
    assert_eq!(src_to_atlas_index((64, 0), 16), 4);
    assert_eq!(src_to_atlas_index((48, 0), 8), 6);
    assert_eq!(src_to_atlas_index((8, 16), 8), 33);
    assert_eq!(src_to_atlas_index((15, 15), 16), 0);
}

#[test]
fn grid_index_round_trips() {
    for width in 1..6usize {
        for y in 0..5usize {
            for x in 0..width {
                let idx = gridpx_to_idx((x, y), width);
                assert_eq!((idx % width, idx / width), (x, y));
            }
        }
    }
    assert_eq!(gridpx_to_idx((3, 2), 40), 83);
}
