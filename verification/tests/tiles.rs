use simp::mosaic::{is_single_tile, mip_level_count, tile_layout, TileRect};

fn rect(start_x: u32, start_y: u32, end_x: u32, end_y: u32) -> TileRect {
    TileRect { start_x, start_y, end_x, end_y }
}

#[test]
fn tiles_go_column_by_column() {
    assert_eq!(
        tile_layout(10, 5, 4),
        vec![
            rect(0, 0, 4, 4),
            rect(0, 4, 4, 5),
            rect(4, 0, 8, 4),
            rect(4, 4, 8, 5),
            rect(8, 0, 10, 4),
            rect(8, 4, 10, 5),
        ]
    );
}

#[test]
fn an_exact_multiple_leaves_an_empty_row_but_no_empty_column() {
    assert_eq!(
        tile_layout(8, 8, 4),
        vec![
            rect(0, 0, 4, 4),
            rect(0, 4, 4, 8),
            rect(0, 8, 4, 8),
            rect(4, 0, 8, 4),
            rect(4, 4, 8, 8),
            rect(4, 8, 8, 8),
        ]
    );
    assert!(tile_layout(0, 3, 4).is_empty());
}

#[test]
fn small_images_are_one_tile() {
    assert_eq!(tile_layout(3, 2, 4), vec![rect(0, 0, 3, 2)]);
    assert!(is_single_tile(3, 2, 4));
    assert!(!is_single_tile(4, 2, 4));
    assert!(!is_single_tile(3, 9, 4));
}

#[test]
fn every_pixel_lies_in_exactly_one_tile() {
    for (width, height, limit) in [(10u32, 5u32, 4u32), (8, 8, 4), (7, 13, 3), (1, 1, 1), (9, 2, 10)] {
        let tiles = tile_layout(width, height, limit);
        for px in 0..width {
            for py in 0..height {
                let holding = tiles
                    .iter()
                    .filter(|t| t.start_x <= px && px < t.end_x && t.start_y <= py && py < t.end_y)
                    .count();
                assert_eq!(holding, 1);
            }
        }
    }
}

#[test]
fn mip_levels_follow_the_longer_side() {
    assert_eq!(mip_level_count(1, 1), 1);
    assert_eq!(mip_level_count(2, 1), 2);
    assert_eq!(mip_level_count(3, 0), 2);
    assert_eq!(mip_level_count(100, 300), 9);
    assert_eq!(mip_level_count(256, 256), 9);
    assert_eq!(mip_level_count(511, 2), 9);
    assert_eq!(mip_level_count(512, 2), 10);
    assert_eq!(mip_level_count(u32::MAX, 1), 10);
}
