use rustvoxels::grid::{Rgba, SceneParseError, VoxelGrid, VoxelPos};

#[test]
fn parse_simple_scene() {
    let grid = VoxelGrid::from_string("4x4x4\n1,1,1,255,0,0").unwrap();
    assert_eq!(grid.width(), 4);
    assert_eq!(grid.height(), 4);
    assert_eq!(grid.length(), 4);
    assert_eq!(grid.data().len(), 4 * 4 * 4 * 4);
    let c = grid.get_voxel(VoxelPos { x: 1, y: 1, z: 1 });
    assert_eq!(c, Rgba { r: 255, g: 0, b: 0, a: 255 });
    assert_eq!(grid.changed_voxels().len(), 1);
    assert_eq!(grid.changed_voxels()[0], VoxelPos { x: 1, y: 1, z: 1 });
}

#[test]
fn parse_tolerates_spaces_and_carriage_returns() {
    let grid = VoxelGrid::from_string("4 x 4 x 4\r\n1, 2, 3, 10, 20, 30").unwrap();
    assert_eq!(grid.width(), 4);
    let c = grid.get_voxel(VoxelPos { x: 1, y: 2, z: 3 });
    assert_eq!(c, Rgba { r: 10, g: 20, b: 30, a: 255 });
}

#[test]
fn parse_default_color_is_grey() {
    let grid = VoxelGrid::from_string("2x2x2\n0,0,0").unwrap();
    let c = grid.get_voxel(VoxelPos { x: 0, y: 0, z: 0 });
    assert_eq!(c, Rgba { r: 125, g: 125, b: 125, a: 255 });
}

#[test]
fn parse_five_values_falls_back_to_grey() {
    let grid = VoxelGrid::from_string("2x2x2\n0,0,0,7,8").unwrap();
    let c = grid.get_voxel(VoxelPos { x: 0, y: 0, z: 0 });
    assert_eq!(c, Rgba { r: 125, g: 125, b: 125, a: 255 });
}

#[test]
fn parse_truncates_color_values() {
    let grid = VoxelGrid::from_string("2x2x2\n0,0,0,300,256,257").unwrap();
    let c = grid.get_voxel(VoxelPos { x: 0, y: 0, z: 0 });
    assert_eq!(c, Rgba { r: 44, g: 0, b: 1, a: 255 });
}

#[test]
fn parse_extra_dimension_parts_are_ignored() {
    let grid = VoxelGrid::from_string("2x3x4x9").unwrap();
    assert_eq!((grid.width(), grid.height(), grid.length()), (2, 3, 4));
}

#[test]
fn parse_rejects_bad_dimensions() {
    assert_eq!(
        VoxelGrid::from_string("axbxc").unwrap_err(),
        SceneParseError::BadDimensions
    );
    assert_eq!(
        VoxelGrid::from_string("2x2").unwrap_err(),
        SceneParseError::BadDimensions
    );
    assert_eq!(
        VoxelGrid::from_string("").unwrap_err(),
        SceneParseError::BadDimensions
    );
}

#[test]
fn parse_rejects_oversized_grid() {
    assert_eq!(
        VoxelGrid::from_string("4294967296x4294967296x4294967296").unwrap_err(),
        SceneParseError::GridTooLarge
    );
}

#[test]
fn parse_rejects_bad_voxel_line() {
    assert_eq!(
        VoxelGrid::from_string("2x2x2\n1").unwrap_err(),
        SceneParseError::BadVoxelLine
    );
    assert_eq!(
        VoxelGrid::from_string("2x2x2\n1,2,x").unwrap_err(),
        SceneParseError::BadVoxelLine
    );
    // a trailing newline leaves an empty voxel line, which is malformed
    assert_eq!(
        VoxelGrid::from_string("2x2x2\n0,0,0\n").unwrap_err(),
        SceneParseError::BadVoxelLine
    );
}

#[test]
fn parse_rejects_out_of_bounds_voxel() {
    assert_eq!(
        VoxelGrid::from_string("2x2x2\n2,0,0").unwrap_err(),
        SceneParseError::VoxelOutOfBounds
    );
    assert_eq!(
        VoxelGrid::from_string("2x2x2\n0,0,2").unwrap_err(),
        SceneParseError::VoxelOutOfBounds
    );
}

#[test]
fn set_voxel_records_dirty_cell() {
    let mut grid = VoxelGrid::from_string("4x4x4").unwrap();
    assert_eq!(grid.changed_voxels().len(), 0);
    grid.set_voxel(VoxelPos { x: 2, y: 0, z: 3 }, Rgba { r: 9, g: 8, b: 7, a: 255 });
    assert_eq!(grid.changed_voxels().len(), 1);
    let c = grid.get_voxel(VoxelPos { x: 2, y: 0, z: 3 });
    assert_eq!(c, Rgba { r: 9, g: 8, b: 7, a: 255 });
}

#[test]
fn take_changed_hands_over_and_clears() {
    let mut grid = VoxelGrid::from_string("4x4x4\n0,0,0\n1,1,1").unwrap();
    let dirty = grid.take_changed();
    assert_eq!(dirty.len(), 2);
    assert_eq!(dirty[0], VoxelPos { x: 0, y: 0, z: 0 });
    assert_eq!(dirty[1], VoxelPos { x: 1, y: 1, z: 1 });
    assert_eq!(grid.changed_voxels().len(), 0);
}

#[test]
fn mip_level_counts_follow_the_formula() {
    let sizes_and_levels = [
        ((1usize, 1usize, 1usize), 0u32),
        ((2, 2, 2), 0),
        ((3, 3, 3), 0),
        ((4, 4, 4), 1),
        ((4, 8, 16), 1),
        ((128, 128, 128), 6),
        ((512, 512, 512), 8),
    ];
    for ((w, h, l), expected) in sizes_and_levels {
        let text = format!("{}x{}x{}", w, h, l);
        let grid = VoxelGrid::from_string(&text).unwrap();
        assert_eq!(grid.get_mip_levels(), expected, "size {:?}", (w, h, l));
    }
}
