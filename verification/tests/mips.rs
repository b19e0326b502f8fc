use rustvoxels::grid::{Rgba, VoxelGrid, VoxelPos};
use rustvoxels::mips::{dedup_positions, next_working_set, MipChain, Mipmapper};

fn p(x: usize, y: usize, z: usize) -> VoxelPos {
    VoxelPos { x, y, z }
}

#[test]
fn dedup_keeps_first_occurrences_in_order() {
    let xs = vec![p(1, 2, 3), p(0, 0, 0), p(1, 2, 3), p(4, 4, 4), p(0, 0, 0)];
    let d = dedup_positions(&xs);
    assert_eq!(d, vec![p(1, 2, 3), p(0, 0, 0), p(4, 4, 4)]);
}

#[test]
fn next_working_set_halves_and_dedups() {
    let xs = vec![p(1, 1, 1), p(0, 0, 0), p(3, 2, 1)];
    let w = next_working_set(&xs);
    assert_eq!(w, vec![p(0, 0, 0), p(1, 1, 0)]);
}

#[test]
fn working_sets_never_grow() {
    let mipmapper = Mipmapper::new((128, 128, 128));
    let dirty = vec![
        p(0, 0, 0),
        p(1, 1, 1),
        p(2, 2, 2),
        p(3, 3, 3),
        p(64, 64, 64),
        p(65, 65, 65),
        p(127, 127, 127),
    ];
    let plan = mipmapper.render(&dirty);
    assert_eq!(plan.len(), 6);
    let mut previous = dirty.len();
    for (i, pass) in plan.iter().enumerate() {
        assert_eq!(pass.level as usize, i + 1);
        assert!(pass.positions.len() <= previous);
        previous = pass.positions.len();
    }
    assert_eq!(plan[0].positions.len(), 4);
}

#[test]
fn empty_dirty_set_plans_no_work() {
    let mipmapper = Mipmapper::new((128, 128, 128));
    let plan = mipmapper.render(&Vec::new());
    assert_eq!(plan.len(), 0);
}

#[test]
fn workgroups_round_up_per_thousand_or_so() {
    let mipmapper = Mipmapper::new((4096, 4096, 4096));
    let mut dirty = Vec::new();
    for i in 0..1025 {
        dirty.push(p(2 * i, 0, 0));
    }
    let plan = mipmapper.render(&dirty);
    assert_eq!(plan[0].positions.len(), 1025);
    assert_eq!(plan[0].workgroups, 2);
    assert_eq!(plan[1].workgroups, 1);
}

#[test]
fn chain_levels_halve_per_axis() {
    let chain = MipChain::new((128, 128, 128), 6);
    assert_eq!(chain.level_count(), 6);
    // level 6 is 2x2x2: its corner exists, nothing past it
    assert!(chain.get_cell(6, p(1, 1, 1)).is_some());
    assert!(chain.get_cell(6, p(2, 0, 0)).is_none());
    assert!(chain.get_cell(7, p(0, 0, 0)).is_none());
    assert!(chain.get_cell(0, p(0, 0, 0)).is_none());
    assert_eq!(chain.get_cell(1, p(63, 63, 63)), Some(Rgba { r: 0, g: 0, b: 0, a: 0 }));
}

#[test]
fn one_red_voxel_contributes_an_eighth_to_its_parent() {
    let mut grid = VoxelGrid::from_string("4x4x4\n1,1,1,255,0,0").unwrap();
    assert!(grid.get_mip_levels() >= 1);
    let mut chain = MipChain::new((4, 4, 4), grid.get_mip_levels());
    let dirty = grid.take_changed();
    chain.update(&grid, &dirty);
    let parent = chain.get_cell(1, p(0, 0, 0)).unwrap();
    assert_eq!(parent, Rgba { r: 31, g: 0, b: 0, a: 31 });
    assert!(parent.r > 0 && parent.a > 0);
    // the neighbor parent cell saw no dirty children and stays transparent
    assert_eq!(chain.get_cell(1, p(1, 1, 1)), Some(Rgba { r: 0, g: 0, b: 0, a: 0 }));
}

#[test]
fn eight_full_children_average_to_full() {
    let mut grid = VoxelGrid::from_string("4x4x4").unwrap();
    for x in 0..2 {
        for y in 0..2 {
            for z in 0..2 {
                grid.set_voxel(p(x, y, z), Rgba { r: 255, g: 10, b: 0, a: 255 });
            }
        }
    }
    let mut chain = MipChain::new((4, 4, 4), 1);
    let dirty = grid.take_changed();
    chain.update(&grid, &dirty);
    let parent = chain.get_cell(1, p(0, 0, 0)).unwrap();
    assert_eq!(parent, Rgba { r: 255, g: 10, b: 0, a: 255 });
}

#[test]
fn chain_update_with_empty_dirty_is_a_no_op() {
    let grid = VoxelGrid::from_string("4x4x4\n1,1,1,255,0,0").unwrap();
    let mut chain = MipChain::new((4, 4, 4), 1);
    chain.update(&grid, &Vec::new());
    assert_eq!(chain.get_cell(1, p(0, 0, 0)), Some(Rgba { r: 0, g: 0, b: 0, a: 0 }));
}
