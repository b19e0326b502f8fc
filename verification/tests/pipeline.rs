use rustvoxels::entity::{ComponentKind, Entity};
use rustvoxels::frame::{FrameSettings, PassKind, Renderer, RendererHandles, ResizeHandles};
use rustvoxels::grid::VoxelPos;
use rustvoxels::world::{Collector, World};

fn handles() -> RendererHandles<u64> {
    RendererHandles {
        sampler: 1,
        volume_texture: 2,
        changed_buffer: 3,
        changed_index_buffer: 4,
        raytrace_color: 5,
        raytrace_depth: 6,
        raytrace_world_position: 7,
        noise_texture: 8,
        noise_size: (64, 64),
        denoise_color: (9, 10),
        denoise_depth: (11, 12),
    }
}

fn settings() -> FrameSettings {
    FrameSettings {
        samples: 1,
        max_steps: 200,
        reprojection_weight: 900,
        blur_strength_milli: 1500,
        enable_filtering: true,
        do_lighting: false,
    }
}

#[test]
fn construction_registers_every_pipeline_resource() {
    let renderer: Renderer<u64, i32> = Renderer::new((1280, 720), (128, 128, 128), handles());
    let atlas = renderer.atlas();
    let volume = atlas.get_info("voxelizer_attachment_world").unwrap();
    assert_eq!(volume.size, (128, 128, 128));
    assert_eq!(volume.mip_levels, 7);
    assert_eq!(atlas.get_buffer("voxelizer_binding_voxels_changed"), Some(&3));
    assert_eq!(atlas.get_buffer("voxelizer_binding_voxels_changed_index"), Some(&4));
    assert_eq!(atlas.get("raytracer_attachment_color", 0), Some(&5));
    assert_eq!(atlas.get("raytracer_attachment_depth", 0), Some(&6));
    assert_eq!(atlas.get("raytracer_attachment_world_position", 0), Some(&7));
    let noise = atlas.get_info("raytracer_binding_noise").unwrap();
    assert_eq!(noise.size, (64, 64, 1));
    assert!(atlas.get_view_swapchain("denoiser_attachment_color", 0).is_some());
    assert!(atlas.get_view_swapchain("denoiser_attachment_depth_normals", 0).is_some());
    assert_eq!(renderer.frame_count(), 0);
    assert_eq!(renderer.size(), (1280, 720));
}

#[test]
fn frame_passes_run_in_dependency_order_and_advance_parity_once() {
    let mut renderer: Renderer<u64, i32> = Renderer::new((1280, 720), (128, 128, 128), handles());
    let world: World<String> = World::new();
    let plan = renderer.render(&world, 7, &settings(), &Vec::new());
    assert_eq!(
        plan.passes,
        vec![
            PassKind::Voxelize,
            PassKind::MipRegenerate,
            PassKind::RayMarch,
            PassKind::Denoise,
            PassKind::Composite,
        ]
    );
    assert_eq!(renderer.frame_count(), 1);
    assert_eq!(plan.composite_source, "denoiser_attachment_color");
    let plan2 = renderer.render(&world, 8, &settings(), &Vec::new());
    assert_eq!(renderer.frame_count(), 2);
    assert_eq!(plan2.raytrace.frame_count, 1);
}

#[test]
fn raytrace_plan_reflects_volume_and_settings() {
    let mut renderer: Renderer<u64, i32> = Renderer::new((640, 480), (128, 128, 128), handles());
    let world: World<String> = World::new();
    let plan = renderer.render(&world, 7, &settings(), &Vec::new());
    assert_eq!(plan.raytrace.resolution, (640, 480));
    assert_eq!(plan.raytrace.scene_size, (128, 128, 128));
    assert_eq!(plan.raytrace.octree_depth, 7);
    assert_eq!(plan.raytrace.max_steps, 200);
    assert_eq!(plan.raytrace.samples, 1);
    assert!(!plan.raytrace.do_lighting);
    assert_eq!(plan.raytrace.frame_count, 0);
}

#[test]
fn voxelize_counts_model_components() {
    let mut renderer: Renderer<u64, i32> = Renderer::new((640, 480), (128, 128, 128), handles());
    let mut world: World<String> = World::new();
    let a = world.create_entity();
    let b = world.create_entity();
    world.add_component(a, ComponentKind::Model, "garfield".to_string());
    world.add_component(a, ComponentKind::Camera, "main".to_string());
    world.add_component(b, ComponentKind::Model, "house".to_string());
    let plan = renderer.render(&world, 7, &settings(), &Vec::new());
    assert_eq!(plan.voxelize.draw_count, 2);
}

#[test]
fn empty_scene_and_empty_dirty_list_plan_no_mip_work() {
    let mut renderer: Renderer<u64, i32> = Renderer::new((640, 480), (128, 128, 128), handles());
    let world: World<String> = World::new();
    let plan = renderer.render(&world, 7, &settings(), &Vec::new());
    assert_eq!(plan.voxelize.draw_count, 0);
    assert_eq!(plan.mip_passes.len(), 0);
}

#[test]
fn dirty_cells_plan_one_pass_per_level() {
    let mut renderer: Renderer<u64, i32> = Renderer::new((640, 480), (128, 128, 128), handles());
    let world: World<String> = World::new();
    let dirty = vec![
        VoxelPos { x: 0, y: 0, z: 0 },
        VoxelPos { x: 1, y: 1, z: 1 },
        VoxelPos { x: 1, y: 0, z: 0 },
    ];
    let plan = renderer.render(&world, 7, &settings(), &dirty);
    assert_eq!(plan.mip_passes.len(), 6);
    assert_eq!(plan.mip_passes[0].level, 1);
    assert_eq!(plan.mip_passes[0].positions, vec![VoxelPos { x: 0, y: 0, z: 0 }]);
    assert_eq!(plan.mip_passes[0].workgroups, 1);
}

#[test]
fn first_frame_denoise_ignores_history() {
    let mut renderer: Renderer<u64, i32> = Renderer::new((640, 480), (128, 128, 128), handles());
    let world: World<String> = World::new();
    let plan = renderer.render(&world, 7, &settings(), &Vec::new());
    assert!(!plan.denoise.history_valid);
    assert_eq!(plan.denoise.weight, 0);
    assert_eq!(plan.denoise.past_camera, None);
    let plan2 = renderer.render(&world, 9, &settings(), &Vec::new());
    assert!(plan2.denoise.history_valid);
    assert_eq!(plan2.denoise.weight, 900);
    assert_eq!(plan2.denoise.past_camera, Some(7));
}

#[test]
fn resize_recreates_window_attachments_and_keeps_the_volume() {
    let mut renderer: Renderer<u64, i32> = Renderer::new((640, 480), (128, 128, 128), handles());
    let volume_before = renderer.atlas().get_info("voxelizer_attachment_world").unwrap();
    renderer.resize(
        (1920, 1080),
        ResizeHandles {
            raytrace_color: 50,
            raytrace_depth: 51,
            raytrace_world_position: 52,
            denoise_color: (53, 54),
            denoise_depth: (55, 56),
        },
    );
    assert_eq!(renderer.size(), (1920, 1080));
    let atlas = renderer.atlas();
    assert_eq!(atlas.get_info("voxelizer_attachment_world").unwrap(), volume_before);
    assert_eq!(atlas.get_buffer("voxelizer_binding_voxels_changed"), Some(&3));
    assert_eq!(atlas.get("raytracer_attachment_color", 0), Some(&50));
    let info = atlas.get_info("raytracer_attachment_color").unwrap();
    assert_eq!(info.size, (1920, 1080, 1));
    let (read, write) = atlas.get_view_swapchain("denoiser_attachment_color", 0).unwrap();
    assert_eq!((*read, *write), (53, 54));
}

#[test]
fn entities_filter_components_by_kind() {
    let mut e: Entity<&'static str> = Entity::new(1);
    e.add_component(ComponentKind::Model, "mesh");
    e.add_component(ComponentKind::Transform, "xform");
    e.add_component(ComponentKind::Model, "mesh2");
    let models = e.get_components(ComponentKind::Model);
    assert_eq!(models, vec![&"mesh", &"mesh2"]);
    assert_eq!(e.get_components(ComponentKind::Camera).len(), 0);
    let slot = e.get_components_mut(ComponentKind::Model, 1);
    *slot = "replaced";
    assert_eq!(e.get_components(ComponentKind::Model), vec![&"mesh", &"replaced"]);
    assert_eq!(e.get_components(ComponentKind::Transform), vec![&"xform"]);
}

#[test]
fn world_collects_entities_with_a_kind() {
    let mut world: World<&'static str> = World::new();
    let a = world.create_entity();
    let _b = world.create_entity();
    let c = world.create_entity();
    world.add_component(a, ComponentKind::Model, "one");
    world.add_component(c, ComponentKind::Model, "two");
    world.add_component(c, ComponentKind::Camera, "cam");
    let with_models = world.get_entities(ComponentKind::Model);
    assert_eq!(with_models.len(), 2);
    assert_eq!(world.get_components(ComponentKind::Model), vec![&"one", &"two"]);
}

#[test]
fn collector_parses_the_scene_text() {
    let grid = Collector::collect("4x4x4\n1,1,1,255,0,0").unwrap();
    assert_eq!(grid.width(), 4);
    assert!(Collector::collect("oops").is_err());
}

#[test]
fn one_voxel_scene_end_to_end() {
    // a 4x4x4 volume with one opaque red voxel at (1,1,1)
    let mut grid = Collector::collect("4x4x4\n1,1,1,255,0,0").unwrap();
    let volume_size = (grid.width() as u32, grid.height() as u32, grid.length() as u32);
    let mut renderer: Renderer<u64, i32> = Renderer::new((640, 480), volume_size, handles());
    let info = renderer.atlas().get_info("voxelizer_attachment_world").unwrap();
    assert!(info.mip_levels >= 1);
    assert_eq!(info.size, (4, 4, 4));

    let mut chain = rustvoxels::mips::MipChain::new(
        (grid.width(), grid.height(), grid.length()),
        grid.get_mip_levels(),
    );
    let world: World<String> = World::new();
    let dirty = grid.take_changed();
    let plan = renderer.render(&world, 7, &settings(), &dirty);
    assert_eq!(plan.mip_passes.len(), 1);
    assert_eq!(plan.mip_passes[0].positions, vec![VoxelPos { x: 0, y: 0, z: 0 }]);
    chain.update(&grid, &dirty);
    // the voxel's parent cell aggregates a non-zero contribution
    let parent = chain.get_cell(1, VoxelPos { x: 0, y: 0, z: 0 }).unwrap();
    assert!(parent.r > 0 && parent.a > 0);
}
