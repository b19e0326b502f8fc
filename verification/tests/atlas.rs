use rustvoxels::atlas::{TextureAtlas, TextureInfo};

fn sample_atlas() -> TextureAtlas<u64> {
    let mut atlas: TextureAtlas<u64> = TextureAtlas::new(99, (640, 480));
    atlas.register("color", 1);
    atlas.register_swapchain("history", 2, 3);
    atlas.register_from_descriptor(
        "volume",
        4,
        TextureInfo { size: (128, 128, 128), mip_levels: 7 },
    );
    atlas.register_buffer("dirty", 5);
    atlas
}

#[test]
fn register_and_get_info_reports_window_size_for_single() {
    let atlas = sample_atlas();
    let info = atlas.get_info("color").unwrap();
    assert_eq!(info.size, (640, 480, 1));
    assert_eq!(info.mip_levels, 1);
}

#[test]
fn get_info_is_authoritative_for_descriptor() {
    let atlas = sample_atlas();
    let info = atlas.get_info("volume").unwrap();
    assert_eq!(info.size, (128, 128, 128));
    assert_eq!(info.mip_levels, 7);
}

#[test]
fn get_info_unknown_key_and_buffer_answer_nothing() {
    let atlas = sample_atlas();
    assert!(atlas.get_info("missing").is_none());
    assert!(atlas.get_info("dirty").is_none());
    assert!(atlas.get("missing", 0).is_none());
    assert!(atlas.get("dirty", 0).is_none());
}

#[test]
fn get_buffer_answers_buffers_only() {
    let atlas = sample_atlas();
    assert_eq!(atlas.get_buffer("dirty"), Some(&5));
    assert!(atlas.get_buffer("color").is_none());
    assert!(atlas.get_buffer("missing").is_none());
}

#[test]
fn get_default_sampler_returns_the_sampler() {
    let atlas = sample_atlas();
    assert_eq!(*atlas.get_default_sampler(), 99);
}

#[test]
fn resize_keeps_scene_resources_byte_identical() {
    let mut atlas = sample_atlas();
    let volume_before = atlas.get_info("volume").unwrap();
    atlas.resize((800, 600));
    let volume_after = atlas.get_info("volume").unwrap();
    assert_eq!(volume_before, volume_after);
    assert!(atlas.get_info("dirty").is_none());
    assert_eq!(atlas.get_buffer("dirty"), Some(&5));
    let color = atlas.get_info("color").unwrap();
    assert_eq!(color.size, (800, 600, 1));
    let history = atlas.get_info("history").unwrap();
    assert_eq!(history.size, (800, 600, 1));
}

#[test]
fn resize_plan_lists_exactly_the_window_sized_keys() {
    let atlas = sample_atlas();
    let plan = atlas.resize_plan();
    assert_eq!(plan.len(), 2);
    let mut saw_color = false;
    let mut saw_history = false;
    for (key, is_swap) in &plan {
        if key == "color" {
            assert!(!is_swap);
            saw_color = true;
        } else if key == "history" {
            assert!(is_swap);
            saw_history = true;
        } else {
            panic!("unexpected key in resize plan: {}", key);
        }
    }
    assert!(saw_color && saw_history);
}

#[test]
fn swap_ping_pong_never_reads_what_it_writes() {
    let atlas = sample_atlas();
    for parity in 0u64..6 {
        let (read, write) = atlas.get_view_swapchain("history", parity).unwrap();
        assert_ne!(read, write);
    }
}

#[test]
fn swap_alternates_between_frames() {
    let atlas = sample_atlas();
    let (read0, write0) = atlas.get_view_swapchain("history", 0).unwrap();
    let (read1, write1) = atlas.get_view_swapchain("history", 1).unwrap();
    assert_eq!(*write0, *read1);
    assert_eq!(*read0, *write1);
}

#[test]
fn get_resolves_swap_to_the_current_write_side() {
    let atlas = sample_atlas();
    assert_eq!(atlas.get("history", 0), Some(&3));
    assert_eq!(atlas.get("history", 1), Some(&2));
    assert_eq!(atlas.get_view("history", 2), Some(&3));
    // the same texture the swap lookup hands out as its write component
    for parity in 0u64..4 {
        let (_, write) = atlas.get_view_swapchain("history", parity).unwrap();
        assert_eq!(atlas.get("history", parity), Some(write));
        assert_eq!(atlas.get_view_descriptor("history", 0, parity), Some(write));
    }
}

#[test]
fn get_view_descriptor_rejects_missing_mip_levels() {
    let atlas = sample_atlas();
    assert_eq!(atlas.get_view_descriptor("volume", 0, 0), Some(&4));
    assert_eq!(atlas.get_view_descriptor("volume", 6, 0), Some(&4));
    assert!(atlas.get_view_descriptor("volume", 7, 0).is_none());
    assert_eq!(atlas.get_view_descriptor("color", 0, 0), Some(&1));
    assert!(atlas.get_view_descriptor("color", 1, 0).is_none());
}

#[test]
fn reregistering_identically_is_idempotent() {
    let mut atlas = sample_atlas();
    atlas.register("color", 1);
    let once = atlas.get_info("color").unwrap();
    let volume_once = atlas.get_info("volume").unwrap();
    atlas.register("color", 1);
    assert_eq!(atlas.get_info("color").unwrap(), once);
    assert_eq!(atlas.get_info("volume").unwrap(), volume_once);
    assert_eq!(atlas.get("color", 0), Some(&1));
}

#[test]
fn reregistering_replaces_the_resource() {
    let mut atlas = sample_atlas();
    atlas.register("color", 42);
    assert_eq!(atlas.get("color", 0), Some(&42));
    assert_eq!(atlas.get("history", 0), Some(&3));
}
