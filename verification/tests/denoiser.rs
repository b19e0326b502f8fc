use rustvoxels::atlas::TextureAtlas;
use rustvoxels::denoiser::{denoise_pixel, mix, mix_channel, Denoiser, REPROJECTION_ONE};
use rustvoxels::frame::FrameSettings;
use rustvoxels::grid::Rgba;

fn settings(weight: u32) -> FrameSettings {
    FrameSettings {
        samples: 1,
        max_steps: 200,
        reprojection_weight: weight,
        blur_strength_milli: 1500,
        enable_filtering: true,
        do_lighting: false,
    }
}

#[test]
fn mix_channel_endpoints_are_exact() {
    assert_eq!(mix_channel(200, 100, 0), 200);
    assert_eq!(mix_channel(200, 100, REPROJECTION_ONE), 100);
    assert_eq!(mix_channel(200, 100, 500), 150);
    // rounding is toward zero
    assert_eq!(mix_channel(1, 0, 333), 0);
    assert_eq!(mix_channel(255, 255, 777), 255);
}

#[test]
fn mix_blends_per_channel() {
    let cur = Rgba { r: 100, g: 0, b: 200, a: 255 };
    let hist = Rgba { r: 200, g: 100, b: 0, a: 255 };
    let out = mix(cur, hist, 250);
    assert_eq!(out, Rgba { r: 125, g: 25, b: 150, a: 255 });
}

#[test]
fn cold_start_output_equals_raw_raymarch_color() {
    let cur = Rgba { r: 12, g: 34, b: 56, a: 255 };
    let garbage = Rgba { r: 250, g: 1, b: 99, a: 3 };
    // whatever the weight and whatever the history texture holds
    for weight in [0, 1, 500, 900, REPROJECTION_ONE] {
        assert_eq!(denoise_pixel(cur, garbage, false, weight), cur);
    }
}

#[test]
fn zero_weight_ignores_history_entirely() {
    let cur = Rgba { r: 12, g: 34, b: 56, a: 255 };
    let hist = Rgba { r: 200, g: 200, b: 200, a: 200 };
    assert_eq!(denoise_pixel(cur, hist, true, 0), cur);
    assert_eq!(denoise_pixel(cur, hist, false, 0), cur);
}

#[test]
fn static_camera_converges_to_the_raymarched_color() {
    let c = Rgba { r: 77, g: 88, b: 99, a: 255 };
    let seeded = Rgba { r: 0, g: 0, b: 0, a: 0 };
    // first-ever frame: no history
    let out0 = denoise_pixel(c, seeded, false, 900);
    assert_eq!(out0, c);
    // second frame, full reprojection weight, same world point, same pixel
    let out1 = denoise_pixel(c, out0, true, REPROJECTION_ONE);
    assert_eq!(out1, c);
}

#[test]
fn denoiser_state_machine_caches_the_previous_camera() {
    let mut atlas: TextureAtlas<u64> = TextureAtlas::new(0, (320, 200));
    let mut den: Denoiser<i32> = Denoiser::new(&mut atlas, 10, 11, 20, 21);
    assert!(atlas.get_info("denoiser_attachment_color").is_some());
    assert!(atlas.get_info("denoiser_attachment_depth_normals").is_some());

    let plan0 = den.render(41, &settings(900));
    assert!(!plan0.history_valid);
    assert_eq!(plan0.weight, 0);
    assert_eq!(plan0.past_camera, None);

    let plan1 = den.render(42, &settings(900));
    assert!(plan1.history_valid);
    assert_eq!(plan1.weight, 900);
    assert_eq!(plan1.past_camera, Some(41));

    let plan2 = den.render(43, &settings(250));
    assert_eq!(plan2.weight, 250);
    assert_eq!(plan2.past_camera, Some(42));
    assert_eq!(plan2.blur_strength_milli, 1500);
    assert!(plan2.enable_filtering);
}

#[test]
fn denoiser_history_attachments_ping_pong() {
    let mut atlas: TextureAtlas<u64> = TextureAtlas::new(0, (320, 200));
    let _den: Denoiser<i32> = Denoiser::new(&mut atlas, 10, 11, 20, 21);
    let (read0, write0) = atlas.get_view_swapchain("denoiser_attachment_color", 0).unwrap();
    assert_ne!(read0, write0);
    let (read1, _) = atlas.get_view_swapchain("denoiser_attachment_color", 1).unwrap();
    assert_eq!(*write0, *read1);
}
