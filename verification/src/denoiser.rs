use vstd::prelude::*;

use crate::atlas::{TextureAtlas, TextureType};
use crate::frame::FrameSettings;
use crate::grid::Rgba;

verus! {

/// Fixed-point scale of the reprojection weight: a weight of
/// `REPROJECTION_ONE` blends in the history color entirely, a weight of `0`
/// keeps the current ray-marched color untouched.
pub const REPROJECTION_ONE: u32 = 1000;

/// `mix(cur, hist, weight)` on one channel, rounded down: the value the
/// blend stage writes for that channel.
pub open spec fn spec_mix_channel(cur: u8, hist: u8, weight: u32) -> int
    recommends
        weight <= REPROJECTION_ONE,
{
    (cur * (REPROJECTION_ONE - weight) + hist * weight) / (REPROJECTION_ONE as int)
}

/// Linear blend of one color channel by the fixed-point reprojection weight.
pub fn mix_channel(cur: u8, hist: u8, weight: u32) -> (r: u8)
    requires
        weight <= REPROJECTION_ONE,
    ensures
        r == spec_mix_channel(cur, hist, weight),
{
    proof {
        let c: int = cur as int;
        let h: int = hist as int;
        let w: int = weight as int;
        assert(0 <= c * (1000 - w) && 0 <= h * w && c * (1000 - w) + h * w <= 255000)
            by (nonlinear_arith)
            requires
                0 <= c <= 255,
                0 <= h <= 255,
                0 <= w <= 1000,
        ;
    }
    let num: u32 = (cur as u32) * (REPROJECTION_ONE - weight) + (hist as u32) * weight;
    (num / REPROJECTION_ONE) as u8
}

/// `mix(cur, hist, weight)` applied to every channel.
pub open spec fn spec_mix(cur: Rgba, hist: Rgba, weight: u32) -> Rgba
    recommends
        weight <= REPROJECTION_ONE,
{
    Rgba {
        r: spec_mix_channel(cur.r, hist.r, weight) as u8,
        g: spec_mix_channel(cur.g, hist.g, weight) as u8,
        b: spec_mix_channel(cur.b, hist.b, weight) as u8,
        a: spec_mix_channel(cur.a, hist.a, weight) as u8,
    }
}

/// Linear blend of a current color with a history color.
pub fn mix(cur: Rgba, hist: Rgba, weight: u32) -> (r: Rgba)
    requires
        weight <= REPROJECTION_ONE,
    ensures
        r == spec_mix(cur, hist, weight),
{
    Rgba {
        r: mix_channel(cur.r, hist.r, weight),
        g: mix_channel(cur.g, hist.g, weight),
        b: mix_channel(cur.b, hist.b, weight),
        a: mix_channel(cur.a, hist.a, weight),
    }
}

/// Blending a channel with itself changes nothing, whatever the weight.
pub proof fn lemma_mix_channel_self(c: u8, weight: u32)
    requires
        weight <= REPROJECTION_ONE,
    ensures
        spec_mix_channel(c, c, weight) == c as int,
{
    let ci: int = c as int;
    let w: int = weight as int;
    assert(ci * (1000 - w) + ci * w == ci * 1000) by (nonlinear_arith);
    assert(ci * 1000 / 1000 == ci) by (nonlinear_arith)
        requires
            0 <= ci,
    ;
}

/// Weight `0` keeps the current color exactly.
pub proof fn lemma_mix_channel_zero(cur: u8, hist: u8)
    ensures
        spec_mix_channel(cur, hist, 0) == cur as int,
{
    let c: int = cur as int;
    assert(c * 1000 / 1000 == c) by (nonlinear_arith)
        requires
            0 <= c,
    ;
}

/// Weight `REPROJECTION_ONE` takes the history color exactly.
pub proof fn lemma_mix_channel_one(cur: u8, hist: u8)
    ensures
        spec_mix_channel(cur, hist, REPROJECTION_ONE) == hist as int,
{
    let h: int = hist as int;
    assert(h * 1000 / 1000 == h) by (nonlinear_arith)
        requires
            0 <= h,
    ;
}

/// Blending a color with itself changes nothing, whatever the weight.
pub proof fn lemma_mix_self(c: Rgba, weight: u32)
    requires
        weight <= REPROJECTION_ONE,
    ensures
        spec_mix(c, c, weight) == c,
{
    lemma_mix_channel_self(c.r, weight);
    lemma_mix_channel_self(c.g, weight);
    lemma_mix_channel_self(c.b, weight);
    lemma_mix_channel_self(c.a, weight);
}

/// The color the blend stage writes for one pixel: the current ray-marched
/// color blended with the reprojected history sample. On a frame with no
/// valid history, reprojection degenerates to the current frame's own
/// color, so no stale data can leak in.
pub open spec fn spec_denoise_pixel(
    cur: Rgba,
    hist: Rgba,
    history_valid: bool,
    weight: u32,
) -> Rgba {
    if history_valid {
        spec_mix(cur, hist, weight)
    } else {
        spec_mix(cur, cur, weight)
    }
}

/// Blend one pixel of the current frame with its history sample.
pub fn denoise_pixel(cur: Rgba, hist: Rgba, history_valid: bool, weight: u32) -> (r: Rgba)
    requires
        weight <= REPROJECTION_ONE,
    ensures
        r == spec_denoise_pixel(cur, hist, history_valid, weight),
{
    if history_valid {
        mix(cur, hist, weight)
    } else {
        mix(cur, cur, weight)
    }
}

/// Cold-start law: on a frame without valid history the output equals the
/// ray marcher's raw color, whatever the blend weight and whatever the
/// history texture holds.
pub proof fn lemma_cold_start(cur: Rgba, hist: Rgba, weight: u32)
    requires
        weight <= REPROJECTION_ONE,
    ensures
        spec_denoise_pixel(cur, hist, false, weight) == cur,
{
    lemma_mix_self(cur, weight);
}

/// Zero-weight law: with a reprojection weight of zero the output equals
/// the ray marcher's raw color, history valid or not.
pub proof fn lemma_reprojection_zero(cur: Rgba, hist: Rgba, history_valid: bool)
    ensures
        spec_denoise_pixel(cur, hist, history_valid, 0) == cur,
{
    lemma_mix_channel_zero(cur.r, hist.r);
    lemma_mix_channel_zero(cur.g, hist.g);
    lemma_mix_channel_zero(cur.b, hist.b);
    lemma_mix_channel_zero(cur.a, hist.a);
    lemma_mix_self(cur, 0);
}

/// A full-weight blend takes the history color unchanged.
pub proof fn lemma_mix_full(cur: Rgba, hist: Rgba)
    ensures
        spec_mix(cur, hist, REPROJECTION_ONE) == hist,
{
    lemma_mix_channel_one(cur.r, hist.r);
    lemma_mix_channel_one(cur.g, hist.g);
    lemma_mix_channel_one(cur.b, hist.b);
    lemma_mix_channel_one(cur.a, hist.a);
}

/// Static-scene law: with a static camera the ray marcher produces the same
/// color `c` every frame, and reprojection maps the pixel to itself. The
/// first frame has no history and outputs `c`; the next frame, even at full
/// reprojection weight, blends `c` with that history and outputs `c` again:
/// the output has converged to the ray-marched color.
pub proof fn lemma_static_scene_two_frames(c: Rgba, h0: Rgba, weight: u32)
    requires
        weight <= REPROJECTION_ONE,
    ensures
        spec_denoise_pixel(
            c,
            spec_denoise_pixel(c, h0, false, weight),
            true,
            REPROJECTION_ONE,
        ) == c,
{
    lemma_cold_start(c, h0, weight);
    lemma_mix_full(c, c);
}

/// The temporal denoiser's host state: the camera matrix the previous
/// frame was rendered with (absent before the first frame) and how many
/// frames it has processed. The matrix type `M` is opaque; the application
/// inverts it for the reprojection uniform.
pub struct Denoiser<M> {
    past_camera: Option<M>,
    frame_count: u64,
    size: (u32, u32),
}

/// One frame's denoise decisions: whether a history frame exists, the
/// effective blend weight, the camera matrix of the previous frame (to be
/// inverted for reprojection), and whether the edge-avoiding blur runs.
pub struct DenoisePlan<M> {
    pub history_valid: bool,
    pub weight: u32,
    pub past_camera: Option<M>,
    pub enable_filtering: bool,
    pub blur_strength_milli: u32,
}

impl<M> Denoiser<M> {
    /// The camera matrix of the previous frame, if one was rendered.
    pub closed spec fn spec_past_camera(self) -> Option<M> {
        self.past_camera
    }

    /// How many frames this denoiser has processed.
    pub closed spec fn spec_frame_count(self) -> u64 {
        self.frame_count
    }

    /// The output resolution.
    pub closed spec fn spec_size(self) -> (u32, u32) {
        self.size
    }

    /// A fresh denoiser: it registers its two double-buffered history
    /// attachments and starts with no history.
    pub fn new<R>(
        atlas: &mut TextureAtlas<R>,
        color_even: R,
        color_odd: R,
        depth_even: R,
        depth_odd: R,
    ) -> (r: Self)
        requires
            old(atlas).wf(),
        ensures
            final(atlas).wf(),
            final(atlas).spec_get("denoiser_attachment_color"@) == Some(
                TextureType::TextureSwapChain(color_even, color_odd),
            ),
            final(atlas).spec_get("denoiser_attachment_depth_normals"@) == Some(
                TextureType::TextureSwapChain(depth_even, depth_odd),
            ),
            forall|k: Seq<char>|
                k != "denoiser_attachment_color"@ && k != "denoiser_attachment_depth_normals"@
                    ==> final(atlas).spec_get(k) == old(atlas).spec_get(k),
            final(atlas).spec_window_size() == old(atlas).spec_window_size(),
            final(atlas).spec_sampler() == old(atlas).spec_sampler(),
            r.spec_past_camera() is None,
            r.spec_frame_count() == 0,
            r.spec_size() == old(atlas).spec_window_size(),
    {
        proof {
            lemma_denoiser_keys_distinct();
        }
        let size = atlas.window_size();
        atlas.register_swapchain("denoiser_attachment_color", color_even, color_odd);
        atlas.register_swapchain("denoiser_attachment_depth_normals", depth_even, depth_odd);
        Denoiser { past_camera: None, frame_count: 0, size }
    }

    /// Decide one frame's denoise pass: on the first frame history is
    /// invalid and the effective blend weight drops to zero; afterwards the
    /// configured weight applies, and the camera matrix used last frame is
    /// handed out for reprojection while this frame's is cached in its
    /// place.
    pub fn render(&mut self, camera: M, settings: &FrameSettings) -> (r: DenoisePlan<M>)
        requires
            old(self).spec_frame_count() < u64::MAX,
            settings.wf(),
        ensures
            r.history_valid == old(self).spec_past_camera() is Some,
            r.weight == if old(self).spec_past_camera() is Some {
                settings.reprojection_weight
            } else {
                0
            },
            r.weight <= REPROJECTION_ONE,
            r.past_camera == old(self).spec_past_camera(),
            r.enable_filtering == settings.enable_filtering,
            r.blur_strength_milli == settings.blur_strength_milli,
            final(self).spec_past_camera() == Some(camera),
            final(self).spec_frame_count() == old(self).spec_frame_count() + 1,
            final(self).spec_size() == old(self).spec_size(),
    {
        let history_valid = self.past_camera.is_some();
        let weight = if history_valid {
            settings.reprojection_weight
        } else {
            0
        };
        let mut past: Option<M> = Some(camera);
        core::mem::swap(&mut past, &mut self.past_camera);
        self.frame_count = self.frame_count + 1;
        DenoisePlan {
            history_valid,
            weight,
            past_camera: past,
            enable_filtering: settings.enable_filtering,
            blur_strength_milli: settings.blur_strength_milli,
        }
    }

    /// Record a new output resolution; the history state is kept.
    pub fn resize(&mut self, size: (u32, u32))
        ensures
            final(self).spec_size() == size,
            final(self).spec_past_camera() == old(self).spec_past_camera(),
            final(self).spec_frame_count() == old(self).spec_frame_count(),
    {
        self.size = size;
    }
}

/// The two history attachment keys differ.
proof fn lemma_denoiser_keys_distinct()
    ensures
        "denoiser_attachment_color"@ != "denoiser_attachment_depth_normals"@,
{
    reveal_strlit("denoiser_attachment_color");
    reveal_strlit("denoiser_attachment_depth_normals");
    assert("denoiser_attachment_color"@.len() != "denoiser_attachment_depth_normals"@.len());
}

} // verus!
