use vstd::prelude::*;

use crate::atlas::{TextureAtlas, TextureInfo, TextureType};
use crate::frame::FrameSettings;

verus! {

/// The ray-marching pass: for each pixel it marches a camera ray through
/// the volume's mip chain, coarse levels first, and writes color, linear
/// depth and world-space hit position into three window-sized attachments.
pub struct Raytracer {}

/// One frame's ray-march decisions: the integer uniform values every ray
/// uses. Rays that exhaust `max_steps` without a hit resolve to the
/// background color by policy; given identical inputs the pass is
/// deterministic.
pub struct RayTracePlan {
    /// Output resolution, the current window size.
    pub resolution: (u32, u32),
    /// Cell dimensions of the volume being marched.
    pub scene_size: (u32, u32, u32),
    /// How many mip levels the marcher may skip through.
    pub octree_depth: u32,
    /// Hard cap on steps per ray.
    pub max_steps: u32,
    /// Samples per pixel.
    pub samples: u32,
    /// Whether secondary lighting rays are traced.
    pub do_lighting: bool,
    /// The global frame parity counter, for noise decorrelation.
    pub frame_count: u64,
}

impl Raytracer {
    /// A fresh ray marcher: it registers its three window-sized output
    /// attachments and the blue-noise lookup texture decoded by the caller.
    pub fn new<R>(
        atlas: &mut TextureAtlas<R>,
        color: R,
        depth: R,
        world_position: R,
        noise: R,
        noise_width: u32,
        noise_height: u32,
    ) -> (r: Self)
        requires
            old(atlas).wf(),
        ensures
            final(atlas).wf(),
            final(atlas).spec_get("raytracer_attachment_color"@) == Some(
                TextureType::SingleTexture(color),
            ),
            final(atlas).spec_get("raytracer_attachment_depth"@) == Some(
                TextureType::SingleTexture(depth),
            ),
            final(atlas).spec_get("raytracer_attachment_world_position"@) == Some(
                TextureType::SingleTexture(world_position),
            ),
            final(atlas).spec_get("raytracer_binding_noise"@) == Some(
                TextureType::DescriptorTexture(
                    noise,
                    TextureInfo { size: (noise_width, noise_height, 1), mip_levels: 1 },
                ),
            ),
            forall|k: Seq<char>|
                k != "raytracer_attachment_color"@ && k != "raytracer_attachment_depth"@ && k
                    != "raytracer_attachment_world_position"@ && k != "raytracer_binding_noise"@
                    ==> final(atlas).spec_get(k) == old(atlas).spec_get(k),
            final(atlas).spec_window_size() == old(atlas).spec_window_size(),
            final(atlas).spec_sampler() == old(atlas).spec_sampler(),
    {
        proof {
            lemma_raytracer_keys_distinct();
        }
        atlas.register("raytracer_attachment_color", color);
        atlas.register("raytracer_attachment_depth", depth);
        atlas.register("raytracer_attachment_world_position", world_position);
        atlas.register_from_image("raytracer_binding_noise", noise, noise_width, noise_height);
        Raytracer {  }
    }

    /// Decide one frame's ray-march pass from the volume's registered
    /// metadata and the frame's configuration snapshot. A missing volume
    /// entry answers nothing: it means the pipeline was never wired, which
    /// callers treat as fatal.
    pub fn render<R>(
        &self,
        atlas: &TextureAtlas<R>,
        settings: &FrameSettings,
        frame_count: u64,
    ) -> (r: Option<RayTracePlan>)
        requires
            atlas.wf(),
        ensures
            match atlas.spec_get_info("voxelizer_attachment_world"@) {
                Some(info) => r matches Some(p) && p == (RayTracePlan {
                    resolution: atlas.spec_window_size(),
                    scene_size: info.size,
                    octree_depth: info.mip_levels,
                    max_steps: settings.max_steps,
                    samples: settings.samples,
                    do_lighting: settings.do_lighting,
                    frame_count,
                }),
                None => r is None,
            },
    {
        let info = match atlas.get_info("voxelizer_attachment_world") {
            Some(info) => info,
            None => {
                return None;
            },
        };
        let resolution = atlas.window_size();
        Some(
            RayTracePlan {
                resolution,
                scene_size: info.size,
                octree_depth: info.mip_levels,
                max_steps: settings.max_steps,
                samples: settings.samples,
                do_lighting: settings.do_lighting,
                frame_count,
            },
        )
    }
}

/// The four ray-marcher keys differ pairwise.
proof fn lemma_raytracer_keys_distinct()
    ensures
        "raytracer_attachment_color"@ != "raytracer_attachment_depth"@,
        "raytracer_attachment_color"@ != "raytracer_attachment_world_position"@,
        "raytracer_attachment_color"@ != "raytracer_binding_noise"@,
        "raytracer_attachment_depth"@ != "raytracer_attachment_world_position"@,
        "raytracer_attachment_depth"@ != "raytracer_binding_noise"@,
        "raytracer_attachment_world_position"@ != "raytracer_binding_noise"@,
{
    reveal_strlit("raytracer_attachment_color");
    reveal_strlit("raytracer_attachment_depth");
    reveal_strlit("raytracer_attachment_world_position");
    reveal_strlit("raytracer_binding_noise");
    assert("raytracer_attachment_color"@[21] != "raytracer_attachment_depth"@[21]);
    assert("raytracer_attachment_color"@.len() != "raytracer_attachment_world_position"@.len());
    assert("raytracer_attachment_color"@.len() != "raytracer_binding_noise"@.len());
    assert("raytracer_attachment_depth"@.len() != "raytracer_attachment_world_position"@.len());
    assert("raytracer_attachment_depth"@.len() != "raytracer_binding_noise"@.len());
    assert("raytracer_attachment_world_position"@.len() != "raytracer_binding_noise"@.len());
}

} // verus!
