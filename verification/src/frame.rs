use vstd::prelude::*;

use crate::atlas::{TextureAtlas, TextureType};
use crate::denoiser::{DenoisePlan, Denoiser, REPROJECTION_ONE};
use crate::grid::VoxelPos;
use crate::mips::{self, MipPass, Mipmapper};
use crate::raytracer::{RayTracePlan, Raytracer};
use crate::voxelizer::{spec_volume_info, VoxelizePlan, Voxelizer};
use crate::world::{spec_world_components, World};

verus! {

/// The per-frame scalar configuration, read from the world/config owner
/// once before pass sequencing begins, so no pass can observe a
/// half-updated snapshot. Fractional config values are carried in
/// thousandths.
#[derive(Clone, Copy, PartialEq, Eq, Structural, Debug)]
pub struct FrameSettings {
    /// Ray-marcher samples per pixel.
    pub samples: u32,
    /// Hard cap on ray-march steps; rays past it resolve to background.
    pub max_steps: u32,
    /// Reprojection blend weight in thousandths of one.
    pub reprojection_weight: u32,
    /// Edge-avoiding blur falloff in thousandths.
    pub blur_strength_milli: u32,
    /// Whether the denoiser's blur stage runs at all.
    pub enable_filtering: bool,
    /// Whether the ray marcher shades with lighting.
    pub do_lighting: bool,
}

impl FrameSettings {
    /// Well-formed: the blend weight is a fraction of one.
    pub open spec fn wf(self) -> bool {
        self.reprojection_weight <= REPROJECTION_ONE
    }
}

/// The passes of one frame, in dependency order: each consumes what the
/// one before committed, so no two may be reordered or overlapped.
#[derive(Clone, Copy, PartialEq, Eq, Structural, Debug)]
pub enum PassKind {
    /// Rasterize the scene's meshes into the volume, flagging dirty cells.
    Voxelize,
    /// Recompute the volume's coarser mip levels from the dirty cells.
    MipRegenerate,
    /// March camera rays through the mip chain.
    RayMarch,
    /// Blend with the reprojected history and blur.
    Denoise,
    /// Copy the denoised color to the presentable surface.
    Composite,
}

/// The GPU resources the pipeline owns for its whole lifetime, created by
/// the device owner before construction: the default sampler, the volume
/// texture and dirty-cell buffers, the ray-march attachments, the decoded
/// blue-noise texture, and the denoiser's two history pairs.
pub struct RendererHandles<R> {
    pub sampler: R,
    pub volume_texture: R,
    pub changed_buffer: R,
    pub changed_index_buffer: R,
    pub raytrace_color: R,
    pub raytrace_depth: R,
    pub raytrace_world_position: R,
    pub noise_texture: R,
    pub noise_size: (u32, u32),
    pub denoise_color: (R, R),
    pub denoise_depth: (R, R),
}

/// Freshly created window-sized textures for a resize: one per ray-march
/// attachment and one pair per history attachment. Scene-sized resources
/// need no replacements — resize never touches them.
pub struct ResizeHandles<R> {
    pub raytrace_color: R,
    pub raytrace_depth: R,
    pub raytrace_world_position: R,
    pub denoise_color: (R, R),
    pub denoise_depth: (R, R),
}

/// One frame's worth of work, decided up front and in order: the pass list
/// and each pass's resolved inputs. The device owner encodes the passes
/// into one command stream in exactly this order and submits it once.
pub struct FramePlan<M> {
    pub passes: Vec<PassKind>,
    pub voxelize: VoxelizePlan,
    pub mip_passes: Vec<MipPass>,
    pub raytrace: RayTracePlan,
    pub denoise: DenoisePlan<M>,
    /// The attachment the composite pass copies to the presentable surface:
    /// the denoised color the denoise pass just wrote. Resolved through
    /// `get` on this key, which hands out the swap side written this frame.
    pub composite_source: &'static str,
}

/// The frame orchestrator: owns the resource registry and the per-pass
/// state, sequences the passes strictly, and advances the frame parity
/// exactly once per frame, after compositing.
pub struct Renderer<R, M> {
    atlas: TextureAtlas<R>,
    voxelizer: Voxelizer,
    mipmapper: Mipmapper,
    raytracer: Raytracer,
    denoiser: Denoiser<M>,
    frame_count: u64,
    size: (u32, u32),
}

impl<R, M> Renderer<R, M> {
    /// The resource registry.
    pub closed spec fn spec_atlas(self) -> TextureAtlas<R> {
        self.atlas
    }

    /// The global frame parity counter.
    pub closed spec fn spec_frame_count(self) -> u64 {
        self.frame_count
    }

    /// The window size.
    pub closed spec fn spec_size(self) -> (u32, u32) {
        self.size
    }

    /// How many mip levels above the base the mip regeneration maintains.
    pub closed spec fn spec_mip_levels(self) -> u32 {
        self.mipmapper.spec_mip_level_count()
    }

    /// The camera matrix cached from the previous frame, if any.
    pub closed spec fn spec_past_camera(self) -> Option<M> {
        self.denoiser.spec_past_camera()
    }

    /// Well-formed: the registry has unique keys, the volume is registered
    /// as a scene-sized descriptor texture, and the denoiser has processed
    /// exactly as many frames as the orchestrator. Construction establishes
    /// this and every method keeps it.
    pub closed spec fn wf(self) -> bool {
        &&& self.spec_atlas().wf()
        &&& self.spec_atlas().spec_get("voxelizer_attachment_world"@) matches Some(
            TextureType::DescriptorTexture(_, _),
        )
        &&& self.denoiser.spec_frame_count() == self.spec_frame_count()
    }

    /// Build the pipeline: register every resource under its key and start
    /// at frame zero with no history.
    pub fn new(window_size: (u32, u32), volume_size: (u32, u32, u32), handles: RendererHandles<R>) -> (r: Self)
        ensures
            r.wf(),
            r.spec_frame_count() == 0,
            r.spec_size() == window_size,
            r.spec_past_camera() is None,
            r.spec_mip_levels() as nat == mips::spec_mip_levels(
                volume_size.0 as nat,
                volume_size.1 as nat,
                volume_size.2 as nat,
            ),
            r.spec_atlas().spec_window_size() == window_size,
            r.spec_atlas().spec_get("voxelizer_attachment_world"@) == Some(
                TextureType::DescriptorTexture(
                    handles.volume_texture,
                    spec_volume_info(volume_size),
                ),
            ),
            r.spec_atlas().spec_get("voxelizer_binding_voxels_changed"@) == Some(
                TextureType::Buffer(handles.changed_buffer),
            ),
            r.spec_atlas().spec_get("voxelizer_binding_voxels_changed_index"@) == Some(
                TextureType::Buffer(handles.changed_index_buffer),
            ),
            r.spec_atlas().spec_get("raytracer_attachment_color"@) == Some(
                TextureType::SingleTexture(handles.raytrace_color),
            ),
            r.spec_atlas().spec_get("raytracer_attachment_depth"@) == Some(
                TextureType::SingleTexture(handles.raytrace_depth),
            ),
            r.spec_atlas().spec_get("raytracer_attachment_world_position"@) == Some(
                TextureType::SingleTexture(handles.raytrace_world_position),
            ),
            r.spec_atlas().spec_get("raytracer_binding_noise"@) matches Some(
                TextureType::DescriptorTexture(_, _),
            ),
            r.spec_atlas().spec_get("denoiser_attachment_color"@) == Some(
                TextureType::TextureSwapChain(
                    handles.denoise_color.0,
                    handles.denoise_color.1,
                ),
            ),
            r.spec_atlas().spec_get("denoiser_attachment_depth_normals"@) == Some(
                TextureType::TextureSwapChain(
                    handles.denoise_depth.0,
                    handles.denoise_depth.1,
                ),
            ),
    {
        proof {
            lemma_pipeline_keys_distinct();
        }
        let mut atlas = TextureAtlas::new(handles.sampler, window_size);
        let voxelizer = Voxelizer::new(
            &mut atlas,
            handles.volume_texture,
            handles.changed_buffer,
            handles.changed_index_buffer,
            volume_size,
        );
        let mipmapper = Mipmapper::new(volume_size);
        let raytracer = Raytracer::new(
            &mut atlas,
            handles.raytrace_color,
            handles.raytrace_depth,
            handles.raytrace_world_position,
            handles.noise_texture,
            handles.noise_size.0,
            handles.noise_size.1,
        );
        let denoiser = Denoiser::new(
            &mut atlas,
            handles.denoise_color.0,
            handles.denoise_color.1,
            handles.denoise_depth.0,
            handles.denoise_depth.1,
        );
        Renderer {
            atlas,
            voxelizer,
            mipmapper,
            raytracer,
            denoiser,
            frame_count: 0,
            size: window_size,
        }
    }

    /// The resource registry, for resolving views and buffers by key.
    pub fn atlas(&self) -> (r: &TextureAtlas<R>)
        ensures
            *r == self.spec_atlas(),
    {
        &self.atlas
    }

    /// The global frame parity counter: how many frames have completed.
    pub fn frame_count(&self) -> (r: u64)
        ensures
            r == self.spec_frame_count(),
    {
        self.frame_count
    }

    /// The current window size.
    pub fn size(&self) -> (r: (u32, u32))
        ensures
            r == self.spec_size(),
    {
        self.size
    }

    /// Per-frame host work outside the pass sequence: none.
    pub fn update(&mut self)
        ensures
            *final(self) == *old(self),
    {
    }

    /// Decide one frame: sequence the five passes in dependency order,
    /// resolve each pass's inputs from the snapshot taken by the caller,
    /// and advance the frame parity exactly once. `dirty` is the dirty-cell
    /// list the previous voxelization produced.
    pub fn render<C>(
        &mut self,
        world: &World<C>,
        camera: M,
        settings: &FrameSettings,
        dirty: &Vec<VoxelPos>,
    ) -> (r: FramePlan<M>)
        requires
            old(self).wf(),
            settings.wf(),
            old(self).spec_frame_count() < u64::MAX,
        ensures
            final(self).wf(),
            final(self).spec_frame_count() == old(self).spec_frame_count() + 1,
            final(self).spec_atlas() == old(self).spec_atlas(),
            final(self).spec_size() == old(self).spec_size(),
            final(self).spec_mip_levels() == old(self).spec_mip_levels(),
            final(self).spec_past_camera() == Some(camera),
            r.passes@ == seq![
                PassKind::Voxelize,
                PassKind::MipRegenerate,
                PassKind::RayMarch,
                PassKind::Denoise,
                PassKind::Composite,
            ],
            r.voxelize.draw_count == spec_world_components(
                world.entities@,
                crate::entity::ComponentKind::Model,
            ).len(),
            ({
                let sets = mips::spec_working_sets(dirty@, old(self).spec_mip_levels() as nat);
                &&& r.mip_passes@.len() == sets.len()
                &&& forall|i: int|
                    0 <= i < r.mip_passes@.len() ==> (#[trigger] r.mip_passes@[i]).level == i + 1
                        && r.mip_passes@[i].positions@ == sets[i]
                        && r.mip_passes@[i].workgroups == mips::spec_workgroups(sets[i].len())
            }),
            ({
                let info = old(self).spec_atlas().spec_get_info(
                    "voxelizer_attachment_world"@,
                ).unwrap();
                r.raytrace == (RayTracePlan {
                    resolution: old(self).spec_atlas().spec_window_size(),
                    scene_size: info.size,
                    octree_depth: info.mip_levels,
                    max_steps: settings.max_steps,
                    samples: settings.samples,
                    do_lighting: settings.do_lighting,
                    frame_count: old(self).spec_frame_count(),
                })
            }),
            r.denoise.history_valid == old(self).spec_past_camera() is Some,
            r.denoise.weight == if old(self).spec_past_camera() is Some {
                settings.reprojection_weight
            } else {
                0
            },
            r.denoise.weight <= REPROJECTION_ONE,
            r.denoise.past_camera == old(self).spec_past_camera(),
            r.composite_source@ == "denoiser_attachment_color"@,
    {
        let voxelize = self.voxelizer.render(world);
        let mip_passes = self.mipmapper.render(dirty);
        let raytrace = match self.raytracer.render(&self.atlas, settings, self.frame_count) {
            Some(p) => p,
            None => {
                proof {
                    assert(false);
                }
                RayTracePlan {
                    resolution: (0, 0),
                    scene_size: (0, 0, 0),
                    octree_depth: 0,
                    max_steps: 0,
                    samples: 0,
                    do_lighting: false,
                    frame_count: 0,
                }
            },
        };
        let denoise = self.denoiser.render(camera, settings);
        self.frame_count = self.frame_count + 1;
        let mut passes: Vec<PassKind> = Vec::new();
        passes.push(PassKind::Voxelize);
        passes.push(PassKind::MipRegenerate);
        passes.push(PassKind::RayMarch);
        passes.push(PassKind::Denoise);
        passes.push(PassKind::Composite);
        proof {
            assert(passes@ =~= seq![
                PassKind::Voxelize,
                PassKind::MipRegenerate,
                PassKind::RayMarch,
                PassKind::Denoise,
                PassKind::Composite,
            ]);
        }
        FramePlan {
            passes,
            voxelize,
            mip_passes,
            raytrace,
            denoise,
            composite_source: "denoiser_attachment_color",
        }
    }

    /// React to a window resize: record the new size and re-register every
    /// window-sized attachment with the freshly created textures. The
    /// scene-sized volume, the dirty-cell buffers and the noise texture are
    /// left untouched — recreating them would destroy the volume contents.
    pub fn resize(&mut self, new_size: (u32, u32), handles: ResizeHandles<R>)
        requires
            old(self).wf(),
        ensures
            final(self).wf(),
            final(self).spec_size() == new_size,
            final(self).spec_atlas().spec_window_size() == new_size,
            final(self).spec_frame_count() == old(self).spec_frame_count(),
            final(self).spec_past_camera() == old(self).spec_past_camera(),
            final(self).spec_mip_levels() == old(self).spec_mip_levels(),
            final(self).spec_atlas().spec_get("raytracer_attachment_color"@) == Some(
                TextureType::SingleTexture(handles.raytrace_color),
            ),
            final(self).spec_atlas().spec_get("raytracer_attachment_depth"@) == Some(
                TextureType::SingleTexture(handles.raytrace_depth),
            ),
            final(self).spec_atlas().spec_get("raytracer_attachment_world_position"@) == Some(
                TextureType::SingleTexture(handles.raytrace_world_position),
            ),
            final(self).spec_atlas().spec_get("denoiser_attachment_color"@) == Some(
                TextureType::TextureSwapChain(
                    handles.denoise_color.0,
                    handles.denoise_color.1,
                ),
            ),
            final(self).spec_atlas().spec_get("denoiser_attachment_depth_normals"@) == Some(
                TextureType::TextureSwapChain(
                    handles.denoise_depth.0,
                    handles.denoise_depth.1,
                ),
            ),
            forall|k: Seq<char>|
                k != "raytracer_attachment_color"@ && k != "raytracer_attachment_depth"@ && k
                    != "raytracer_attachment_world_position"@ && k != "denoiser_attachment_color"@
                    && k != "denoiser_attachment_depth_normals"@
                    ==> final(self).spec_atlas().spec_get(k) == old(self).spec_atlas().spec_get(k),
            final(self).spec_atlas().spec_sampler() == old(self).spec_atlas().spec_sampler(),
    {
        proof {
            lemma_pipeline_keys_distinct();
        }
        self.atlas.resize(new_size);
        self.atlas.register("raytracer_attachment_color", handles.raytrace_color);
        self.atlas.register("raytracer_attachment_depth", handles.raytrace_depth);
        self.atlas.register(
            "raytracer_attachment_world_position",
            handles.raytrace_world_position,
        );
        self.atlas.register_swapchain(
            "denoiser_attachment_color",
            handles.denoise_color.0,
            handles.denoise_color.1,
        );
        self.atlas.register_swapchain(
            "denoiser_attachment_depth_normals",
            handles.denoise_depth.0,
            handles.denoise_depth.1,
        );
        self.denoiser.resize(new_size);
        self.size = new_size;
    }
}

/// The nine pipeline keys differ pairwise, so one registration never
/// displaces another's entry.
proof fn lemma_pipeline_keys_distinct()
    ensures
        "voxelizer_attachment_world"@ != "voxelizer_binding_voxels_changed"@,
        "voxelizer_attachment_world"@ != "voxelizer_binding_voxels_changed_index"@,
        "voxelizer_attachment_world"@ != "raytracer_attachment_color"@,
        "voxelizer_attachment_world"@ != "raytracer_attachment_depth"@,
        "voxelizer_attachment_world"@ != "raytracer_attachment_world_position"@,
        "voxelizer_attachment_world"@ != "raytracer_binding_noise"@,
        "voxelizer_attachment_world"@ != "denoiser_attachment_color"@,
        "voxelizer_attachment_world"@ != "denoiser_attachment_depth_normals"@,
        "voxelizer_binding_voxels_changed"@ != "voxelizer_binding_voxels_changed_index"@,
        "voxelizer_binding_voxels_changed"@ != "raytracer_attachment_color"@,
        "voxelizer_binding_voxels_changed"@ != "raytracer_attachment_depth"@,
        "voxelizer_binding_voxels_changed"@ != "raytracer_attachment_world_position"@,
        "voxelizer_binding_voxels_changed"@ != "raytracer_binding_noise"@,
        "voxelizer_binding_voxels_changed"@ != "denoiser_attachment_color"@,
        "voxelizer_binding_voxels_changed"@ != "denoiser_attachment_depth_normals"@,
        "voxelizer_binding_voxels_changed_index"@ != "raytracer_attachment_color"@,
        "voxelizer_binding_voxels_changed_index"@ != "raytracer_attachment_depth"@,
        "voxelizer_binding_voxels_changed_index"@ != "raytracer_attachment_world_position"@,
        "voxelizer_binding_voxels_changed_index"@ != "raytracer_binding_noise"@,
        "voxelizer_binding_voxels_changed_index"@ != "denoiser_attachment_color"@,
        "voxelizer_binding_voxels_changed_index"@ != "denoiser_attachment_depth_normals"@,
        "raytracer_attachment_color"@ != "raytracer_attachment_depth"@,
        "raytracer_attachment_color"@ != "raytracer_attachment_world_position"@,
        "raytracer_attachment_color"@ != "raytracer_binding_noise"@,
        "raytracer_attachment_color"@ != "denoiser_attachment_color"@,
        "raytracer_attachment_color"@ != "denoiser_attachment_depth_normals"@,
        "raytracer_attachment_depth"@ != "raytracer_attachment_world_position"@,
        "raytracer_attachment_depth"@ != "raytracer_binding_noise"@,
        "raytracer_attachment_depth"@ != "denoiser_attachment_color"@,
        "raytracer_attachment_depth"@ != "denoiser_attachment_depth_normals"@,
        "raytracer_attachment_world_position"@ != "raytracer_binding_noise"@,
        "raytracer_attachment_world_position"@ != "denoiser_attachment_color"@,
        "raytracer_attachment_world_position"@ != "denoiser_attachment_depth_normals"@,
        "raytracer_binding_noise"@ != "denoiser_attachment_color"@,
        "raytracer_binding_noise"@ != "denoiser_attachment_depth_normals"@,
        "denoiser_attachment_color"@ != "denoiser_attachment_depth_normals"@,
{
    reveal_strlit("voxelizer_attachment_world");
    reveal_strlit("voxelizer_binding_voxels_changed");
    reveal_strlit("voxelizer_binding_voxels_changed_index");
    reveal_strlit("raytracer_attachment_color");
    reveal_strlit("raytracer_attachment_depth");
    reveal_strlit("raytracer_attachment_world_position");
    reveal_strlit("raytracer_binding_noise");
    reveal_strlit("denoiser_attachment_color");
    reveal_strlit("denoiser_attachment_depth_normals");
    assert("voxelizer_attachment_world"@.len() != "voxelizer_binding_voxels_changed"@.len());
    assert("voxelizer_attachment_world"@.len() != "voxelizer_binding_voxels_changed_index"@.len());
    assert("voxelizer_attachment_world"@[0] != "raytracer_attachment_color"@[0]);
    assert("voxelizer_attachment_world"@[0] != "raytracer_attachment_depth"@[0]);
    assert("voxelizer_attachment_world"@.len() != "raytracer_attachment_world_position"@.len());
    assert("voxelizer_attachment_world"@.len() != "raytracer_binding_noise"@.len());
    assert("voxelizer_attachment_world"@.len() != "denoiser_attachment_color"@.len());
    assert("voxelizer_attachment_world"@.len() != "denoiser_attachment_depth_normals"@.len());
    assert("voxelizer_binding_voxels_changed"@.len() != "voxelizer_binding_voxels_changed_index"@.len());
    assert("voxelizer_binding_voxels_changed"@.len() != "raytracer_attachment_color"@.len());
    assert("voxelizer_binding_voxels_changed"@.len() != "raytracer_attachment_depth"@.len());
    assert("voxelizer_binding_voxels_changed"@.len() != "raytracer_attachment_world_position"@.len());
    assert("voxelizer_binding_voxels_changed"@.len() != "raytracer_binding_noise"@.len());
    assert("voxelizer_binding_voxels_changed"@.len() != "denoiser_attachment_color"@.len());
    assert("voxelizer_binding_voxels_changed"@.len() != "denoiser_attachment_depth_normals"@.len());
    assert("voxelizer_binding_voxels_changed_index"@.len() != "raytracer_attachment_color"@.len());
    assert("voxelizer_binding_voxels_changed_index"@.len() != "raytracer_attachment_depth"@.len());
    assert("voxelizer_binding_voxels_changed_index"@.len() != "raytracer_attachment_world_position"@.len());
    assert("voxelizer_binding_voxels_changed_index"@.len() != "raytracer_binding_noise"@.len());
    assert("voxelizer_binding_voxels_changed_index"@.len() != "denoiser_attachment_color"@.len());
    assert("voxelizer_binding_voxels_changed_index"@.len() != "denoiser_attachment_depth_normals"@.len());
    assert("raytracer_attachment_color"@[21] != "raytracer_attachment_depth"@[21]);
    assert("raytracer_attachment_color"@.len() != "raytracer_attachment_world_position"@.len());
    assert("raytracer_attachment_color"@.len() != "raytracer_binding_noise"@.len());
    assert("raytracer_attachment_color"@.len() != "denoiser_attachment_color"@.len());
    assert("raytracer_attachment_color"@.len() != "denoiser_attachment_depth_normals"@.len());
    assert("raytracer_attachment_depth"@.len() != "raytracer_attachment_world_position"@.len());
    assert("raytracer_attachment_depth"@.len() != "raytracer_binding_noise"@.len());
    assert("raytracer_attachment_depth"@.len() != "denoiser_attachment_color"@.len());
    assert("raytracer_attachment_depth"@.len() != "denoiser_attachment_depth_normals"@.len());
    assert("raytracer_attachment_world_position"@.len() != "raytracer_binding_noise"@.len());
    assert("raytracer_attachment_world_position"@.len() != "denoiser_attachment_color"@.len());
    assert("raytracer_attachment_world_position"@.len() != "denoiser_attachment_depth_normals"@.len());
    assert("raytracer_binding_noise"@.len() != "denoiser_attachment_color"@.len());
    assert("raytracer_binding_noise"@.len() != "denoiser_attachment_depth_normals"@.len());
    assert("denoiser_attachment_color"@.len() != "denoiser_attachment_depth_normals"@.len());
}

} // verus!
