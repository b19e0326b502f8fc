use vstd::prelude::*;

use crate::atlas::{TextureAtlas, TextureInfo, TextureType};
use crate::entity::ComponentKind;
use crate::mips;
use crate::world::{spec_world_components, World};

verus! {

/// The voxelization pass: rasterizes every renderable mesh into the 3-D
/// volume attachment, recording which cells it touched in the dirty-cell
/// buffer the mip regeneration consumes.
pub struct Voxelizer {
    size: (u32, u32, u32),
}

/// One frame's voxelize decisions: how many meshes are drawn into the
/// volume. An empty scene draws nothing and leaves the dirty list empty,
/// which the mip regeneration treats as a no-op.
pub struct VoxelizePlan {
    pub draw_count: usize,
}

/// The total mip level count of the volume texture: the base level plus
/// one level per coarser working set.
pub open spec fn spec_volume_mip_count(size: (u32, u32, u32)) -> nat {
    mips::spec_mip_levels(size.0 as nat, size.1 as nat, size.2 as nat) + 1
}

/// The metadata the voxelizer registers for the volume.
pub open spec fn spec_volume_info(size: (u32, u32, u32)) -> TextureInfo {
    TextureInfo { size, mip_levels: spec_volume_mip_count(size) as u32 }
}

impl Voxelizer {
    /// The volume's size in cells.
    pub closed spec fn spec_size(self) -> (u32, u32, u32) {
        self.size
    }

    /// A fresh voxelizer: it registers the volume texture, sized by the
    /// scene and never touched by window resizes, and the two buffers the
    /// dirty-cell list travels through.
    pub fn new<R>(
        atlas: &mut TextureAtlas<R>,
        volume_texture: R,
        changed_buffer: R,
        changed_index_buffer: R,
        size: (u32, u32, u32),
    ) -> (r: Self)
        requires
            old(atlas).wf(),
        ensures
            final(atlas).wf(),
            final(atlas).spec_get("voxelizer_attachment_world"@) == Some(
                TextureType::DescriptorTexture(volume_texture, spec_volume_info(size)),
            ),
            final(atlas).spec_get("voxelizer_binding_voxels_changed"@) == Some(
                TextureType::Buffer(changed_buffer),
            ),
            final(atlas).spec_get("voxelizer_binding_voxels_changed_index"@) == Some(
                TextureType::Buffer(changed_index_buffer),
            ),
            forall|k: Seq<char>|
                k != "voxelizer_attachment_world"@ && k != "voxelizer_binding_voxels_changed"@ && k
                    != "voxelizer_binding_voxels_changed_index"@ ==> final(atlas).spec_get(k)
                    == old(atlas).spec_get(k),
            final(atlas).spec_window_size() == old(atlas).spec_window_size(),
            final(atlas).spec_sampler() == old(atlas).spec_sampler(),
            r.spec_size() == size,
    {
        proof {
            lemma_voxelizer_keys_distinct();
        }
        let mips_above = mips::mip_level_count(
            size.0 as usize,
            size.1 as usize,
            size.2 as usize,
        );
        let info = TextureInfo { size, mip_levels: mips_above + 1 };
        atlas.register_from_descriptor("voxelizer_attachment_world", volume_texture, info);
        atlas.register_buffer("voxelizer_binding_voxels_changed", changed_buffer);
        atlas.register_buffer("voxelizer_binding_voxels_changed_index", changed_index_buffer);
        Voxelizer { size }
    }

    /// Decide one frame's voxelize pass: one draw per renderable mesh
    /// component in the world.
    pub fn render<C>(&self, world: &World<C>) -> (r: VoxelizePlan)
        ensures
            r.draw_count == spec_world_components(world.entities@, ComponentKind::Model).len(),
    {
        let models = world.get_components(ComponentKind::Model);
        VoxelizePlan { draw_count: models.len() }
    }
}

/// The three voxelizer keys differ pairwise.
proof fn lemma_voxelizer_keys_distinct()
    ensures
        "voxelizer_attachment_world"@ != "voxelizer_binding_voxels_changed"@,
        "voxelizer_attachment_world"@ != "voxelizer_binding_voxels_changed_index"@,
        "voxelizer_binding_voxels_changed"@ != "voxelizer_binding_voxels_changed_index"@,
{
    reveal_strlit("voxelizer_attachment_world");
    reveal_strlit("voxelizer_binding_voxels_changed");
    reveal_strlit("voxelizer_binding_voxels_changed_index");
    assert("voxelizer_attachment_world"@.len() != "voxelizer_binding_voxels_changed"@.len());
    assert("voxelizer_attachment_world"@.len() != "voxelizer_binding_voxels_changed_index"@.len());
    assert("voxelizer_binding_voxels_changed"@.len()
        != "voxelizer_binding_voxels_changed_index"@.len());
}

} // verus!
