use vstd::prelude::*;
use vstd::string::StringSliceAdditionalSpecFns;

use crate::entity::{spec_components_of, ComponentKind, Entity, Handle};
use crate::grid::{GridView, SceneParseError, VoxelGrid};

verus! {

/// The world: every entity the game created, each under a unique id.
/// The per-frame collaborators the renderer reads (camera, config) live
/// with the application; the verified passes take a snapshot of them as
/// plain values once per frame.
pub struct World<C> {
    pub entity_count: u64,
    pub entities: Vec<Entity<C>>,
}

/// The payloads of every component of the given kind across a sequence of
/// entities, in entity order.
pub open spec fn spec_world_components<C>(s: Seq<Entity<C>>, kind: ComponentKind) -> Seq<C>
    decreases s.len(),
{
    if s.len() == 0 {
        Seq::empty()
    } else {
        spec_components_of(s[0].components@, kind) + spec_world_components(s.drop_first(), kind)
    }
}

/// The entities of `s` carrying at least one component of the given kind,
/// in order.
pub open spec fn spec_entities_with<C>(s: Seq<Entity<C>>, kind: ComponentKind) -> Seq<Entity<C>>
    decreases s.len(),
{
    if s.len() == 0 {
        Seq::empty()
    } else if spec_components_of(s[0].components@, kind).len() > 0 {
        seq![s[0]] + spec_entities_with(s.drop_first(), kind)
    } else {
        spec_entities_with(s.drop_first(), kind)
    }
}

impl<C> World<C> {
    /// Well-formed: entity ids are their creation order, starting at 1.
    pub open spec fn wf(self) -> bool {
        &&& self.entities@.len() == self.entity_count
        &&& forall|i: int|
            0 <= i < self.entities@.len() ==> (#[trigger] self.entities@[i]).uuid == i + 1
    }

    /// An empty world.
    pub fn new() -> (r: Self)
        ensures
            r.wf(),
            r.entity_count == 0,
            r.entities@.len() == 0,
    {
        World { entity_count: 0, entities: Vec::new() }
    }

    /// Create a fresh entity and hand back its id.
    pub fn create_entity(&mut self) -> (r: Handle)
        requires
            old(self).wf(),
            old(self).entity_count < usize::MAX,
        ensures
            final(self).wf(),
            final(self).entity_count == old(self).entity_count + 1,
            r.uuid == old(self).entity_count + 1,
            final(self).entities@.len() == old(self).entities@.len() + 1,
            forall|i: int|
                0 <= i < old(self).entities@.len() ==> final(self).entities@[i]
                    == old(self).entities@[i],
            final(self).entities@.last().uuid == r.uuid,
            final(self).entities@.last().components@ == Seq::<(ComponentKind, C)>::empty(),
    {
        self.entity_count = self.entity_count + 1;
        let e = Entity::new(self.entity_count);
        self.entities.push(e);
        Handle { uuid: self.entity_count }
    }

    /// Attach a component to the entity `handle` names. A handle from
    /// `create_entity` always names an entity; anything else is a wiring
    /// error the caller must not make.
    pub fn add_component(&mut self, handle: Handle, kind: ComponentKind, component: C)
        requires
            old(self).wf(),
            1 <= handle.uuid <= old(self).entity_count,
        ensures
            final(self).wf(),
            final(self).entity_count == old(self).entity_count,
            final(self).entities@.len() == old(self).entities@.len(),
            forall|i: int|
                0 <= i < old(self).entities@.len() && i != handle.uuid - 1
                    ==> final(self).entities@[i] == old(self).entities@[i],
            final(self).entities@[handle.uuid - 1].uuid == handle.uuid,
            final(self).entities@[handle.uuid - 1].components@ == old(self).entities@[handle.uuid
                - 1].components@.push((kind, component)),
    {
        let count = self.entities.len();
        proof {
            assert(count == old(self).entity_count);
            assert(handle.uuid - 1 < count);
        }
        let idx: usize = (handle.uuid - 1) as usize;
        let e = &mut self.entities[idx];
        e.add_component(kind, component);
    }

    /// The entities carrying at least one component of the given kind, in
    /// creation order: exactly the matching subsequence of the entity list,
    /// nothing repeated, nothing reordered.
    pub fn get_entities(&self, kind: ComponentKind) -> (r: Vec<&Entity<C>>)
        ensures
            r@.len() == spec_entities_with(self.entities@, kind).len(),
            forall|j: int|
                0 <= j < r@.len() ==> *(#[trigger] r@[j]) == spec_entities_with(
                    self.entities@,
                    kind,
                )[j],
    {
        let ghost whole = self.entities@;
        let ghost target = spec_entities_with(whole, kind);
        let n = self.entities.len();
        let mut r: Vec<&Entity<C>> = Vec::new();
        let ghost mut acc: Seq<Entity<C>> = Seq::empty();
        let mut i: usize = 0;
        proof {
            assert(whole.skip(0) =~= whole);
            assert(Seq::<Entity<C>>::empty() + target =~= target);
        }
        while i < n
            invariant
                n == whole.len(),
                whole == self.entities@,
                target == spec_entities_with(whole, kind),
                i <= n,
                r@.len() == acc.len(),
                forall|j: int| 0 <= j < r@.len() ==> *(#[trigger] r@[j]) == acc[j],
                target == acc + spec_entities_with(whole.skip(i as int), kind),
            decreases n - i,
        {
            let ghost tail = whole.skip(i as int);
            proof {
                assert(tail[0] == whole[i as int]);
                assert(tail.drop_first() =~= whole.skip(i + 1));
            }
            let e = &self.entities[i];
            let matching = e.get_components(kind);
            if matching.len() > 0 {
                r.push(e);
                proof {
                    let ghost acc2 = acc.push(whole[i as int]);
                    assert(acc + (seq![tail[0]] + spec_entities_with(whole.skip(i + 1), kind))
                        =~= acc2 + spec_entities_with(whole.skip(i + 1), kind));
                    acc = acc2;
                }
            }
            i += 1;
        }
        proof {
            assert(whole.skip(n as int) =~= Seq::<Entity<C>>::empty());
            assert(target =~= acc + Seq::<Entity<C>>::empty());
            assert(target =~= acc);
        }
        r
    }

    /// The payloads of every component of the given kind, across all
    /// entities in creation order.
    pub fn get_components(&self, kind: ComponentKind) -> (r: Vec<&C>)
        ensures
            r@.len() == spec_world_components(self.entities@, kind).len(),
            forall|j: int|
                0 <= j < r@.len() ==> *(#[trigger] r@[j]) == spec_world_components(
                    self.entities@,
                    kind,
                )[j],
    {
        let ghost whole = self.entities@;
        let ghost target = spec_world_components(whole, kind);
        let n = self.entities.len();
        let mut r: Vec<&C> = Vec::new();
        let ghost mut acc: Seq<C> = Seq::empty();
        let mut i: usize = 0;
        proof {
            assert(whole.skip(0) =~= whole);
            assert(Seq::<C>::empty() + target =~= target);
        }
        while i < n
            invariant
                n == whole.len(),
                whole == self.entities@,
                target == spec_world_components(whole, kind),
                i <= n,
                r@.len() == acc.len(),
                forall|j: int| 0 <= j < r@.len() ==> *(#[trigger] r@[j]) == acc[j],
                target == acc + spec_world_components(whole.skip(i as int), kind),
            decreases n - i,
        {
            let ghost tail = whole.skip(i as int);
            proof {
                assert(tail[0] == whole[i as int]);
                assert(tail.drop_first() =~= whole.skip(i + 1));
            }
            let e = &self.entities[i];
            let matching = e.get_components(kind);
            let ghost mine = spec_components_of(e.components@, kind);
            proof {
                assert(spec_world_components(tail, kind) == mine + spec_world_components(
                    whole.skip(i + 1),
                    kind,
                ));
                assert(mine.skip(0) =~= mine);
                assert((acc + mine.skip(0)) + spec_world_components(whole.skip(i + 1), kind)
                    =~= acc + (mine + spec_world_components(whole.skip(i + 1), kind)));
            }
            let m = matching.len();
            let mut j: usize = 0;
            while j < m
                invariant
                    m == matching@.len(),
                    m == mine.len(),
                    forall|q: int| 0 <= q < m ==> *(#[trigger] matching@[q]) == mine[q],
                    j <= m,
                    r@.len() == acc.len(),
                    forall|q: int| 0 <= q < r@.len() ==> *(#[trigger] r@[q]) == acc[q],
                    target == acc + mine.skip(j as int) + spec_world_components(
                        whole.skip(i + 1),
                        kind,
                    ),
                decreases m - j,
            {
                r.push(matching[j]);
                proof {
                    acc = acc.push(mine[j as int]);
                    assert(mine.skip(j as int) =~= seq![mine[j as int]] + mine.skip(j + 1));
                    assert((acc + mine.skip(j + 1)) + spec_world_components(
                        whole.skip(i + 1),
                        kind,
                    ) =~= target);
                }
                j += 1;
            }
            proof {
                assert(mine.skip(m as int) =~= Seq::<C>::empty());
                assert(acc + Seq::<C>::empty() =~= acc);
            }
            i += 1;
        }
        proof {
            assert(whole.skip(n as int) =~= Seq::<Entity<C>>::empty());
            assert(target =~= acc);
        }
        r
    }
}

/// A collector: loads the initial scene into the world's voxel grid. The
/// application reads the scene file; the parse into a grid is `collect`.
pub struct Collector;

impl Collector {
    /// Parse the scene text into the volume grid. The caller uploads the
    /// grid's data to the device and generates the volume texture from it.
    pub fn collect(text_data: &str) -> (r: Result<VoxelGrid, SceneParseError>)
        ensures
            match r {
                Ok(g) => g@.wf() && crate::grid::spec_from_string(text_data.spec_bytes()) == Ok::<
                    GridView,
                    SceneParseError,
                >(g@),
                Err(e) => crate::grid::spec_from_string(text_data.spec_bytes()) == Err::<
                    GridView,
                    SceneParseError,
                >(e),
            },
    {
        VoxelGrid::from_string(text_data)
    }
}

} // verus!
