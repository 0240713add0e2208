//! Voxelization of meshes: the per-entity material descriptor, the table of
//! per-entity uniforms, the three axis cameras, and the draws queued for
//! each view.

use vstd::prelude::*;
use vstd::std_specs::convert::FromSpecImpl;
use crate::entity_table::EntityTable;
use crate::settings::RenderGraphSettings;
use crate::slot_table::{SlotTable, lemma_first_occurrences};
use crate::attachments::Extent;

verus! {

/// Flag bit of a voxel that is routed through the animation pass.
pub const ANIMATION_FLAG: u8 = 32;

/// The material index that tells the shader to sample the texture.
pub const TEXTURE_MATERIAL: u32 = 255;

/// What an entity is voxelized with: a texture, as a handle of type `H`, or
/// a flat material index.
#[derive(Clone, Debug, PartialEq, Eq)]
pub enum VoxelizationMaterialType<H> {
    Texture(H),
    Material(u8),
}

/// The material descriptor of a voxelized entity.
#[derive(Clone, Debug, PartialEq, Eq)]
pub struct VoxelizationMaterial<H> {
    pub material: VoxelizationMaterialType<H>,
    pub flags: u8,
}

impl<H> Default for VoxelizationMaterial<H> {
    /// Material 10, animated.
    fn default() -> (material: VoxelizationMaterial<H>)
        ensures
            material.material == VoxelizationMaterialType::<H>::Material(10),
            material.flags == ANIMATION_FLAG,
    {
        VoxelizationMaterial { material: VoxelizationMaterialType::Material(10), flags: ANIMATION_FLAG }
    }
}

/// The material descriptor as the shader reads it.
#[derive(Clone, Copy, PartialEq, Eq, Structural, Debug)]
pub struct VoxelizationUniforms {
    pub material: u32,
    pub flags: u32,
}

/// The uniforms of a material: the material index, or 255 for a texture,
/// and the flags.
pub open spec fn uniforms_of<H>(value: VoxelizationMaterial<H>) -> VoxelizationUniforms {
    VoxelizationUniforms {
        material: match value.material {
            VoxelizationMaterialType::Texture(_) => TEXTURE_MATERIAL,
            VoxelizationMaterialType::Material(index) => index as u32,
        },
        flags: value.flags as u32,
    }
}

impl<'a, H> From<&'a VoxelizationMaterial<H>> for VoxelizationUniforms {
    fn from(value: &'a VoxelizationMaterial<H>) -> (uniforms: VoxelizationUniforms) {
        let material: u32 = match &value.material {
            VoxelizationMaterialType::Texture(_) => 255,
            VoxelizationMaterialType::Material(index) => *index as u32,
        };
        VoxelizationUniforms { material, flags: value.flags as u32 }
    }
}

impl<'a, H> FromSpecImpl<&'a VoxelizationMaterial<H>> for VoxelizationUniforms {
    open spec fn obeys_from_spec() -> bool {
        true
    }

    open spec fn from_spec(value: &'a VoxelizationMaterial<H>) -> VoxelizationUniforms {
        uniforms_of(*value)
    }
}

/// A voxelized entity as it is extracted for a frame.
#[derive(Clone, Debug, PartialEq, Eq)]
pub struct ExtractedMaterial<H> {
    pub entity: u64,
    pub material: VoxelizationMaterial<H>,
}

/// The uniforms that a frame's entities ask for: for each entity the
/// uniforms of its material, the later one if it is listed twice.
pub open spec fn frame_uniforms<H>(materials: Seq<ExtractedMaterial<H>>) -> Map<
    u64,
    VoxelizationUniforms,
>
    decreases materials.len(),
{
    if materials.len() == 0 {
        Map::empty()
    } else {
        frame_uniforms(materials.drop_last()).insert(
            materials.last().entity,
            uniforms_of(materials.last().material),
        )
    }
}

/// Which entities got uniforms for the first time this frame, and which
/// lost theirs.
#[derive(Clone, Debug, PartialEq, Eq)]
pub struct UniformChanges {
    /// Entities that need a uniform buffer allocated.
    pub created: Vec<u64>,
    /// Entities whose uniform buffer is to be freed.
    pub dropped: Vec<u64>,
}

/// The uniforms of every voxelized entity. The view is the map from entity
/// to uniforms.
pub struct VoxelizationUniformsResource {
    uniforms: EntityTable<VoxelizationUniforms>,
}

impl View for VoxelizationUniformsResource {
    type V = Map<u64, VoxelizationUniforms>;

    closed spec fn view(&self) -> Map<u64, VoxelizationUniforms> {
        self.uniforms@
    }
}

impl VoxelizationUniformsResource {
    /// The table of uniforms is well formed.
    pub closed spec fn wf(&self) -> bool {
        self.uniforms.wf()
    }

    /// No entity has uniforms yet.
    pub fn new() -> (resource: VoxelizationUniformsResource)
        ensures
            resource.wf(),
            resource@ == Map::<u64, VoxelizationUniforms>::empty(),
    {
        VoxelizationUniformsResource { uniforms: EntityTable::new() }
    }

    /// The uniforms of `entity`, if it has any.
    pub fn get(&self, entity: u64) -> (uniforms: Option<VoxelizationUniforms>)
        requires
            self.wf(),
        ensures
            uniforms == (if self@.contains_key(entity) {
                Some(self@[entity])
            } else {
                None
            }),
    {
        match self.uniforms.get(entity) {
            Some(found) => Some(*found),
            None => None,
        }
    }

    /// Brings the table in line with the entities of this frame: every
    /// entity listed gets the uniforms of its material, and every entity
    /// that is no longer listed loses its uniforms.
    pub fn queue<H>(&mut self, materials: &Vec<ExtractedMaterial<H>>) -> (changes: UniformChanges)
        requires
            old(self).wf(),
        ensures
            final(self).wf(),
            final(self)@ == frame_uniforms(materials@),
            changes.created@.no_duplicates(),
            changes.created@.to_set() == frame_uniforms(materials@).dom().difference(
                old(self)@.dom(),
            ),
            changes.dropped@.no_duplicates(),
            changes.dropped@.to_set() == old(self)@.dom().difference(
                frame_uniforms(materials@).dom(),
            ),
    {
        let ghost before = self@;
        let mut created: Vec<u64> = Vec::new();
        let mut listed: Vec<u64> = Vec::new();
        let mut i: usize = 0;
        assert(materials@.take(0) =~= Seq::<ExtractedMaterial<H>>::empty());
        assert(self@ =~= before.union_prefer_right(frame_uniforms(materials@.take(0))));
        while i < materials.len()
            invariant
                i <= materials.len(),
                self.wf(),
                self@ == before.union_prefer_right(frame_uniforms(materials@.take(i as int))),
                forall|k: u64|
                    #![trigger listed@.contains(k)]
                    #![trigger frame_uniforms(materials@.take(i as int)).contains_key(k)]
                    listed@.contains(k) <==> frame_uniforms(materials@.take(i as int)).contains_key(
                        k,
                    ),
                forall|k: u64|
                    #![trigger created@.contains(k)]
                    #![trigger listed@.contains(k)]
                    created@.contains(k) <==> listed@.contains(k) && !before.contains_key(k),
                created@.no_duplicates(),
            decreases materials.len() - i,
        {
            let ghost sooner = frame_uniforms(materials@.take(i as int));
            let ghost created_sooner = created@;
            let ghost listed_sooner = listed@;
            let entity = materials[i].entity;
            let uniforms = VoxelizationUniforms::from(&materials[i].material);
            proof {
                assert(materials@.take(i + 1).drop_last() =~= materials@.take(i as int));
                assert(materials@.take(i + 1).last() == materials@[i as int]);
            }
            if self.uniforms.get(entity).is_none() {
                created.push(entity);
                proof {
                    assert(!created_sooner.contains(entity));
                    assert forall|a: int, b: int|
                        0 <= a < created@.len() && 0 <= b < created@.len() && a != b implies created@[a]
                        != created@[b] by {
                        if a < created_sooner.len() {
                            assert(created_sooner[a] == created@[a]);
                            assert(created_sooner.contains(created@[a]));
                        }
                        if b < created_sooner.len() {
                            assert(created_sooner[b] == created@[b]);
                            assert(created_sooner.contains(created@[b]));
                        }
                    }
                }
            }
            self.uniforms.insert(entity, uniforms);
            listed.push(entity);
            i += 1;
            proof {
                let later = frame_uniforms(materials@.take(i as int));
                assert(later == sooner.insert(entity, uniforms));
                assert(self@ =~= before.union_prefer_right(later));
                assert(listed@ == listed_sooner.push(entity));
                assert forall|k: u64| listed@.contains(k) <==> later.contains_key(k) by {
                    vstd::seq_lib::lemma_seq_contains_after_push(listed_sooner, entity, k);
                    assert(listed_sooner.contains(k) <==> sooner.contains_key(k));
                }
                assert forall|k: u64|
                    created@.contains(k) <==> listed@.contains(k) && !before.contains_key(k) by {
                    vstd::seq_lib::lemma_seq_contains_after_push(listed_sooner, entity, k);
                    vstd::seq_lib::lemma_seq_contains_after_push(created_sooner, entity, k);
                    assert(created_sooner.contains(k) <==> listed_sooner.contains(k)
                        && !before.contains_key(k));
                    assert(listed_sooner.contains(k) <==> sooner.contains_key(k));
                    assert(created@ == created_sooner || created@ == created_sooner.push(entity));
                }
            }
        }
        assert(materials@.take(i as int) =~= materials@);
        let present = SlotTable::collect(&listed);
        proof {
            lemma_first_occurrences(listed@);
            assert forall|k: u64|
                present@.to_set().contains(k) <==> frame_uniforms(materials@).dom().contains(
                    k,
                ) by {
                assert(present@.contains(k) <==> listed@.contains(k));
                assert(listed@.contains(k) <==> frame_uniforms(materials@).contains_key(k));
            }
            assert(present@.to_set() =~= frame_uniforms(materials@).dom());
        }
        let dropped = self.uniforms.retain(&present);
        proof {
            assert(self@ =~= frame_uniforms(materials@));
            assert(created@.to_set() =~= frame_uniforms(materials@).dom().difference(
                before.dom(),
            ));
            assert(dropped@.to_set() =~= before.dom().difference(
                frame_uniforms(materials@).dom(),
            ));
        }
        UniformChanges { created, dropped }
    }
}

/// The image that an entity's bind group samples.
#[derive(Clone, Copy, PartialEq, Eq, Structural, Debug)]
pub enum BoundImage {
    /// The entity's own texture.
    Texture,
    /// The fallback image: the material is flat, or its texture is not on
    /// the GPU yet.
    Fallback,
}

impl<H> VoxelizationMaterial<H> {
    /// The texture of a textured material.
    pub fn texture(&self) -> (handle: Option<&H>)
        ensures
            handle == (match self.material {
                VoxelizationMaterialType::Texture(texture) => Some(&texture),
                VoxelizationMaterialType::Material(_) => None,
            }),
    {
        match &self.material {
            VoxelizationMaterialType::Texture(texture) => Some(texture),
            VoxelizationMaterialType::Material(_) => None,
        }
    }

    /// The image to bind: the material's texture if it has one and the
    /// texture is uploaded, the fallback otherwise.
    pub fn bound_image(&self, texture_uploaded: bool) -> (image: BoundImage)
        ensures
            image == (if self.material is Texture && texture_uploaded {
                BoundImage::Texture
            } else {
                BoundImage::Fallback
            }),
    {
        match &self.material {
            VoxelizationMaterialType::Texture(_) => if texture_uploaded {
                BoundImage::Texture
            } else {
                BoundImage::Fallback
            },
            VoxelizationMaterialType::Material(_) => BoundImage::Fallback,
        }
    }
}

/// The number of voxelization cameras: one per axis.
pub const VOXELIZATION_CAMERAS: usize = 3;

/// An axis of the voxel world.
#[derive(Clone, Copy, PartialEq, Eq, Structural, Debug)]
pub enum Axis {
    X,
    Y,
    Z,
}

/// Where a voxelization camera at the origin looks, and which way is up.
#[derive(Clone, Copy, PartialEq, Eq, Structural, Debug)]
pub struct CameraAim {
    pub look_at: Axis,
    pub up: Axis,
}

/// The aim of the camera with the given index: the three cameras look down
/// the three axes.
pub open spec fn camera_aim(index: int) -> CameraAim {
    if index == 0 {
        CameraAim { look_at: Axis::X, up: Axis::Y }
    } else if index == 1 {
        CameraAim { look_at: Axis::Y, up: Axis::Z }
    } else {
        CameraAim { look_at: Axis::Z, up: Axis::Y }
    }
}

/// The render order of each voxelization camera: -3, -2 and -1, so that all
/// three render before the main pass.
pub fn camera_orders() -> (orders: Vec<isize>)
    ensures
        orders@.len() == VOXELIZATION_CAMERAS,
        forall|i: int| 0 <= i < orders@.len() ==> orders@[i] == i - 3,
{
    let mut orders: Vec<isize> = Vec::new();
    let mut i: isize = 0;
    while i < 3
        invariant
            0 <= i <= 3,
            orders@.len() == i,
            forall|j: int| 0 <= j < orders@.len() ==> orders@[j] == j - 3,
        decreases 3 - i,
    {
        orders.push(-3 + i);
        i += 1;
    }
    orders
}

/// What to do to the voxelization image and cameras after the world
/// changed size.
#[derive(Clone, Debug, PartialEq, Eq)]
pub struct CameraUpdate {
    /// The extent to resize the voxelization image to.
    pub extent: Extent,
    /// The aim of each camera, by index.
    pub aims: Vec<CameraAim>,
}

/// Whether the cameras are updated: the image is not as wide as the world,
/// and there is a camera to update.
pub open spec fn cameras_outdated(image_width: u32, texture_size: u32, cameras: usize) -> bool {
    image_width != texture_size && cameras > 0
}

/// Follows the world's texture size: when the voxelization image is not as
/// wide as the world, the image is resized to cover the world and every
/// camera is aimed down its axis; when it is, nothing is done.
pub fn update_cameras(image_width: u32, texture_size: u32, cameras: usize) -> (update: Option<
    CameraUpdate,
>)
    requires
        image_width != texture_size ==> cameras <= VOXELIZATION_CAMERAS,
    ensures
        update.is_some() == cameras_outdated(image_width, texture_size, cameras),
        update.is_some() ==> update.unwrap().extent == (Extent {
            width: texture_size,
            height: texture_size,
            depth_or_array_layers: 1,
        }),
        update.is_some() ==> update.unwrap().aims@ == Seq::new(
            cameras as nat,
            |i: int| camera_aim(i),
        ),
{
    if image_width == texture_size || cameras == 0 {
        return None;
    }
    let mut aims: Vec<CameraAim> = Vec::new();
    let mut i: usize = 0;
    while i < cameras
        invariant
            i <= cameras <= 3,
            aims@ == Seq::new(i as nat, |j: int| camera_aim(j)),
        decreases cameras - i,
    {
        let aim = if i == 0 {
            CameraAim { look_at: Axis::X, up: Axis::Y }
        } else if i == 1 {
            CameraAim { look_at: Axis::Y, up: Axis::Z }
        } else {
            CameraAim { look_at: Axis::Z, up: Axis::Y }
        };
        aims.push(aim);
        i += 1;
        assert(aims@ =~= Seq::new(i as nat, |j: int| camera_aim(j)));
    }
    Some(
        CameraUpdate {
            extent: Extent { width: texture_size, height: texture_size, depth_or_array_layers: 1 },
            aims,
        },
    )
}

/// Whether the mesh of a voxelized entity can be drawn this frame.
#[derive(Clone, Copy, PartialEq, Eq, Structural, Debug)]
pub struct MeshStatus {
    pub entity: u64,
    /// The entity has a mesh instance in the render world.
    pub instance_ready: bool,
    /// The mesh itself is uploaded.
    pub mesh_ready: bool,
}

/// One draw of one entity into one view.
#[derive(Clone, Copy, PartialEq, Eq, Structural, Debug)]
pub struct QueuedDraw {
    pub view: usize,
    pub entity: u64,
}

/// The draws of one view: one per entity whose mesh is ready, in order.
pub open spec fn view_draws(view: usize, meshes: Seq<MeshStatus>) -> Seq<QueuedDraw>
    decreases meshes.len(),
{
    if meshes.len() == 0 {
        Seq::empty()
    } else {
        let sooner = view_draws(view, meshes.drop_last());
        if meshes.last().instance_ready && meshes.last().mesh_ready {
            sooner.push(QueuedDraw { view, entity: meshes.last().entity })
        } else {
            sooner
        }
    }
}

/// The draws of the first `views` views, view by view.
pub open spec fn queued_draws(views: nat, meshes: Seq<MeshStatus>) -> Seq<QueuedDraw>
    decreases views,
{
    if views == 0 {
        Seq::empty()
    } else {
        queued_draws((views - 1) as nat, meshes) + view_draws((views - 1) as usize, meshes)
    }
}

/// Queues the voxelization draws of a frame: for every view, every entity
/// whose mesh is ready; none at all while voxelization is switched off.
pub fn queue_custom(settings: &RenderGraphSettings, views: usize, meshes: &Vec<MeshStatus>) -> (draws:
    Vec<QueuedDraw>)
    ensures
        draws@ == (if settings.voxelization {
            queued_draws(views as nat, meshes@)
        } else {
            Seq::empty()
        }),
{
    let mut draws: Vec<QueuedDraw> = Vec::new();
    if !settings.voxelization {
        return draws;
    }
    let mut view: usize = 0;
    while view < views
        invariant
            view <= views,
            draws@ == queued_draws(view as nat, meshes@),
        decreases views - view,
    {
        let ghost sooner = draws@;
        let mut i: usize = 0;
        assert(meshes@.take(0) =~= Seq::<MeshStatus>::empty());
        assert(draws@ =~= sooner + view_draws(view, meshes@.take(0)));
        while i < meshes.len()
            invariant
                i <= meshes.len(),
                draws@ == sooner + view_draws(view, meshes@.take(i as int)),
            decreases meshes.len() - i,
        {
            proof {
                assert(meshes@.take(i + 1).drop_last() =~= meshes@.take(i as int));
                assert(meshes@.take(i + 1).last() == meshes@[i as int]);
            }
            if meshes[i].instance_ready && meshes[i].mesh_ready {
                draws.push(QueuedDraw { view, entity: meshes[i].entity });
            }
            i += 1;
            assert(draws@ =~= sooner + view_draws(view, meshes@.take(i as int)));
        }
        assert(meshes@.take(i as int) =~= meshes@);
        view += 1;
    }
    draws
}

} // verus!
