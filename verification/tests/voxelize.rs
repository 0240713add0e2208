use voxel_pipeline::attachments::Extent;
use voxel_pipeline::settings::RenderGraphSettings;
use voxel_pipeline::voxelization::{
    camera_orders, queue_custom, update_cameras, Axis, BoundImage, CameraAim, ExtractedMaterial,
    MeshStatus, QueuedDraw, VoxelizationMaterial, VoxelizationMaterialType, VoxelizationUniforms,
    VoxelizationUniformsResource, ANIMATION_FLAG, TEXTURE_MATERIAL, VOXELIZATION_CAMERAS,
};

fn flat(entity: u64, material: u8, flags: u8) -> ExtractedMaterial<u32> {
    ExtractedMaterial {
        entity,
        material: VoxelizationMaterial { material: VoxelizationMaterialType::Material(material), flags },
    }
}

#[test]
fn default_material_is_animated_material_ten() {
    let material: VoxelizationMaterial<u32> = VoxelizationMaterial::default();
    assert_eq!(material.material, VoxelizationMaterialType::Material(10));
    assert_eq!(material.flags, ANIMATION_FLAG);
}

#[test]
fn uniforms_of_a_flat_material() {
    let material: VoxelizationMaterial<u32> =
        VoxelizationMaterial { material: VoxelizationMaterialType::Material(8), flags: 0 };
    assert_eq!(VoxelizationUniforms::from(&material), VoxelizationUniforms { material: 8, flags: 0 });
    let material: VoxelizationMaterial<u32> =
        VoxelizationMaterial { material: VoxelizationMaterialType::Material(254), flags: 255 };
    assert_eq!(
        VoxelizationUniforms::from(&material),
        VoxelizationUniforms { material: 254, flags: 255 }
    );
}

#[test]
fn uniforms_of_a_texture_use_the_reserved_index() {
    let material = VoxelizationMaterial { material: VoxelizationMaterialType::Texture(77u32), flags: 3 };
    assert_eq!(TEXTURE_MATERIAL, 255);
    assert_eq!(VoxelizationUniforms::from(&material), VoxelizationUniforms { material: 255, flags: 3 });
}

#[test]
fn voxelized_material_reaches_the_uniforms() {
    let mut resource = VoxelizationUniformsResource::new();
    let changes = resource.queue(&vec![flat(1, 8, 0)]);
    assert_eq!(changes.created, vec![1]);
    assert!(changes.dropped.is_empty());
    let uniforms = resource.get(1).unwrap();
    assert_eq!(uniforms.material, 8);
    assert_ne!(uniforms.material, 0);
}

#[test]
fn uniforms_follow_the_entities_of_each_frame() {
    let mut resource = VoxelizationUniformsResource::new();
    let changes = resource.queue(&vec![flat(1, 8, 0), flat(2, 9, 32)]);
    let mut created = changes.created;
    created.sort();
    assert_eq!(created, vec![1, 2]);
    assert!(changes.dropped.is_empty());

    // entity 1 changes material, entity 2 is gone, entity 3 is new
    let changes = resource.queue(&vec![flat(1, 0, 0), flat(3, 4, 1)]);
    assert_eq!(changes.created, vec![3]);
    assert_eq!(changes.dropped, vec![2]);
    assert_eq!(resource.get(1), Some(VoxelizationUniforms { material: 0, flags: 0 }));
    assert_eq!(resource.get(2), None);
    assert_eq!(resource.get(3), Some(VoxelizationUniforms { material: 4, flags: 1 }));

    let changes = resource.queue(&Vec::<ExtractedMaterial<u32>>::new());
    assert!(changes.created.is_empty());
    let mut dropped = changes.dropped;
    dropped.sort();
    assert_eq!(dropped, vec![1, 3]);
    assert_eq!(resource.get(1), None);
}

#[test]
fn an_entity_listed_twice_gets_its_later_material() {
    let mut resource = VoxelizationUniformsResource::new();
    let changes = resource.queue(&vec![flat(5, 1, 0), flat(5, 2, 0)]);
    assert_eq!(changes.created, vec![5]);
    assert_eq!(resource.get(5), Some(VoxelizationUniforms { material: 2, flags: 0 }));
}

#[test]
fn bound_image_falls_back() {
    let textured = VoxelizationMaterial { material: VoxelizationMaterialType::Texture(9u32), flags: 0 };
    let flat: VoxelizationMaterial<u32> =
        VoxelizationMaterial { material: VoxelizationMaterialType::Material(1), flags: 0 };
    assert_eq!(textured.texture(), Some(&9));
    assert_eq!(flat.texture(), None);
    assert_eq!(textured.bound_image(true), BoundImage::Texture);
    assert_eq!(textured.bound_image(false), BoundImage::Fallback);
    assert_eq!(flat.bound_image(true), BoundImage::Fallback);
    assert_eq!(flat.bound_image(false), BoundImage::Fallback);
}

#[test]
fn cameras_render_before_the_main_pass() {
    assert_eq!(VOXELIZATION_CAMERAS, 3);
    assert_eq!(camera_orders(), vec![-3, -2, -1]);
}

#[test]
fn cameras_follow_the_world_size() {
    assert_eq!(update_cameras(64, 64, 3), None);
    assert_eq!(update_cameras(1, 64, 0), None);
    let update = update_cameras(1, 64, 3).unwrap();
    assert_eq!(update.extent, Extent { width: 64, height: 64, depth_or_array_layers: 1 });
    assert_eq!(
        update.aims,
        vec![
            CameraAim { look_at: Axis::X, up: Axis::Y },
            CameraAim { look_at: Axis::Y, up: Axis::Z },
            CameraAim { look_at: Axis::Z, up: Axis::Y },
        ]
    );
    let update = update_cameras(64, 128, 2).unwrap();
    assert_eq!(update.extent, Extent { width: 128, height: 128, depth_or_array_layers: 1 });
    assert_eq!(update.aims.len(), 2);
}

#[test]
fn draws_are_queued_per_view_for_ready_meshes() {
    let meshes = vec![
        MeshStatus { entity: 1, instance_ready: true, mesh_ready: true },
        MeshStatus { entity: 2, instance_ready: false, mesh_ready: true },
        MeshStatus { entity: 3, instance_ready: true, mesh_ready: false },
        MeshStatus { entity: 4, instance_ready: true, mesh_ready: true },
    ];
    let settings = RenderGraphSettings::default();
    assert_eq!(
        queue_custom(&settings, 2, &meshes),
        vec![
            QueuedDraw { view: 0, entity: 1 },
            QueuedDraw { view: 0, entity: 4 },
            QueuedDraw { view: 1, entity: 1 },
            QueuedDraw { view: 1, entity: 4 },
        ]
    );
    assert!(queue_custom(&settings, 0, &meshes).is_empty());
    assert!(queue_custom(&settings, 3, &Vec::new()).is_empty());
}

#[test]
fn nothing_is_queued_while_voxelization_is_off() {
    let meshes = vec![MeshStatus { entity: 1, instance_ready: true, mesh_ready: true }];
    let settings = RenderGraphSettings { voxelization: false, ..RenderGraphSettings::default() };
    assert!(queue_custom(&settings, 3, &meshes).is_empty());
}
