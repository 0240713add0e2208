use voxel_pipeline::attachments::{
    fill_texel, initial_extent, AttachmentFormat, Extent, RenderAttachments,
};

#[test]
fn new_attachments_are_one_texel() {
    let attachments = RenderAttachments::new("normal", "position");
    assert_eq!(attachments.current_size(), (1, 1));
    assert_eq!(*attachments.normal(), "normal");
    assert_eq!(*attachments.position(), "position");
    assert_eq!(initial_extent(), Extent { width: 1, height: 1, depth_or_array_layers: 1 });
}

#[test]
fn fill_texel_has_the_size_of_the_format() {
    assert_eq!(fill_texel(AttachmentFormat::Rgba16Float), vec![0u8; 8]);
    assert_eq!(fill_texel(AttachmentFormat::Rgba32Float), vec![0u8; 16]);
}

#[test]
fn resize_reallocates_once_per_change() {
    let mut attachments = RenderAttachments::new(1u32, 2u32);
    let a = (1280, 720);
    let b = (1920, 1080);
    assert_eq!(
        attachments.resize(a),
        Some(Extent { width: 1280, height: 720, depth_or_array_layers: 1 })
    );
    assert_eq!(attachments.resize(a), None);
    let mut reallocations = 0;
    for _ in 0..5 {
        if let Some(extent) = attachments.resize(b) {
            reallocations += 1;
            assert_eq!(extent, Extent { width: 1920, height: 1080, depth_or_array_layers: 1 });
        }
    }
    assert_eq!(reallocations, 1);
    assert_eq!(attachments.current_size(), b);
    assert_eq!(*attachments.normal(), 1);
    assert_eq!(*attachments.position(), 2);
}

#[test]
fn resize_to_the_initial_size_does_nothing() {
    let mut attachments = RenderAttachments::new((), ());
    assert_eq!(attachments.resize((1, 1)), None);
    assert_eq!(
        attachments.resize((1, 2)),
        Some(Extent { width: 1, height: 2, depth_or_array_layers: 1 })
    );
    assert_eq!(
        attachments.resize((2, 1)),
        Some(Extent { width: 2, height: 1, depth_or_array_layers: 1 })
    );
}
