use voxel_pipeline::trace::{LastCameras, TraceSettings, ViewMatrices};

type Mat = [f32; 16];

fn mat(seed: f32) -> Mat {
    let mut m = [0.0f32; 16];
    for (i, x) in m.iter_mut().enumerate() {
        *x = seed + i as f32;
    }
    m
}

#[test]
fn trace_settings_default() {
    let settings = TraceSettings::default();
    assert!(!settings.show_ray_steps);
    assert_eq!(settings.samples, 1);
    assert!(settings.shadows);
}

#[test]
fn first_frame_reprojects_from_the_current_camera() {
    let mut cameras: LastCameras<Mat> = LastCameras::new();
    assert_eq!(cameras.len(), 0);
    let camera = mat(1.0);
    assert_eq!(cameras.advance(7, camera), camera);
    assert_eq!(cameras.len(), 1);
}

#[test]
fn last_camera_is_the_camera_of_the_frame_before() {
    let mut cameras: LastCameras<Mat> = LastCameras::new();
    let (a, b, c) = (mat(1.0), mat(2.0), mat(3.0));
    assert_eq!(cameras.advance(7, a), a);
    assert_eq!(cameras.advance(8, mat(50.0)), mat(50.0));
    assert_eq!(cameras.advance(7, b), a);
    assert_eq!(cameras.advance(8, mat(60.0)), mat(50.0));
    assert_eq!(cameras.advance(7, c), b);
    assert_eq!(cameras.len(), 2);
}

#[test]
fn prepared_uniforms_carry_settings_and_matrices() {
    let mut cameras: LastCameras<Mat> = LastCameras::new();
    let matrices = ViewMatrices { camera: mat(1.0), camera_inverse: mat(2.0), projection: mat(3.0) };
    let uniforms = cameras.prepare_view(3, &TraceSettings::default(), matrices, 1.5f32);
    assert_eq!(uniforms.camera, mat(1.0));
    assert_eq!(uniforms.camera_inverse, mat(2.0));
    assert_eq!(uniforms.last_camera, mat(1.0));
    assert_eq!(uniforms.projection, mat(3.0));
    assert_eq!(uniforms.time, 1.5f32);
    assert_eq!(uniforms.show_ray_steps, 0);
    assert_eq!(uniforms.samples, 1);
    assert_eq!(uniforms.shadows, 1);

    let settings = TraceSettings { show_ray_steps: true, samples: 4, shadows: false };
    let moved = ViewMatrices { camera: mat(9.0), camera_inverse: mat(8.0), projection: mat(3.0) };
    let uniforms = cameras.prepare_view(3, &settings, moved, 2.5f32);
    assert_eq!(uniforms.camera, mat(9.0));
    assert_eq!(uniforms.last_camera, mat(1.0));
    assert_eq!(uniforms.show_ray_steps, 1);
    assert_eq!(uniforms.samples, 4);
    assert_eq!(uniforms.shadows, 0);
}

#[test]
fn prune_forgets_views_that_are_gone() {
    let mut cameras: LastCameras<Mat> = LastCameras::new();
    cameras.advance(1, mat(1.0));
    cameras.advance(2, mat(2.0));
    cameras.advance(3, mat(3.0));
    let mut forgotten = cameras.prune(&vec![2, 4]);
    forgotten.sort();
    assert_eq!(forgotten, vec![1, 3]);
    assert_eq!(cameras.len(), 1);
    assert_eq!(cameras.advance(2, mat(20.0)), mat(2.0));
    // a view that comes back starts over
    assert_eq!(cameras.advance(1, mat(10.0)), mat(10.0));
}

#[test]
fn prune_bounds_the_table_by_the_views_of_the_frame() {
    let mut cameras: LastCameras<u32> = LastCameras::new();
    for frame in 0..50u64 {
        let views = vec![frame, frame + 1];
        for v in &views {
            cameras.advance(*v, frame as u32);
        }
        cameras.prune(&views);
        assert!(cameras.len() <= views.len());
    }
    assert_eq!(cameras.len(), 2);
}
