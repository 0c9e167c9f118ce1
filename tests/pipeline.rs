use nerf_burn::batch::{batch, FEATURE_WIDTH, LABEL_WIDTH};
use nerf_burn::camera::{pixel_offset, pixel_offsets};
use nerf_burn::dataset::{FrameSamples, ParticleDataset, ParticleItem};
use nerf_burn::error::{ConfigError, DatasetError, ImageLoadError, ShapeError};
use nerf_burn::images::{collect_images, image_file_name};
use nerf_burn::network::{NerfModelConfig, OUTPUT_WIDTH};
use nerf_burn::split::Split;

fn frame(w: u32, h: u32, spr: u32, seed: u8) -> FrameSamples {
    let px = (w * h) as usize;
    let mut rgb = Vec::new();
    for p in 0..px {
        rgb.push(seed.wrapping_add(p as u8));
        rgb.push(seed.wrapping_add(2 * p as u8));
        rgb.push(255 - (p as u8));
    }
    let mut features = Vec::new();
    for k in 0..px * spr as usize {
        let x = (k as f32 + seed as f32).to_bits();
        features.push([x, x + 1, x + 2, x + 3, x + 4, x + 5]);
    }
    FrameSamples { width: w, height: h, rgb, features }
}

#[test]
fn two_frames_of_four_by_four_give_thirty_two_particles() {
    let frames = vec![frame(4, 4, 1, 0), frame(4, 4, 1, 100)];
    let d = ParticleDataset::from_frames(&frames, 1).unwrap();
    assert_eq!(d.len(), 32);
}

#[test]
fn unknown_split_is_refused() {
    assert_eq!(Split::parse("foo"), Err(ConfigError::UnknownSplit));
    assert_eq!(Split::parse(""), Err(ConfigError::UnknownSplit));
    assert_eq!(Split::parse("Train"), Err(ConfigError::UnknownSplit));
}

#[test]
fn known_splits_resolve_to_their_files() {
    assert_eq!(Split::parse("train"), Ok(Split::Train));
    assert_eq!(Split::parse("val"), Ok(Split::Val));
    assert_eq!(Split::parse("valid"), Ok(Split::Val));
    assert_eq!(Split::parse("test"), Ok(Split::Test));
    assert_eq!(Split::Train.dir_name(), "train");
    assert_eq!(Split::Val.dir_name(), "val");
    assert_eq!(Split::Test.dir_name(), "test");
    assert_eq!(Split::Train.transforms_file(), "transforms_train.json");
    assert_eq!(Split::Val.transforms_file(), "transforms_val.json");
    assert_eq!(Split::Test.transforms_file(), "transforms_test.json");
}

#[test]
fn missing_third_image_names_index_two() {
    let slots: Vec<Option<u8>> = vec![Some(1), Some(2), None];
    assert_eq!(collect_images(slots), Err(ImageLoadError::Missing { index: 2 }));
    let slots: Vec<Option<u8>> = vec![None, Some(2), None];
    assert_eq!(collect_images(slots), Err(ImageLoadError::Missing { index: 0 }));
}

#[test]
fn all_images_present_keep_their_order() {
    let slots: Vec<Option<u8>> = vec![Some(7), Some(3), Some(9)];
    assert_eq!(collect_images(slots), Ok(vec![7, 3, 9]));
    let empty: Vec<Option<u8>> = vec![];
    assert_eq!(collect_images(empty), Ok(vec![]));
}

#[test]
fn particle_count_is_frames_times_pixels_times_samples() {
    let frames = vec![frame(3, 2, 4, 0), frame(3, 2, 4, 1), frame(3, 2, 4, 2)];
    let d = ParticleDataset::from_frames(&frames, 4).unwrap();
    assert_eq!(d.len(), 3 * 3 * 2 * 4);
}

#[test]
fn particles_carry_their_sample_and_pixel_color() {
    let frames = vec![frame(2, 2, 3, 10), frame(2, 2, 3, 50)];
    let d = ParticleDataset::from_frames(&frames, 3).unwrap();
    // frame 1, sample 7 lies on ray 2 (pixel (0, 1))
    let item = d.get(12 + 7).unwrap();
    assert_eq!(item.feature, frames[1].features[7]);
    assert_eq!(
        item.label,
        [frames[1].rgb[6] as i32, frames[1].rgb[7] as i32, frames[1].rgb[8] as i32]
    );
    let first = d.get(0).unwrap();
    assert_eq!(first.feature, frames[0].features[0]);
    assert_eq!(first.label, [10, 10, 255]);
}

#[test]
fn get_past_the_end_is_none() {
    let frames = vec![frame(2, 1, 1, 0)];
    let d = ParticleDataset::from_frames(&frames, 1).unwrap();
    assert!(d.get(0).is_some());
    assert!(d.get(1).is_some());
    assert_eq!(d.get(2), None);
    assert_eq!(d.get(usize::MAX), None);
}

#[test]
fn items_from_clips_at_the_end() {
    let frames = vec![frame(2, 2, 1, 0)];
    let d = ParticleDataset::from_frames(&frames, 1).unwrap();
    let part = d.items_from(2, 10);
    assert_eq!(part.len(), 2);
    assert_eq!(part[0], d.get(2).unwrap());
    assert_eq!(d.items_from(9, 3).len(), 0);
}

#[test]
fn dataset_errors() {
    let none: Vec<FrameSamples> = vec![];
    assert!(matches!(ParticleDataset::from_frames(&none, 1), Err(DatasetError::NoFrames)));
    let empty = vec![frame(0, 4, 1, 0)];
    assert!(matches!(ParticleDataset::from_frames(&empty, 1), Err(DatasetError::EmptyImage)));
    let mixed = vec![frame(4, 4, 1, 0), frame(4, 4, 1, 0), frame(4, 3, 1, 0)];
    assert!(matches!(
        ParticleDataset::from_frames(&mixed, 1),
        Err(DatasetError::SizeMismatch { frame: 2 })
    ));
    let mut short_rgb = vec![frame(2, 2, 1, 0), frame(2, 2, 1, 0)];
    short_rgb[1].rgb.pop();
    assert!(matches!(
        ParticleDataset::from_frames(&short_rgb, 1),
        Err(DatasetError::PixelBuffer { frame: 1 })
    ));
    let wrong_samples = vec![frame(2, 2, 2, 0)];
    assert!(matches!(
        ParticleDataset::from_frames(&wrong_samples, 1),
        Err(DatasetError::SampleCount { frame: 0 })
    ));
}

#[test]
fn pixel_offsets_are_distinct_and_centered() {
    assert_eq!(pixel_offset(4, 4, 0, 0), (-3, 3));
    assert_eq!(pixel_offset(4, 4, 3, 3), (3, -3));
    assert_eq!(pixel_offset(3, 1, 1, 0), (0, 0));
    let all = pixel_offsets(4, 4);
    assert_eq!(all.len(), 16);
    assert_eq!(all[1 * 4 + 2], pixel_offset(4, 4, 2, 1));
    for a in 0..all.len() {
        for b in 0..all.len() {
            if a != b {
                assert_ne!(all[a], all[b]);
            }
        }
    }
}

#[test]
fn batch_rows_follow_items() {
    let a = ParticleItem { feature: [1, 2, 3, 4, 5, 6], label: [10, 20, 30] };
    let b = ParticleItem { feature: [7, 8, 9, 10, 11, 12], label: [40, 50, 60] };
    let out = batch(&vec![a, b]);
    assert_eq!(out.feature_shape(), (2, FEATURE_WIDTH));
    assert_eq!(out.label_shape(), (2, LABEL_WIDTH));
    assert_eq!(out.features, vec![1, 2, 3, 4, 5, 6, 7, 8, 9, 10, 11, 12]);
    assert_eq!(out.labels, vec![10, 20, 30, 40, 50, 60]);
}

#[test]
fn empty_batch_has_zero_rows() {
    let out = batch(&vec![]);
    assert_eq!(out.feature_shape(), (0, 6));
    assert_eq!(out.label_shape(), (0, 3));
    assert!(out.features.is_empty() && out.labels.is_empty());
}

#[test]
fn forward_shape_checks_input_width() {
    let c = NerfModelConfig::new(256, 63, 27, 4);
    assert_eq!(c.forward_shape((1024, 90)), Ok((1024, OUTPUT_WIDTH)));
    assert_eq!(c.forward_shape((1, 90)), Ok((1, 4)));
    assert_eq!(
        c.forward_shape((8, 89)),
        Err(ShapeError::InputWidth { expected: 90, found: 89 })
    );
    assert_eq!(c.input_columns(), Ok(((0, 63), (63, 90))));
    let big = NerfModelConfig::new(1, usize::MAX, 1, 4);
    assert_eq!(big.forward_shape((1, 0)), Err(ShapeError::WidthOverflow));
}

#[test]
fn layer_dims_follow_the_skip_topology() {
    let c = NerfModelConfig::new(256, 63, 27, 4);
    let dims = c.layer_dims().unwrap();
    assert_eq!(
        dims,
        vec![
            (63, 256),
            (256, 256),
            (256, 256),
            (256, 256),
            (319, 256),
            (256, 256),
            (256, 256),
            (256, 256),
            (256, 1),
            (283, 128),
            (128, 3)
        ]
    );
    let big = NerfModelConfig::new(usize::MAX, 1, 0, 4);
    assert_eq!(big.layer_dims(), Err(ShapeError::WidthOverflow));
}

#[test]
fn image_file_names_follow_the_convention() {
    assert_eq!(image_file_name(0), "r_0.png");
    assert_eq!(image_file_name(7), "r_7.png");
    assert_eq!(image_file_name(10), "r_10.png");
    assert_eq!(image_file_name(199), "r_199.png");
    assert_eq!(image_file_name(usize::MAX), format!("r_{}.png", usize::MAX));
}
