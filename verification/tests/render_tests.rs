use rencan::frame::rgba_pixels;
use rencan::lightning::{
    lightning_passes, random_value_indices, IntersectionSource, LightningBufferSizes,
    LightningPass,
};
use rencan::noise_texture::decode_noise_texture;
use rencan::ray::TraceType;
use rencan::scene::concat_model_data;

#[test]
fn buffer_sizes_per_light() {
    let s = LightningBufferSizes::new(1000, 2, 4000);
    assert_eq!(s.light_rays, 3000);
    assert_eq!(s.reflections, 1000);
    assert_eq!(s.image, 4000);
    assert_eq!(s.gi_intersections, 1000);
    assert_eq!(s.gi_thetas, 1000);
    assert_eq!(LightningBufferSizes::new(7, 0, 7).light_rays, 7);
}

#[test]
fn passes_without_gi_samples() {
    let p = lightning_passes(0);
    assert_eq!(
        p,
        vec![
            LightningPass::ClearBuffers,
            LightningPass::DirectLight(IntersectionSource::Camera),
            LightningPass::ReflectFromMirrors,
            LightningPass::DirectLight(IntersectionSource::Mirror),
            LightningPass::CopyToImage,
        ]
    );
}

#[test]
fn passes_with_two_gi_samples() {
    let p = lightning_passes(2);
    assert_eq!(p.len(), 9);
    assert_eq!(
        p[4],
        LightningPass::GlobalIllumination { source: IntersectionSource::Camera, sample: 0 }
    );
    assert_eq!(
        p[5],
        LightningPass::GlobalIllumination { source: IntersectionSource::Camera, sample: 1 }
    );
    assert_eq!(
        p[6],
        LightningPass::GlobalIllumination { source: IntersectionSource::Mirror, sample: 0 }
    );
    assert_eq!(
        p[7],
        LightningPass::GlobalIllumination { source: IntersectionSource::Mirror, sample: 1 }
    );
    assert_eq!(p[8], LightningPass::CopyToImage);
}

#[test]
fn random_indices_wrap_around() {
    assert_eq!(random_value_indices(5, 2048), (5, 10));
    assert_eq!(random_value_indices(2047, 2048), (2047, 2046));
    assert_eq!(random_value_indices(4100, 2048), (4, 8));
    assert_eq!(random_value_indices(9, 1), (0, 0));
}

#[test]
fn pixels_group_four_bytes() {
    let bytes = [1u8, 2, 3, 4, 5, 6, 7, 8, 9, 10];
    let px = rgba_pixels(&bytes);
    assert_eq!(px, vec![[1, 2, 3, 4], [5, 6, 7, 8]]);
    assert!(rgba_pixels(&[1, 2, 3]).is_empty());
}

#[test]
fn model_data_is_concatenated_in_order() {
    let parts = vec![vec![[0u32, 4, 1, 0], [1, 4, 2, 0]], vec![], vec![[2, 3, 1, 0]]];
    assert_eq!(concat_model_data(&parts), vec![[0, 4, 1, 0], [1, 4, 2, 0], [2, 3, 1, 0]]);
    let empty: Vec<Vec<u32>> = vec![];
    assert!(concat_model_data(&empty).is_empty());
}

#[test]
fn trace_types_differ() {
    assert!(TraceType::Nearest != TraceType::First);
}

const RGBA_2X1: [u8; 74] = [
    137, 80, 78, 71, 13, 10, 26, 10, 0, 0, 0, 13, 73, 72, 68, 82, 0, 0, 0, 2, 0, 0, 0, 1, 8, 6, 0,
    0, 0, 244, 34, 127, 138, 0, 0, 0, 17, 73, 68, 65, 84, 120, 156, 99, 224, 18, 145, 251, 175,
    97, 100, 211, 0, 0, 8, 194, 2, 82, 6, 203, 102, 190, 0, 0, 0, 0, 73, 69, 78, 68, 174, 66, 96,
    130,
];

const RGB_1X1: [u8; 69] = [
    137, 80, 78, 71, 13, 10, 26, 10, 0, 0, 0, 13, 73, 72, 68, 82, 0, 0, 0, 1, 0, 0, 0, 1, 8, 2, 0,
    0, 0, 144, 119, 83, 222, 0, 0, 0, 12, 73, 68, 65, 84, 120, 156, 99, 96, 100, 98, 6, 0, 0, 14,
    0, 7, 215, 111, 228, 120, 0, 0, 0, 0, 73, 69, 78, 68, 174, 66, 96, 130,
];

#[test]
fn decodes_rgba_texture() {
    let t = decode_noise_texture(&RGBA_2X1).unwrap();
    assert_eq!(t.width, 2);
    assert_eq!(t.height, 1);
    assert_eq!(t.rgba, vec![10, 20, 30, 255, 40, 50, 60, 128]);
}

#[test]
fn rgb_texture_leaves_alpha_bytes_zero() {
    let t = decode_noise_texture(&RGB_1X1).unwrap();
    assert_eq!((t.width, t.height), (1, 1));
    assert_eq!(t.rgba, vec![1, 2, 3, 0]);
}

#[test]
fn rejects_non_png() {
    assert!(decode_noise_texture(&[1, 2, 3, 4]).is_none());
    assert!(decode_noise_texture(&RGBA_2X1[..40]).is_none());
}
