//! Output encoding, end-to-end rendering, determinism, and multi-pass
//! averaging.

use pathtracer::camera::{CameraBuilder, Scene};
use pathtracer::color::{channel_byte, Color};
use pathtracer::driver::{average_images, render_pass, render_passes};
use pathtracer::fixed::FX_ONE;
use pathtracer::hittable::HittableList;
use pathtracer::material::{Lambertian, MaterialKind};
use pathtracer::rng::Rng;
use pathtracer::sphere::Sphere;
use pathtracer::vec3::Vec3;

const S: i64 = FX_ONE;

/// Full white gamma-corrects and clamps to byte 255; black stays 0.
#[test]
fn color_round_trip_white_and_black() {
    assert_eq!(channel_byte(S), 255);
    assert_eq!(channel_byte(0), 0);
    assert_eq!(channel_byte(-S), 0);
    let white = vec![Color::new(S, S, S)];
    let bytes = Color::output_pixels(&white, 1, 1);
    assert_eq!(bytes, b"P3\n1 1\n255\n255 255 255\n".to_vec());
    let black = vec![Color::new(0, 0, 0)];
    let bytes = Color::output_pixels(&black, 1, 1);
    assert_eq!(bytes, b"P3\n1 1\n255\n0 0 0\n".to_vec());
}

#[test]
fn quarter_gray_gamma_corrects_to_half() {
    // sqrt(1/4) = 1/2, so the byte is 128.
    assert_eq!(channel_byte(S / 4), 128);
}

#[test]
fn default_camera_is_a_square_hundred_pixels_wide() {
    let cam = CameraBuilder::new().build();
    assert_eq!(cam.image_width, 100);
    assert_eq!(cam.image_height, 100);
}

fn two_sphere_scene() -> Scene {
    let gray = MaterialKind::Lambertian(Lambertian::new(Color::new(S / 2, S / 2, S / 2)));
    let objects = HittableList::new(vec![
        Sphere::new(Vec3::new(0, -100 * S - S / 2, -S), 100 * S, 0),
        Sphere::new(Vec3::new(0, 0, -S), S / 2, 0),
    ]);
    Scene { objects, materials: vec![gray] }
}

/// The end-to-end scenario: a gray sphere on a gray ground under the sky
/// gradient, 400 pixels wide at 16:9, ten samples, depth fifty. The image
/// is 400 by 225, the stream carries the matching header, and the sphere
/// at the image center is darker than the sky at the top.
#[test]
fn render_two_sphere_scene_end_to_end() {
    let scene = two_sphere_scene();
    let cam = CameraBuilder::new()
        .image_width(400)
        .aspect_ratio(16 * S / 9)
        .samples_per_pixel(10)
        .max_depth(50)
        .build();
    assert_eq!(cam.image_width, 400);
    assert_eq!(cam.image_height, 225);
    let mut rng = Rng::new(2024);
    let pixels = cam.render(&mut rng, &scene);
    assert_eq!(pixels.len(), 400 * 225);
    let bytes = Color::output_pixels(&pixels, cam.image_width, cam.image_height);
    assert!(bytes.starts_with(b"P3\n400 225\n255\n"));
    let luminance = |c: &Color| c.0.x + c.0.y + c.0.z;
    let sky = luminance(&pixels[200]);
    let center = luminance(&pixels[112 * 400 + 200]);
    assert!(center < sky, "center {center} should be darker than sky {sky}");
}

/// Determinism: the same seed gives byte-identical output; another seed
/// gives a different image.
#[test]
fn fixed_seed_renders_are_byte_identical() {
    let scene = two_sphere_scene();
    let cam = CameraBuilder::new()
        .image_width(40)
        .aspect_ratio(16 * S / 9)
        .samples_per_pixel(4)
        .max_depth(8)
        .build();
    let a = render_pass(&cam, &scene, 77);
    let b = render_pass(&cam, &scene, 77);
    let bytes_a = Color::output_pixels(&a, cam.image_width, cam.image_height);
    let bytes_b = Color::output_pixels(&b, cam.image_width, cam.image_height);
    assert_eq!(bytes_a, bytes_b);
    let c = render_pass(&cam, &scene, 78);
    let bytes_c = Color::output_pixels(&c, cam.image_width, cam.image_height);
    assert_ne!(bytes_a, bytes_c);
}

/// With a single pass the driver's average equals that pass's raw output
/// exactly.
#[test]
fn single_pass_average_is_exact() {
    let scene = two_sphere_scene();
    let cam = CameraBuilder::new()
        .image_width(32)
        .aspect_ratio(S)
        .samples_per_pixel(3)
        .max_depth(6)
        .build();
    let direct = render_pass(&cam, &scene, 5);
    let averaged = render_passes(&cam, &scene, &vec![5]);
    assert_eq!(direct, averaged);
}

/// Splitting the same total sample budget across four passes lands within
/// Monte Carlo noise of the single-pass image.
#[test]
fn four_passes_converge_to_the_single_pass_image() {
    let scene = two_sphere_scene();
    let one = CameraBuilder::new()
        .image_width(30)
        .aspect_ratio(S)
        .samples_per_pixel(40)
        .max_depth(10)
        .build();
    let four = CameraBuilder::new()
        .image_width(30)
        .aspect_ratio(S)
        .samples_per_pixel(10)
        .max_depth(10)
        .build();
    let img_one = render_passes(&one, &scene, &vec![11]);
    let img_four = render_passes(&four, &scene, &vec![21, 22, 23, 24]);
    assert_eq!(img_one.len(), img_four.len());
    let mut total_diff: i64 = 0;
    for k in 0..img_one.len() {
        let a = img_one[k].0;
        let b = img_four[k].0;
        total_diff += (a.x - b.x).abs() + (a.y - b.y).abs() + (a.z - b.z).abs();
    }
    let mean_diff = total_diff / (img_one.len() as i64 * 3);
    assert!(mean_diff < S / 8, "mean channel difference {mean_diff}");
}

/// Averaging hand-built images takes the exact pixelwise mean.
#[test]
fn average_of_two_constant_images() {
    let a = vec![Color::new(S, 0, S / 2); 4];
    let b = vec![Color::new(0, S, S / 2); 4];
    let avg = average_images(&vec![a, b], 4);
    for px in avg {
        assert_eq!(px, Color::new(S / 2, S / 2, S / 2));
    }
}
