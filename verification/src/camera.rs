//! The camera: configuration, stochastic ray generation, and the
//! recursive path tracer.
//!
//! Construction derives the pixel grid and basis vectors once. Per-pixel
//! ray generation perturbs the target inside the pixel for anti-aliasing
//! and, with a positive defocus angle, samples the lens disk for depth of
//! field. `ray_color` gathers light recursively until the ray escapes to
//! the background gradient, is absorbed, or the bounce budget runs out.

use crate::color::{colors_view, Color};
use crate::fixed::{
    clip, div_trunc, fx_from_u32, fxadd, fxadd_s, fxdiv, fxdiv_s, fxmul, fxmul_s, fxsub,
    fxsub_s, tdiv, FX_INF, FX_MAX, FX_ONE,
};
use crate::hittable::{lemma_nearest_mat_from, nearest_hit_s, HittableList};
use crate::interval::{iv, Interval};
use crate::material::{material_scatter_s, MatV, MaterialKind};
use crate::ray::{rayv, Ray, RayV};
use crate::rng::{chacha_u64, unit_sample, Rng};
use crate::sphere::SphereV;
use crate::vec3::{
    add_v, bounded_v, cross_v, divs_v, mul_v, neg_v, random_disk_v, scale_v, sub_v, unit_v, v3,
    zero_v, Point, Vec3, V3,
};
use vstd::prelude::*;

verus! {

/// One half, as a fixed-point scalar.
pub const FX_HALF: i64 = 32768;

/// The circle constant, as a fixed-point scalar.
pub const PI_FX: i64 = 205887;

/// The lower bound of every shading query, excluding self-intersection at
/// the origin of a scattered ray (about a thousandth of a unit).
pub const SHADOW_EPS: i64 = 66;

/// A scene: the geometry and the material arena its spheres index into.
pub struct Scene {
    pub objects: HittableList,
    pub materials: Vec<MaterialKind>,
}

/// The model of a scene.
pub ghost struct SceneV {
    pub spheres: Seq<SphereV>,
    pub materials: Seq<MatV>,
}

impl View for Scene {
    type V = SceneV;

    open spec fn view(&self) -> SceneV {
        SceneV {
            spheres: self.objects@,
            materials: self.materials@.map_values(|m: MaterialKind| m@),
        }
    }
}

/// Scene validity: every sphere's material handle indexes the arena.
pub open spec fn scene_wf_s(s: SceneV) -> bool {
    forall|k: int|
        0 <= k < s.spheres.len() ==> 0 <= (#[trigger] s.spheres[k]).mat < s.materials.len()
}

/// A truncated sine series on a nonnegative argument below a right angle.
pub open spec fn sin_s(x: int) -> int {
    let x2 = fxmul_s(x, x);
    let x3 = fxmul_s(x2, x);
    let x5 = fxmul_s(x3, x2);
    let x7 = fxmul_s(x5, x2);
    fxsub_s(
        fxadd_s(fxsub_s(x, fxdiv_s(x3, 6 * FX_ONE as int)), fxdiv_s(x5, 120 * FX_ONE as int)),
        fxdiv_s(x7, 5040 * FX_ONE as int),
    )
}

/// A truncated cosine series on a nonnegative argument below a right
/// angle.
pub open spec fn cos_s(x: int) -> int {
    let x2 = fxmul_s(x, x);
    let x4 = fxmul_s(x2, x2);
    let x6 = fxmul_s(x4, x2);
    fxsub_s(
        fxadd_s(fxsub_s(FX_ONE as int, fxdiv_s(x2, 2 * FX_ONE as int)), fxdiv_s(
            x4,
            24 * FX_ONE as int,
        )),
        fxdiv_s(x6, 720 * FX_ONE as int),
    )
}

/// The tangent of half an angle given in degrees.
pub open spec fn tan_half_deg_s(deg: int) -> int {
    let x = fxdiv_s(fxmul_s(deg, PI_FX as int), 360 * FX_ONE as int);
    fxdiv_s(sin_s(x), cos_s(x))
}

fn sin_fx(x: i64) -> (r: i64)
    ensures
        r as int == sin_s(x as int),
{
    let x2 = fxmul(x, x);
    let x3 = fxmul(x2, x);
    let x5 = fxmul(x3, x2);
    let x7 = fxmul(x5, x2);
    fxsub(
        fxadd(fxsub(x, fxdiv(x3, 6 * FX_ONE)), fxdiv(x5, 120 * FX_ONE)),
        fxdiv(x7, 5040 * FX_ONE),
    )
}

fn cos_fx(x: i64) -> (r: i64)
    ensures
        r as int == cos_s(x as int),
{
    let x2 = fxmul(x, x);
    let x4 = fxmul(x2, x2);
    let x6 = fxmul(x4, x2);
    fxsub(
        fxadd(fxsub(FX_ONE, fxdiv(x2, 2 * FX_ONE)), fxdiv(x4, 24 * FX_ONE)),
        fxdiv(x6, 720 * FX_ONE),
    )
}

fn tan_half_deg(deg: i64) -> (r: i64)
    ensures
        r as int == tan_half_deg_s(deg as int),
{
    let x = fxdiv(fxmul(deg, PI_FX), 360 * FX_ONE);
    fxdiv(sin_fx(x), cos_fx(x))
}

/// The model of a camera configuration under construction.
pub ghost struct BuilderV {
    pub image_width: int,
    pub aspect_ratio: int,
    pub samples_per_pixel: int,
    pub max_depth: nat,
    pub vfov: int,
    pub lookfrom: V3,
    pub lookat: V3,
    pub vup: V3,
    pub defocus_angle: int,
    pub focus_dist: int,
}

/// The model of a built camera.
pub ghost struct CameraV {
    pub image_width: int,
    pub image_height: int,
    pub center: V3,
    pub pixel00_loc: V3,
    pub pixel_delta_u: V3,
    pub pixel_delta_v: V3,
    pub samples_per_pixel: int,
    pub pixel_samples_scale: int,
    pub max_depth: nat,
    pub defocus_angle: int,
    pub defocus_disk_u: V3,
    pub defocus_disk_v: V3,
}

/// Everything `build` derives, as a function of the configuration.
pub open spec fn camera_build_s(b: BuilderV) -> CameraV {
    let w_fx = clip(b.image_width * FX_ONE as int, FX_MAX as int);
    let ih0 = tdiv(fxdiv_s(w_fx, b.aspect_ratio), FX_ONE as int);
    let image_height = if ih0 < 1 {
        1
    } else if ih0 > 0xffff_ffff {
        0xffff_ffff
    } else {
        ih0
    };
    let h_fx = clip(image_height * FX_ONE as int, FX_MAX as int);
    let tanh = tan_half_deg_s(b.vfov);
    let viewport_height = fxmul_s(fxadd_s(tanh, tanh), b.focus_dist);
    let viewport_width = fxmul_s(viewport_height, fxdiv_s(w_fx, h_fx));
    let w = unit_v(sub_v(b.lookfrom, b.lookat));
    let u = unit_v(cross_v(b.vup, w));
    let v = cross_v(w, u);
    let viewport_u = scale_v(u, viewport_width);
    let viewport_v = scale_v(neg_v(v), viewport_height);
    let pixel_delta_u = divs_v(viewport_u, w_fx);
    let pixel_delta_v = divs_v(viewport_v, h_fx);
    let viewport_upper_left = sub_v(
        sub_v(sub_v(b.lookfrom, scale_v(w, b.focus_dist)), divs_v(viewport_u, 2 * FX_ONE as int)),
        divs_v(viewport_v, 2 * FX_ONE as int),
    );
    let pixel00_loc = add_v(
        viewport_upper_left,
        scale_v(add_v(pixel_delta_u, pixel_delta_v), FX_HALF as int),
    );
    let defocus_radius = fxmul_s(b.focus_dist, tan_half_deg_s(b.defocus_angle));
    CameraV {
        image_width: b.image_width,
        image_height,
        center: b.lookfrom,
        pixel00_loc,
        pixel_delta_u,
        pixel_delta_v,
        samples_per_pixel: b.samples_per_pixel,
        pixel_samples_scale: fxdiv_s(
            FX_ONE as int,
            clip(b.samples_per_pixel * FX_ONE as int, FX_MAX as int),
        ),
        max_depth: b.max_depth,
        defocus_angle: b.defocus_angle,
        defocus_disk_u: scale_v(u, defocus_radius),
        defocus_disk_v: scale_v(v, defocus_radius),
    }
}

/// The camera configuration, completed by `build`.
#[derive(Clone, Copy, Debug)]
pub struct CameraBuilder {
    pub image_width: u32,
    pub aspect_ratio: i64,
    pub samples_per_pixel: u32,
    pub max_depth: u32,
    pub vfov: i64,
    pub lookfrom: Point,
    pub lookat: Point,
    pub vup: Vec3,
    pub defocus_angle: i64,
    pub focus_dist: i64,
}

impl View for CameraBuilder {
    type V = BuilderV;

    open spec fn view(&self) -> BuilderV {
        BuilderV {
            image_width: self.image_width as int,
            aspect_ratio: self.aspect_ratio as int,
            samples_per_pixel: self.samples_per_pixel as int,
            max_depth: self.max_depth as nat,
            vfov: self.vfov as int,
            lookfrom: self.lookfrom@,
            lookat: self.lookat@,
            vup: self.vup@,
            defocus_angle: self.defocus_angle as int,
            focus_dist: self.focus_dist as int,
        }
    }
}

/// The documented defaults: a 100-pixel-wide square image, ten samples,
/// depth ten, a 90-degree field of view at the origin looking down the
/// negative `z` axis.
pub open spec fn default_builder_s() -> BuilderV {
    BuilderV {
        image_width: 100,
        aspect_ratio: FX_ONE as int,
        samples_per_pixel: 10,
        max_depth: 10,
        vfov: 90 * FX_ONE as int,
        lookfrom: zero_v(),
        lookat: v3(0, 0, -FX_ONE as int),
        vup: v3(0, FX_ONE as int, 0),
        defocus_angle: 0,
        focus_dist: 10 * FX_ONE as int,
    }
}

impl Default for CameraBuilder {
    fn default() -> (r: CameraBuilder)
        ensures
            r@ == default_builder_s(),
    {
        CameraBuilder {
            image_width: 100,
            aspect_ratio: FX_ONE,
            samples_per_pixel: 10,
            max_depth: 10,
            vfov: 90 * FX_ONE,
            lookfrom: Vec3 { x: 0, y: 0, z: 0 },
            lookat: Vec3 { x: 0, y: 0, z: -FX_ONE },
            vup: Vec3 { x: 0, y: FX_ONE, z: 0 },
            defocus_angle: 0,
            focus_dist: 10 * FX_ONE,
        }
    }
}

impl CameraBuilder {
    pub fn new() -> (r: CameraBuilder)
        ensures
            r@ == default_builder_s(),
    {
        CameraBuilder::default()
    }

    pub fn image_width(self, w: u32) -> (r: CameraBuilder)
        ensures
            r@ == (BuilderV { image_width: w as int, ..self@ }),
    {
        CameraBuilder { image_width: w, ..self }
    }

    pub fn aspect_ratio(self, a: i64) -> (r: CameraBuilder)
        ensures
            r@ == (BuilderV { aspect_ratio: a as int, ..self@ }),
    {
        CameraBuilder { aspect_ratio: a, ..self }
    }

    pub fn samples_per_pixel(self, spp: u32) -> (r: CameraBuilder)
        ensures
            r@ == (BuilderV { samples_per_pixel: spp as int, ..self@ }),
    {
        CameraBuilder { samples_per_pixel: spp, ..self }
    }

    pub fn max_depth(self, depth: u32) -> (r: CameraBuilder)
        ensures
            r@ == (BuilderV { max_depth: depth as nat, ..self@ }),
    {
        CameraBuilder { max_depth: depth, ..self }
    }

    pub fn vfov(self, angle: i64) -> (r: CameraBuilder)
        ensures
            r@ == (BuilderV { vfov: angle as int, ..self@ }),
    {
        CameraBuilder { vfov: angle, ..self }
    }

    pub fn lookfrom(self, p: Point) -> (r: CameraBuilder)
        ensures
            r@ == (BuilderV { lookfrom: p@, ..self@ }),
    {
        CameraBuilder { lookfrom: p, ..self }
    }

    pub fn lookat(self, p: Point) -> (r: CameraBuilder)
        ensures
            r@ == (BuilderV { lookat: p@, ..self@ }),
    {
        CameraBuilder { lookat: p, ..self }
    }

    pub fn vup(self, v: Vec3) -> (r: CameraBuilder)
        ensures
            r@ == (BuilderV { vup: v@, ..self@ }),
    {
        CameraBuilder { vup: v, ..self }
    }

    pub fn defocus_angle(self, angle: i64) -> (r: CameraBuilder)
        ensures
            r@ == (BuilderV { defocus_angle: angle as int, ..self@ }),
    {
        CameraBuilder { defocus_angle: angle, ..self }
    }

    pub fn focus_dist(self, dist: i64) -> (r: CameraBuilder)
        ensures
            r@ == (BuilderV { focus_dist: dist as int, ..self@ }),
    {
        CameraBuilder { focus_dist: dist, ..self }
    }

    /// Derive the pixel grid, the orthonormal basis, and the lens disk.
    pub fn build(self) -> (r: Camera)
        ensures
            r@ == camera_build_s(self@),
    {
        let w_fx = fx_from_u32(self.image_width);
        let ihq = div_trunc(fxdiv(w_fx, self.aspect_ratio) as i128, FX_ONE as i128);
        let image_height: u32 = if ihq < 1 {
            1
        } else if ihq > 0xffff_ffff {
            0xffff_ffff
        } else {
            ihq as u32
        };
        let h_fx = fx_from_u32(image_height);
        let tanh = tan_half_deg(self.vfov);
        let viewport_height = fxmul(fxadd(tanh, tanh), self.focus_dist);
        let viewport_width = fxmul(viewport_height, fxdiv(w_fx, h_fx));
        let w = self.lookfrom.vsub(&self.lookat).unit_vector();
        let u = self.vup.cross(&w).unit_vector();
        let v = w.cross(&u);
        let viewport_u = u.scale(viewport_width);
        let viewport_v = v.vneg().scale(viewport_height);
        let pixel_delta_u = viewport_u.vdiv(w_fx);
        let pixel_delta_v = viewport_v.vdiv(h_fx);
        let viewport_upper_left = self.lookfrom.vsub(&w.scale(self.focus_dist)).vsub(
            &viewport_u.vdiv(2 * FX_ONE),
        ).vsub(&viewport_v.vdiv(2 * FX_ONE));
        let pixel00_loc = viewport_upper_left.vadd(
            &pixel_delta_u.vadd(&pixel_delta_v).scale(FX_HALF),
        );
        let defocus_radius = fxmul(self.focus_dist, tan_half_deg(self.defocus_angle));
        Camera {
            image_width: self.image_width,
            image_height,
            center: self.lookfrom,
            pixel00_loc,
            pixel_delta_u,
            pixel_delta_v,
            samples_per_pixel: self.samples_per_pixel,
            pixel_samples_scale: fxdiv(FX_ONE, fx_from_u32(self.samples_per_pixel)),
            max_depth: self.max_depth,
            defocus_angle: self.defocus_angle,
            defocus_disk_u: u.scale(defocus_radius),
            defocus_disk_v: v.scale(defocus_radius),
        }
    }
}

/// A built camera.
#[derive(Clone, Copy, Debug)]
pub struct Camera {
    pub image_width: u32,
    pub image_height: u32,
    pub center: Point,
    pub pixel00_loc: Point,
    pub pixel_delta_u: Vec3,
    pub pixel_delta_v: Vec3,
    pub samples_per_pixel: u32,
    pub pixel_samples_scale: i64,
    pub max_depth: u32,
    pub defocus_angle: i64,
    pub defocus_disk_u: Vec3,
    pub defocus_disk_v: Vec3,
}

impl View for Camera {
    type V = CameraV;

    open spec fn view(&self) -> CameraV {
        CameraV {
            image_width: self.image_width as int,
            image_height: self.image_height as int,
            center: self.center@,
            pixel00_loc: self.pixel00_loc@,
            pixel_delta_u: self.pixel_delta_u@,
            pixel_delta_v: self.pixel_delta_v@,
            samples_per_pixel: self.samples_per_pixel as int,
            pixel_samples_scale: self.pixel_samples_scale as int,
            max_depth: self.max_depth as nat,
            defocus_angle: self.defocus_angle as int,
            defocus_disk_u: self.defocus_disk_u@,
            defocus_disk_v: self.defocus_disk_v@,
        }
    }
}

/// An anti-aliasing offset in `[-1/2, 1/2)` per axis: two draws.
pub open spec fn sample_square_s(seed: u64, pos: nat) -> V3 {
    v3(
        fxsub_s(unit_sample(chacha_u64(seed, pos)), FX_HALF as int),
        fxsub_s(unit_sample(chacha_u64(seed, pos + 1)), FX_HALF as int),
        0,
    )
}

/// A random offset within the pixel square.
pub fn sample_square(rng: &mut Rng) -> (r: Vec3)
    ensures
        r@ == sample_square_s(old(rng).seed(), old(rng).pos()),
        final(rng).seed() == old(rng).seed(),
        final(rng).pos() == old(rng).pos() + 2,
{
    let x = rng.next_unit();
    let y = rng.next_unit();
    Vec3 { x: fxsub(x, FX_HALF), y: fxsub(y, FX_HALF), z: 0 }
}

/// The ray cast for pixel `(i, j)`: the perturbed target on the viewport,
/// from the camera center, or from a lens-disk sample when the defocus
/// angle is positive. Yields the ray and the new stream position.
pub open spec fn get_ray_s(cam: CameraV, i: int, j: int, seed: u64, pos: nat) -> (RayV, nat) {
    let offset = sample_square_s(seed, pos);
    let fi = fxadd_s(clip(i * FX_ONE as int, FX_MAX as int), offset.x);
    let fj = fxadd_s(clip(j * FX_ONE as int, FX_MAX as int), offset.y);
    let pixel_sample = add_v(
        add_v(cam.pixel00_loc, scale_v(cam.pixel_delta_u, fi)),
        scale_v(cam.pixel_delta_v, fj),
    );
    if cam.defocus_angle <= 0 {
        (rayv(cam.center, sub_v(pixel_sample, cam.center), 0), pos + 2)
    } else {
        let (p, p3) = random_disk_v(seed, pos + 2);
        let origin = add_v(
            add_v(cam.center, scale_v(cam.defocus_disk_u, p.x)),
            scale_v(cam.defocus_disk_v, p.y),
        );
        (rayv(origin, sub_v(pixel_sample, origin), 0), p3)
    }
}

/// Gathered light along a ray: black once the bounce budget is spent;
/// otherwise the scattered continuation tinted by the material, black on
/// absorption, and the vertical background gradient when nothing is hit.
pub open spec fn ray_color_s(scene: SceneV, r: RayV, depth: nat, seed: u64, pos: nat) -> (V3, nat)
    decreases depth,
{
    if depth == 0 {
        (zero_v(), pos)
    } else {
        match nearest_hit_s(scene.spheres, r, iv(SHADOW_EPS as int, FX_INF as int)) {
            Some(rec) => {
                let m = scene.materials[rec.mat];
                let (osc, p2) = material_scatter_s(m, r, rec, seed, pos);
                match osc {
                    Some(sc) => {
                        let (c, p3) = ray_color_s(scene, sc.scattered, (depth - 1) as nat, seed, p2);
                        (mul_v(sc.attenuation, c), p3)
                    },
                    None => (zero_v(), p2),
                }
            },
            None => {
                let unit_direction = unit_v(r.dir);
                let a = fxmul_s(FX_HALF as int, fxadd_s(unit_direction.y, FX_ONE as int));
                let white = v3(FX_ONE as int, FX_ONE as int, FX_ONE as int);
                let blue = v3(FX_HALF as int, 45875, FX_ONE as int);
                (add_v(scale_v(white, fxsub_s(FX_ONE as int, a)), scale_v(blue, a)), pos)
            },
        }
    }
}

/// The recursive path trace.
pub fn ray_color(rng: &mut Rng, ray: &Ray, depth: u32, scene: &Scene) -> (c: Vec3)
    requires
        scene_wf_s(scene@),
    ensures
        ({
            let (cv, p2) = ray_color_s(scene@, ray@, depth as nat, old(rng).seed(), old(rng).pos());
            c@ == cv && final(rng).pos() == p2 && final(rng).seed() == old(rng).seed()
        }),
    decreases depth,
{
    if depth == 0 {
        return Vec3::zero();
    }
    let h = scene.objects.hit(ray, Interval::new(SHADOW_EPS, FX_INF));
    match h {
        Some(rec) => {
            proof {
                lemma_nearest_mat_from(scene@.spheres, ray@, iv(SHADOW_EPS as int, FX_INF as int));
            }
            let m = scene.materials[rec.mat];
            proof {
                assert(m@ == scene@.materials[rec@.mat]);
            }
            match m.scatter(rng, ray, &rec) {
                Some(s) => {
                    let c = ray_color(rng, &s.scattered, depth - 1, scene);
                    s.attenuation.0.vmul(&c)
                },
                None => Vec3::zero(),
            }
        },
        None => {
            let unit_direction = ray.dir.unit_vector();
            let a = fxmul(FX_HALF, fxadd(unit_direction.y, FX_ONE));
            let white = Vec3 { x: FX_ONE, y: FX_ONE, z: FX_ONE };
            let blue = Vec3 { x: FX_HALF, y: 45875, z: FX_ONE };
            white.scale(fxsub(FX_ONE, a)).vadd(&blue.scale(a))
        },
    }
}

/// Depth exhausted means black, whatever the scene holds.
pub proof fn lemma_ray_color_depth_zero(scene: SceneV, r: RayV, seed: u64, pos: nat)
    ensures
        ray_color_s(scene, r, 0, seed, pos) == (zero_v(), pos),
{
}

/// The sum of the first `n` samples of pixel `(i, j)`.
pub open spec fn sample_sum_s(
    cam: CameraV,
    scene: SceneV,
    i: int,
    j: int,
    n: nat,
    seed: u64,
    pos: nat,
) -> (V3, nat)
    decreases n,
{
    if n == 0 {
        (zero_v(), pos)
    } else {
        let (acc, p1) = sample_sum_s(cam, scene, i, j, (n - 1) as nat, seed, pos);
        let (ray, p2) = get_ray_s(cam, i, j, seed, p1);
        let (c, p3) = ray_color_s(scene, ray, cam.max_depth, seed, p2);
        (add_v(acc, c), p3)
    }
}

/// The finished color of pixel `(i, j)`: the sample average.
pub open spec fn pixel_color_s(cam: CameraV, scene: SceneV, i: int, j: int, seed: u64, pos: nat) -> (
    V3,
    nat,
) {
    let (sum, p) = sample_sum_s(cam, scene, i, j, cam.samples_per_pixel as nat, seed, pos);
    (scale_v(sum, cam.pixel_samples_scale), p)
}

/// The first `ni` pixels of row `j`, left to right.
pub open spec fn row_s(cam: CameraV, scene: SceneV, j: int, ni: nat, seed: u64, pos: nat) -> (
    Seq<V3>,
    nat,
)
    decreases ni,
{
    if ni == 0 {
        (Seq::<V3>::empty(), pos)
    } else {
        let (pre, p1) = row_s(cam, scene, j, (ni - 1) as nat, seed, pos);
        let (c, p2) = pixel_color_s(cam, scene, ni - 1, j, seed, p1);
        (pre.push(c), p2)
    }
}

/// The first `nj` rows, top to bottom.
pub open spec fn rows_s(cam: CameraV, scene: SceneV, nj: nat, seed: u64, pos: nat) -> (
    Seq<V3>,
    nat,
)
    decreases nj,
{
    if nj == 0 {
        (Seq::<V3>::empty(), pos)
    } else {
        let (pre, p1) = rows_s(cam, scene, (nj - 1) as nat, seed, pos);
        let (row, p2) = row_s(cam, scene, nj - 1, cam.image_width as nat, seed, p1);
        (pre + row, p2)
    }
}

/// The whole image, row-major, top row first.
pub open spec fn render_s(cam: CameraV, scene: SceneV, seed: u64, pos: nat) -> (Seq<V3>, nat) {
    rows_s(cam, scene, cam.image_height as nat, seed, pos)
}

/// Shape of a row: it has one entry per pixel and every channel lies
/// within the saturation range, because each pixel is a saturated scale
/// of its sample sum.
pub proof fn lemma_row_shape(cam: CameraV, scene: SceneV, j: int, ni: nat, seed: u64, pos: nat)
    ensures
        row_s(cam, scene, j, ni, seed, pos).0.len() == ni,
        forall|k: int|
            0 <= k < ni ==> bounded_v(#[trigger] row_s(cam, scene, j, ni, seed, pos).0[k]),
    decreases ni,
{
    if ni > 0 {
        lemma_row_shape(cam, scene, j, (ni - 1) as nat, seed, pos);
        let prev = row_s(cam, scene, j, (ni - 1) as nat, seed, pos);
        let cur = row_s(cam, scene, j, ni, seed, pos);
        let c = pixel_color_s(cam, scene, ni - 1, j, seed, prev.1).0;
        assert(bounded_v(c));
        assert forall|k: int| 0 <= k < ni implies bounded_v(#[trigger] cur.0[k]) by {
            if k < ni - 1 {
                assert(cur.0[k] == prev.0[k]);
            } else {
                assert(cur.0[k] == c);
            }
        }
    }
}

/// Shape of the image: one entry per pixel of the grid, every channel
/// within the saturation range.
pub proof fn lemma_rows_shape(cam: CameraV, scene: SceneV, nj: nat, seed: u64, pos: nat)
    requires
        0 <= cam.image_width,
    ensures
        rows_s(cam, scene, nj, seed, pos).0.len() == nj * (cam.image_width as nat),
        forall|k: int|
            0 <= k < rows_s(cam, scene, nj, seed, pos).0.len() ==> bounded_v(
                #[trigger] rows_s(cam, scene, nj, seed, pos).0[k],
            ),
    decreases nj,
{
    let w = cam.image_width as nat;
    if nj > 0 {
        lemma_rows_shape(cam, scene, (nj - 1) as nat, seed, pos);
        let prev = rows_s(cam, scene, (nj - 1) as nat, seed, pos);
        lemma_row_shape(cam, scene, nj - 1, w, seed, prev.1);
        let row = row_s(cam, scene, nj - 1, w, seed, prev.1);
        let cur = rows_s(cam, scene, nj, seed, pos);
        assert(nj * w == (nj - 1) * w + w) by (nonlinear_arith);
        assert forall|k: int| 0 <= k < cur.0.len() implies bounded_v(#[trigger] cur.0[k]) by {
            if k < prev.0.len() {
                assert(cur.0[k] == prev.0[k]);
            } else {
                assert(cur.0[k] == row.0[k - prev.0.len()]);
            }
        }
    } else {
        assert(nj * w == 0) by (nonlinear_arith)
            requires
                nj == 0,
        ;
    }
}

impl Camera {
    /// A random point on the lens disk, mapped through the disk basis.
    fn defocus_disk_sample(&self, rng: &mut Rng) -> (r: Point)
        ensures
            ({
                let (p, p3) = random_disk_v(old(rng).seed(), old(rng).pos());
                r@ == add_v(
                    add_v(self@.center, scale_v(self@.defocus_disk_u, p.x)),
                    scale_v(self@.defocus_disk_v, p.y),
                ) && final(rng).pos() == p3 && final(rng).seed() == old(rng).seed()
            }),
    {
        let p = Vec3::random_in_unit_disk(rng);
        self.center.vadd(&self.defocus_disk_u.scale(p.x)).vadd(&self.defocus_disk_v.scale(p.y))
    }

    /// The ray cast for pixel `(i, j)`.
    fn get_ray(&self, rng: &mut Rng, i: u32, j: u32) -> (r: Ray)
        ensures
            ({
                let (rv, p2) = get_ray_s(self@, i as int, j as int, old(rng).seed(), old(
                    rng,
                ).pos());
                r@ == rv && final(rng).pos() == p2 && final(rng).seed() == old(rng).seed()
            }),
    {
        let offset = sample_square(rng);
        let fi = fxadd(fx_from_u32(i), offset.x);
        let fj = fxadd(fx_from_u32(j), offset.y);
        let pixel_sample = self.pixel00_loc.vadd(&self.pixel_delta_u.scale(fi)).vadd(
            &self.pixel_delta_v.scale(fj),
        );
        let ray_origin = if self.defocus_angle <= 0 {
            self.center
        } else {
            self.defocus_disk_sample(rng)
        };
        Ray::new(ray_origin, pixel_sample.vsub(&ray_origin))
    }

    /// Render the whole image: for every pixel, average the configured
    /// number of path-traced samples; row-major, top row first.
    pub fn render(&self, rng: &mut Rng, scene: &Scene) -> (pixels: Vec<Color>)
        requires
            scene_wf_s(scene@),
        ensures
            ({
                let (img, p2) = render_s(self@, scene@, old(rng).seed(), old(rng).pos());
                colors_view(pixels@) == img && final(rng).pos() == p2 && final(rng).seed() == old(
                    rng,
                ).seed()
            }),
            pixels@.len() == self@.image_height * self@.image_width,
    {
        let ghost s = rng.seed();
        let ghost p0 = rng.pos();
        let mut pixels: Vec<Color> = Vec::new();
        let h = self.image_height;
        let w = self.image_width;
        let spp = self.samples_per_pixel;
        let mut j: u32 = 0;
        proof {
            assert(colors_view(pixels@) =~= Seq::<V3>::empty());
        }
        while j < h
            invariant
                s == old(rng).seed(),
                p0 == old(rng).pos(),
                rng.seed() == s,
                scene_wf_s(scene@),
                j <= h,
                h == self.image_height,
                w == self.image_width,
                spp == self.samples_per_pixel,
                colors_view(pixels@) == rows_s(self@, scene@, j as nat, s, p0).0,
                rng.pos() == rows_s(self@, scene@, j as nat, s, p0).1,
                pixels@.len() == j * w,
            decreases h - j,
        {
            let ghost rows_pre = rows_s(self@, scene@, j as nat, s, p0);
            let mut i: u32 = 0;
            proof {
                assert(rows_pre.0 + row_s(self@, scene@, j as int, 0, s, rows_pre.1).0
                    =~= rows_pre.0);
            }
            while i < w
                invariant
                    s == old(rng).seed(),
                    p0 == old(rng).pos(),
                    rng.seed() == s,
                    scene_wf_s(scene@),
                    i <= w,
                    j < h,
                    h == self.image_height,
                    w == self.image_width,
                    spp == self.samples_per_pixel,
                    rows_pre == rows_s(self@, scene@, j as nat, s, p0),
                    colors_view(pixels@) == rows_pre.0 + row_s(
                        self@,
                        scene@,
                        j as int,
                        i as nat,
                        s,
                        rows_pre.1,
                    ).0,
                    rng.pos() == row_s(self@, scene@, j as int, i as nat, s, rows_pre.1).1,
                    pixels@.len() == j * w + i,
                decreases w - i,
            {
                let ghost row_pre = row_s(self@, scene@, j as int, i as nat, s, rows_pre.1);
                let mut color = Vec3::zero();
                let mut sample: u32 = 0;
                let ghost pix_pos = rng.pos();
                while sample < spp
                    invariant
                        s == old(rng).seed(),
                        rng.seed() == s,
                        scene_wf_s(scene@),
                        sample <= spp,
                        spp == self.samples_per_pixel,
                        color@ == sample_sum_s(
                            self@,
                            scene@,
                            i as int,
                            j as int,
                            sample as nat,
                            s,
                            pix_pos,
                        ).0,
                        rng.pos() == sample_sum_s(
                            self@,
                            scene@,
                            i as int,
                            j as int,
                            sample as nat,
                            s,
                            pix_pos,
                        ).1,
                    decreases spp - sample,
                {
                    let ray = self.get_ray(rng, i, j);
                    let c = ray_color(rng, &ray, self.max_depth, scene);
                    color = color.vadd(&c);
                    sample = sample + 1;
                }
                let px = Color(color.scale(self.pixel_samples_scale));
                let ghost pxs_pre = pixels@;
                pixels.push(px);
                proof {
                    assert(colors_view(pixels@) =~= colors_view(pxs_pre).push(px@));
                    assert(row_s(self@, scene@, j as int, i as nat + 1, s, rows_pre.1).0
                        == row_pre.0.push(
                        pixel_color_s(self@, scene@, i as int, j as int, s, row_pre.1).0,
                    ));
                    assert(rows_pre.0 + row_pre.0.push(px@) =~= (rows_pre.0 + row_pre.0).push(
                        px@,
                    ));
                }
                i = i + 1;
            }
            proof {
                assert(rows_s(self@, scene@, j as nat + 1, s, p0).0 =~= rows_pre.0 + row_s(
                    self@,
                    scene@,
                    j as int,
                    w as nat,
                    s,
                    rows_pre.1,
                ).0);
                assert((j as int + 1) * (w as int) == (j as int) * (w as int) + (w as int))
                    by (nonlinear_arith);
            }
            j = j + 1;
        }
        pixels
    }
}

} // verus!
