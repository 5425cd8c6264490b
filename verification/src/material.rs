//! Material scattering models: diffuse, specular with roughness, and
//! transmissive.
//!
//! The material set is closed, so dispatch is a match over a tagged
//! union. Each scatter consumes draws from the random source and is
//! specified as an exact function of the seed and the stream position.

use crate::color::Color;
use crate::fixed::{fxadd, fxadd_s, fxdiv, fxdiv_s, fxmul, fxmul_s, fxsqrt, fxsqrt_s, fxsub, fxsub_s, FX_ONE};
use crate::hittable::{HitRecord, HitRecV};
use crate::ray::{rayv, Ray, RayV};
use crate::rng::{chacha_u64, unit_sample, Rng};
use crate::vec3::{
    add_v, dot_v, near_zero_v, neg_v, random_unit_v, reflect_v, refract_v, scale_v, unit_v, v3,
    Vec3, V3,
};
use vstd::prelude::*;

verus! {

/// A scatter outcome: an attenuation tint and the outgoing ray.
#[derive(Clone, Copy, Debug)]
pub struct Scatter {
    pub attenuation: Color,
    pub scattered: Ray,
}

/// The model of a scatter outcome.
pub ghost struct ScatterV {
    pub attenuation: V3,
    pub scattered: RayV,
}

impl View for Scatter {
    type V = ScatterV;

    open spec fn view(&self) -> ScatterV {
        ScatterV { attenuation: self.attenuation@, scattered: self.scattered@ }
    }
}

pub open spec fn opt_scatter_view(o: Option<Scatter>) -> Option<ScatterV> {
    match o {
        Some(s) => Some(s@),
        None => None,
    }
}

/// Ideal diffuse: always scatters toward `normal + unit sample`.
#[derive(Clone, Copy, Debug)]
pub struct Lambertian {
    pub albedo: Color,
}

/// Specular with roughness `fuzz`, clamped to at most one.
#[derive(Clone, Copy, Debug)]
pub struct Metal {
    pub albedo: Color,
    pub fuzz: i64,
}

/// Transmissive with the given refraction index.
#[derive(Clone, Copy, Debug)]
pub struct Dielectric {
    pub refraction_index: i64,
}

/// The closed union of material models.
#[derive(Clone, Copy, Debug)]
pub enum MaterialKind {
    Lambertian(Lambertian),
    Metal(Metal),
    Dielectric(Dielectric),
}

/// The model of a material.
pub ghost enum MatV {
    Lambertian { albedo: V3 },
    Metal { albedo: V3, fuzz: int },
    Dielectric { refraction_index: int },
}

impl View for MaterialKind {
    type V = MatV;

    open spec fn view(&self) -> MatV {
        match *self {
            MaterialKind::Lambertian(m) => MatV::Lambertian { albedo: m.albedo@ },
            MaterialKind::Metal(m) => MatV::Metal { albedo: m.albedo@, fuzz: m.fuzz as int },
            MaterialKind::Dielectric(m) => MatV::Dielectric {
                refraction_index: m.refraction_index as int,
            },
        }
    }
}

/// Diffuse scatter: the normal plus a unit sample, falling back to the
/// bare normal when the sum cancels to zero; never absorbs.
pub open spec fn lambertian_scatter_s(
    albedo: V3,
    r: RayV,
    rec: HitRecV,
    seed: u64,
    pos: nat,
) -> (Option<ScatterV>, nat) {
    let (u, p2) = random_unit_v(seed, pos);
    let d0 = add_v(rec.normal, u);
    let dir = if near_zero_v(d0) {
        rec.normal
    } else {
        d0
    };
    (Some(ScatterV { attenuation: albedo, scattered: rayv(rec.p, dir, r.time) }), p2)
}

/// Specular scatter: the reflected direction perturbed by `fuzz` times a
/// unit sample; absorbed when the perturbed direction leaves the surface
/// on the wrong side.
pub open spec fn metal_scatter_s(
    albedo: V3,
    fuzz: int,
    r: RayV,
    rec: HitRecV,
    seed: u64,
    pos: nat,
) -> (Option<ScatterV>, nat) {
    let (u, p2) = random_unit_v(seed, pos);
    let reflected = add_v(reflect_v(r.dir, rec.normal), scale_v(u, fuzz));
    if dot_v(reflected, rec.normal) > 0 {
        (Some(ScatterV { attenuation: albedo, scattered: rayv(rec.p, reflected, r.time) }), p2)
    } else {
        (None, p2)
    }
}

/// The Schlick reflectance approximation.
pub open spec fn reflectance_s(cos: int, ri: int) -> int {
    let r0 = fxdiv_s(fxsub_s(FX_ONE as int, ri), fxadd_s(FX_ONE as int, ri));
    let r0sq = fxmul_s(r0, r0);
    let omc = fxsub_s(FX_ONE as int, cos);
    let p2 = fxmul_s(omc, omc);
    let p4 = fxmul_s(p2, p2);
    let p5 = fxmul_s(p4, omc);
    fxadd_s(r0sq, fxmul_s(fxsub_s(FX_ONE as int, r0sq), p5))
}

/// Transmissive scatter: refract unless total internal reflection or the
/// Schlick draw chooses reflection; attenuation is white, never absorbs.
pub open spec fn dielectric_scatter_s(
    refraction_index: int,
    r: RayV,
    rec: HitRecV,
    seed: u64,
    pos: nat,
) -> (Option<ScatterV>, nat) {
    let ri = if rec.front_face {
        fxdiv_s(FX_ONE as int, refraction_index)
    } else {
        refraction_index
    };
    let unit_dir = unit_v(r.dir);
    let c0 = dot_v(neg_v(unit_dir), rec.normal);
    let cos = if c0 > FX_ONE as int {
        FX_ONE as int
    } else {
        c0
    };
    let sin = fxsqrt_s(fxsub_s(FX_ONE as int, fxmul_s(cos, cos)));
    let cannot_refract = fxmul_s(ri, sin) > FX_ONE as int;
    let w = unit_sample(chacha_u64(seed, pos));
    let dir = if cannot_refract || reflectance_s(cos, ri) > w {
        reflect_v(unit_dir, rec.normal)
    } else {
        refract_v(unit_dir, rec.normal, ri)
    };
    (
        Some(
            ScatterV {
                attenuation: v3(FX_ONE as int, FX_ONE as int, FX_ONE as int),
                scattered: rayv(rec.p, dir, r.time),
            },
        ),
        pos + 1,
    )
}

/// Dispatch over the material union.
pub open spec fn material_scatter_s(m: MatV, r: RayV, rec: HitRecV, seed: u64, pos: nat) -> (
    Option<ScatterV>,
    nat,
) {
    match m {
        MatV::Lambertian { albedo } => lambertian_scatter_s(albedo, r, rec, seed, pos),
        MatV::Metal { albedo, fuzz } => metal_scatter_s(albedo, fuzz, r, rec, seed, pos),
        MatV::Dielectric { refraction_index } => dielectric_scatter_s(
            refraction_index,
            r,
            rec,
            seed,
            pos,
        ),
    }
}

impl Lambertian {
    pub fn new(albedo: Color) -> (r: Lambertian)
        ensures
            r.albedo@ == albedo@,
    {
        Lambertian { albedo }
    }
}

impl Metal {
    /// Roughness is clamped to at most one.
    pub fn new(albedo: Color, fuzz: i64) -> (r: Metal)
        ensures
            r.albedo@ == albedo@,
            r.fuzz as int == if fuzz as int <= FX_ONE as int {
                fuzz as int
            } else {
                FX_ONE as int
            },
    {
        Metal {
            albedo,
            fuzz: if fuzz <= FX_ONE {
                fuzz
            } else {
                FX_ONE
            },
        }
    }
}

impl Dielectric {
    pub fn new(refraction_index: i64) -> (r: Dielectric)
        ensures
            r.refraction_index == refraction_index,
    {
        Dielectric { refraction_index }
    }
}

/// The Schlick reflectance.
fn reflectance(cos: i64, ri: i64) -> (r: i64)
    ensures
        r as int == reflectance_s(cos as int, ri as int),
{
    let r0 = fxdiv(fxsub(FX_ONE, ri), fxadd(FX_ONE, ri));
    let r0sq = fxmul(r0, r0);
    let omc = fxsub(FX_ONE, cos);
    let p2 = fxmul(omc, omc);
    let p4 = fxmul(p2, p2);
    let p5 = fxmul(p4, omc);
    fxadd(r0sq, fxmul(fxsub(FX_ONE, r0sq), p5))
}

impl MaterialKind {
    /// Scatter an incoming ray at a hit: the attenuation and the outgoing
    /// ray, or absorption; the outgoing ray keeps the incoming time.
    pub fn scatter(&self, rng: &mut Rng, ray_in: &Ray, rec: &HitRecord) -> (r: Option<Scatter>)
        ensures
            ({
                let (ov, p2) = material_scatter_s(
                    self@,
                    ray_in@,
                    rec@,
                    old(rng).seed(),
                    old(rng).pos(),
                );
                opt_scatter_view(r) == ov && final(rng).pos() == p2 && final(rng).seed() == old(
                    rng,
                ).seed()
            }),
    {
        match self {
            MaterialKind::Lambertian(m) => {
                let u = Vec3::random_unit(rng);
                let d0 = rec.normal.vadd(&u);
                let dir = if d0.near_zero() {
                    rec.normal
                } else {
                    d0
                };
                Some(
                    Scatter {
                        attenuation: m.albedo,
                        scattered: Ray::at_time(rec.p, dir, ray_in.time),
                    },
                )
            },
            MaterialKind::Metal(m) => {
                let u = Vec3::random_unit(rng);
                let reflected = ray_in.dir.reflect(&rec.normal).vadd(&u.scale(m.fuzz));
                if reflected.dot(&rec.normal) > 0 {
                    Some(
                        Scatter {
                            attenuation: m.albedo,
                            scattered: Ray::at_time(rec.p, reflected, ray_in.time),
                        },
                    )
                } else {
                    None
                }
            },
            MaterialKind::Dielectric(m) => {
                let ri = if rec.front_face {
                    fxdiv(FX_ONE, m.refraction_index)
                } else {
                    m.refraction_index
                };
                let unit_dir = ray_in.dir.unit_vector();
                let c0 = unit_dir.vneg().dot(&rec.normal);
                let cos = if c0 > FX_ONE {
                    FX_ONE
                } else {
                    c0
                };
                let sin = fxsqrt(fxsub(FX_ONE, fxmul(cos, cos)));
                let cannot_refract = fxmul(ri, sin) > FX_ONE;
                let w = rng.next_unit();
                let dir = if cannot_refract || reflectance(cos, ri) > w {
                    unit_dir.reflect(&rec.normal)
                } else {
                    unit_dir.refract(&rec.normal, ri)
                };
                Some(
                    Scatter {
                        attenuation: Color::new(FX_ONE, FX_ONE, FX_ONE),
                        scattered: Ray::at_time(rec.p, dir, ray_in.time),
                    },
                )
            },
        }
    }
}

} // verus!
