//! The multi-pass driver.
//!
//! Several complete, independently seeded renders of the same scene are
//! averaged pixelwise into the final image. Each pass is an exact
//! function of its seed, so the whole schedule is reproducible from the
//! seed list; with a single pass the average equals that pass exactly.

use crate::camera::{render_s, scene_wf_s, Camera, CameraV, Scene, SceneV};
use crate::color::{colors_view, Color};
use crate::fixed::{clip, fx_clip, fxadd_s, fxdiv_s, lemma_tdiv_exact_mul, FX_MAX, FX_ONE};
use crate::camera::lemma_rows_shape;
use crate::rng::Rng;
use crate::vec3::{add_v, bounded_v, divs_v, zero_v, Vec3, V3};
use vstd::prelude::*;

verus! {

/// One full render pass: the image produced from a fresh generator with
/// the given seed. A pass depends on nothing else, which is what makes
/// renders reproducible.
pub open spec fn render_pass_s(cam: CameraV, scene: SceneV, seed: u64) -> Seq<V3> {
    render_s(cam, scene, seed, 0).0
}

/// The channelwise sum of pixel `k` across the passes.
pub open spec fn sum_at(imgs: Seq<Seq<V3>>, k: int) -> V3
    decreases imgs.len(),
{
    if imgs.len() == 0 {
        zero_v()
    } else {
        add_v(sum_at(imgs.drop_last(), k), imgs.last()[k])
    }
}

/// The pixelwise arithmetic mean of the passes.
pub open spec fn average_s(imgs: Seq<Seq<V3>>, len: nat) -> Seq<V3> {
    Seq::new(len, |k: int| divs_v(sum_at(imgs, k), clip(imgs.len() * FX_ONE as int, FX_MAX as int)))
}

/// The views of a sequence of images.
pub open spec fn images_view(imgs: Seq<Vec<Color>>) -> Seq<Seq<V3>> {
    imgs.map_values(|v: Vec<Color>| colors_view(v@))
}

/// The final image of a seed schedule: the mean of its passes.
pub open spec fn passes_s(cam: CameraV, scene: SceneV, seeds: Seq<u64>) -> Seq<V3> {
    average_s(
        seeds.map_values(|sd: u64| render_pass_s(cam, scene, sd)),
        (cam.image_height * cam.image_width) as nat,
    )
}

/// Render one pass from its seed.
pub fn render_pass(cam: &Camera, scene: &Scene, seed: u64) -> (pixels: Vec<Color>)
    requires
        scene_wf_s(scene@),
    ensures
        colors_view(pixels@) == render_pass_s(cam@, scene@, seed),
        pixels@.len() == cam@.image_height * cam@.image_width,
{
    let mut rng = Rng::new(seed);
    cam.render(&mut rng, scene)
}

/// The pixelwise mean of images of a common length.
pub fn average_images(images: &Vec<Vec<Color>>, len: usize) -> (out: Vec<Color>)
    requires
        forall|p: int| 0 <= p < images@.len() ==> (#[trigger] images@[p])@.len() == len,
    ensures
        colors_view(out@) == average_s(images_view(images@), len as nat),
{
    let n = images.len();
    let nfx = fx_clip((n as i128) * (FX_ONE as i128));
    proof {
        crate::fixed::lemma_mul_abs_le(n as int, FX_ONE as int, 0x1_0000_0000_0000_0000, FX_ONE as int);
    }
    let ghost target = average_s(images_view(images@), len as nat);
    let mut out: Vec<Color> = Vec::new();
    let mut k: usize = 0;
    while k < len
        invariant
            n == images@.len(),
            nfx as int == clip(n as int * FX_ONE as int, FX_MAX as int),
            forall|p: int| 0 <= p < images@.len() ==> (#[trigger] images@[p])@.len() == len,
            target == average_s(images_view(images@), len as nat),
            k <= len,
            out@.len() == k,
            forall|k2: int| 0 <= k2 < k ==> colors_view(out@)[k2] == target[k2],
        decreases len - k,
    {
        let mut acc = Vec3::zero();
        let mut p: usize = 0;
        while p < n
            invariant
                n == images@.len(),
                forall|p2: int| 0 <= p2 < images@.len() ==> (#[trigger] images@[p2])@.len() == len,
                k < len,
                p <= n,
                acc@ == sum_at(images_view(images@).take(p as int), k as int),
            decreases n - p,
        {
            let ghost pre = images_view(images@).take(p as int);
            let c = images[p][k].0;
            acc = acc.vadd(&c);
            proof {
                let post = images_view(images@).take(p as int + 1);
                assert(post.drop_last() =~= pre);
                assert(post.last() == colors_view(images@[p as int]@));
                assert(post.last()[k as int] == c@);
            }
            p = p + 1;
        }
        proof {
            assert(images_view(images@).take(n as int) =~= images_view(images@));
        }
        let avg = Color(acc.vdiv(nfx));
        let ghost out_pre = out@;
        out.push(avg);
        proof {
            assert(colors_view(out@) =~= colors_view(out_pre).push(avg@));
        }
        k = k + 1;
    }
    proof {
        assert(colors_view(out@) =~= target);
    }
    out
}

/// Render every pass of a seed schedule in order and average them. The
/// passes are independent; a host may also compute them concurrently with
/// `render_pass` and combine them with `average_images`, which yields the
/// same image.
pub fn render_passes(cam: &Camera, scene: &Scene, seeds: &Vec<u64>) -> (out: Vec<Color>)
    requires
        scene_wf_s(scene@),
        cam@.image_height * cam@.image_width <= usize::MAX,
    ensures
        colors_view(out@) == passes_s(cam@, scene@, seeds@),
{
    let mut images: Vec<Vec<Color>> = Vec::new();
    let n = seeds.len();
    let mut p: usize = 0;
    while p < n
        invariant
            scene_wf_s(scene@),
            n == seeds@.len(),
            p <= n,
            images@.len() == p,
            forall|p2: int|
                0 <= p2 < p ==> colors_view((#[trigger] images@[p2])@) == render_pass_s(
                    cam@,
                    scene@,
                    seeds@[p2],
                ),
            forall|p2: int|
                0 <= p2 < p ==> (#[trigger] images@[p2])@.len() == cam@.image_height
                    * cam@.image_width,
        decreases n - p,
    {
        let img = render_pass(cam, scene, seeds[p]);
        images.push(img);
        p = p + 1;
    }
    let len = (cam.image_height as usize) * (cam.image_width as usize);
    let out = average_images(&images, len);
    proof {
        assert(images_view(images@) =~= seeds@.map_values(
            |sd: u64| render_pass_s(cam@, scene@, sd),
        ));
    }
    out
}

/// The mean of a single image of in-range channels is that image: the sum
/// starts from zero and the division by one is exact.
pub proof fn lemma_average_single(img: Seq<V3>)
    requires
        forall|k: int| 0 <= k < img.len() ==> bounded_v(#[trigger] img[k]),
    ensures
        average_s(seq![img], img.len()) == img,
{
    let one = seq![img];
    assert forall|k: int| 0 <= k < img.len() implies average_s(one, img.len())[k] == img[k] by {
        assert(one.drop_last() =~= Seq::<Seq<V3>>::empty());
        let c = img[k];
        assert(sum_at(one.drop_last(), k) == zero_v());
        assert(sum_at(one, k) == add_v(zero_v(), c));
        assert(fxadd_s(0, c.x) == c.x);
        assert(fxadd_s(0, c.y) == c.y);
        assert(fxadd_s(0, c.z) == c.z);
        lemma_tdiv_exact_mul(c.x);
        lemma_tdiv_exact_mul(c.y);
        lemma_tdiv_exact_mul(c.z);
        assert(fxdiv_s(c.x, FX_ONE as int) == c.x);
        assert(fxdiv_s(c.y, FX_ONE as int) == c.y);
        assert(fxdiv_s(c.z, FX_ONE as int) == c.z);
    }
    assert(average_s(one, img.len()) =~= img);
}

/// With a single pass, the driver's average equals that pass's raw
/// output exactly: summing one in-range image from zero and dividing by
/// one loses nothing.
pub proof fn lemma_single_pass_exact(cam: CameraV, scene: SceneV, seed: u64)
    requires
        0 <= cam.image_width,
        0 <= cam.image_height,
    ensures
        passes_s(cam, scene, seq![seed]) == render_pass_s(cam, scene, seed),
{
    let img = render_pass_s(cam, scene, seed);
    lemma_rows_shape(cam, scene, cam.image_height as nat, seed, 0);
    assert((cam.image_height * cam.image_width) as nat == (cam.image_height as nat) * (
    cam.image_width as nat)) by (nonlinear_arith)
        requires
            0 <= cam.image_width,
            0 <= cam.image_height,
    ;
    assert(img.len() == (cam.image_height * cam.image_width) as nat);
    assert(seq![seed].map_values(|sd: u64| render_pass_s(cam, scene, sd)) =~= seq![img]);
    lemma_average_single(img);
}

} // verus!
