use vstd::prelude::*;
use crate::fx::{SCALE, tdiv, fxdiv, clamp_s, pow5_s, iroot11_s, clamp_fx, lemma_tdiv_bound};
use crate::vec3::{Float3, Color, bounded, byte_s};
use crate::ray::Ray;
use crate::scene::{CornelBoxScene, Camera, camera_wf, lmax};
use rayon::iter::{IntoParallelIterator, ParallelIterator};

verus! {

/// One output byte from one accumulated radiance channel: divide the
/// accumulated sum by the sample count, clamp to `[0, 1]`, gamma-encode
/// with the display exponent, and convert to a display byte.
pub open spec fn pixel_byte_s(a: int, spp: int) -> int {
    byte_s(
        256 * iroot11_s(
            pow5_s(clamp_s(fxdiv(a, spp * (SCALE as int)), 0, SCALE as int) / 256)
                * 0x1_0000_0000_0000,
        ),
    )
}

/// What holds of every rendered pixel: its three bytes are the encoding
/// of the per-channel averages of some accumulated sum of `spp` traced
/// radiances, each channel of the sum within `spp` times the radiance
/// bound.
pub open spec fn pixel_ok(b0: u8, b1: u8, b2: u8, spp: int) -> bool {
    exists|ax: int, ay: int, az: int|
        #![trigger pixel_byte_s(ax, spp), pixel_byte_s(ay, spp), pixel_byte_s(az, spp)]
        {
            &&& -spp * lmax() <= ax <= spp * lmax()
            &&& -spp * lmax() <= ay <= spp * lmax()
            &&& -spp * lmax() <= az <= spp * lmax()
            &&& b0 == pixel_byte_s(ax, spp)
            &&& b1 == pixel_byte_s(ay, spp)
            &&& b2 == pixel_byte_s(az, spp)
        }
}

/// One output pixel: draw `spp` jittered camera rays through the pixel
/// at `(x, y)` (with `v = 0` at the image bottom), average the traced
/// radiances, gamma-encode, and convert to display bytes. The size and
/// sample caps are generous working bounds for the radiance
/// accumulation, not machine limits.
pub fn render_pixel(
    scene: &CornelBoxScene,
    camera: &Camera,
    x: u32,
    y: u32,
    width: u32,
    height: u32,
    spp: u32,
    depth: usize,
) -> (r: [u8; 3])
    requires
        scene.wf(),
        camera_wf(*camera),
        2 <= width <= 4096,
        2 <= height <= 4096,
        x < width,
        y < height,
        1 <= spp <= 1024,
    ensures
        pixel_ok(r[0], r[1], r[2], spp as int),
{
    let mut acc: Color = Float3::zero();
    let mut s: u32 = 0;
    while s < spp
        invariant
            scene.wf(),
            camera_wf(*camera),
            2 <= width <= 4096,
            2 <= height <= 4096,
            x < width,
            y < height,
            1 <= spp <= 1024,
            0 <= s <= spp,
            -(s as int) * lmax() <= acc.x <= (s as int) * lmax(),
            -(s as int) * lmax() <= acc.y <= (s as int) * lmax(),
            -(s as int) * lmax() <= acc.z <= (s as int) * lmax(),
        decreases spp - s,
    {
        let jitter: Float3 = Float3::random();
        let u: i64 = pixel_coord(x as i64, jitter.x, width as i64);
        let v: i64 = pixel_coord((height - y - 1) as i64, jitter.y, height as i64);
        let ray: Ray = camera.ray(u, v);
        let sample: Color = scene.trace(ray, depth);
        acc = acc.add(sample);
        s = s + 1;
    }
    let averaged: Color = acc.div(spp as i64 * SCALE);
    proof {
        lemma_tdiv_bound(acc.x * (SCALE as int), spp * (SCALE as int));
        lemma_tdiv_bound(acc.y * (SCALE as int), spp * (SCALE as int));
        lemma_tdiv_bound(acc.z * (SCALE as int), spp * (SCALE as int));
    }
    let clipped: Color = averaged.saturate();
    let encoded: Color = clipped.gamma();
    let bytes: [u8; 3] = encoded.to_rgb();
    proof {
        assert(spp as i64 * SCALE == spp as int * (SCALE as int));
        assert(averaged.x == fxdiv(acc.x as int, spp as int * (SCALE as int)) && averaged.y
            == fxdiv(acc.y as int, spp as int * (SCALE as int)) && averaged.z == fxdiv(
            acc.z as int,
            spp as int * (SCALE as int),
        ));
        assert(encoded.x == 256 * iroot11_s(pow5_s(clipped.x as int / 256) * 0x1_0000_0000_0000)
            && encoded.y == 256 * iroot11_s(pow5_s(clipped.y as int / 256) * 0x1_0000_0000_0000)
            && encoded.z == 256 * iroot11_s(pow5_s(clipped.z as int / 256) * 0x1_0000_0000_0000));
        assert(bytes[0] == pixel_byte_s(acc.x as int, spp as int) && bytes[1] == pixel_byte_s(
            acc.y as int,
            spp as int,
        ) && bytes[2] == pixel_byte_s(acc.z as int, spp as int));
    }
    bytes
}

/// The jittered normalized coordinate of pixel `i` out of `n`: the
/// pixel index plus the jitter, over the last index, clamped to
/// `[0, 1]`.
fn pixel_coord(i: i64, jitter: i64, n: i64) -> (r: i64)
    requires
        0 <= i < n,
        2 <= n <= 4096,
        0 <= jitter < SCALE,
    ensures
        r == clamp_s(tdiv(i * (SCALE as int) + jitter, n - 1), 0, SCALE as int),
        0 <= r <= SCALE,
{
    let num: i64 = i * SCALE + jitter;
    let q: i64 = num / (n - 1);
    proof {
        lemma_tdiv_bound(num as int, n - 1 as int);
    }
    clamp_fx(q, 0, SCALE)
}

/// One output pixel addressed by its row-major index.
pub fn render_pixel_index(
    scene: &CornelBoxScene,
    camera: &Camera,
    idx: u32,
    width: u32,
    height: u32,
    spp: u32,
    depth: usize,
) -> (r: [u8; 3])
    requires
        scene.wf(),
        camera_wf(*camera),
        2 <= width <= 4096,
        2 <= height <= 4096,
        idx < width * height,
        1 <= spp <= 1024,
    ensures
        pixel_ok(r[0], r[1], r[2], spp as int),
{
    let x: u32 = idx % width;
    let y: u32 = idx / width;
    proof {
        assert(idx % width < width && idx / width < height) by (nonlinear_arith)
            requires
                2 <= width,
                0 <= idx < width * height,
        ;
    }
    render_pixel(scene, camera, x, y, width, height, spp, depth)
}

/// Relies on rayon's parallel iterator adapters over an index range:
/// `into_par_iter().map(..).collect()` yields exactly one entry per
/// index, in index order, each the result of the mapped call, with the
/// map evaluated on worker threads. Every entry therefore comes from
/// the verified pixel routine and satisfies its postcondition; only the
/// scheduling is rayon's.
#[verifier::external_body]
fn par_pixels(
    scene: &CornelBoxScene,
    camera: &Camera,
    count: u32,
    width: u32,
    height: u32,
    spp: u32,
    depth: usize,
) -> (r: Vec<[u8; 3]>)
    requires
        scene.wf(),
        camera_wf(*camera),
        count == width * height,
        2 <= width <= 4096,
        2 <= height <= 4096,
        1 <= spp <= 1024,
    ensures
        r@.len() == width * height,
        forall|i: int|
            0 <= i < r@.len() ==> pixel_ok(
                #[trigger] r@[i][0],
                r@[i][1],
                r@[i][2],
                spp as int,
            ),
{
    (0u32..count).into_par_iter().map(
        |idx: u32| render_pixel_index(scene, camera, idx, width, height, spp, depth),
    ).collect()
}

/// Render the scene: every pixel sampled `spp` times to the trace depth,
/// pixels distributed across worker threads, flattened to row-major RGB
/// bytes from the top row down.
pub fn render_aa_with_depth(
    scene: &CornelBoxScene,
    width: u32,
    height: u32,
    spp: u32,
    depth: usize,
) -> (r: Vec<u8>)
    requires
        scene.wf(),
        2 <= width <= 4096,
        2 <= height <= 4096,
        1 <= spp <= 1024,
    ensures
        r@.len() == 3 * (width as int * height as int),
        forall|j: int|
            0 <= j < width as int * height as int ==> pixel_ok(
                #[trigger] r@[3 * j],
                r@[3 * j + 1],
                r@[3 * j + 2],
                spp as int,
            ),
{
    let camera: Camera = scene.camera();
    proof {
        assert(width * height <= 4096 * 4096) by (nonlinear_arith)
            requires
                width <= 4096,
                height <= 4096,
        ;
    }
    let count: u32 = width * height;
    let pixels: Vec<[u8; 3]> = par_pixels(scene, &camera, count, width, height, spp, depth);
    let mut out: Vec<u8> = Vec::new();
    let mut i: usize = 0;
    while i < pixels.len()
        invariant
            pixels@.len() == width * height,
            0 <= i <= pixels@.len(),
            out@.len() == 3 * i,
            forall|k: int|
                0 <= k < pixels@.len() ==> pixel_ok(
                    #[trigger] pixels@[k][0],
                    pixels@[k][1],
                    pixels@[k][2],
                    spp as int,
                ),
            forall|j: int|
                0 <= j < i ==> out@[3 * j] == pixels@[j][0] && out@[3 * j + 1] == #[trigger] pixels@[j][1]
                    && out@[3 * j + 2] == pixels@[j][2],
        decreases pixels@.len() - i,
    {
        let px: [u8; 3] = pixels[i];
        out.push(px[0]);
        out.push(px[1]);
        out.push(px[2]);
        i = i + 1;
    }
    proof {
        assert forall|j: int|
            0 <= j < width as int * height as int implies pixel_ok(
            #[trigger] out@[3 * j],
            out@[3 * j + 1],
            out@[3 * j + 2],
            spp as int,
        ) by {
            assert(out@[3 * j] == pixels@[j][0] && out@[3 * j + 1] == pixels@[j][1] && out@[3 * j
                + 2] == pixels@[j][2]);
            assert(pixel_ok(pixels@[j][0], pixels@[j][1], pixels@[j][2], spp as int));
        }
    }
    out
}

} // verus!
