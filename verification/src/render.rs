//! Rendering: the settings, how the sample budget is split among workers,
//! the scan order of the output, one worker's pass over the image, the merge
//! of the workers' sums, and the mapping to bytes.
//!
//! The camera and the rounding arithmetic on colours come from the caller's
//! `Arithmetic`; which samples are drawn, how often, how deep each is
//! traced, and where each result goes is decided here.

use vstd::prelude::*;
use vstd::arithmetic::div_mod::{
    lemma_div_basics, lemma_fundamental_div_mod, lemma_fundamental_div_mod_converse,
};
use crate::arithmetic::Arithmetic;
use crate::hit::{Hittable, Sphere};
use crate::ray::Ray;
use crate::scalar::{clamp, Scalar};
use crate::trace::{ray_color, traced};
use crate::vec3::Vec3;

verus! {

/// The size of the image, in pixels.
#[derive(Clone, Copy, Debug, PartialEq, Eq, Structural)]
pub struct ImageSettings {
    pub width: u32,
    pub height: u32,
}

/// How much work goes into each pixel, and how many workers share it.
#[derive(Clone, Copy, Debug, PartialEq, Eq, Structural)]
pub struct RenderSettings {
    pub samples_per_pixel: u32,
    pub max_depth: u32,
    pub thread_count: u32,
}

impl RenderSettings {
    /// The samples that each worker draws per pixel: an even share of the
    /// budget, rounded down.
    pub open spec fn share(self) -> int {
        self.samples_per_pixel as int / self.thread_count as int
    }

    /// The samples that all workers together draw per pixel.
    pub open spec fn realized(self) -> int {
        self.thread_count * self.share()
    }

    pub fn samples_per_worker(&self) -> (n: u32)
        requires
            self.thread_count >= 1,
        ensures
            n == self.share(),
            self.thread_count == 1 ==> n == self.samples_per_pixel,
    {
        proof {
            lemma_div_basics(self.samples_per_pixel as int);
        }
        self.samples_per_pixel / self.thread_count
    }

    /// The number of samples by which the merged sums are divided: those
    /// actually drawn, which fall short of the budget by less than the
    /// number of workers, and by nothing where the workers divide the budget.
    pub fn realized_samples(&self) -> (n: u32)
        requires
            self.thread_count >= 1,
        ensures
            n == self.realized(),
            n <= self.samples_per_pixel,
            self.samples_per_pixel - n < self.thread_count,
            n == self.samples_per_pixel <==> self.samples_per_pixel % self.thread_count == 0,
    {
        let each: u32 = self.samples_per_pixel / self.thread_count;
        proof {
            lemma_fundamental_div_mod(self.samples_per_pixel as int, self.thread_count as int);
        }
        self.thread_count * each
    }
}

impl ImageSettings {
    /// The number of pixels.
    pub open spec fn pixel_count(self) -> int {
        self.width * self.height
    }

    /// The number of bytes of the output: three for each pixel.
    pub open spec fn byte_count(self) -> int {
        3 * self.pixel_count()
    }

    /// The place of pixel `(i, j)` in the output, which runs row by row from
    /// the top row, `j = height - 1`, down to `j = 0`, and within a row from
    /// `i = 0` to the right.
    pub open spec fn index(self, i: int, j: int) -> int {
        (self.height - 1 - j) * self.width + i
    }

    /// The column `i` of the pixel at place `k`.
    pub open spec fn column(self, k: int) -> int {
        k % (self.width as int)
    }

    /// The row `j` of the pixel at place `k`, counted from the bottom.
    pub open spec fn row(self, k: int) -> int {
        self.height - 1 - k / (self.width as int)
    }

    pub fn pixels(&self) -> (n: u64)
        ensures
            n == self.pixel_count(),
    {
        proof {
            assert(self.width * self.height <= u32::MAX * u32::MAX) by (nonlinear_arith)
                requires
                    self.width <= u32::MAX,
                    self.height <= u32::MAX,
            ;
        }
        (self.width as u64) * (self.height as u64)
    }

    /// The length of the output buffer, where the machine can hold one.
    pub fn buffer_len(&self) -> (n: Option<usize>)
        ensures
            match n {
                Some(len) => len == self.byte_count(),
                None => self.byte_count() > usize::MAX,
            },
    {
        let pixels: u64 = self.pixels();
        let bytes: u128 = 3 * (pixels as u128);
        if bytes <= usize::MAX as u128 {
            Some(bytes as usize)
        } else {
            None
        }
    }

    /// The place of pixel `(i, j)` in the output.
    pub fn place(&self, i: u32, j: u32) -> (k: u64)
        requires
            i < self.width,
            j < self.height,
        ensures
            k == self.index(i as int, j as int),
            k < self.pixel_count(),
    {
        proof {
            scan_order_is_one_to_one(*self, i as int, j as int);
        }
        let total: u64 = self.pixels();
        let above: u64 = (self.height - 1 - j) as u64;
        assert(above * self.width + i < total) by (nonlinear_arith)
            requires
                above == self.height - 1 - j,
                i < self.width,
                j < self.height,
                total == self.width * self.height,
        ;
        above * (self.width as u64) + (i as u64)
    }

    /// The pixel `(i, j)` at place `k` of the output.
    pub fn pixel_at(&self, k: u64) -> (at: (u32, u32))
        requires
            k < self.pixel_count(),
        ensures
            at.0 == self.column(k as int),
            at.1 == self.row(k as int),
            at.0 < self.width,
            at.1 < self.height,
    {
        proof {
            scan_order_is_onto(*self, k as int);
        }
        assert(self.width > 0) by (nonlinear_arith)
            requires
                k < self.width * self.height,
        ;
        let down: u64 = k / (self.width as u64);
        let i: u64 = k % (self.width as u64);
        ((i as u32), (self.height - 1 - (down as u32)))
    }
}

/// Every pixel has a place of its own in the output, from which its column
/// and row are read back.
pub proof fn scan_order_is_one_to_one(image: ImageSettings, i: int, j: int)
    requires
        0 <= i < image.width,
        0 <= j < image.height,
    ensures
        0 <= image.index(i, j) < image.pixel_count(),
        image.column(image.index(i, j)) == i,
        image.row(image.index(i, j)) == j,
{
    let w = image.width as int;
    let above = image.height - 1 - j;
    assert(0 <= above * w + i < w * image.height) by (nonlinear_arith)
        requires
            0 <= above <= image.height - 1,
            0 <= i < w,
    ;
    lemma_fundamental_div_mod_converse(above * w + i, w, above, i);
}

/// Every place of the output belongs to a pixel of the image, and is the
/// place of that pixel: the top row comes first, the bottom row last.
pub proof fn scan_order_is_onto(image: ImageSettings, k: int)
    requires
        0 <= k < image.pixel_count(),
    ensures
        0 <= image.column(k) < image.width,
        0 <= image.row(k) < image.height,
        image.index(image.column(k), image.row(k)) == k,
{
    let w = image.width as int;
    assert(w > 0) by (nonlinear_arith)
        requires
            0 <= k < w * image.height,
            w >= 0,
    ;
    lemma_fundamental_div_mod(k, w);
    let q = k / w;
    assert(0 <= q < image.height) by (nonlinear_arith)
        requires
            k == w * q + k % w,
            0 <= k % w < w,
            0 <= k < w * image.height,
    ;
    assert(q * w == w * q) by (nonlinear_arith);
}

/// Adds `from` to `into`, pixel by pixel.
pub fn merge<A: Arithmetic>(into: &mut Vec<Vec3>, from: &Vec<Vec3>, ops: &A)
    requires
        old(into).len() == from.len(),
    ensures
        final(into).len() == old(into).len(),
        forall|k: int|
            0 <= k < from.len() ==> call_ensures(
                A::plus,
                (ops, old(into)@[k], from@[k]),
                #[trigger] final(into)@[k],
            ),
{
    let mut k: usize = 0;
    while k < from.len()
        invariant
            k <= from.len(),
            into.len() == from.len(),
            forall|n: int| k <= n < from.len() ==> into@[n] == old(into)@[n],
            forall|n: int|
                0 <= n < k ==> call_ensures(
                    A::plus,
                    (ops, old(into)@[n], from@[n]),
                    #[trigger] into@[n],
                ),
        decreases from.len() - k,
    {
        let sum = ops.plus(into[k], from[k]);
        into.set(k, sum);
        k = k + 1;
    }
}

/// Whether `total` can be the merged sum at place `k`: the last pass's
/// pixel, with the pixels of the first `count` passes added in order.
pub open spec fn merged<A: Arithmetic>(
    ops: &A,
    passes: Seq<Vec<Vec3>>,
    k: int,
    count: nat,
    total: Vec3,
) -> bool
    decreases count,
{
    if count == 0 {
        total == passes.last()@[k]
    } else {
        exists|before: Vec3|
            merged(ops, passes, k, (count - 1) as nat, before) && #[trigger] call_ensures(
                A::plus,
                (ops, before, passes[count - 1]@[k]),
                total,
            )
    }
}

/// Whether `sums` is the merge of all `passes`, pixel by pixel.
pub open spec fn is_reduction<A: Arithmetic>(
    ops: &A,
    passes: Seq<Vec<Vec3>>,
    sums: Seq<Vec3>,
) -> bool {
    &&& passes.len() >= 1
    &&& sums.len() == passes.last().len()
    &&& forall|k: int|
        0 <= k < sums.len() ==> merged(
            ops,
            passes,
            k,
            (passes.len() - 1) as nat,
            #[trigger] sums[k],
        )
}

/// Merges the workers' passes into one buffer of sums: the last worker's
/// buffer, to which the others are added in order.
pub fn reduce<A: Arithmetic>(passes: Vec<Vec<Vec3>>, ops: &A) -> (sums: Vec<Vec3>)
    requires
        passes.len() >= 1,
        forall|w: int| 0 <= w < passes.len() ==> (#[trigger] passes@[w]).len() == passes@[0].len(),
    ensures
        is_reduction(ops, passes@, sums@),
{
    let ghost all = passes@;
    let mut rest = passes;
    let last = rest.pop();
    let mut sums = last.unwrap();
    assert(sums == all.last());
    let mut w: usize = 0;
    while w < rest.len()
        invariant
            w <= rest.len(),
            all.len() == rest.len() + 1,
            rest@ == all.drop_last(),
            sums.len() == all.last().len(),
            forall|n: int| 0 <= n < all.len() ==> (#[trigger] all[n]).len() == all[0].len(),
            forall|k: int|
                0 <= k < sums.len() ==> merged(ops, all, k, w as nat, #[trigger] sums@[k]),
        decreases rest.len() - w,
    {
        let ghost before = sums@;
        assert(rest@[w as int] == all[w as int]);
        merge(&mut sums, &rest[w], ops);
        proof {
            assert forall|k: int| 0 <= k < sums.len() implies merged(
                ops,
                all,
                k,
                (w + 1) as nat,
                #[trigger] sums@[k],
            ) by {
                let prior = before[k];
                assert(merged(ops, all, k, ((w + 1) as nat - 1) as nat, prior));
                assert(call_ensures(
                    A::plus,
                    (ops, prior, all[(w + 1) as nat - 1]@[k]),
                    sums@[k],
                ));
            }
        }
        w = w + 1;
    }
    sums
}

/// Whether `byte` can be the output for the channel sum `sum` of `samples`
/// samples: the sum is averaged, limited to the range from 0 to 0.999,
/// scaled, and cut down to a byte.
pub open spec fn tone_mapped<A: Arithmetic>(ops: &A, samples: u32, sum: Scalar, byte: u8) -> bool {
    exists|mean: Scalar, scaled: Scalar|
        call_ensures(A::average, (ops, sum, samples), mean) && #[trigger] call_ensures(
            A::scale,
            (ops, mean.clamped(Scalar::zero(), Scalar::almost_one())),
            scaled,
        ) && byte == scaled.truncated()
}

/// Whether `bytes` is the output for the sums `sums` of `samples` samples
/// each: three bytes for each pixel, red, green and blue, pixel after pixel.
pub open spec fn is_encoding<A: Arithmetic>(
    ops: &A,
    samples: u32,
    sums: Seq<Vec3>,
    bytes: Seq<u8>,
) -> bool {
    &&& bytes.len() == 3 * sums.len()
    &&& forall|k: int, c: int|
        0 <= k < sums.len() && 0 <= c < 3 ==> tone_mapped(
            ops,
            samples,
            #[trigger] sums[k].component(c),
            bytes[3 * k + c],
        )
}

/// The byte for one channel: the sum is divided by the number of samples,
/// limited to the range from 0 to 0.999, multiplied by 255, and cut down to
/// a byte.
pub fn tone_map<A: Arithmetic>(sum: Scalar, samples: u32, ops: &A) -> (byte: u8)
    ensures
        tone_mapped(ops, samples, sum, byte),
{
    let mean = ops.average(sum, samples);
    let limited = clamp(mean, Scalar::zero(), Scalar::almost_one());
    let scaled = ops.scale(limited);
    assert(call_ensures(
        A::scale,
        (ops, mean.clamped(Scalar::zero(), Scalar::almost_one())),
        scaled,
    ));
    scaled.to_u8()
}

/// The output bytes for a buffer of sums of `samples` samples each.
pub fn encode<A: Arithmetic>(sums: &Vec<Vec3>, samples: u32, ops: &A) -> (bytes: Vec<u8>)
    ensures
        is_encoding(ops, samples, sums@, bytes@),
{
    let mut bytes: Vec<u8> = Vec::new();
    let mut k: usize = 0;
    while k < sums.len()
        invariant
            k <= sums.len(),
            bytes.len() == 3 * k,
            forall|n: int, c: int|
                0 <= n < k && 0 <= c < 3 ==> tone_mapped(
                    ops,
                    samples,
                    #[trigger] sums@[n].component(c),
                    bytes@[3 * n + c],
                ),
        decreases sums.len() - k,
    {
        let pixel = sums[k];
        let red = tone_map(pixel.0, samples, ops);
        let green = tone_map(pixel.1, samples, ops);
        let blue = tone_map(pixel.2, samples, ops);
        bytes.push(red);
        bytes.push(green);
        bytes.push(blue);
        k = k + 1;
    }
    bytes
}

/// Whether `colour` can be one sample of pixel `(i, j)`: the colour that
/// arrives along a camera ray of the pixel, traced for `depth` bounces.
pub open spec fn sampled<A: Arithmetic>(
    ops: &A,
    spheres: Seq<Sphere>,
    depth: nat,
    i: u32,
    j: u32,
    colour: Vec3,
) -> bool {
    exists|ray: Ray| #[trigger]
        call_ensures(A::camera_ray, (ops, i, j), ray) && traced(ops, spheres, ray, depth, colour)
}

/// Whether `total` can be the sum of `count` samples of pixel `(i, j)`:
/// black for no sample, else a sum of one sample less, with one more sample
/// added.
pub open spec fn accumulated<A: Arithmetic>(
    ops: &A,
    spheres: Seq<Sphere>,
    depth: nat,
    i: u32,
    j: u32,
    count: nat,
    total: Vec3,
) -> bool
    decreases count,
{
    if count == 0 {
        total == Vec3::zero()
    } else {
        exists|before: Vec3, drawn: Vec3|
            accumulated(ops, spheres, depth, i, j, (count - 1) as nat, before) && sampled(
                ops,
                spheres,
                depth,
                i,
                j,
                drawn,
            ) && #[trigger] call_ensures(A::plus, (ops, before, drawn), total)
    }
}

/// Whether the pixels at the places below `pixels.len()` hold sums of
/// `samples` samples each, every pixel at its place in the scan order.
pub open spec fn filled<A: Arithmetic>(
    ops: &A,
    spheres: Seq<Sphere>,
    depth: nat,
    image: ImageSettings,
    samples: nat,
    pixels: Seq<Vec3>,
) -> bool {
    forall|i: u32, j: u32|
        i < image.width && j < image.height && #[trigger] image.index(i as int, j as int)
            < pixels.len() ==> accumulated(
            ops,
            spheres,
            depth,
            i,
            j,
            samples,
            pixels[image.index(i as int, j as int)],
        )
}

/// Whether `pixels` is one worker's pass over the image: for every pixel, in
/// scan order, a sum of the worker's share of the samples, each traced for
/// `max_depth` bounces.
pub open spec fn is_pass<A: Arithmetic>(
    ops: &A,
    spheres: Seq<Sphere>,
    image: ImageSettings,
    settings: RenderSettings,
    pixels: Seq<Vec3>,
) -> bool {
    pixels.len() == image.pixel_count() && filled(
        ops,
        spheres,
        settings.max_depth as nat,
        image,
        settings.share() as nat,
        pixels,
    )
}

/// Whether `bytes` is an image rendered by way of `passes` and `sums`: one
/// pass for each worker; the sums merged from the passes; the bytes mapped
/// from the sums, which are averaged over the samples that were drawn.
pub open spec fn rendered_from<A: Arithmetic>(
    ops: &A,
    spheres: Seq<Sphere>,
    image: ImageSettings,
    settings: RenderSettings,
    passes: Seq<Vec<Vec3>>,
    sums: Seq<Vec3>,
    bytes: Seq<u8>,
) -> bool {
    &&& passes.len() == settings.thread_count
    &&& forall|w: int|
        0 <= w < passes.len() ==> is_pass(ops, spheres, image, settings, (#[trigger] passes[w])@)
    &&& is_reduction(ops, passes, sums)
    &&& is_encoding(ops, settings.realized() as u32, sums, bytes)
}

/// One sample of pixel `(i, j)`: the colour that arrives along a camera ray
/// of the pixel, traced for `depth` bounces.
pub fn sample<A: Arithmetic>(scene: &Hittable, depth: u32, i: u32, j: u32, ops: &A) -> (colour:
    Vec3)
    ensures
        sampled(ops, scene.leaves(), depth as nat, i, j, colour),
{
    let ray = ops.camera_ray(i, j);
    assert(call_ensures(A::camera_ray, (ops, i, j), ray));
    ray_color(ray, scene, depth, ops)
}

/// The sum of `samples` samples of pixel `(i, j)`, starting from black.
pub fn pixel_sum<A: Arithmetic>(
    scene: &Hittable,
    depth: u32,
    i: u32,
    j: u32,
    samples: u32,
    ops: &A,
) -> (total: Vec3)
    ensures
        accumulated(ops, scene.leaves(), depth as nat, i, j, samples as nat, total),
{
    let mut total = Vec3::zero();
    let mut n: u32 = 0;
    while n < samples
        invariant
            n <= samples,
            accumulated(ops, scene.leaves(), depth as nat, i, j, n as nat, total),
        decreases samples - n,
    {
        let drawn = sample(scene, depth, i, j, ops);
        let next = ops.plus(total, drawn);
        assert(call_ensures(A::plus, (ops, total, drawn), next));
        total = next;
        n = n + 1;
    }
    total
}

/// One worker's pass: for every pixel, row by row from the top, the sum of
/// the worker's share of the samples.
pub fn render_thread<A: Arithmetic>(
    scene: &Hittable,
    image_settings: &ImageSettings,
    render_settings: &RenderSettings,
    ops: &A,
) -> (pixels: Vec<Vec3>)
    requires
        render_settings.thread_count >= 1,
    ensures
        is_pass(ops, scene.leaves(), *image_settings, *render_settings, pixels@),
{
    let image = *image_settings;
    let depth = render_settings.max_depth;
    let samples = render_settings.samples_per_worker();
    let mut pixels: Vec<Vec3> = Vec::new();
    let mut done: u32 = 0;
    while done < image.height
        invariant
            done <= image.height,
            pixels.len() == done * image.width,
            filled(ops, scene.leaves(), depth as nat, image, samples as nat, pixels@),
        decreases image.height - done,
    {
        let j: u32 = image.height - 1 - done;
        let mut i: u32 = 0;
        while i < image.width
            invariant
                i <= image.width,
                done < image.height,
                j == image.height - 1 - done,
                pixels.len() == done * image.width + i,
                filled(ops, scene.leaves(), depth as nat, image, samples as nat, pixels@),
            decreases image.width - i,
        {
            let total = pixel_sum(scene, depth, i, j, samples, ops);
            let ghost before = pixels@;
            pixels.push(total);
            proof {
                scan_order_is_one_to_one(image, i as int, j as int);
                assert forall|i2: u32, j2: u32|
                    i2 < image.width && j2 < image.height && #[trigger] image.index(
                        i2 as int,
                        j2 as int,
                    ) < pixels@.len() implies accumulated(
                    ops,
                    scene.leaves(),
                    depth as nat,
                    i2,
                    j2,
                    samples as nat,
                    pixels@[image.index(i2 as int, j2 as int)],
                ) by {
                    scan_order_is_one_to_one(image, i2 as int, j2 as int);
                    if image.index(i2 as int, j2 as int) < before.len() {
                        assert(pixels@[image.index(i2 as int, j2 as int)] == before[image.index(
                            i2 as int,
                            j2 as int,
                        )]);
                    }
                }
            }
            i = i + 1;
        }
        assert((done + 1) * image.width == done * image.width + image.width)
            by (nonlinear_arith);
        done = done + 1;
    }
    assert(image.height * image.width == image.width * image.height) by (nonlinear_arith);
    pixels
}

/// Renders `scene`: every worker makes a pass with its share of the samples,
/// one worker after the other; the passes are merged; the sums are averaged
/// over the samples that were drawn, and mapped to bytes.
///
/// The output holds three bytes for each pixel, red, green and blue, row by
/// row from the top.
pub fn render<A: Arithmetic>(
    scene: &Hittable,
    image_settings: &ImageSettings,
    render_settings: &RenderSettings,
    ops: &A,
) -> (bytes: Vec<u8>)
    requires
        render_settings.thread_count >= 1,
    ensures
        bytes.len() == image_settings.byte_count(),
        exists|passes: Seq<Vec<Vec3>>, sums: Seq<Vec3>| #[trigger]
            rendered_from(
                ops,
                scene.leaves(),
                *image_settings,
                *render_settings,
                passes,
                sums,
                bytes@,
            ),
{
    let mut passes: Vec<Vec<Vec3>> = Vec::new();
    let mut w: u32 = 0;
    while w < render_settings.thread_count
        invariant
            w <= render_settings.thread_count,
            render_settings.thread_count >= 1,
            passes.len() == w,
            forall|n: int|
                0 <= n < passes.len() ==> is_pass(
                    ops,
                    scene.leaves(),
                    *image_settings,
                    *render_settings,
                    (#[trigger] passes@[n])@,
                ),
        decreases render_settings.thread_count - w,
    {
        let pass = render_thread(scene, image_settings, render_settings, ops);
        passes.push(pass);
        w = w + 1;
    }
    let ghost all = passes@;
    let sums = reduce(passes, ops);
    let taken = render_settings.realized_samples();
    let bytes = encode(&sums, taken, ops);
    assert(rendered_from(
        ops,
        scene.leaves(),
        *image_settings,
        *render_settings,
        all,
        sums@,
        bytes@,
    ));
    bytes
}

} // verus!
