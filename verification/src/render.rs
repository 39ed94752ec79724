//! The walk of one light path, and the layout of the picture.
//!
//! A path is followed from the eye. At each step the caller intersects the
//! ray with the scene, asks [`hit_iter`](crate::object::hit_iter) for the
//! nearest hit, computes the numbers of the bounce, and asks [`ray_color`]
//! what follows: the path ends with a colour, or goes on along a new ray
//! with one bounce less to spend. The caller multiplies the attenuations of
//! the bounces into the colour the path ends with.
//!
//! A ray whose direction is the zero vector, or holds a NaN, goes nowhere.
//! No such ray is handed on, and a path that is started along one ends in
//! black.
use crate::material::lemma_attenuation_is_a_share;
use crate::material::HandleResult;
use crate::material::Sample;
use crate::object::HitRecord;
use crate::ray::Range;
use crate::ray::Ray;
use crate::rgb::encode;
use crate::rgb::encoded;
use crate::rgb::Rgb;
use crate::scalar::lemma_fields;
use crate::scalar::lemma_finite_is_bounded;
use crate::scalar::lemma_magnitude_order;
use crate::scalar::Scalar;
use crate::scalar::INFINITY_BITS;
use vstd::prelude::*;

verus! {

/// The bit pattern of 0.0001, the least ray parameter at which a hit counts.
/// A ray that leaves a surface would otherwise hit that surface again at a
/// parameter of almost zero.
pub const EPSILON_BITS: u32 = 0x38d1_b717;

/// What follows a step of a path.
#[derive(Clone, Copy, Debug, PartialEq, Eq, Structural)]
pub enum Step {
    /// The path ends and brings this colour.
    Done { color: Rgb },
    /// The path goes on along `ray`, with `depth` bounces left; what it
    /// brings is multiplied by `attenuation`, channel by channel.
    Bounce { attenuation: Rgb, ray: Ray, depth: u16 },
}

/// The stretch of a ray in which hits are looked for, as long as bounces are
/// left and the ray has a direction: from 0.0001 to infinity.
pub open spec fn search_range_spec(ray: Ray, depth: u16) -> Option<Range> {
    if depth == 0 || ray.direction.degenerate() {
        None
    } else {
        Some(
            Range { start: Scalar { bits: EPSILON_BITS }, end: Scalar { bits: INFINITY_BITS } },
        )
    }
}

/// What follows when a path with `depth` bounces left runs along `ray` and
/// has found `hit`.
pub open spec fn ray_color_spec(
    ray: Ray,
    hit: Option<HitRecord<'_>>,
    sample: Sample,
    background: Rgb,
    depth: u16,
) -> Step {
    if depth == 0 || ray.direction.degenerate() {
        Step::Done { color: Rgb::black_spec() }
    } else {
        match hit {
            None => Step::Done { color: background },
            Some(record) => match record.material.handle_ray_spec(record, sample) {
                HandleResult::Emitted { color } => Step::Done { color },
                HandleResult::Scattered(None) => Step::Done { color: Rgb::black_spec() },
                HandleResult::Scattered(Some(scattered)) => Step::Bounce {
                    attenuation: scattered.attenuation,
                    ray: scattered.ray,
                    depth: (depth - 1) as u16,
                },
            },
        }
    }
}

/// The range in which the next hit of a path is looked for, or `None` where
/// the path ends in black without a look at the scene: it has no bounce
/// left, or its ray has no direction, being the zero vector or holding a
/// NaN.
pub fn search_range(ray: &Ray, depth: u16) -> (r: Option<Range>)
    ensures
        r == search_range_spec(*ray, depth),
        r is None <==> depth == 0 || ray.direction.degenerate(),
        r matches Some(t_range) ==> forall|t: Scalar|
            #[trigger] t_range.contains_spec(t) <==> !t.nan() && !t.infinite()
                && t_range.start.value() <= t.value(),
{
    if depth == 0 || ray.direction.is_degenerate() {
        None
    } else {
        let start = Scalar::from_bits(EPSILON_BITS);
        let end = Scalar::from_bits(INFINITY_BITS);
        proof {
            assert(start.exponent() == 113 && start.fraction() == 0x51_b717);
            assert(!start.nan() && !start.negative());
            assert forall|t: Scalar|
                #[trigger] (Range { start, end }).contains_spec(t) <==> !t.nan() && !t.infinite()
                    && start.value() <= t.value() by {
                if !t.nan() {
                    if t.infinite() {
                        lemma_fields(t);
                        lemma_fields(end);
                        lemma_magnitude_order(t, end);
                    } else {
                        lemma_finite_is_bounded(t, end);
                    }
                }
            }
        }
        Some(Range { start, end })
    }
}

/// One step of a path that runs along `ray` with `depth` bounces left, for
/// the nearest hit of the ray and the numbers of the bounce there.
///
/// A path without a bounce left ends in black, and so does one whose ray
/// has no direction: nothing can be said of where such a ray goes, so it is
/// taken as absorbed, whatever was handed in as its hit. A ray that hits
/// nothing brings the background. A light ends the path with its emission;
/// absorbed light ends it in black. Scattered light goes on with one bounce
/// less, along a ray that has a direction.
pub fn ray_color(
    ray: &Ray,
    hit: Option<HitRecord<'_>>,
    sample: &Sample,
    background: Rgb,
    depth: u16,
) -> (r: Step)
    ensures
        r == ray_color_spec(*ray, hit, *sample, background, depth),
        depth == 0 || ray.direction.degenerate() ==> r == (Step::Done { color: Rgb::black_spec() }),
        r matches Step::Bounce { attenuation, ray: next, depth: left } ==> {
            &&& left + 1 == depth
            &&& !next.direction.degenerate()
            &&& hit matches Some(record) && next.origin == record.point && attenuation
                == record.material.attenuation_spec()
        },
        r matches Step::Done { color } ==> color == Rgb::black_spec() || color == background || (
        hit matches Some(record) && record.material.emit_spec() == Some(color)),
{
    if depth == 0 || ray.direction.is_degenerate() {
        return Step::Done { color: Rgb::black() };
    }
    match hit {
        None => Step::Done { color: background },
        Some(record) => match record.material.handle_ray(&record, sample) {
            HandleResult::Emitted { color } => Step::Done { color },
            HandleResult::Scattered(None) => Step::Done { color: Rgb::black() },
            HandleResult::Scattered(Some(scattered)) => Step::Bounce {
                attenuation: scattered.attenuation,
                ray: scattered.ray,
                depth: depth - 1,
            },
        },
    }
}

/// Without a light no step of a path adds light: a step that ends the
/// path brings black or the background, and a step that goes on keeps a
/// share of the light in each channel, from nothing to all of it.
pub proof fn lemma_unlit_step(
    ray: Ray,
    hit: Option<HitRecord<'_>>,
    sample: Sample,
    background: Rgb,
    depth: u16,
)
    requires
        hit matches Some(record) ==> record.material.valid() && !(*record.material
            is DiffuseLight),
    ensures
        match ray_color_spec(ray, hit, sample, background, depth) {
            Step::Done { color } => color == Rgb::black_spec() || color == background,
            Step::Bounce { attenuation, .. } => attenuation.shares(),
        },
{
    if let Some(record) = hit {
        lemma_attenuation_is_a_share(*record.material);
    }
}

/// The colour with which a path ends that runs along `ray` with `depth`
/// bounces left at step `from`, where step `i` finds the hit `hits[i]` and
/// the bounce there has the numbers `samples[i]`; `None` where the path
/// outlasts what is given. Each bounce hands its ray to the next step.
pub open spec fn path_end(
    ray: Ray,
    hits: Seq<Option<HitRecord<'_>>>,
    samples: Seq<Sample>,
    background: Rgb,
    depth: u16,
    from: nat,
) -> Option<Rgb>
    decreases hits.len() - from,
{
    if from >= hits.len() || from >= samples.len() {
        None
    } else {
        match ray_color_spec(ray, hits[from as int], samples[from as int], background, depth) {
            Step::Done { color } => Some(color),
            Step::Bounce { ray: next, depth: left, .. } => path_end(
                next,
                hits,
                samples,
                background,
                left,
                from + 1,
            ),
        }
    }
}

/// A path is over after as many bounces as it may spend: given one step
/// more than that, it ends.
pub proof fn lemma_path_ends(
    ray: Ray,
    hits: Seq<Option<HitRecord<'_>>>,
    samples: Seq<Sample>,
    background: Rgb,
    depth: u16,
    from: nat,
)
    requires
        from + depth < hits.len(),
        from + depth < samples.len(),
    ensures
        path_end(ray, hits, samples, background, depth, from) is Some,
    decreases depth,
{
    match ray_color_spec(ray, hits[from as int], samples[from as int], background, depth) {
        Step::Done { .. } => {},
        Step::Bounce { ray: next, depth: left, .. } => {
            lemma_path_ends(next, hits, samples, background, left, from + 1);
        },
    }
}

/// A path that starts along a ray without a direction ends at once, in
/// black, whatever it is said to have hit.
pub proof fn lemma_degenerate_path_is_black(
    ray: Ray,
    hits: Seq<Option<HitRecord<'_>>>,
    samples: Seq<Sample>,
    background: Rgb,
    depth: u16,
    from: nat,
)
    requires
        ray.direction.degenerate(),
        from < hits.len(),
        from < samples.len(),
    ensures
        path_end(ray, hits, samples, background, depth, from) == Some(Rgb::black_spec()),
{
}

/// Without a light a path ends in black or in the background, however it
/// runs, and so in black under a black sky.
pub proof fn lemma_unlit_path(
    ray: Ray,
    hits: Seq<Option<HitRecord<'_>>>,
    samples: Seq<Sample>,
    background: Rgb,
    depth: u16,
    from: nat,
)
    requires
        forall|i: int|
            0 <= i < hits.len() ==> (#[trigger] hits[i] matches Some(record)
                ==> record.material.valid() && !(*record.material is DiffuseLight)),
    ensures
        path_end(ray, hits, samples, background, depth, from) matches Some(color) ==> color
            == Rgb::black_spec() || color == background,
    decreases hits.len() - from,
{
    if from < hits.len() && from < samples.len() {
        lemma_unlit_step(ray, hits[from as int], samples[from as int], background, depth);
        match ray_color_spec(ray, hits[from as int], samples[from as int], background, depth) {
            Step::Done { .. } => {},
            Step::Bounce { ray: next, depth: left, .. } => {
                lemma_unlit_path(next, hits, samples, background, left, from + 1);
            },
        }
    }
}

/// The number of pixels of a picture.
pub open spec fn pixel_count(width: u16, height: u16) -> nat {
    (width as nat) * (height as nat)
}

/// The column and the row of the pixel at a place in the picture's
/// sequence. The sequence runs through the picture as it is read: the top
/// row first, each row from left to right. Rows are counted upwards from the
/// bottom row, which is row 0, so the sequence starts in row `height - 1`.
pub open spec fn coordinates_spec(index: nat, width: u16, height: u16) -> (u16, u16) {
    ((index % width as nat) as u16, (height - 1 - index / width as nat) as u16)
}

/// The place in the picture's sequence of the pixel in column `x` of row
/// `y`, rows counted upwards from the bottom.
pub open spec fn index_spec(x: u16, y: u16, width: u16, height: u16) -> nat {
    ((height - 1 - y) * width + x) as nat
}

/// The column and the row, counted upwards from the bottom, of the pixel at
/// `index` in the picture's sequence; `None` for an index past the picture.
pub fn coordinates(index: usize, width: u16, height: u16) -> (r: Option<(u16, u16)>)
    ensures
        r is Some <==> pixel_count(width, height) > index,
        r matches Some(at) ==> at == coordinates_spec(index as nat, width, height) && at.0 < width
            && at.1 < height && index_spec(at.0, at.1, width, height) == index,
{
    let columns: usize = width as usize;
    let rows: usize = height as usize;
    if columns == 0 {
        assert(pixel_count(width, height) == 0) by (nonlinear_arith)
            requires
                width == 0,
        ;
        return None;
    }
    let row: usize = index / columns;
    if row >= rows {
        proof {
            lemma_row_of(index as nat, width, height);
        }
        return None;
    }
    proof {
        lemma_row_of(index as nat, width, height);
    }
    let x: usize = index % columns;
    let y: usize = rows - 1 - row;
    Some((x as u16, y as u16))
}

/// The place in the picture's sequence of the pixel in column `x` of row
/// `y`, counted upwards from the bottom; `None` for a pixel outside the
/// picture.
pub fn pixel_index(x: u16, y: u16, width: u16, height: u16) -> (r: Option<usize>)
    ensures
        r is Some <==> x < width && y < height,
        r matches Some(index) ==> index == index_spec(x, y, width, height) && pixel_count(
            width,
            height,
        ) > index && coordinates_spec(index as nat, width, height) == (x, y),
{
    if x < width && y < height {
        let from_top: usize = (height - 1 - y) as usize;
        let columns: usize = width as usize;
        assert(from_top * columns <= 0xffff * 0xffff) by (nonlinear_arith)
            requires
                from_top <= 0xffff,
                columns <= 0xffff,
        ;
        proof {
            lemma_index_of(x, y, width, height);
        }
        Some(from_top * columns + x as usize)
    } else {
        None
    }
}

/// An index lies within the picture exactly when its row does, and then the
/// pixel it names is found again at that index.
pub proof fn lemma_row_of(index: nat, width: u16, height: u16)
    requires
        width > 0,
    ensures
        pixel_count(width, height) > index <==> height > index / width as nat,
        pixel_count(width, height) > index ==> {
            let at = coordinates_spec(index, width, height);
            at.0 < width && at.1 < height && index_spec(at.0, at.1, width, height) == index
        },
{
    let w = width as int;
    let h = height as int;
    let i = index as int;
    vstd::arithmetic::div_mod::lemma_fundamental_div_mod(i, w);
    vstd::arithmetic::div_mod::lemma_mod_bound(i, w);
    let q = i / w;
    let r = i % w;
    assert(q >= 0) by {
        vstd::arithmetic::div_mod::lemma_div_pos_is_pos(i, w);
    }
    assert(i == w * q + r);
    if q < h {
        assert(w * q + r < w * h) by (nonlinear_arith)
            requires
                0 <= q < h,
                0 <= r < w,
        ;
        assert((h - 1 - (h - 1 - q)) * w + r == i) by (nonlinear_arith)
            requires
                i == w * q + r,
        ;
    } else {
        assert(w * q + r >= w * h) by (nonlinear_arith)
            requires
                q >= h,
                r >= 0,
                w > 0,
        ;
    }
}

/// A pixel within the picture has an index within the picture, from which
/// its column and row are found again.
pub proof fn lemma_index_of(x: u16, y: u16, width: u16, height: u16)
    requires
        x < width,
        y < height,
    ensures
        pixel_count(width, height) > index_spec(x, y, width, height),
        coordinates_spec(index_spec(x, y, width, height), width, height) == (x, y),
{
    let w = width as int;
    let h = height as int;
    let top = h - 1 - y;
    let i = top * w + x;
    assert(0 <= i < w * h) by (nonlinear_arith)
        requires
            i == top * w + x,
            0 <= top <= h - 1,
            0 <= x < w,
    ;
    vstd::arithmetic::div_mod::lemma_fundamental_div_mod_converse(i, w, top, x as int);
}

/// The bytes of a picture: three for each pixel, red, green and blue, the
/// pixels in their order. `pixels` holds each pixel's sums over `samples`
/// samples.
pub fn raster(pixels: &[Rgb], samples: u16) -> (r: Vec<u8>)
    ensures
        r@.len() == 3 * pixels@.len(),
        forall|i: int|
            0 <= i < pixels@.len() ==> {
                &&& r@[3 * i] == encoded(#[trigger] pixels@[i].0.x, samples)
                &&& r@[3 * i + 1] == encoded(pixels@[i].0.y, samples)
                &&& r@[3 * i + 2] == encoded(pixels@[i].0.z, samples)
            },
{
    let mut bytes: Vec<u8> = Vec::new();
    let mut i: usize = 0;
    while i < pixels.len()
        invariant
            i <= pixels@.len(),
            bytes@.len() == 3 * i,
            forall|j: int|
                0 <= j < i ==> {
                    &&& bytes@[3 * j] == encoded(#[trigger] pixels@[j].0.x, samples)
                    &&& bytes@[3 * j + 1] == encoded(pixels@[j].0.y, samples)
                    &&& bytes@[3 * j + 2] == encoded(pixels@[j].0.z, samples)
                },
        decreases pixels@.len() - i,
    {
        let pixel = pixels[i];
        bytes.push(encode(pixel.0.x, samples));
        bytes.push(encode(pixel.0.y, samples));
        bytes.push(encode(pixel.0.z, samples));
        i += 1;
    }
    bytes
}

} // verus!
