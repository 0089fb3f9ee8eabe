use vstd::prelude::*;

use crate::setable::{cell_run, cell_step, CellOp, Mutable};

verus! {

/// Lengths of the buffers the lighting passes work in, derived from the
/// number of primary intersections, of point lights and of samples per step.
#[derive(Debug, Clone, Copy, PartialEq, Eq, Structural)]
pub struct LightningBufferSizes {
    /// Rays from every intersection to every point light and to the
    /// direction light.
    pub light_rays: usize,
    /// Intersections of the rays reflected by mirrors, one per primary one.
    pub reflections: usize,
    /// Accumulated colour of every sample of the step.
    pub image: usize,
    /// Intersections of the global-illumination rays, one per primary one.
    pub gi_intersections: usize,
    /// Directions of the global-illumination rays, one per primary one.
    pub gi_thetas: usize,
}

impl LightningBufferSizes {
    pub fn new(intersections: usize, point_lights: usize, image_array: usize) -> (r: Self)
        requires
            point_lights + 1 <= usize::MAX,
            intersections * (point_lights + 1) <= usize::MAX,
        ensures
            r.light_rays == intersections * (point_lights + 1),
            r.reflections == intersections,
            r.image == image_array,
            r.gi_intersections == intersections,
            r.gi_thetas == intersections,
    {
        LightningBufferSizes {
            light_rays: intersections * (point_lights + 1),
            reflections: intersections,
            image: image_array,
            gi_intersections: intersections,
            gi_thetas: intersections,
        }
    }
}

/// The buffer of `len` elements that `cell` caches: the cached one when it
/// was built for the same length, else one newly built by `build`.
pub fn cached_for_length<Depends>(
    cell: &mut Mutable<usize, Depends>,
    len: usize,
    build: impl FnOnce(&usize) -> Depends,
) -> (r: &Depends)
    requires
        old(cell).current() != len || old(cell).cached() is None ==> build.requires((&len,)),
    ensures
        final(cell).cell() == cell_run(
            old(cell).cell(),
            seq![CellOp::CheckedChange(len), CellOp::Init(*r)],
        ),
        final(cell).current() == len,
        final(cell).cached() == Some(*r),
        old(cell).current() == len && old(cell).cached() is Some ==> final(cell).cell() == old(
            cell,
        ).cell(),
        old(cell).current() != len || old(cell).cached() is None ==> build.ensures((&len,), *r),
{
    cell.change_with_check_in_place(len);
    let ghost mid = cell.cell();
    assert(mid == cell_step(old(cell).cell(), CellOp::<usize, Depends>::CheckedChange(len)));
    let r = cell.get_depends_or_init(build);
    proof {
        let ops = seq![CellOp::<usize, Depends>::CheckedChange(len), CellOp::Init(*r)];
        assert(ops.drop_last() =~= seq![CellOp::<usize, Depends>::CheckedChange(len)]);
        assert(ops.drop_last().drop_last() =~= Seq::<CellOp<usize, Depends>>::empty());
        assert(cell_run(old(cell).cell(), ops.drop_last().drop_last()) == old(cell).cell());
        assert(ops.drop_last().last() == CellOp::<usize, Depends>::CheckedChange(len));
        assert(ops.last() == CellOp::<usize, Depends>::Init(*r));
        assert(cell_run(old(cell).cell(), ops.drop_last()) == mid);
    }
    r
}

/// Where the intersections a lighting pass shades come from.
#[derive(Debug, Clone, Copy, PartialEq, Eq, Structural)]
pub enum IntersectionSource {
    /// Rays cast from the camera.
    Camera,
    /// Those rays after a reflection on a mirror.
    Mirror,
}

/// One pass of the lighting of a render step, in the order they are
/// submitted to the GPU.
#[derive(Debug, Clone, Copy, PartialEq, Eq, Structural)]
pub enum LightningPass {
    /// Zero the work-group counters and the intermediate buffers.
    ClearBuffers,
    /// Trace shadow rays to the lights and add their direct light.
    DirectLight(IntersectionSource),
    /// Reflect the camera rays that hit a mirror.
    ReflectFromMirrors,
    /// One bounce of global illumination, sample `sample` of the step.
    GlobalIllumination { source: IntersectionSource, sample: u32 },
    /// Copy the accumulated colours into the output image.
    CopyToImage,
}

/// The `i`-th pass of a render step with `samples` global-illumination
/// samples per bounce: clear, direct light on the camera hits, mirror
/// reflection, direct light on the reflected hits, the samples on the camera
/// hits, the samples on the reflected hits, and the final copy.
pub open spec fn lightning_pass(samples: nat, i: int) -> LightningPass {
    if i == 0 {
        LightningPass::ClearBuffers
    } else if i == 1 {
        LightningPass::DirectLight(IntersectionSource::Camera)
    } else if i == 2 {
        LightningPass::ReflectFromMirrors
    } else if i == 3 {
        LightningPass::DirectLight(IntersectionSource::Mirror)
    } else if i < 4 + samples {
        LightningPass::GlobalIllumination {
            source: IntersectionSource::Camera,
            sample: (i - 4) as u32,
        }
    } else if i < 4 + 2 * samples {
        LightningPass::GlobalIllumination {
            source: IntersectionSource::Mirror,
            sample: (i - 4 - samples) as u32,
        }
    } else {
        LightningPass::CopyToImage
    }
}

/// The passes of one render step, in submission order.
pub fn lightning_passes(samples_per_bounce: u32) -> (passes: Vec<LightningPass>)
    ensures
        passes.len() == 5 + 2 * samples_per_bounce,
        forall|i: int|
            0 <= i < passes.len() ==> #[trigger] passes[i] == lightning_pass(samples_per_bounce as nat, i),
        passes[0] == LightningPass::ClearBuffers,
        passes[1] == LightningPass::DirectLight(IntersectionSource::Camera),
        passes[2] == LightningPass::ReflectFromMirrors,
        passes[3] == LightningPass::DirectLight(IntersectionSource::Mirror),
        passes[passes.len() - 1] == LightningPass::CopyToImage,
{
    let ghost samples = samples_per_bounce as nat;
    let mut passes: Vec<LightningPass> = Vec::new();
    passes.push(LightningPass::ClearBuffers);
    passes.push(LightningPass::DirectLight(IntersectionSource::Camera));
    passes.push(LightningPass::ReflectFromMirrors);
    passes.push(LightningPass::DirectLight(IntersectionSource::Mirror));
    let mut k: u32 = 0;
    while k < samples_per_bounce
        invariant
            k <= samples_per_bounce,
            samples == samples_per_bounce,
            passes.len() == 4 + k,
            forall|i: int| 0 <= i < passes.len() ==> #[trigger] passes[i] == lightning_pass(samples, i),
        decreases samples_per_bounce - k,
    {
        passes.push(
            LightningPass::GlobalIllumination { source: IntersectionSource::Camera, sample: k },
        );
        k = k + 1;
    }
    let mut k: u32 = 0;
    while k < samples_per_bounce
        invariant
            k <= samples_per_bounce,
            samples == samples_per_bounce,
            passes.len() == 4 + samples + k,
            forall|i: int| 0 <= i < passes.len() ==> #[trigger] passes[i] == lightning_pass(samples, i),
        decreases samples_per_bounce - k,
    {
        passes.push(
            LightningPass::GlobalIllumination { source: IntersectionSource::Mirror, sample: k },
        );
        k = k + 1;
    }
    passes.push(LightningPass::CopyToImage);
    passes
}

/// A render step starts by clearing its buffers, shades the camera hits
/// with direct light, reflects the camera rays from mirrors, and only then
/// shades the reflected hits: for any number of samples, and each of these
/// passes occurs only at its place.
pub proof fn lemma_lightning_passes_start(samples: nat)
    ensures
        lightning_pass(samples, 0) == LightningPass::ClearBuffers,
        lightning_pass(samples, 1) == LightningPass::DirectLight(IntersectionSource::Camera),
        lightning_pass(samples, 2) == LightningPass::ReflectFromMirrors,
        lightning_pass(samples, 3) == LightningPass::DirectLight(IntersectionSource::Mirror),
        forall|i: int|
            0 <= i && i != 0 ==> #[trigger] lightning_pass(samples, i) != LightningPass::ClearBuffers,
        forall|i: int|
            0 <= i && i != 1 ==> #[trigger] lightning_pass(samples, i) != LightningPass::DirectLight(
                IntersectionSource::Camera,
            ),
        forall|i: int|
            0 <= i && i != 2 ==> #[trigger] lightning_pass(samples, i)
                != LightningPass::ReflectFromMirrors,
        forall|i: int|
            0 <= i && i != 3 ==> #[trigger] lightning_pass(samples, i) != LightningPass::DirectLight(
                IntersectionSource::Mirror,
            ),
{
}

/// Every sample of every bounce is shaded exactly once per source, after
/// both direct-light passes and before the final copy, which comes last.
pub proof fn lemma_lightning_passes_order(samples: nat, source: IntersectionSource, k: nat)
    requires
        k < samples,
        samples <= u32::MAX,
    ensures
        ({
            let pos: int = if source == IntersectionSource::Camera {
                (4 + k) as int
            } else {
                (4 + samples + k) as int
            };
            &&& lightning_pass(samples, pos) == (LightningPass::GlobalIllumination {
                source,
                sample: k as u32,
            })
            &&& forall|i: int|
                0 <= i < 5 + 2 * samples && i != pos ==> lightning_pass(samples, i) != (
                LightningPass::GlobalIllumination { source, sample: k as u32 })
            &&& 3 < pos < 4 + 2 * samples
        }),
        lightning_pass(samples, 4 + 2 * samples as int) == LightningPass::CopyToImage,
        forall|i: int|
            0 <= i < 4 + 2 * samples ==> lightning_pass(samples, i) != LightningPass::CopyToImage,
{
    let target = LightningPass::GlobalIllumination { source, sample: k as u32 };
    assert forall|i: int|
        0 <= i < 5 + 2 * samples && lightning_pass(samples, i) == target implies i == (if source
        == IntersectionSource::Camera {
        (4 + k) as int
    } else {
        (4 + samples + k) as int
    }) by {
        if 4 <= i < 4 + samples {
            assert((i - 4) as u32 == i - 4);
        } else if 4 + samples <= i < 4 + 2 * samples {
            assert((i - 4 - samples) as u32 == i - 4 - samples);
        }
    }
}

/// Indices of the two precomputed random values that sample `sample_number`
/// of the global illumination uses.
pub fn random_value_indices(sample_number: u32, len: usize) -> (r: (usize, usize))
    requires
        len > 0,
        2 * (len - 1) <= usize::MAX,
    ensures
        r.0 == (sample_number as int) % (len as int),
        r.1 == (2 * r.0) % (len as int),
        r.0 < len,
        r.1 < len,
{
    let idx1: usize = sample_number as usize % len;
    let idx2: usize = (idx1 * 2) % len;
    (idx1, idx2)
}

} // verus!
