use vstd::prelude::*;

use crate::error::DatasetError;

verus! {

/// One training example. `feature` holds the bit patterns of six IEEE-754
/// single-precision numbers, the sampled position and the ray direction
/// `(x, y, z, x_dir, y_dir, z_dir)`; `label` holds the pixel color
/// `(r, g, b)`, each channel in `0..=255`.
#[derive(Clone, Copy, Debug, PartialEq, Eq)]
pub struct ParticleItem {
    pub feature: [u32; 6],
    pub label: [i32; 3],
}

/// The decoded image of one frame and the samples drawn along its rays.
///
/// `rgb` holds three bytes per pixel, row by row. Ray `v * width + u` belongs
/// to pixel `(u, v)`; its sample `s` stands in `features` at
/// `ray * samples_per_ray + s`.
pub struct FrameSamples {
    pub width: u32,
    pub height: u32,
    pub rgb: Vec<u8>,
    pub features: Vec<[u32; 6]>,
}

/// Number of pixels of a frame.
pub open spec fn pixel_count(f: FrameSamples) -> int {
    f.width as int * f.height as int
}

/// Number of particles that a frame yields.
pub open spec fn frame_particle_count(f: FrameSamples, spr: int) -> int {
    pixel_count(f) * spr
}

/// What is wrong with frame `i`, measured against the first frame.
pub open spec fn frame_error(f: FrameSamples, first: FrameSamples, spr: int, i: usize) -> Option<
    DatasetError,
> {
    if f.width != first.width || f.height != first.height {
        Some(DatasetError::SizeMismatch { frame: i })
    } else if f.rgb@.len() != 3 * pixel_count(f) {
        Some(DatasetError::PixelBuffer { frame: i })
    } else if f.features@.len() != frame_particle_count(f, spr) {
        Some(DatasetError::SampleCount { frame: i })
    } else {
        None
    }
}

/// Frames `0..n` are all sound.
pub open spec fn frames_sound_upto(frames: Seq<FrameSamples>, spr: int, n: int) -> bool {
    forall|j: int| 0 <= j < n ==> #[trigger] frame_error(frames[j], frames[0], spr, j as usize).is_none()
}

/// Frame `i` is the first that falls short, and `e` says how.
pub open spec fn is_first_bad_frame(frames: Seq<FrameSamples>, spr: int, i: int, e: DatasetError) -> bool {
    &&& 0 <= i < frames.len()
    &&& pixel_count(frames[0]) > 0
    &&& frames_sound_upto(frames, spr, i)
    &&& frame_error(frames[i], frames[0], spr, i as usize) == Some(e)
}

/// Particle `k` of frame `f`: the `k`-th sample, labelled with the color of
/// the pixel whose ray it lies on.
pub open spec fn is_particle_of(item: ParticleItem, f: FrameSamples, spr: int, k: int) -> bool {
    let p = k / spr;
    &&& item.feature == f.features@[k]
    &&& item.label@ == seq![f.rgb@[3 * p] as i32, f.rgb@[3 * p + 1] as i32, f.rgb@[3 * p + 2] as i32]
}

/// Position of particle `k` of frame `fi` in the dataset.
pub open spec fn flat_index(fi: int, k: int, per_frame: int) -> int {
    fi * per_frame + k
}

/// Sum over the frames of `width * height * samples_per_ray`.
pub open spec fn total_particles(frames: Seq<FrameSamples>, spr: int) -> int
    decreases frames.len(),
{
    if frames.len() == 0 {
        0
    } else {
        total_particles(frames.drop_last(), spr) + frame_particle_count(frames.last(), spr)
    }
}

/// The particles of a split, in frame order, then ray order, then sample
/// order. Immutable once built.
pub struct ParticleDataset {
    items: Vec<ParticleItem>,
}

impl View for ParticleDataset {
    type V = Seq<ParticleItem>;

    closed spec fn view(&self) -> Seq<ParticleItem> {
        self.items@
    }
}

proof fn lemma_pixel_index(k: int, spr: int, px: int)
    requires
        spr >= 1,
        px >= 0,
        0 <= k < px * spr,
    ensures
        0 <= k / spr < px,
        0 <= 3 * (k / spr) + 2 < 3 * px,
{
    assert(0 <= k / spr) by (nonlinear_arith)
        requires spr >= 1, k >= 0;
    assert(k / spr < px) by (nonlinear_arith)
        requires spr >= 1, 0 <= k < px * spr;
}

proof fn lemma_flat_bounds(fi: int, k: int, per: int, n: int)
    requires
        0 <= fi < n,
        0 <= k < per,
    ensures
        0 <= flat_index(fi, k, per) < n * per,
        flat_index(fi, k, per) < flat_index(fi + 1, 0, per),
{
    assert(fi * per + k < n * per) by (nonlinear_arith)
        requires 0 <= fi < n, 0 <= k < per;
    assert(0 <= fi * per) by (nonlinear_arith)
        requires 0 <= fi, 0 <= per;
    assert((fi + 1) * per == fi * per + per) by (nonlinear_arith);
}

/// Where all frames have the size of the first, the sum of the per-frame
/// counts is the number of frames times the first frame's count.
proof fn lemma_total_uniform(frames: Seq<FrameSamples>, spr: int)
    requires
        frames.len() > 0,
        forall|j: int| 0 <= j < frames.len() ==> (#[trigger] frames[j]).width == frames[0].width
            && frames[j].height == frames[0].height,
    ensures
        total_particles(frames, spr) == frames.len() * frame_particle_count(frames[0], spr),
    decreases frames.len(),
{
    let n = frames.len() as int;
    let c = frame_particle_count(frames[0], spr);
    if n == 1 {
        assert(frames.drop_last().len() == 0);
        assert(frames.last() == frames[0]);
        reveal_with_fuel(total_particles, 2);
    } else {
        let fs = frames.drop_last();
        assert(fs[0] == frames[0]);
        assert forall|j: int| 0 <= j < fs.len() implies (#[trigger] fs[j]).width == fs[0].width
            && fs[j].height == fs[0].height by {
            assert(fs[j] == frames[j]);
        }
        lemma_total_uniform(fs, spr);
        assert(frames.last() == frames[n - 1]);
        assert(frame_particle_count(frames.last(), spr) == c);
        assert((n - 1) * c + c == n * c) by (nonlinear_arith);
    }
}

impl ParticleDataset {
    /// The particle at `index`, or `None` past the end.
    pub fn get(&self, index: usize) -> (r: Option<ParticleItem>)
        ensures
            r == (if index < self@.len() {
                Some(self@[index as int])
            } else {
                None::<ParticleItem>
            }),
    {
        if index < self.items.len() {
            Some(self.items[index])
        } else {
            None
        }
    }

    /// Number of particles.
    pub fn len(&self) -> (r: usize)
        ensures
            r == self@.len(),
    {
        self.items.len()
    }

    /// Copies out the particles `start..start + count`, or fewer where the
    /// dataset ends first.
    pub fn items_from(&self, start: usize, count: usize) -> (r: Vec<ParticleItem>)
        ensures
            r@ == self@.subrange(
                if start < self@.len() { start as int } else { self@.len() as int },
                if start as int + count as int <= self@.len() {
                    start as int + count as int
                } else {
                    self@.len() as int
                },
            ),
    {
        let n = self.items.len();
        let lo: usize = if start < n { start } else { n };
        let hi: usize = if count <= n - lo { lo + count } else { n };
        let mut out: Vec<ParticleItem> = Vec::new();
        let mut i: usize = lo;
        while i < hi
            invariant
                n == self@.len(),
                lo <= i <= hi <= n,
                out@ == self@.subrange(lo as int, i as int),
            decreases hi - i,
        {
            out.push(self.items[i]);
            assert(out@ =~= self@.subrange(lo as int, i + 1));
            i = i + 1;
        }
        out
    }
    /// Flattens the frames of a split into particles.
    ///
    /// Every frame must have the size of the first, which must not be
    /// empty, three bytes per pixel, and `samples_per_ray` samples per ray.
    /// The first frame that falls short is named in the error.
    pub fn from_frames(frames: &Vec<FrameSamples>, samples_per_ray: u32) -> (r: Result<
        ParticleDataset,
        DatasetError,
    >)
        requires
            samples_per_ray >= 1,
        ensures
            frames@.len() == 0 ==> r == Err::<ParticleDataset, DatasetError>(DatasetError::NoFrames),
            frames@.len() > 0 && pixel_count(frames@[0]) == 0 ==> r == Err::<
                ParticleDataset,
                DatasetError,
            >(DatasetError::EmptyImage),
            match r {
                Ok(d) => {
                    let spr = samples_per_ray as int;
                    let per = frame_particle_count(frames@[0], spr);
                    &&& frames@.len() > 0 && pixel_count(frames@[0]) > 0
                    &&& frames_sound_upto(frames@, spr, frames@.len() as int)
                    &&& d@.len() == frames@.len() * per
                    &&& d@.len() == total_particles(frames@, spr)
                    &&& forall|fi: int, k: int|
                        0 <= fi < frames@.len() && 0 <= k < per ==> is_particle_of(
                            #[trigger] d@[flat_index(fi, k, per)],
                            frames@[fi],
                            spr,
                            k,
                        )
                },
                Err(DatasetError::NoFrames) => frames@.len() == 0,
                Err(DatasetError::EmptyImage) => frames@.len() > 0 && pixel_count(frames@[0]) == 0,
                Err(e) => exists|i: int| #[trigger]
                    is_first_bad_frame(frames@, samples_per_ray as int, i, e),
            },
    {
        let spr = samples_per_ray;
        let ghost sp = spr as int;
        let n = frames.len();
        if n == 0 {
            return Err(DatasetError::NoFrames);
        }
        let w = frames[0].width;
        let h = frames[0].height;
        if w == 0 || h == 0 {
            assert(pixel_count(frames@[0]) == 0) by (nonlinear_arith)
                requires w == 0 || h == 0, pixel_count(frames@[0]) == w as int * h as int;
            return Err(DatasetError::EmptyImage);
        }
        assert(pixel_count(frames@[0]) > 0) by (nonlinear_arith)
            requires w > 0, h > 0, pixel_count(frames@[0]) == w as int * h as int;
        let ghost per = frame_particle_count(frames@[0], sp);
        let mut items: Vec<ParticleItem> = Vec::new();
        let mut fi: usize = 0;
        while fi < n
            invariant
                n == frames@.len(),
                n > 0,
                w == frames@[0].width,
                h == frames@[0].height,
                sp == spr as int,
                spr == samples_per_ray,
                spr >= 1,
                pixel_count(frames@[0]) > 0,
                per == frame_particle_count(frames@[0], sp),
                0 <= fi <= n,
                frames_sound_upto(frames@, sp, fi as int),
                items@.len() == fi * per,
                forall|fj: int, k: int|
                    0 <= fj < fi && 0 <= k < per ==> is_particle_of(
                        #[trigger] items@[flat_index(fj, k, per)],
                        frames@[fj],
                        sp,
                        k,
                    ),
            decreases n - fi,
        {
            let f = &frames[fi];
            if f.width != w || f.height != h {
                assert(is_first_bad_frame(frames@, samples_per_ray as int, fi as int, DatasetError::SizeMismatch { frame: fi }));
                return Err(DatasetError::SizeMismatch { frame: fi });
            }
            assert((w as u128) * (h as u128) <= 0xffff_ffffu128 * 0xffff_ffffu128) by (nonlinear_arith)
                requires w <= 0xffff_ffffu32, h <= 0xffff_ffffu32;
            let px: u128 = (w as u128) * (h as u128);
            assert(px as int == pixel_count(*f));
            let rgb_len = f.rgb.len();
            if rgb_len as u128 != 3 * px {
                assert(is_first_bad_frame(frames@, samples_per_ray as int, fi as int, DatasetError::PixelBuffer { frame: fi }));
                return Err(DatasetError::PixelBuffer { frame: fi });
            }
            assert(px * spr as int <= u128::MAX) by (nonlinear_arith)
                requires px <= 0xffff_ffffu128 * 0xffff_ffffu128, spr <= 0xffff_ffffu32;
            if f.features.len() as u128 != px * (spr as u128) {
                assert(is_first_bad_frame(frames@, samples_per_ray as int, fi as int, DatasetError::SampleCount { frame: fi }));
                return Err(DatasetError::SampleCount { frame: fi });
            }
            assert(frame_error(frames@[fi as int], frames@[0], sp, fi).is_none());
            let count = f.features.len();
            let ghost base = items@.len();
            let mut k: usize = 0;
            while k < count
                invariant
                    n == frames@.len(),
                    0 <= fi < n,
                    *f == frames@[fi as int],
                    sp == spr as int,
                    spr >= 1,
                    px as int == pixel_count(*f),
                    f.rgb@.len() == 3 * px,
                    f.rgb@.len() == rgb_len,
                    count == f.features@.len(),
                    count == px * sp,
                    per == count,
                    base == fi * per,
                    0 <= k <= count,
                    items@.len() == base + k,
                    forall|fj: int, kk: int|
                        0 <= fj < fi && 0 <= kk < per ==> is_particle_of(
                            #[trigger] items@[flat_index(fj, kk, per)],
                            frames@[fj],
                            sp,
                            kk,
                        ),
                    forall|kk: int|
                        0 <= kk < k ==> is_particle_of(
                            #[trigger] items@[flat_index(fi as int, kk, per)],
                            frames@[fi as int],
                            sp,
                            kk,
                        ),
                decreases count - k,
            {
                proof {
                    lemma_pixel_index(k as int, sp, px as int);
                }
                let p = k / (spr as usize);
                assert(p as int == k as int / sp);
                assert(3 * p + 2 < f.rgb@.len());
                let r = f.rgb[3 * p];
                let g = f.rgb[3 * p + 1];
                let b = f.rgb[3 * p + 2];
                let item = ParticleItem { feature: f.features[k], label: [r as i32, g as i32, b as i32] };
                let ghost old_items = items@;
                items.push(item);
                proof {
                    assert(item.label@ == seq![r as i32, g as i32, b as i32]);
                    assert(items@[flat_index(fi as int, k as int, per)] == item);
                    assert forall|fj: int, kk: int|
                        0 <= fj < fi && 0 <= kk < per implies is_particle_of(
                            #[trigger] items@[flat_index(fj, kk, per)],
                            frames@[fj],
                            sp,
                            kk,
                        ) by {
                        lemma_flat_bounds(fj, kk, per, fi as int);
                        assert(items@[flat_index(fj, kk, per)] == old_items[flat_index(fj, kk, per)]);
                    }
                    assert forall|kk: int|
                        0 <= kk < k + 1 implies is_particle_of(
                            #[trigger] items@[flat_index(fi as int, kk, per)],
                            frames@[fi as int],
                            sp,
                            kk,
                        ) by {
                        if kk < k {
                            assert(items@[flat_index(fi as int, kk, per)] == old_items[flat_index(
                                fi as int,
                                kk,
                                per,
                            )]);
                        }
                    }
                }
                k = k + 1;
            }
            proof {
                assert((fi + 1) * per == fi * per + per) by (nonlinear_arith);
                assert forall|j: int| 0 <= j < fi + 1 implies #[trigger] frame_error(
                    frames@[j],
                    frames@[0],
                    sp,
                    j as usize,
                ).is_none() by {
                    if j < fi {
                        assert(frame_error(frames@[j], frames@[0], sp, j as usize).is_none());
                    }
                }
            }
            fi = fi + 1;
        }
        proof {
            assert forall|j: int| 0 <= j < frames@.len() implies (#[trigger] frames@[j]).width
                == frames@[0].width && frames@[j].height == frames@[0].height by {
                assert(frame_error(frames@[j], frames@[0], sp, j as usize).is_none());
            }
            lemma_total_uniform(frames@, sp);
        }
        Ok(ParticleDataset { items })
    }
}

} // verus!
