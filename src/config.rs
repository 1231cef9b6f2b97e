use vstd::prelude::*;

verus! {

/// Render settings, fixed for the whole render and copied to each worker.
#[derive(Clone, Copy, Debug, PartialEq, Eq, Structural)]
pub struct Config {
    pub image_width: u32,
    pub image_height: u32,
    pub samples_per_pixel: u32,
    pub max_depth: u32,
}

/// A unit of work: (samples to take, column, row).
pub type Job = (u32, u32, u32);

impl Config {
    /// Number of pixels in the image.
    pub open spec fn pixels(&self) -> nat {
        (self.image_width as nat) * (self.image_height as nat)
    }

    /// The image's pixel buffer can be addressed with `usize` indices.
    pub open spec fn addressable(&self) -> bool {
        self.pixels() <= usize::MAX
    }

    /// Whether (x, y) is a pixel of the image.
    pub open spec fn in_image(&self, x: int, y: int) -> bool {
        0 <= x < self.image_width && 0 <= y < self.image_height
    }

    /// Row-major position of pixel (x, y).
    pub open spec fn index_of(&self, x: int, y: int) -> int {
        y * self.image_width + x
    }

    /// The jobs of one pass: every pixel once, row by row, each asking for
    /// `samples` samples.
    pub open spec fn spec_pass_jobs(&self, samples: u32) -> Seq<Job> {
        Seq::new(
            self.pixels(),
            |k: int| (samples, (k % self.image_width as int) as u32, (k / self.image_width as int) as u32),
        )
    }

    /// Number of pixels in the image.
    pub fn pixel_count(&self) -> (r: u64)
        ensures
            r == self.pixels(),
    {
        proof {
            vstd::arithmetic::mul::lemma_mul_upper_bound(
                self.image_width as int, u32::MAX as int, self.image_height as int, u32::MAX as int);
        }
        self.image_width as u64 * self.image_height as u64
    }

    /// Row-major index of pixel (x, y) in a buffer of `pixel_count` entries.
    pub fn pixel_index(&self, x: u32, y: u32) -> (r: usize)
        requires
            self.in_image(x as int, y as int),
            self.addressable(),
        ensures
            r == self.index_of(x as int, y as int),
            r < self.pixels(),
    {
        proof { lemma_index_in_image(*self, x as int, y as int); }
        y as usize * self.image_width as usize + x as usize
    }

    /// The jobs of one pass over the image, each asking for `samples`
    /// samples: every pixel once, row by row.
    pub fn pass_jobs(&self, samples: u32) -> (r: Vec<Job>)
        requires
            self.addressable(),
        ensures
            r@ == self.spec_pass_jobs(samples),
    {
        let mut jobs: Vec<Job> = Vec::new();
        let mut v: u32 = 0;
        while v < self.image_height
            invariant
                self.addressable(),
                v <= self.image_height,
                jobs@ =~= self.spec_pass_jobs(samples).take(v * self.image_width),
            decreases self.image_height - v,
        {
            let mut u: u32 = 0;
            while u < self.image_width
                invariant
                    self.addressable(),
                    v < self.image_height,
                    u <= self.image_width,
                    jobs@ =~= self.spec_pass_jobs(samples).take(v * self.image_width + u),
                decreases self.image_width - u,
            {
                proof {
                    lemma_index_in_image(*self, u as int, v as int);
                    lemma_coordinates_of_index(*self, u as int, v as int);
                }
                jobs.push((samples, u, v));
                u = u + 1;
            }
            proof {
                vstd::arithmetic::mul::lemma_mul_is_distributive_add_other_way(
                    self.image_width as int, v as int, 1);
            }
            v = v + 1;
        }
        proof {
            assert(self.image_height * self.image_width == self.pixels()) by (nonlinear_arith);
        }
        jobs
    }
}

/// A pixel's row-major index lies within the image's buffer.
proof fn lemma_index_in_image(c: Config, x: int, y: int)
    requires
        c.in_image(x, y),
    ensures
        0 <= c.index_of(x, y) < c.pixels(),
{
    let w = c.image_width as int;
    let h = c.image_height as int;
    assert(y * w + x < c.pixels()) by (nonlinear_arith)
        requires 0 <= x < w, 0 <= y < h, c.pixels() == w * h;
    assert(0 <= y * w) by (nonlinear_arith) requires 0 <= y, 0 <= w;
}

/// Column and row are recovered from a pixel's row-major index.
proof fn lemma_coordinates_of_index(c: Config, x: int, y: int)
    requires
        c.in_image(x, y),
    ensures
        c.index_of(x, y) % (c.image_width as int) == x,
        c.index_of(x, y) / (c.image_width as int) == y,
{
    vstd::arithmetic::div_mod::lemma_fundamental_div_mod_converse(
        c.index_of(x, y), c.image_width as int, y, x);
}

/// The column and row read off a row-major index within the image.
proof fn lemma_index_coordinates(c: Config, k: int)
    requires
        0 <= k < c.pixels(),
    ensures
        c.image_width > 0,
        0 <= k % (c.image_width as int) < c.image_width,
        0 <= k / (c.image_width as int) < c.image_height,
        k == (k / (c.image_width as int)) * (c.image_width as int) + k % (c.image_width as int),
{
    let w = c.image_width as int;
    let h = c.image_height as int;
    assert(w > 0) by (nonlinear_arith) requires 0 <= k < w * h, h >= 0, w >= 0;
    vstd::arithmetic::div_mod::lemma_fundamental_div_mod(k, w);
    vstd::arithmetic::div_mod::lemma_mod_bound(k, w);
    vstd::arithmetic::div_mod::lemma_div_pos_is_pos(k, w);
    let q = k / w;
    let r = k % w;
    assert(q < h) by (nonlinear_arith)
        requires k == w * q + r, 0 <= r < w, k < w * h, q >= 0, w > 0;
    assert(w * q == q * w) by (nonlinear_arith);
}

/// Each job of a pass is a pixel of the image, the job at a pixel's row-major
/// index is that pixel's, and no pixel is given twice: the pass's coordinates
/// are exactly the image's pixels, each once.
pub proof fn lemma_pass_jobs_cover_image(c: Config, samples: u32)
    ensures
        c.spec_pass_jobs(samples).len() == c.pixels(),
        forall|k: int| 0 <= k < c.pixels() ==> {
            let job = #[trigger] c.spec_pass_jobs(samples)[k];
            job.0 == samples && c.in_image(job.1 as int, job.2 as int)
        },
        forall|x: int, y: int| #[trigger] c.in_image(x, y) ==>
            0 <= c.index_of(x, y) < c.pixels()
            && c.spec_pass_jobs(samples)[c.index_of(x, y)] == (samples, x as u32, y as u32),
        forall|k1: int, k2: int|
            0 <= k1 < c.pixels() && 0 <= k2 < c.pixels() && k1 != k2 ==>
                #[trigger] c.spec_pass_jobs(samples)[k1] != #[trigger] c.spec_pass_jobs(samples)[k2],
{
    let w = c.image_width as int;
    let jobs = c.spec_pass_jobs(samples);
    assert forall|k: int| 0 <= k < c.pixels() implies {
        let job = #[trigger] jobs[k];
        job.0 == samples && c.in_image(job.1 as int, job.2 as int)
    } by {
        lemma_index_coordinates(c, k);
    }
    assert forall|x: int, y: int| #[trigger] c.in_image(x, y) implies
        0 <= c.index_of(x, y) < c.pixels()
        && jobs[c.index_of(x, y)] == (samples, x as u32, y as u32) by {
        lemma_index_in_image(c, x, y);
        lemma_coordinates_of_index(c, x, y);
    }
    assert forall|k1: int, k2: int|
        0 <= k1 < c.pixels() && 0 <= k2 < c.pixels() && k1 != k2 implies
            #[trigger] jobs[k1] != #[trigger] jobs[k2] by {
        lemma_index_coordinates(c, k1);
        lemma_index_coordinates(c, k2);
        if jobs[k1] == jobs[k2] {
            assert(k1 % w == k2 % w);
            assert(k1 / w == k2 / w);
        }
    }
}

} // verus!
