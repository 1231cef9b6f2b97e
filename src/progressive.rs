use vstd::prelude::*;

use crate::config::{lemma_pass_jobs_cover_image, Config, Job};
use crate::ramp::{ramp_split, sampling_ramp};

verus! {

/// What recording one finished job gave: the pixel's buffer index, its sample
/// weight so far, and whether this result completed the current pass.
#[derive(Clone, Copy, Debug, PartialEq, Eq, Structural)]
pub struct Recorded {
    pub index: usize,
    pub weight: u32,
    pub pass_complete: bool,
}

/// The consumer's side of a progressive render: which pass is running, how
/// many results of it have come back, and how many samples each pixel has
/// accumulated over all passes so far. A pass is complete once one result per
/// pixel has come back.
pub struct Progressive {
    config: Config,
    ramp: Vec<u32>,
    pass: usize,
    received: u64,
    weights: Vec<u32>,
}

impl Progressive {
    /// The render settings.
    pub closed spec fn spec_config(&self) -> Config {
        self.config
    }

    /// Samples per pixel of each pass, in order.
    pub closed spec fn spec_ramp(&self) -> Seq<u32> {
        self.ramp@
    }

    /// Index of the running pass; equal to the number of passes once all ran.
    pub closed spec fn spec_pass(&self) -> nat {
        self.pass as nat
    }

    /// Results of the running pass that have come back.
    pub closed spec fn spec_received(&self) -> nat {
        self.received as nat
    }

    /// Accumulated samples of each pixel, in row-major order.
    pub closed spec fn spec_weights(&self) -> Seq<u32> {
        self.weights@
    }

    pub open spec fn wf(&self) -> bool {
        let c = self.spec_config();
        &&& c.addressable()
        &&& self.spec_ramp() == ramp_split(c.samples_per_pixel as nat).reverse()
        &&& self.spec_pass() <= self.spec_ramp().len()
        &&& self.spec_weights().len() == c.pixels()
        &&& self.spec_received() <= c.pixels()
        &&& self.spec_finished() ==> self.spec_received() == 0
    }

    /// Whether all results of the running pass have come back.
    pub open spec fn spec_pass_complete(&self) -> bool {
        self.spec_received() == self.spec_config().pixels()
    }

    /// Whether every pass has run.
    pub open spec fn spec_finished(&self) -> bool {
        self.spec_pass() == self.spec_ramp().len()
    }

    /// The outcome of recording a result of `samples` samples at (x, y):
    /// refused outside the image, once every pass has run or the running pass
    /// is complete, and where the pixel's weight would overflow.
    pub open spec fn accepts(&self, samples: u32, x: u32, y: u32) -> bool {
        let c = self.spec_config();
        &&& c.in_image(x as int, y as int)
        &&& !self.spec_finished()
        &&& !self.spec_pass_complete()
        &&& self.spec_weights()[c.index_of(x as int, y as int)] + samples <= u32::MAX
    }

    /// Samples per pixel that the jobs of the running pass ask for.
    pub open spec fn spec_pass_samples(&self) -> u32 {
        self.spec_ramp()[self.spec_pass() as int]
    }

    /// Starts a render under `config`, at its first pass with no samples
    /// taken; the passes follow `sampling_ramp` of the samples per pixel.
    pub fn new(config: Config) -> (r: Progressive)
        requires
            config.addressable(),
        ensures
            r.wf(),
            r.spec_config() == config,
            r.spec_ramp() == ramp_split(config.samples_per_pixel as nat).reverse(),
            r.spec_pass() == 0,
            r.spec_received() == 0,
            r.spec_weights() == Seq::new(config.pixels(), |i: int| 0u32),
    {
        let ramp = sampling_ramp(config.samples_per_pixel);
        let n = config.pixel_count();
        let mut weights: Vec<u32> = Vec::new();
        let mut i: u64 = 0;
        while i < n
            invariant
                n == config.pixels(),
                i <= n,
                weights@ =~= Seq::new(i as nat, |k: int| 0u32),
            decreases n - i,
        {
            weights.push(0);
            i = i + 1;
        }
        Progressive { config, ramp, pass: 0, received: 0, weights }
    }

    /// Number of passes of the render.
    pub fn pass_count(&self) -> (r: usize)
        requires
            self.wf(),
        ensures
            r == self.spec_ramp().len(),
    {
        self.ramp.len()
    }

    /// Index of the running pass.
    pub fn pass(&self) -> (r: usize)
        requires
            self.wf(),
        ensures
            r == self.spec_pass(),
    {
        self.pass
    }

    /// Samples per pixel that the jobs of the running pass ask for.
    pub fn pass_samples(&self) -> (r: u32)
        requires
            self.wf(),
            !self.spec_finished(),
        ensures
            r == self.spec_ramp()[self.spec_pass() as int],
    {
        self.ramp[self.pass]
    }

    /// Results of the running pass that have come back.
    pub fn received(&self) -> (r: u64)
        requires
            self.wf(),
        ensures
            r == self.spec_received(),
    {
        self.received
    }

    /// Samples accumulated at the pixel of buffer index `index`.
    pub fn weight(&self, index: usize) -> (r: u32)
        requires
            self.wf(),
            index < self.spec_config().pixels(),
        ensures
            r == self.spec_weights()[index as int],
    {
        self.weights[index]
    }

    /// Whether all results of the running pass have come back.
    pub fn pass_complete(&self) -> (r: bool)
        requires
            self.wf(),
        ensures
            r == self.spec_pass_complete(),
    {
        self.received == self.config.pixel_count()
    }

    /// Whether every pass has run.
    pub fn finished(&self) -> (r: bool)
        requires
            self.wf(),
        ensures
            r == self.spec_finished(),
    {
        self.pass == self.ramp.len()
    }

    /// Records a finished job of `samples` samples at (x, y). Where the
    /// result is accepted, the pixel's weight grows by `samples` and the
    /// running pass counts one more result; otherwise nothing changes and
    /// `None` comes back.
    pub fn record(&mut self, samples: u32, x: u32, y: u32) -> (r: Option<Recorded>)
        requires
            old(self).wf(),
        ensures
            final(self).wf(),
            final(self).spec_config() == old(self).spec_config(),
            final(self).spec_ramp() == old(self).spec_ramp(),
            final(self).spec_pass() == old(self).spec_pass(),
            r is Some <==> old(self).accepts(samples, x, y),
            recorded(*old(self), *final(self), (samples, x, y)),
            r matches Some(rec) ==> {
                let c = old(self).spec_config();
                let idx = c.index_of(x as int, y as int);
                &&& rec.index == idx
                &&& rec.weight == old(self).spec_weights()[idx] + samples
                &&& final(self).spec_weights() == old(self).spec_weights().update(idx, rec.weight)
                &&& final(self).spec_received() == old(self).spec_received() + 1
                &&& rec.pass_complete == final(self).spec_pass_complete()
            },
    {
        if x >= self.config.image_width || y >= self.config.image_height {
            return None;
        }
        if self.pass == self.ramp.len() || self.received == self.config.pixel_count() {
            return None;
        }
        let index = self.config.pixel_index(x, y);
        let old_weight = self.weights[index];
        if old_weight > u32::MAX - samples {
            return None;
        }
        let weight = old_weight + samples;
        self.weights.set(index, weight);
        self.received = self.received + 1;
        let pass_complete = self.received == self.config.pixel_count();
        Some(Recorded { index, weight, pass_complete })
    }

    /// Moves on to the next pass once the running one is complete.
    pub fn next_pass(&mut self)
        requires
            old(self).wf(),
            old(self).spec_pass_complete(),
            !old(self).spec_finished(),
        ensures
            final(self).wf(),
            final(self).spec_config() == old(self).spec_config(),
            final(self).spec_ramp() == old(self).spec_ramp(),
            final(self).spec_pass() == old(self).spec_pass() + 1,
            final(self).spec_received() == 0,
            final(self).spec_weights() == old(self).spec_weights(),
    {
        let count = self.ramp.len();
        assert(self.pass < count);
        self.pass = self.pass + 1;
        self.received = 0;
    }
}

/// How recording the result of `job` takes the ledger from `before` to
/// `after`: an accepted result adds its samples to its pixel and counts
/// towards the running pass; a refused one changes nothing.
pub open spec fn recorded(before: Progressive, after: Progressive, job: Job) -> bool {
    let (samples, x, y) = job;
    let c = before.spec_config();
    let idx = c.index_of(x as int, y as int);
    if before.accepts(samples, x, y) {
        &&& after.spec_config() == c
        &&& after.spec_ramp() == before.spec_ramp()
        &&& after.spec_pass() == before.spec_pass()
        &&& after.spec_weights() == before.spec_weights().update(
            idx,
            (before.spec_weights()[idx] + samples) as u32,
        )
        &&& after.spec_received() == before.spec_received() + 1
    } else {
        after == before
    }
}

/// Buffer index of the pixel that a job is for.
pub open spec fn job_index(c: Config, job: Job) -> int {
    c.index_of(job.1 as int, job.2 as int)
}

/// Some result among the first `n` is for the pixel of buffer index `p`.
pub open spec fn pixel_seen(c: Config, results: Seq<Job>, n: int, p: int) -> bool {
    exists|k: int| 0 <= k < n && #[trigger] job_index(c, results[k]) == p
}

proof fn lemma_results_prefix(states: Seq<Progressive>, results: Seq<Job>, n: int)
    requires
        states.len() == results.len() + 1,
        0 <= n <= results.len(),
        states[0].wf(),
        forall|i: int| 0 <= i < states.len() ==> #[trigger] states[i].wf(),
        states[0].spec_received() == 0,
        !states[0].spec_finished(),
        results.len() == states[0].spec_config().pixels(),
        results.no_duplicates(),
        forall|i: int| 0 <= i < results.len() ==> {
            let job = #[trigger] results[i];
            job.0 == states[0].spec_pass_samples()
                && states[0].spec_config().in_image(job.1 as int, job.2 as int)
        },
        forall|p: int| 0 <= p < states[0].spec_config().pixels() ==>
            states[0].spec_weights()[p] + states[0].spec_pass_samples() <= u32::MAX,
        forall|i: int| 0 <= i < results.len() ==> #[trigger] recorded(states[i], states[i + 1], results[i]),
    ensures
        states[n].spec_config() == states[0].spec_config(),
        states[n].spec_ramp() == states[0].spec_ramp(),
        states[n].spec_pass() == states[0].spec_pass(),
        states[n].spec_received() == n,
        forall|p: int| 0 <= p < states[0].spec_config().pixels() ==>
            #[trigger] states[n].spec_weights()[p] == states[0].spec_weights()[p]
                + if pixel_seen(states[0].spec_config(), results, n, p) { states[0].spec_pass_samples() as int } else { 0 },
        forall|i: int| 0 <= i < n ==> {
            let job = #[trigger] results[i];
            states[i].accepts(job.0, job.1, job.2)
        },
    decreases n,
{
    let c = states[0].spec_config();
    let samples = states[0].spec_pass_samples();
    if n > 0 {
        let m = n - 1;
        lemma_results_prefix(states, results, m);
        let job = results[m];
        let idx = job_index(c, job);
        let before = states[m];
        lemma_pass_jobs_cover_image(c, samples);
        assert(0 <= idx < c.pixels());
        assert(!pixel_seen(c, results, m, idx)) by {
            if pixel_seen(c, results, m, idx) {
                let k = choose|k: int| 0 <= k < m && #[trigger] job_index(c, results[k]) == idx;
                let other = results[k];
                assert(c.spec_pass_jobs(samples)[job_index(c, other)] == (samples, other.1, other.2));
                assert(c.spec_pass_jobs(samples)[idx] == (samples, job.1, job.2));
                assert(results[k] == results[m]);
            }
        }
        assert(before.accepts(job.0, job.1, job.2));
        assert(recorded(states[m], states[m + 1], results[m]));
        assert(states[m].wf());
        assert(states[n].wf());
        let w0 = states[0].spec_weights();
        let wm = before.spec_weights();
        let wn = states[n].spec_weights();
        assert(wm[idx] == w0[idx]);
        assert(wn == wm.update(idx, (wm[idx] + samples) as u32));
        assert forall|p: int| 0 <= p < c.pixels() implies
            #[trigger] states[n].spec_weights()[p] == states[0].spec_weights()[p]
                + if pixel_seen(c, results, n, p) { samples as int } else { 0 } by {
            if p == idx {
                assert(job_index(c, results[m]) == p);
                assert(pixel_seen(c, results, n, p));
                assert(wn[p] == w0[p] + samples);
            } else {
                assert(wn[p] == wm[p]);
                if pixel_seen(c, results, n, p) {
                    let k = choose|k: int| 0 <= k < n && #[trigger] job_index(c, results[k]) == p;
                    assert(k < m);
                    assert(pixel_seen(c, results, m, p));
                } else {
                    assert(!pixel_seen(c, results, m, p));
                }
            }
        }
    }
}

/// Whatever order the results of a pass come back in, as long as they are
/// the pass's jobs, each once: the ledger accepts every one, the pass is
/// complete after the last and not before, and every pixel has gained the
/// pass's samples exactly once. `states[i + 1]` is the ledger after
/// recording `results[i]` on `states[i]`.
pub proof fn lemma_pass_results_in_any_order(states: Seq<Progressive>, results: Seq<Job>)
    requires
        states.len() == results.len() + 1,
        states[0].wf(),
        forall|i: int| 0 <= i < states.len() ==> #[trigger] states[i].wf(),
        states[0].spec_received() == 0,
        !states[0].spec_finished(),
        results.to_multiset() == states[0].spec_config().spec_pass_jobs(
            states[0].spec_pass_samples(),
        ).to_multiset(),
        forall|p: int| 0 <= p < states[0].spec_config().pixels() ==>
            states[0].spec_weights()[p] + states[0].spec_pass_samples() <= u32::MAX,
        forall|i: int| 0 <= i < results.len() ==> #[trigger] recorded(states[i], states[i + 1], results[i]),
    ensures
        forall|i: int| 0 <= i < results.len() ==> {
            let job = #[trigger] results[i];
            states[i].accepts(job.0, job.1, job.2)
        },
        forall|i: int| 0 <= i < results.len() ==>
            (#[trigger] states[i + 1].spec_pass_complete() <==> i == results.len() - 1),
        states.last().spec_pass() == states[0].spec_pass(),
        states.last().spec_pass_complete(),
        states.last().spec_weights() == states[0].spec_weights().map_values(
            |w: u32| (w + states[0].spec_pass_samples()) as u32,
        ),
{
    broadcast use vstd::seq_lib::group_to_multiset_ensures;

    let c = states[0].spec_config();
    let samples = states[0].spec_pass_samples();
    let jobs = c.spec_pass_jobs(samples);
    let n = results.len() as int;
    lemma_pass_jobs_cover_image(c, samples);
    assert(jobs.no_duplicates());
    jobs.lemma_multiset_has_no_duplicates();
    results.lemma_multiset_has_no_duplicates_conv();
    assert(results.len() == c.pixels()) by {
        assert(results.len() == results.to_multiset().len());
        assert(jobs.len() == jobs.to_multiset().len());
    }
    assert forall|i: int| 0 <= i < results.len() implies {
        let job = #[trigger] results[i];
        job.0 == samples && c.in_image(job.1 as int, job.2 as int)
    } by {
        assert(results.to_multiset().count(results[i]) > 0);
        assert(jobs.contains(results[i]));
    }
    lemma_results_prefix(states, results, n);
    assert forall|i: int| 0 <= i < results.len() implies
        (#[trigger] states[i + 1].spec_pass_complete() <==> i == results.len() - 1) by {
        lemma_results_prefix(states, results, i + 1);
    }
    assert forall|p: int| 0 <= p < c.pixels() implies pixel_seen(c, results, n, p) by {
        assert(jobs.contains(jobs[p]));
        assert(results.to_multiset().count(jobs[p]) > 0);
        let k = choose|k: int| 0 <= k < n && results[k] == jobs[p];
        assert(job_index(c, results[k]) == p) by {
            assert(c.in_image(results[k].1 as int, results[k].2 as int));
            assert(jobs[job_index(c, results[k])] == results[k]);
        }
    }
    assert(states.last() == states[n]);
    assert(states[n].wf());
    assert(states.last().spec_weights() =~= states[0].spec_weights().map_values(
        |w: u32| (w + samples) as u32,
    ));
}

} // verus!
