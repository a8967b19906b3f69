//! Scheduling of dithering work per region, the retry queue for images that are not loaded
//! yet, and the cache of finished position buffers.
//!
//! A pass goes: `take_due` hands out the retried requests followed by the changed ones;
//! the host looks each image up and hands the outcomes to `add_dither_task`, which returns
//! the jobs to run in the background; each finished job comes back through `finish_task`.
use vstd::prelude::*;

use std::collections::HashMap;
use std::collections::HashSet;

use crate::dithering::{dither_density_map, dither_spec, DitherComputeError, DitheredBuffer, FieldExtent, Position};
use crate::field::{has_float_samples, luma_size_of, DensityField};
use crate::map::DensityMap;

verus! {

broadcast use vstd::std_specs::hash::group_hash_axioms;

/// A region's request to have its density map dithered over its extent.
#[derive(PartialEq, Eq, Structural, Clone, Copy, Debug)]
pub struct DitherRequest {
    pub region: u64,
    pub density_map: DensityMap,
    pub extent: FieldExtent,
}

/// What the host found when it looked up a request's image.
#[derive(Debug)]
pub enum AssetLookup {
    /// The image is loaded; here is its field.
    Resolved(DensityField),
    /// The image is not loaded yet.
    NotLoaded,
    /// The region no longer exists.
    RegionGone,
}

impl AssetLookup {
    /// What the asset store's answer means for a request: no image yet means waiting; an
    /// image is handed on as a field of its size. An image that cannot be read as a field
    /// (no pixel, or float samples) is handed on as a field without pixels, so its job fails
    /// with `ImageFormat` instead of waiting for a format that will never change.
    pub fn from_image(image: Option<image::DynamicImage>) -> (r: AssetLookup)
        ensures
            image is None <==> r is NotLoaded,
            image matches Some(i) ==> (r matches AssetLookup::Resolved(f) && (f.wf() <==> (
            !has_float_samples(i) && luma_size_of(i).0 > 0 && luma_size_of(i).1 > 0)) && (f.wf()
                ==> (f.width, f.height) == luma_size_of(i)) && (!f.wf() ==> f.width == 0
                && f.height == 0)),
    {
        match image {
            None => AssetLookup::NotLoaded,
            Some(image) => match DensityField::from_image(image) {
                Ok(field) => AssetLookup::Resolved(field),
                Err(_) => AssetLookup::Resolved(
                    DensityField { width: 0, height: 0, samples: Vec::new() },
                ),
            },
        }
    }
}

/// A request together with what its lookup found.
#[derive(Debug)]
pub struct Attempt {
    pub request: DitherRequest,
    pub lookup: AssetLookup,
}

/// One unit of background work: dither `field` at `density` over `extent` for `region`.
#[derive(Debug)]
pub struct DitherJob {
    pub region: u64,
    pub field: DensityField,
    pub density: i32,
    pub extent: FieldExtent,
}

impl DitherJob {
    /// Runs the dithering this job stands for.
    pub fn run(self) -> (r: Result<DitheredBuffer, DitherComputeError>)
        ensures
            r matches Ok(b) ==> dither_spec(self.field, self.density as int, self.extent) == Ok::<
                Seq<Position>,
                DitherComputeError,
            >(b.positions@),
            r matches Err(e) ==> dither_spec(self.field, self.density as int, self.extent)
                == Err::<Seq<Position>, DitherComputeError>(e),
    {
        dither_density_map(self.field, self.density, self.extent)
    }
}

/// Why a region's computation did not end in a cached buffer.
#[derive(PartialEq, Eq, Structural, Clone, Copy, Debug)]
pub enum GrassComputeError {
    /// Dithering the region's density map failed.
    FailedComputation(u64, DitherComputeError),
}

/// What the scheduler reports to the host.
#[derive(PartialEq, Eq, Structural, Clone, Copy, Debug)]
pub enum GrassComputeEvent {
    StartComputation(u64),
    FinishedComputation(u64),
    Error(GrassComputeError),
}

impl From<GrassComputeError> for GrassComputeEvent {
    fn from(value: GrassComputeError) -> (r: GrassComputeEvent)
        ensures
            r == GrassComputeEvent::Error(value),
    {
        GrassComputeEvent::Error(value)
    }
}

impl vstd::std_specs::convert::FromSpecImpl<GrassComputeError> for GrassComputeEvent {
    open spec fn obeys_from_spec() -> bool {
        true
    }

    open spec fn from_spec(v: GrassComputeError) -> GrassComputeEvent {
        GrassComputeEvent::Error(v)
    }
}

/// The scheduler's state: the regions with a job in flight, the requests waiting for their
/// image in arrival order (at most one per region), and the latest buffer of each region.
#[derive(Debug)]
pub struct DitherScheduler {
    pub pending: HashSet<u64>,
    pub retry: Vec<DitherRequest>,
    pub cache: HashMap<u64, DitheredBuffer>,
}

/// `q` without the requests of `region`.
pub open spec fn without_region(q: Seq<DitherRequest>, region: u64) -> Seq<DitherRequest>
    decreases q.len(),
{
    if q.len() == 0 {
        q
    } else {
        let rest = without_region(q.drop_last(), region);
        if q.last().region == region {
            rest
        } else {
            rest.push(q.last())
        }
    }
}

/// `q` with `req` queued last, in place of any older request of its region.
pub open spec fn requeue(q: Seq<DitherRequest>, req: DitherRequest) -> Seq<DitherRequest> {
    without_region(q, req.region).push(req)
}

/// The job that a request with a loaded image becomes.
pub open spec fn job_of(req: DitherRequest, field: DensityField) -> DitherJob {
    DitherJob {
        region: req.region,
        field,
        density: req.density_map.density,
        extent: req.extent,
    }
}

/// The state of a pass: regions in flight, the retry queue, and the jobs handed out so far.
pub struct PassModel {
    pub pending: Set<u64>,
    pub retry: Seq<DitherRequest>,
    pub jobs: Seq<DitherJob>,
}

/// One attempt of a pass: a gone region is dropped, together with its queued requests; a
/// request whose image is not loaded, or whose region has a job in flight, waits in the
/// retry queue in place of older requests of its region; any other becomes a job, and the
/// older requests of its region leave the queue, so none of them can later overwrite its
/// result.
pub open spec fn step(s: PassModel, a: Attempt) -> PassModel {
    match a.lookup {
        AssetLookup::RegionGone => PassModel { retry: without_region(s.retry, a.request.region), ..s },
        AssetLookup::NotLoaded => PassModel { retry: requeue(s.retry, a.request), ..s },
        AssetLookup::Resolved(field) => if s.pending.contains(a.request.region) {
            PassModel { retry: requeue(s.retry, a.request), ..s }
        } else {
            PassModel {
                pending: s.pending.insert(a.request.region),
                retry: without_region(s.retry, a.request.region),
                jobs: s.jobs.push(job_of(a.request, field)),
            }
        },
    }
}

/// The attempts of a pass, taken in order from the state `(pending, retry)`.
pub open spec fn plan(pending: Set<u64>, retry: Seq<DitherRequest>, attempts: Seq<Attempt>) -> PassModel
    decreases attempts.len(),
{
    if attempts.len() == 0 {
        PassModel { pending, retry, jobs: seq![] }
    } else {
        step(plan(pending, retry, attempts.drop_last()), attempts.last())
    }
}

/// Removes the requests of `region` from `q`, keeping the order of the others.
fn remove_region(q: &mut Vec<DitherRequest>, region: u64)
    ensures
        final(q)@ == without_region(old(q)@, region),
{
    let ghost orig = q@;
    let mut kept: Vec<DitherRequest> = Vec::new();
    let mut k: usize = 0;
    while k < q.len()
        invariant
            q@ == orig,
            k <= q@.len(),
            kept@ == without_region(orig.take(k as int), region),
        decreases q@.len() - k,
    {
        assert(orig.take(k + 1).drop_last() =~= orig.take(k as int));
        if q[k].region != region {
            kept.push(q[k]);
        }
        k = k + 1;
    }
    assert(orig.take(k as int) =~= orig);
    *q = kept;
}

/// The events that announce the start of `jobs`, one per job, in order.
pub fn start_events(jobs: &Vec<DitherJob>) -> (events: Vec<GrassComputeEvent>)
    ensures
        events@.len() == jobs@.len(),
        forall|k: int|
            0 <= k < jobs@.len() ==> events@[k] == GrassComputeEvent::StartComputation(
                #[trigger] jobs@[k].region,
            ),
{
    let mut events: Vec<GrassComputeEvent> = Vec::new();
    let mut k: usize = 0;
    while k < jobs.len()
        invariant
            k <= jobs@.len(),
            events@.len() == k,
            forall|t: int|
                0 <= t < k ==> events@[t] == GrassComputeEvent::StartComputation(jobs@[t].region),
        decreases jobs@.len() - k,
    {
        events.push(GrassComputeEvent::StartComputation(jobs[k].region));
        k = k + 1;
    }
    events
}

impl DitherScheduler {
    /// A scheduler with nothing in flight, queued or cached.
    pub fn new() -> (r: DitherScheduler)
        ensures
            r.pending@ == Set::<u64>::empty(),
            r.retry@ == Seq::<DitherRequest>::empty(),
            r.cache@ == Map::<u64, DitheredBuffer>::empty(),
    {
        DitherScheduler { pending: HashSet::new(), retry: Vec::new(), cache: HashMap::new() }
    }

    /// Starts a pass: hands out the queued requests, oldest first, followed by the
    /// `changed` ones, and empties the queue.
    pub fn take_due(&mut self, changed: Vec<DitherRequest>) -> (due: Vec<DitherRequest>)
        ensures
            due@ == old(self).retry@ + changed@,
            final(self).retry@ == Seq::<DitherRequest>::empty(),
            final(self).pending@ == old(self).pending@,
            final(self).cache@ == old(self).cache@,
    {
        let mut due: Vec<DitherRequest> = Vec::new();
        std::mem::swap(&mut due, &mut self.retry);
        let mut k: usize = 0;
        let ghost start = due@;
        while k < changed.len()
            invariant
                k <= changed@.len(),
                due@ == start + changed@.take(k as int),
            decreases changed@.len() - k,
        {
            due.push(changed[k]);
            k = k + 1;
            assert(due@ =~= start + changed@.take(k as int));
        }
        assert(changed@.take(k as int) =~= changed@);
        due
    }

    /// Runs the attempts of a pass in order (see `step`) and returns the jobs to start.
    /// No region gets a second job while one is in flight.
    pub fn add_dither_task(&mut self, attempts: Vec<Attempt>) -> (jobs: Vec<DitherJob>)
        ensures
            plan(old(self).pending@, old(self).retry@, attempts@) == (PassModel {
                pending: final(self).pending@,
                retry: final(self).retry@,
                jobs: jobs@,
            }),
            final(self).cache@ == old(self).cache@,
    {
        let ghost all = attempts@;
        let ghost pending0 = self.pending@;
        let ghost retry0 = self.retry@;
        let mut rest = attempts;
        let mut jobs: Vec<DitherJob> = Vec::new();
        let ghost mut k: int = 0;
        while rest.len() > 0
            invariant
                0 <= k <= all.len(),
                rest@ == all.skip(k),
                self.cache@ == old(self).cache@,
                plan(pending0, retry0, all.take(k)) == (PassModel {
                    pending: self.pending@,
                    retry: self.retry@,
                    jobs: jobs@,
                }),
            decreases rest@.len(),
        {
            let a = rest.remove(0);
            proof {
                assert(all.take(k + 1).drop_last() =~= all.take(k));
                assert(all.take(k + 1).last() == a);
            }
            let region = a.request.region;
            match a.lookup {
                AssetLookup::RegionGone => {
                    remove_region(&mut self.retry, region);
                },
                AssetLookup::NotLoaded => {
                    remove_region(&mut self.retry, region);
                    self.retry.push(a.request);
                },
                AssetLookup::Resolved(field) => {
                    if self.pending.contains(&region) {
                        remove_region(&mut self.retry, region);
                        self.retry.push(a.request);
                    } else {
                        self.pending.insert(region);
                        remove_region(&mut self.retry, region);
                        jobs.push(
                            DitherJob {
                                region,
                                field,
                                density: a.request.density_map.density,
                                extent: a.request.extent,
                            },
                        );
                    }
                },
            }
            proof {
                k = k + 1;
                assert(rest@ =~= all.skip(k));
            }
        }
        proof {
            assert(all.take(k) =~= all);
        }
        jobs
    }

    /// Takes back the outcome of `region`'s job: its region is no longer in flight; a
    /// buffer of a region that still exists replaces the cached one. The outcome of a region
    /// that is gone is dropped without an event: that is a normal race, not a failure.
    pub fn finish_task(
        &mut self,
        region: u64,
        result: Result<DitheredBuffer, DitherComputeError>,
        region_exists: bool,
    ) -> (ev: Option<GrassComputeEvent>)
        ensures
            final(self).pending@ == old(self).pending@.remove(region),
            final(self).retry@ == old(self).retry@,
            !region_exists ==> ev is None && final(self).cache@ == old(self).cache@,
            region_exists ==> match result {
                Ok(b) => ev == Some(GrassComputeEvent::FinishedComputation(region))
                    && final(self).cache@ == old(self).cache@.insert(region, b),
                Err(e) => ev == Some(
                    GrassComputeEvent::Error(GrassComputeError::FailedComputation(region, e)),
                ) && final(self).cache@ == old(self).cache@,
            },
    {
        self.pending.remove(&region);
        if !region_exists {
            return None;
        }
        match result {
            Ok(buffer) => {
                self.cache.insert(region, buffer);
                Some(GrassComputeEvent::FinishedComputation(region))
            },
            Err(e) => Some(
                GrassComputeEvent::Error(GrassComputeError::FailedComputation(region, e)),
            ),
        }
    }

    /// The latest buffer of `region`, if one has been computed.
    pub fn get(&self, region: u64) -> (r: Option<&DitheredBuffer>)
        ensures
            r matches Some(b) ==> self.cache@.contains_key(region) && *b == self.cache@[region],
            r is None ==> !self.cache@.contains_key(region),
    {
        self.cache.get(&region)
    }

    /// Whether `region` has a job in flight.
    pub fn is_pending(&self, region: u64) -> (r: bool)
        ensures
            r == self.pending@.contains(region),
    {
        self.pending.contains(&region)
    }
}

/// How many of `jobs` are for `region`.
pub open spec fn jobs_for(jobs: Seq<DitherJob>, region: u64) -> nat
    decreases jobs.len(),
{
    if jobs.len() == 0 {
        0
    } else {
        jobs_for(jobs.drop_last(), region) + if jobs.last().region == region {
            1nat
        } else {
            0nat
        }
    }
}

/// How many requests of `q` are for `region`.
pub open spec fn queued_for(q: Seq<DitherRequest>, region: u64) -> nat
    decreases q.len(),
{
    if q.len() == 0 {
        0
    } else {
        queued_for(q.drop_last(), region) + if q.last().region == region {
            1nat
        } else {
            0nat
        }
    }
}

/// Where a pass `p` leaves the region of attempt `a`, given the state `before` that the
/// attempt met: a loaded image of a region with no job in flight became exactly one job,
/// the job of `a`, and nothing of the region stays queued; a request that has to wait
/// (image not loaded, or a job still in flight) stays queued exactly once, in place of any
/// older request of its region, and adds no job; a gone region leaves nothing queued and
/// adds no job.
pub open spec fn settled(p: PassModel, before: PassModel, a: Attempt) -> bool {
    let r = a.request.region;
    match a.lookup {
        AssetLookup::Resolved(field) => if before.pending.contains(r) {
            &&& jobs_for(p.jobs, r) == jobs_for(before.jobs, r)
            &&& queued_for(p.retry, r) == 1
            &&& p.retry.contains(a.request)
        } else {
            &&& jobs_for(p.jobs, r) == 1
            &&& p.jobs.contains(job_of(a.request, field))
            &&& queued_for(p.retry, r) == 0
            &&& p.pending.contains(r)
        },
        AssetLookup::NotLoaded => {
            &&& jobs_for(p.jobs, r) == jobs_for(before.jobs, r)
            &&& queued_for(p.retry, r) == 1
            &&& p.retry.contains(a.request)
        },
        AssetLookup::RegionGone => {
            &&& jobs_for(p.jobs, r) == jobs_for(before.jobs, r)
            &&& queued_for(p.retry, r) == 0
        },
    }
}

proof fn lemma_jobs_for_push(jobs: Seq<DitherJob>, j: DitherJob, region: u64)
    ensures
        jobs_for(jobs.push(j), region) == jobs_for(jobs, region) + if j.region == region {
            1nat
        } else {
            0nat
        },
{
    assert(jobs.push(j).drop_last() =~= jobs);
}

proof fn lemma_queued_for_push(q: Seq<DitherRequest>, req: DitherRequest, region: u64)
    ensures
        queued_for(q.push(req), region) == queued_for(q, region) + if req.region == region {
            1nat
        } else {
            0nat
        },
{
    assert(q.push(req).drop_last() =~= q);
}

/// Dropping the requests of `region` leaves none of them and keeps all others.
proof fn lemma_without_region(q: Seq<DitherRequest>, region: u64)
    ensures
        queued_for(without_region(q, region), region) == 0,
        forall|o: u64| o != region ==> #[trigger] queued_for(without_region(q, region), o)
            == queued_for(q, o),
        forall|x: DitherRequest| q.contains(x) && x.region != region ==> #[trigger] without_region(
            q,
            region,
        ).contains(x),
    decreases q.len(),
{
    if q.len() > 0 {
        let rest = without_region(q.drop_last(), region);
        lemma_without_region(q.drop_last(), region);
        if q.last().region != region {
            lemma_queued_for_push(rest, q.last(), region);
            assert forall|o: u64| o != region implies #[trigger] queued_for(
                without_region(q, region),
                o,
            ) == queued_for(q, o) by {
                lemma_queued_for_push(rest, q.last(), o);
            }
        }
        assert forall|x: DitherRequest| q.contains(x) && x.region != region implies #[trigger] without_region(
            q,
            region,
        ).contains(x) by {
            let i = choose|i: int| 0 <= i < q.len() && q[i] == x;
            if i < q.len() - 1 {
                assert(q.drop_last()[i] == x);
                assert(q.drop_last().contains(x));
                assert(rest.contains(x));
                if q.last().region != region {
                    let j = choose|j: int| 0 <= j < rest.len() && rest[j] == x;
                    assert(rest.push(q.last())[j] == x);
                }
            } else {
                assert(rest.push(q.last())[rest.len() as int] == x);
            }
        }
    }
}

/// Queueing `req` leaves exactly one request of its region, `req` itself, and keeps all
/// requests of other regions.
proof fn lemma_requeue(q: Seq<DitherRequest>, req: DitherRequest)
    ensures
        queued_for(requeue(q, req), req.region) == 1,
        requeue(q, req).contains(req),
        forall|o: u64| o != req.region ==> #[trigger] queued_for(requeue(q, req), o) == queued_for(
            q,
            o,
        ),
        forall|x: DitherRequest| q.contains(x) && x.region != req.region ==> #[trigger] requeue(
            q,
            req,
        ).contains(x),
{
    let w = without_region(q, req.region);
    lemma_without_region(q, req.region);
    lemma_queued_for_push(w, req, req.region);
    assert(w.push(req)[w.len() as int] == req);
    assert forall|o: u64| o != req.region implies #[trigger] queued_for(requeue(q, req), o)
        == queued_for(q, o) by {
        lemma_queued_for_push(w, req, o);
    }
    assert forall|x: DitherRequest| q.contains(x) && x.region != req.region implies #[trigger] requeue(
        q,
        req,
    ).contains(x) by {
        assert(w.contains(x));
        let j = choose|j: int| 0 <= j < w.len() && w[j] == x;
        assert(w.push(req)[j] == x);
    }
}

/// At most one job per region is ever in flight: a pass gives no job to a region that
/// already had one, gives each region at most one, and marks exactly those regions as
/// in flight.
pub proof fn lemma_one_job_per_region(
    pending: Set<u64>,
    retry: Seq<DitherRequest>,
    attempts: Seq<Attempt>,
)
    ensures
        forall|r: u64| pending.contains(r) ==> #[trigger] jobs_for(plan(pending, retry, attempts).jobs, r) == 0,
        forall|r: u64| #[trigger] jobs_for(plan(pending, retry, attempts).jobs, r) <= 1,
        forall|r: u64| #[trigger] plan(pending, retry, attempts).pending.contains(r) <==> (
        pending.contains(r) || jobs_for(plan(pending, retry, attempts).jobs, r) == 1),
    decreases attempts.len(),
{
    if attempts.len() > 0 {
        let prev = plan(pending, retry, attempts.drop_last());
        lemma_one_job_per_region(pending, retry, attempts.drop_last());
        let a = attempts.last();
        if let AssetLookup::Resolved(field) = a.lookup {
            if !prev.pending.contains(a.request.region) {
                let j = job_of(a.request, field);
                assert forall|r: u64| true implies #[trigger] jobs_for(prev.jobs.push(j), r)
                    == jobs_for(prev.jobs, r) + if r == a.request.region {
                    1nat
                } else {
                    0nat
                } by {
                    lemma_jobs_for_push(prev.jobs, j, r);
                }
            }
        }
    }
}

/// A pass settles the last request that it attempts for a region (see `settled`): one
/// whose image has loaded while its region has no job in flight is scheduled exactly once,
/// as a job carrying its field, density and extent, and no request of its region stays
/// queued; one that still waits stays queued exactly once, so the next pass attempts it
/// again; a gone region is dropped with its queued requests.
pub proof fn lemma_attempt_settled(
    pending: Set<u64>,
    retry: Seq<DitherRequest>,
    attempts: Seq<Attempt>,
    k: int,
)
    requires
        0 <= k < attempts.len(),
        forall|t: int|
            k < t < attempts.len() ==> #[trigger] attempts[t].request.region
                != attempts[k].request.region,
    ensures
        settled(plan(pending, retry, attempts), plan(pending, retry, attempts.take(k)), attempts[k]),
{
    lemma_settled_prefix(pending, retry, attempts, k, attempts.len() as int);
    assert(attempts.take(attempts.len() as int) =~= attempts);
}

proof fn lemma_settled_prefix(
    pending: Set<u64>,
    retry: Seq<DitherRequest>,
    attempts: Seq<Attempt>,
    k: int,
    n: int,
)
    requires
        0 <= k < n <= attempts.len(),
        forall|t: int|
            k < t < attempts.len() ==> #[trigger] attempts[t].request.region
                != attempts[k].request.region,
    ensures
        settled(
            plan(pending, retry, attempts.take(n)),
            plan(pending, retry, attempts.take(k)),
            attempts[k],
        ),
    decreases n,
{
    let r = attempts[k].request.region;
    assert(attempts.take(n).drop_last() =~= attempts.take(n - 1));
    let prev = plan(pending, retry, attempts.take(n - 1));
    let a = attempts[n - 1];
    assert(attempts.take(n).last() == a);
    let cur = plan(pending, retry, attempts.take(n));
    assert(cur == step(prev, a));
    if n - 1 == k {
        lemma_one_job_per_region(pending, retry, attempts.take(k));
        match a.lookup {
            AssetLookup::RegionGone => {
                lemma_without_region(prev.retry, r);
            },
            AssetLookup::NotLoaded => {
                lemma_requeue(prev.retry, a.request);
            },
            AssetLookup::Resolved(field) => {
                if prev.pending.contains(r) {
                    lemma_requeue(prev.retry, a.request);
                } else {
                    let j = job_of(a.request, field);
                    lemma_jobs_for_push(prev.jobs, j, r);
                    lemma_without_region(prev.retry, r);
                    assert(prev.jobs.push(j)[prev.jobs.len() as int] == j);
                }
            },
        }
    } else {
        lemma_settled_prefix(pending, retry, attempts, k, n - 1);
        assert(a.request.region != r);
        match a.lookup {
            AssetLookup::RegionGone => {
                lemma_without_region(prev.retry, a.request.region);
            },
            AssetLookup::NotLoaded => {
                lemma_requeue(prev.retry, a.request);
            },
            AssetLookup::Resolved(field) => {
                if prev.pending.contains(a.request.region) {
                    lemma_requeue(prev.retry, a.request);
                } else {
                    let j = job_of(a.request, field);
                    lemma_jobs_for_push(prev.jobs, j, r);
                    lemma_without_region(prev.retry, a.request.region);
                    assert forall|x: DitherJob| prev.jobs.contains(x) implies #[trigger] prev.jobs.push(
                        j,
                    ).contains(x) by {
                        let i = choose|i: int| 0 <= i < prev.jobs.len() && prev.jobs[i] == x;
                        assert(prev.jobs.push(j)[i] == x);
                    }
                }
            },
        }
    }
}

/// Attempts of other regions leave a region's jobs, in-flight mark and queue alone.
proof fn lemma_prefix_untouched(
    pending: Set<u64>,
    retry: Seq<DitherRequest>,
    attempts: Seq<Attempt>,
    r: u64,
    n: int,
)
    requires
        0 <= n <= attempts.len(),
        forall|t: int| 0 <= t < n ==> #[trigger] attempts[t].request.region != r,
    ensures
        jobs_for(plan(pending, retry, attempts.take(n)).jobs, r) == 0,
        plan(pending, retry, attempts.take(n)).pending.contains(r) == pending.contains(r),
        queued_for(plan(pending, retry, attempts.take(n)).retry, r) == queued_for(retry, r),
    decreases n,
{
    if n > 0 {
        lemma_prefix_untouched(pending, retry, attempts, r, n - 1);
        assert(attempts.take(n).drop_last() =~= attempts.take(n - 1));
        let prev = plan(pending, retry, attempts.take(n - 1));
        let a = attempts[n - 1];
        assert(attempts.take(n).last() == a);
        assert(a.request.region != r);
        match a.lookup {
            AssetLookup::RegionGone => {
                lemma_without_region(prev.retry, a.request.region);
            },
            AssetLookup::NotLoaded => {
                lemma_requeue(prev.retry, a.request);
            },
            AssetLookup::Resolved(field) => {
                if prev.pending.contains(a.request.region) {
                    lemma_requeue(prev.retry, a.request);
                } else {
                    lemma_jobs_for_push(prev.jobs, job_of(a.request, field), r);
                    lemma_without_region(prev.retry, a.request.region);
                }
            },
        }
    }
}

/// What one pass does for a region that it attempts once, measured from the state the pass
/// starts in: once the region's image has loaded and no job of it is in flight, the pass
/// schedules exactly one job for it, carrying its request's field, density and extent, and
/// nothing of it stays queued; while the image is not loaded or a job is in flight, the pass
/// schedules nothing for it and keeps the request queued exactly once, so every later pass
/// attempts it again, until `finish_task` has cleared the job in flight and the image is
/// there; a gone region is dropped. A queued request is therefore scheduled on the first
/// pass that finds its image loaded and its region idle, and only then.
pub proof fn lemma_pass_outcome(
    pending: Set<u64>,
    retry: Seq<DitherRequest>,
    attempts: Seq<Attempt>,
    k: int,
)
    requires
        0 <= k < attempts.len(),
        forall|t: int|
            0 <= t < attempts.len() && t != k ==> #[trigger] attempts[t].request.region
                != attempts[k].request.region,
    ensures
        ({
            let p = plan(pending, retry, attempts);
            let a = attempts[k];
            let r = a.request.region;
            match a.lookup {
                AssetLookup::Resolved(field) => if pending.contains(r) {
                    jobs_for(p.jobs, r) == 0 && queued_for(p.retry, r) == 1 && p.retry.contains(
                        a.request,
                    )
                } else {
                    jobs_for(p.jobs, r) == 1 && p.jobs.contains(job_of(a.request, field))
                        && queued_for(p.retry, r) == 0 && p.pending.contains(r)
                },
                AssetLookup::NotLoaded => jobs_for(p.jobs, r) == 0 && queued_for(p.retry, r) == 1
                    && p.retry.contains(a.request),
                AssetLookup::RegionGone => jobs_for(p.jobs, r) == 0 && queued_for(p.retry, r)
                    == 0,
            }
        }),
{
    let r = attempts[k].request.region;
    assert forall|t: int| 0 <= t < k implies #[trigger] attempts[t].request.region != r by {}
    lemma_prefix_untouched(pending, retry, attempts, r, k);
    lemma_attempt_settled(pending, retry, attempts, k);
}

} // verus!
