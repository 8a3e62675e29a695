use vstd::prelude::*;

use crate::domain::{ImageId, PreviewFrame, PreviewMetrics};
use crate::error::ApplicationError;
use crate::metrics::{is_p95_of, keep_last, MetricsState, METRIC_WINDOW_SIZE};

verus! {

/// A submitted render request tagged with its sequence number.
pub struct ScheduledJob<R> {
    pub sequence: u64,
    pub request: R,
}

/// What a renderer produces: final size and packed pixels.
pub struct RenderedPreview {
    pub width: u32,
    pub height: u32,
    pub pixels: Vec<u32>,
}

/// Abstract state of the scheduler.
///
/// `pending` is the queue of jobs not yet taken by the worker, `in_flight` the sequence of
/// the job being rendered, `ready` the published frames not yet delivered to a poller.
pub struct SchedulerView<R> {
    pub latest: nat,
    pub pending: Seq<ScheduledJob<R>>,
    pub in_flight: Option<u64>,
    pub ready: Seq<PreviewFrame>,
    pub last_published: nat,
    pub last_delivered: nat,
    pub submitted: nat,
    pub completed: nat,
    pub canceled: nat,
    pub dropped: nat,
    pub last_render: Option<u64>,
    pub samples: Seq<u64>,
}

/// The frame built from a finished render.
pub open spec fn frame_of(
    sequence: u64,
    image_id: ImageId,
    rendered: RenderedPreview,
    elapsed_ms: u64,
) -> PreviewFrame {
    PreviewFrame {
        image_id,
        sequence,
        width: rendered.width,
        height: rendered.height,
        render_time_ms: elapsed_ms,
        pixels: rendered.pixels,
    }
}

impl<R> SchedulerView<R> {
    pub open spec fn in_flight_count(self) -> nat {
        if self.in_flight is Some {
            1
        } else {
            0
        }
    }

    /// Every job is pending, in flight, completed or canceled; pending jobs carry the
    /// consecutive sequences up to the latest; frames wait in increasing sequence order,
    /// newer than anything delivered.
    pub open spec fn wf(self) -> bool {
        &&& self.samples.len() <= METRIC_WINDOW_SIZE
        &&& self.submitted == self.latest
        &&& self.submitted == self.completed + self.canceled + self.pending.len()
            + self.in_flight_count()
        &&& self.dropped + self.ready.len() <= self.completed
        &&& forall|i: int|
            0 <= i < self.pending.len() ==> #[trigger] self.pending[i].sequence == self.latest
                - self.pending.len() + 1 + i
        &&& self.in_flight matches Some(s) ==> self.last_published < s && s <= self.latest
            - self.pending.len()
        &&& forall|i: int|
            0 <= i < self.ready.len() ==> self.last_delivered < #[trigger] self.ready[i].sequence
                <= self.last_published
        &&& forall|i: int, j: int|
            0 <= i < j < self.ready.len() ==> #[trigger] self.ready[i].sequence
                < #[trigger] self.ready[j].sequence
        &&& self.ready.len() > 0 ==> self.ready.last().sequence == self.last_published
        &&& self.last_delivered <= self.last_published
        &&& self.last_published + self.pending.len() <= self.latest
    }

    /// A new submission: it takes the next sequence number, which becomes the latest.
    pub open spec fn submit(self, request: R) -> SchedulerView<R> {
        let sequence = (self.latest + 1) as u64;
        SchedulerView {
            latest: self.latest + 1,
            pending: self.pending.push(ScheduledJob { sequence, request }),
            submitted: self.submitted + 1,
            ..self
        }
    }

    /// Submissions of every request in order, with no worker step in between.
    pub open spec fn submit_all(self, requests: Seq<R>) -> SchedulerView<R>
        decreases requests.len(),
    {
        if requests.len() == 0 {
            self
        } else {
            self.submit_all(requests.drop_last()).submit(requests.last())
        }
    }

    /// The worker takes the newest pending job; every older pending job, and a job left in
    /// flight, is canceled. A job older than the latest submission is canceled too.
    pub open spec fn take(self) -> (SchedulerView<R>, Option<ScheduledJob<R>>) {
        if self.pending.len() == 0 {
            (self, None)
        } else {
            let job = self.pending.last();
            let canceled = (self.canceled + self.pending.len() - 1 + self.in_flight_count()) as nat;
            if job.sequence < self.latest {
                (
                    SchedulerView {
                        pending: Seq::empty(),
                        in_flight: None,
                        canceled: canceled + 1,
                        ..self
                    },
                    None,
                )
            } else {
                (
                    SchedulerView {
                        pending: Seq::empty(),
                        in_flight: Some(job.sequence),
                        canceled,
                        ..self
                    },
                    Some(job),
                )
            }
        }
    }

    /// The worker reports the outcome of rendering `sequence`. A job that is not the one in
    /// flight leaves the state unchanged. A failed render, or one superseded by a newer
    /// submission, is canceled; otherwise its frame is published and its latency recorded.
    pub open spec fn finish(
        self,
        sequence: u64,
        image_id: ImageId,
        rendered: Result<RenderedPreview, ApplicationError>,
        elapsed_ms: u64,
    ) -> (SchedulerView<R>, bool) {
        if self.in_flight != Some(sequence) {
            (self, false)
        } else if rendered is Err || sequence < self.latest {
            (SchedulerView { in_flight: None, canceled: self.canceled + 1, ..self }, false)
        } else {
            (
                SchedulerView {
                    in_flight: None,
                    ready: self.ready.push(frame_of(sequence, image_id, rendered->Ok_0, elapsed_ms)),
                    last_published: sequence as nat,
                    completed: self.completed + 1,
                    last_render: Some(elapsed_ms),
                    samples: keep_last(self.samples.push(elapsed_ms), METRIC_WINDOW_SIZE as nat),
                    ..self
                },
                true,
            )
        }
    }

    /// A poll: the newest ready frame is delivered and every older one counted dropped.
    pub open spec fn receive(self) -> (SchedulerView<R>, Option<PreviewFrame>) {
        if self.ready.len() == 0 {
            (self, None)
        } else {
            let frame = self.ready.last();
            (
                SchedulerView {
                    ready: Seq::empty(),
                    dropped: (self.dropped + self.ready.len() - 1) as nat,
                    last_delivered: frame.sequence as nat,
                    ..self
                },
                Some(frame),
            )
        }
    }
}


/// Submitting keeps the scheduler well formed.
pub proof fn lemma_submit_wf<R>(v: SchedulerView<R>, request: R)
    requires
        v.wf(),
        v.latest < u64::MAX,
    ensures
        v.submit(request).wf(),
{
    let w = v.submit(request);
    assert forall|i: int| 0 <= i < w.pending.len() implies #[trigger] w.pending[i].sequence
        == w.latest - w.pending.len() + 1 + i by {
        if i < v.pending.len() {
            assert(w.pending[i] == v.pending[i]);
        }
    }
}

/// Taking a job keeps the scheduler well formed.
pub proof fn lemma_take_wf<R>(v: SchedulerView<R>)
    requires
        v.wf(),
    ensures
        v.take().0.wf(),
{
}

/// Reporting a render keeps the scheduler well formed.
pub proof fn lemma_finish_wf<R>(
    v: SchedulerView<R>,
    sequence: u64,
    image_id: ImageId,
    rendered: Result<RenderedPreview, ApplicationError>,
    elapsed_ms: u64,
)
    requires
        v.wf(),
    ensures
        v.finish(sequence, image_id, rendered, elapsed_ms).0.wf(),
{
    let w = v.finish(sequence, image_id, rendered, elapsed_ms).0;
    if v.in_flight == Some(sequence) && rendered is Ok && sequence >= v.latest {
        assert(v.pending.len() == 0);
        assert forall|i: int| 0 <= i < w.ready.len() implies w.last_delivered
            < #[trigger] w.ready[i].sequence <= w.last_published by {
            if i < v.ready.len() {
                assert(w.ready[i] == v.ready[i]);
            }
        }
        assert forall|i: int, j: int| 0 <= i < j < w.ready.len() implies #[trigger] w.ready[i].sequence
            < #[trigger] w.ready[j].sequence by {
            assert(w.ready[i] == v.ready[i]);
            if j < v.ready.len() {
                assert(w.ready[j] == v.ready[j]);
            }
        }
    }
}

/// Polling keeps the scheduler well formed.
pub proof fn lemma_receive_wf<R>(v: SchedulerView<R>)
    requires
        v.wf(),
    ensures
        v.receive().0.wf(),
{
}

/// Single-threaded core of the background preview pipeline.
///
/// The facade submits jobs and polls frames; the worker takes the newest job, renders it
/// outside, and reports the result. Only the newest surviving frame is ever delivered.
pub struct PreviewScheduler<R> {
    latest_sequence: u64,
    pending: Vec<ScheduledJob<R>>,
    in_flight: Option<u64>,
    ready: Vec<PreviewFrame>,
    last_published: u64,
    last_delivered: u64,
    metrics: MetricsState,
}

impl<R> View for PreviewScheduler<R> {
    type V = SchedulerView<R>;

    closed spec fn view(&self) -> SchedulerView<R> {
        SchedulerView {
            latest: self.latest_sequence as nat,
            pending: self.pending@,
            in_flight: self.in_flight,
            ready: self.ready@,
            last_published: self.last_published as nat,
            last_delivered: self.last_delivered as nat,
            submitted: self.metrics.submitted_jobs as nat,
            completed: self.metrics.completed_jobs as nat,
            canceled: self.metrics.canceled_jobs as nat,
            dropped: self.metrics.dropped_frames as nat,
            last_render: self.metrics.last_render_time_ms,
            samples: self.metrics.render_samples_ms@,
        }
    }
}

impl<R> PreviewScheduler<R> {
    /// An idle scheduler: nothing submitted, every counter zero.
    pub fn new() -> (r: PreviewScheduler<R>)
        ensures
            r@.latest == 0,
            r@.pending.len() == 0,
            r@.in_flight is None,
            r@.ready.len() == 0,
            r@.last_published == 0,
            r@.last_delivered == 0,
            r@.submitted == 0,
            r@.completed == 0,
            r@.canceled == 0,
            r@.dropped == 0,
            r@.last_render is None,
            r@.samples.len() == 0,
            r@.wf(),
    {
        PreviewScheduler {
            latest_sequence: 0,
            pending: Vec::new(),
            in_flight: None,
            ready: Vec::new(),
            last_published: 0,
            last_delivered: 0,
            metrics: MetricsState::new(),
        }
    }

    /// The sequence number of the most recent submission (0 before any).
    pub fn latest_sequence(&self) -> (r: u64)
        ensures
            r == self@.latest,
    {
        self.latest_sequence
    }

    /// Assigns the next sequence number, records it as the latest, counts the submission and
    /// queues the job. Fails only once the sequence numbers are exhausted.
    pub fn submit(&mut self, request: R) -> (r: Result<u64, ApplicationError>)
        requires
            old(self)@.wf(),
        ensures
            final(self)@.wf(),
            old(self)@.latest < u64::MAX ==> r == Ok::<u64, ApplicationError>(
                (old(self)@.latest + 1) as u64,
            ) && final(self)@ == old(self)@.submit(request),
            old(self)@.latest == u64::MAX ==> r is Err && final(self)@ == old(self)@,
    {
        if self.latest_sequence == u64::MAX {
            return Err(ApplicationError::Io(String::from_str("preview sequence numbers exhausted")));
        }
        let sequence = self.latest_sequence + 1;
        proof {
            lemma_submit_wf(self@, request);
        }
        self.latest_sequence = sequence;
        self.metrics.submitted_jobs = self.metrics.submitted_jobs + 1;
        self.pending.push(ScheduledJob { sequence, request });
        Ok(sequence)
    }

    /// The worker's pick after a wake-up: drains every queued job, keeping only the newest.
    /// Each older one, and a job still recorded in flight, is counted canceled. A pick older
    /// than the latest submission is canceled as well and `None` returned; otherwise the job
    /// becomes the one in flight.
    pub fn take_job(&mut self) -> (r: Option<ScheduledJob<R>>)
        requires
            old(self)@.wf(),
        ensures
            final(self)@.wf(),
            (final(self)@, r) == old(self)@.take(),
    {
        if self.pending.len() == 0 {
            return None;
        }
        proof {
            lemma_take_wf(self@);
        }
        let ghost old_v = self@;
        let ghost n = self.pending@.len();
        let mut candidate = self.pending.remove(0);
        let mut superseded: u64 = 0;
        while self.pending.len() > 0
            invariant
                n == old_v.pending.len(),
                n >= 1,
                old_v.wf(),
                self.pending@.len() < n,
                self.pending@ == old_v.pending.subrange(n - self.pending@.len(), n as int),
                candidate == old_v.pending[n - self.pending@.len() - 1],
                superseded == n - self.pending@.len() - 1,
                self@ == (SchedulerView { pending: self.pending@, ..old_v }),
            decreases self.pending@.len(),
        {
            candidate = self.pending.remove(0);
            superseded = superseded + 1;
            assert(self.pending@ =~= old_v.pending.subrange(n - self.pending@.len(), n as int));
        }
        let abandoned: u64 = if self.in_flight.is_some() {
            1
        } else {
            0
        };
        self.metrics.canceled_jobs = self.metrics.canceled_jobs + superseded + abandoned;
        if candidate.sequence < self.latest_sequence {
            self.in_flight = None;
            self.metrics.canceled_jobs = self.metrics.canceled_jobs + 1;
            assert(self@.pending =~= Seq::<ScheduledJob<R>>::empty());
            return None;
        }
        self.in_flight = Some(candidate.sequence);
        assert(self@.pending =~= Seq::<ScheduledJob<R>>::empty());
        Some(candidate)
    }

    /// The worker's report on the job it rendered. Only the job in flight counts: a failed
    /// render, or one overtaken by a newer submission while it ran, is canceled; otherwise the
    /// frame is published, the job counted completed and its latency recorded. Returns
    /// whether the frame was published.
    pub fn finish_render(
        &mut self,
        sequence: u64,
        image_id: ImageId,
        rendered: Result<RenderedPreview, ApplicationError>,
        elapsed_ms: u64,
    ) -> (published: bool)
        requires
            old(self)@.wf(),
        ensures
            final(self)@.wf(),
            (final(self)@, published) == old(self)@.finish(sequence, image_id, rendered, elapsed_ms),
    {
        proof {
            lemma_finish_wf(self@, sequence, image_id, rendered, elapsed_ms);
        }
        let current = match self.in_flight {
            Some(s) => s == sequence,
            None => false,
        };
        if !current {
            return false;
        }
        self.in_flight = None;
        match rendered {
            Err(_) => {
                self.metrics.canceled_jobs = self.metrics.canceled_jobs + 1;
                false
            },
            Ok(preview) => {
                if sequence < self.latest_sequence {
                    self.metrics.canceled_jobs = self.metrics.canceled_jobs + 1;
                    return false;
                }
                let frame = PreviewFrame {
                    image_id,
                    sequence,
                    width: preview.width,
                    height: preview.height,
                    render_time_ms: elapsed_ms,
                    pixels: preview.pixels,
                };
                self.ready.push(frame);
                self.metrics.completed_jobs = self.metrics.completed_jobs + 1;
                self.metrics.push_render_sample(elapsed_ms);
                self.last_published = sequence;
                true
            },
        }
    }

    /// Non-blocking poll: drains every ready frame and returns the newest, counting each
    /// older one as dropped; `None`, with nothing changed, when no frame is ready.
    pub fn try_receive_preview(&mut self) -> (r: Option<PreviewFrame>)
        requires
            old(self)@.wf(),
        ensures
            final(self)@.wf(),
            (final(self)@, r) == old(self)@.receive(),
    {
        if self.ready.len() == 0 {
            return None;
        }
        proof {
            lemma_receive_wf(self@);
        }
        let ghost old_v = self@;
        let ghost n = self.ready@.len();
        let mut newest = self.ready.remove(0);
        let mut dropped: u64 = 0;
        while self.ready.len() > 0
            invariant
                n == old_v.ready.len(),
                n >= 1,
                old_v.wf(),
                self.ready@.len() < n,
                self.ready@ == old_v.ready.subrange(n - self.ready@.len(), n as int),
                newest == old_v.ready[n - self.ready@.len() - 1],
                dropped == n - self.ready@.len() - 1,
                self@ == (SchedulerView { ready: self.ready@, ..old_v }),
            decreases self.ready@.len(),
        {
            newest = self.ready.remove(0);
            dropped = dropped + 1;
            assert(self.ready@ =~= old_v.ready.subrange(n - self.ready@.len(), n as int));
        }
        if dropped > 0 {
            self.metrics.dropped_frames = self.metrics.dropped_frames + dropped;
        }
        self.last_delivered = newest.sequence;
        assert(self@.ready =~= Seq::<PreviewFrame>::empty());
        Some(newest)
    }

    /// Snapshot of the counters and latencies.
    pub fn metrics(&self) -> (r: PreviewMetrics)
        ensures
            r.submitted_jobs == self@.submitted,
            r.completed_jobs == self@.completed,
            r.canceled_jobs == self@.canceled,
            r.dropped_frames == self@.dropped,
            r.last_render_time_ms == self@.last_render,
            is_p95_of(r.p95_render_time_ms, self@.samples),
    {
        self.metrics.snapshot()
    }
}


/// One operation on the scheduler, from either side.
pub enum SchedulerEvent<R> {
    Submit(R),
    Take,
    Finish(u64, ImageId, Result<RenderedPreview, ApplicationError>, u64),
    Receive,
}

impl<R> SchedulerView<R> {
    /// The state after one operation; a submission once the sequence numbers are exhausted
    /// changes nothing.
    pub open spec fn step(self, event: SchedulerEvent<R>) -> SchedulerView<R> {
        match event {
            SchedulerEvent::Submit(request) => if self.latest < u64::MAX {
                self.submit(request)
            } else {
                self
            },
            SchedulerEvent::Take => self.take().0,
            SchedulerEvent::Finish(sequence, image_id, rendered, elapsed_ms) => self.finish(
                sequence,
                image_id,
                rendered,
                elapsed_ms,
            ).0,
            SchedulerEvent::Receive => self.receive().0,
        }
    }

    /// The state after a run of operations, in order.
    pub open spec fn run(self, events: Seq<SchedulerEvent<R>>) -> SchedulerView<R>
        decreases events.len(),
    {
        if events.len() == 0 {
            self
        } else {
            self.run(events.drop_last()).step(events.last())
        }
    }
}

proof fn lemma_step_wf<R>(v: SchedulerView<R>, event: SchedulerEvent<R>)
    requires
        v.wf(),
        v.latest <= u64::MAX,
    ensures
        v.step(event).wf(),
        v.step(event).latest <= u64::MAX,
        v.step(event).last_delivered >= v.last_delivered,
        v.step(event).submitted >= v.submitted,
        v.step(event).completed >= v.completed,
        v.step(event).canceled >= v.canceled,
        v.step(event).dropped >= v.dropped,
{
    match event {
        SchedulerEvent::Submit(request) => {
            if v.latest < u64::MAX {
                lemma_submit_wf(v, request);
            }
        },
        SchedulerEvent::Take => {
            lemma_take_wf(v);
        },
        SchedulerEvent::Finish(sequence, image_id, rendered, elapsed_ms) => {
            lemma_finish_wf(v, sequence, image_id, rendered, elapsed_ms);
        },
        SchedulerEvent::Receive => {
            lemma_receive_wf(v);
            if v.ready.len() > 0 {
                assert(v.ready[v.ready.len() - 1].sequence > v.last_delivered);
            }
        },
    }
}

/// Any run of operations keeps the scheduler well formed, and never moves the delivered
/// sequence or any counter backwards.
pub proof fn lemma_run_monotone<R>(v: SchedulerView<R>, events: Seq<SchedulerEvent<R>>)
    requires
        v.wf(),
        v.latest <= u64::MAX,
    ensures
        v.run(events).wf(),
        v.run(events).latest <= u64::MAX,
        v.run(events).last_delivered >= v.last_delivered,
        v.run(events).submitted >= v.submitted,
        v.run(events).completed >= v.completed,
        v.run(events).canceled >= v.canceled,
        v.run(events).dropped >= v.dropped,
    decreases events.len(),
{
    if events.len() > 0 {
        lemma_run_monotone(v, events.drop_last());
        lemma_step_wf(v.run(events.drop_last()), events.last());
    }
}

/// Frames reach pollers in increasing sequence order: whatever happens between two polls
/// that both return a frame, the second frame is newer than the first.
pub proof fn lemma_polls_deliver_increasing<R>(v: SchedulerView<R>, between: Seq<SchedulerEvent<R>>)
    requires
        v.wf(),
        v.latest <= u64::MAX,
    ensures
        ({
            let (after_first, first) = v.receive();
            let (_, second) = after_first.run(between).receive();
            first is Some && second is Some ==> first->Some_0.sequence
                < second->Some_0.sequence
        }),
{
    let (after_first, first) = v.receive();
    lemma_receive_wf(v);
    lemma_run_monotone(after_first, between);
    let u = after_first.run(between);
    if first is Some && u.ready.len() > 0 {
        assert(u.ready[u.ready.len() - 1].sequence > u.last_delivered);
    }
}

/// A poll with no frame ready returns nothing and leaves every counter as it was; no poll
/// ever lowers a counter.
pub proof fn lemma_empty_poll_changes_nothing<R>(v: SchedulerView<R>)
    ensures
        v.ready.len() == 0 ==> v.receive() == (v, None::<PreviewFrame>),
        v.receive().0.submitted == v.submitted,
        v.receive().0.completed == v.completed,
        v.receive().0.canceled == v.canceled,
        v.receive().0.dropped >= v.dropped,
{
}

/// A render overtaken by a newer submission is never published: whatever is published
/// carries the latest sequence number.
pub proof fn lemma_only_latest_published<R>(
    v: SchedulerView<R>,
    sequence: u64,
    image_id: ImageId,
    rendered: Result<RenderedPreview, ApplicationError>,
    elapsed_ms: u64,
)
    requires
        v.wf(),
    ensures
        v.finish(sequence, image_id, rendered, elapsed_ms).1 ==> sequence == v.latest,
        sequence < v.latest ==> !v.finish(sequence, image_id, rendered, elapsed_ms).1,
{
}

proof fn lemma_submit_all<R>(v: SchedulerView<R>, requests: Seq<R>)
    requires
        v.wf(),
        v.latest + requests.len() <= u64::MAX,
    ensures
        v.submit_all(requests).wf(),
        v.submit_all(requests).latest == v.latest + requests.len(),
        v.submit_all(requests).pending.len() == v.pending.len() + requests.len(),
        requests.len() > 0 ==> v.submit_all(requests).pending.last() == (ScheduledJob {
            sequence: (v.latest + requests.len()) as u64,
            request: requests.last(),
        }),
        v.submit_all(requests).in_flight == v.in_flight,
        v.submit_all(requests).ready == v.ready,
        v.submit_all(requests).canceled == v.canceled,
        v.submit_all(requests).completed == v.completed,
        v.submit_all(requests).dropped == v.dropped,
        v.submit_all(requests).last_delivered == v.last_delivered,
    decreases requests.len(),
{
    if requests.len() > 0 {
        lemma_submit_all(v, requests.drop_last());
        lemma_submit_wf(v.submit_all(requests.drop_last()), requests.last());
    }
}

/// A burst of submissions that lands before the worker picks anything up is rendered once:
/// the worker takes only the last job, the poll that follows its render delivers exactly
/// that frame, and every earlier job of the burst is counted canceled.
pub proof fn lemma_burst_delivers_only_latest<R>(
    v: SchedulerView<R>,
    requests: Seq<R>,
    image_id: ImageId,
    rendered: RenderedPreview,
    elapsed_ms: u64,
)
    requires
        v.wf(),
        v.pending.len() == 0,
        requests.len() >= 1,
        v.latest + requests.len() <= u64::MAX,
    ensures
        ({
            let n = requests.len();
            let (taken, job) = v.submit_all(requests).take();
            let sequence = (v.latest + n) as u64;
            let (done, published) = taken.finish(sequence, image_id, Ok(rendered), elapsed_ms);
            let (polled, frame) = done.receive();
            &&& job == Some(ScheduledJob { sequence, request: requests.last() })
            &&& published
            &&& frame == Some(frame_of(sequence, image_id, rendered, elapsed_ms))
            &&& polled.canceled >= v.canceled + n - 1
            &&& polled.completed == v.completed + 1
        }),
{
    lemma_submit_all(v, requests);
}

/// Number of submissions in a run of operations.
pub open spec fn submission_count<R>(events: Seq<SchedulerEvent<R>>) -> nat
    decreases events.len(),
{
    if events.len() == 0 {
        0
    } else {
        submission_count(events.drop_last()) + if events.last() is Submit {
            1nat
        } else {
            0nat
        }
    }
}

/// Some render finishes during the run.
pub open spec fn has_finish<R>(events: Seq<SchedulerEvent<R>>) -> bool {
    exists|i: int| 0 <= i < events.len() && #[trigger] events[i] is Finish
}

/// No render finishes before the last submission of the run: the submissions arrive faster
/// than one render takes.
pub open spec fn finishes_after_submissions<R>(events: Seq<SchedulerEvent<R>>) -> bool {
    forall|i: int, j: int|
        0 <= i < j < events.len() && #[trigger] events[i] is Finish ==> !(#[trigger] events[j] is Submit)
}

/// A burst of submissions that all arrive before any render finishes, whatever the worker
/// takes meanwhile and however often the poller looks: at most one job of the burst
/// completes, and only the last; every frame ready or delivered carries the last sequence
/// number; every other job of the burst is canceled or still waiting.
pub proof fn lemma_burst_completes_only_last<R>(v: SchedulerView<R>, events: Seq<SchedulerEvent<R>>)
    requires
        v.wf(),
        v.pending.len() == 0,
        v.in_flight is None,
        v.ready.len() == 0,
        v.latest + submission_count(events) <= u64::MAX,
        finishes_after_submissions(events),
    ensures
        ({
            let u = v.run(events);
            let last = v.latest + submission_count(events);
            &&& u.wf()
            &&& u.latest == last
            &&& u.completed <= v.completed + 1
            &&& u.completed == v.completed + 1 ==> u.pending.len() == 0 && u.in_flight is None
                && u.last_published == last
            &&& forall|i: int| 0 <= i < u.ready.len() ==> #[trigger] u.ready[i].sequence == last
            &&& u.last_delivered == v.last_delivered || u.last_delivered == last
            &&& u.canceled + u.pending.len() + u.in_flight_count() + (u.completed - v.completed)
                == v.canceled + submission_count(events)
            &&& !has_finish(events) ==> u.completed == v.completed && u.ready.len() == 0
                && u.last_delivered == v.last_delivered
        }),
    decreases events.len(),
{
    if events.len() > 0 {
        let prefix = events.drop_last();
        let e = events.last();
        assert(finishes_after_submissions(prefix)) by {
            assert forall|i: int, j: int|
                0 <= i < j < prefix.len() && #[trigger] prefix[i] is Finish implies !(
                #[trigger] prefix[j] is Submit) by {
                assert(prefix[i] == events[i]);
                assert(prefix[j] == events[j]);
            }
        }
        lemma_burst_completes_only_last(v, prefix);
        let p = v.run(prefix);
        let n = submission_count(events);
        lemma_step_wf(p, e);
        if e is Submit {
            assert(!has_finish(prefix)) by {
                if has_finish(prefix) {
                    let i = choose|i: int| 0 <= i < prefix.len() && #[trigger] prefix[i] is Finish;
                    assert(events[i] == prefix[i]);
                    assert(events[events.len() - 1] is Submit);
                }
            }
            assert(!has_finish(events)) by {
                if has_finish(events) {
                    let i = choose|i: int| 0 <= i < events.len() && #[trigger] events[i] is Finish;
                    if i < prefix.len() {
                        assert(prefix[i] == events[i]);
                    }
                }
            }
        } else {
            assert(has_finish(prefix) ==> has_finish(events)) by {
                if has_finish(prefix) {
                    let i = choose|i: int| 0 <= i < prefix.len() && #[trigger] prefix[i] is Finish;
                    assert(events[i] == prefix[i]);
                }
            }
            assert(!has_finish(events) ==> !has_finish(prefix));
            if e is Finish {
                assert(has_finish(events)) by {
                    assert(events[events.len() - 1] is Finish);
                }
                match e {
                    SchedulerEvent::Finish(sequence, image_id, rendered, elapsed_ms) => {
                        lemma_only_latest_published(p, sequence, image_id, rendered, elapsed_ms);
                    },
                    _ => {},
                }
            } else {
                assert(!has_finish(events) ==> !has_finish(prefix)) by {
                    if !has_finish(events) && has_finish(prefix) {
                        let i = choose|i: int| 0 <= i < prefix.len() && #[trigger] prefix[i] is Finish;
                        assert(events[i] == prefix[i]);
                    }
                }
                assert(has_finish(events) ==> has_finish(prefix)) by {
                    if has_finish(events) {
                        let i = choose|i: int| 0 <= i < events.len() && #[trigger] events[i] is Finish;
                        if i == events.len() - 1 {
                            assert(events[i] == e);
                        } else {
                            assert(prefix[i] == events[i]);
                        }
                    }
                }
                if e is Receive && p.ready.len() > 0 {
                    assert(p.ready[p.ready.len() - 1].sequence == v.latest + n);
                }
            }
        }
    }
}

} // verus!
