use vstd::prelude::*;
use std::collections::HashMap;
use crate::ids::fresh_id;
use crate::messages::{ChannelMetrics, ProgressMsg, RecordingMetrics, KafkaAnalysisResponse, KafkaAnalysisResponseInner, Segment};
use crate::metrics::MetricCollection;
use crate::progress::{
    after_channel_metrics, after_error, is_terminal, lemma_progress_step_monotone, percent_le, after_progress, after_recording_metrics, pending_view,
    ProgressView, RecordingProgress,
};

verus! {

broadcast use vstd::std_specs::hash::group_hash_axioms;

/// A stored channel of a recording.
#[derive(Debug)]
pub struct ChannelRow {
    pub id: u128,
    pub recording: u128,
    pub idx: i32,
    pub metrics: Vec<MetricCollection>,
}

/// A stored segment of a channel.
#[derive(Debug)]
pub struct SegmentRow {
    pub id: u128,
    pub channel: u128,
    pub start: u32,
    pub end: u32,
    pub text: String,
    pub metrics: Vec<MetricCollection>,
}

/// What became of a response that did not fail.
#[derive(Debug, Clone, Copy, PartialEq, Eq, Structural)]
pub enum IngestOutcome {
    /// It was applied; the message may be acknowledged.
    Applied,
    /// Its correlation id names no known recording; it was skipped.
    UnknownRecording,
}

/// Why a response could not be applied; the store is left as it was.
#[derive(Debug, Clone, Copy, PartialEq, Eq, Structural)]
pub enum StoreError {
    /// A new channel or segment identity is already taken.
    DuplicateId,
}

/// The durable state that the result ingestor owns: the progress of each
/// known recording, recording-level metrics, and channels with their segments.
pub struct ResultStore {
    pub recordings: HashMap<u128, RecordingProgress>,
    pub stats: HashMap<u128, Vec<MetricCollection>>,
    pub channels: Vec<ChannelRow>,
    pub segments: Vec<SegmentRow>,
}

/// The mathematical model of a `ResultStore`.
pub struct StoreView {
    pub progress: Map<u128, ProgressView>,
    pub stats: Map<u128, Seq<MetricCollection>>,
    pub channels: Seq<ChannelRow>,
    pub segments: Seq<SegmentRow>,
}

impl View for ResultStore {
    type V = StoreView;

    open spec fn view(&self) -> StoreView {
        StoreView {
            progress: Map::new(
                |k: u128| self.recordings@.contains_key(k),
                |k: u128| self.recordings@[k]@,
            ),
            stats: Map::new(|k: u128| self.stats@.contains_key(k), |k: u128| self.stats@[k]@),
            channels: self.channels@,
            segments: self.segments@,
        }
    }
}

pub open spec fn has_channel_id(chs: Seq<ChannelRow>, id: u128) -> bool {
    exists|i: int| 0 <= i < chs.len() && chs[i].id == id
}

pub open spec fn has_segment_id(segs: Seq<SegmentRow>, id: u128) -> bool {
    exists|i: int| 0 <= i < segs.len() && segs[i].id == id
}

/// No identity appears twice among the channels, nor among the segments.
pub open spec fn store_wf(v: StoreView) -> bool {
    &&& forall|i: int, j: int|
        0 <= i < j < v.channels.len() ==> v.channels[i].id != v.channels[j].id
    &&& forall|i: int, j: int|
        0 <= i < j < v.segments.len() ==> v.segments[i].id != v.segments[j].id
}

/// How many new identities a response needs: one for a channel and one for
/// each of its segments; none for other kinds.
pub open spec fn ids_needed(msg: KafkaAnalysisResponseInner) -> nat {
    match msg {
        KafkaAnalysisResponseInner::ChannelMetrics(c) => c.segments@.len() + 1,
        _ => 0,
    }
}

/// The stored rows of a channel's segments; segment `i` takes `ids[i + 1]`.
pub open spec fn segment_rows(segs: Seq<Segment>, channel: u128, ids: Seq<u128>) -> Seq<SegmentRow> {
    Seq::new(
        segs.len(),
        |i: int|
            SegmentRow {
                id: ids[i + 1],
                channel,
                start: segs[i].start,
                end: segs[i].end,
                text: segs[i].text,
                metrics: segs[i].metrics,
            },
    )
}

/// The new segment identities are absent from `segs` and distinct.
pub open spec fn segment_ids_fresh(segs: Seq<SegmentRow>, new_ids: Seq<u128>) -> bool {
    &&& forall|i: int| 0 <= i < new_ids.len() ==> !has_segment_id(segs, #[trigger] new_ids[i])
    &&& forall|i: int, j: int| 0 <= j < i < new_ids.len() ==> new_ids[j] != new_ids[i]
}

/// A response fails only when it is a channel result whose new identities
/// collide with stored ones or with each other.
pub open spec fn ingest_fails(v: StoreView, msg: KafkaAnalysisResponseInner, ids: Seq<u128>) -> bool {
    match msg {
        KafkaAnalysisResponseInner::ChannelMetrics(c) => has_channel_id(v.channels, ids[0])
            || !segment_ids_fresh(v.segments, ids.subrange(1, c.segments@.len() + 1 as int)),
        _ => false,
    }
}

/// The store after a response for a known recording that does not fail.
pub open spec fn store_after(
    v: StoreView,
    id: u128,
    msg: KafkaAnalysisResponseInner,
    now: u64,
    ids: Seq<u128>,
) -> StoreView {
    let p = v.progress[id];
    match msg {
        KafkaAnalysisResponseInner::RecordingMetrics(m) => StoreView {
            progress: v.progress.insert(id, after_recording_metrics(p, now)),
            stats: v.stats.insert(id, m.metrics@),
            ..v
        },
        KafkaAnalysisResponseInner::ChannelMetrics(c) => StoreView {
            progress: v.progress.insert(id, after_channel_metrics(p, now)),
            channels: v.channels.push(
                ChannelRow { id: ids[0], recording: id, idx: c.idx, metrics: c.metrics },
            ),
            segments: v.segments + segment_rows(c.segments@, ids[0], ids),
            ..v
        },
        KafkaAnalysisResponseInner::ProgressMsg(m) => StoreView {
            progress: v.progress.insert(id, after_progress(p, m, now)),
            ..v
        },
        KafkaAnalysisResponseInner::ErrorMsg(e) => StoreView {
            progress: v.progress.insert(id, after_error(p, e, now)),
            ..v
        },
    }
}

/// The store after a response: unchanged when the recording is unknown or the
/// response fails, else as `store_after` says.
pub open spec fn ingested(
    v: StoreView,
    id: u128,
    msg: KafkaAnalysisResponseInner,
    now: u64,
    ids: Seq<u128>,
) -> StoreView {
    if !v.progress.contains_key(id) || ingest_fails(v, msg, ids) {
        v
    } else {
        store_after(v, id, msg, now, ids)
    }
}

/// What `ingest_response` reports for a response.
pub open spec fn ingest_result(
    v: StoreView,
    id: u128,
    msg: KafkaAnalysisResponseInner,
    ids: Seq<u128>,
) -> Result<IngestOutcome, StoreError> {
    if !v.progress.contains_key(id) {
        Ok(IngestOutcome::UnknownRecording)
    } else if ingest_fails(v, msg, ids) {
        Err(StoreError::DuplicateId)
    } else {
        Ok(IngestOutcome::Applied)
    }
}

/// Applying the same recording-level result twice, as a redelivery does,
/// leaves the store as applying it once.
pub proof fn lemma_recording_metrics_idempotent(
    v: StoreView,
    id: u128,
    m: RecordingMetrics,
    t1: u64,
    t2: u64,
    ids1: Seq<u128>,
    ids2: Seq<u128>,
)
    ensures
        ({
            let msg = KafkaAnalysisResponseInner::RecordingMetrics(m);
            ingested(ingested(v, id, msg, t1, ids1), id, msg, t2, ids2) == ingested(
                v,
                id,
                msg,
                t1,
                ids1,
            )
        }),
{
    let msg = KafkaAnalysisResponseInner::RecordingMetrics(m);
    if v.progress.contains_key(id) {
        let w = ingested(v, id, msg, t1, ids1);
        assert(is_terminal(w.progress[id].status));
        let w2 = ingested(w, id, msg, t2, ids2);
        assert(w2.progress =~= w.progress);
        assert(w2.stats =~= w.stats);
    }
}

/// In the store, a progress report never lowers a recording's stored percent.
pub proof fn lemma_store_progress_monotone(
    v: StoreView,
    id: u128,
    m: ProgressMsg,
    now: u64,
    ids: Seq<u128>,
)
    requires
        v.progress.contains_key(id),
    ensures
        ingested(v, id, KafkaAnalysisResponseInner::ProgressMsg(m), now, ids).progress.contains_key(id),
        percent_le(
            v.progress[id].percent,
            ingested(v, id, KafkaAnalysisResponseInner::ProgressMsg(m), now, ids).progress[id].percent,
        ),
{
    lemma_progress_step_monotone(v.progress[id], m, now);
}

/// A channel result is stored whole or not at all: either the store is
/// unchanged, or it gains exactly the one channel and, right after the
/// earlier segments, one segment of that channel for each segment of the
/// message.
pub proof fn lemma_channel_all_or_nothing(
    v: StoreView,
    id: u128,
    c: ChannelMetrics,
    now: u64,
    ids: Seq<u128>,
)
    ensures
        ({
            let w = ingested(v, id, KafkaAnalysisResponseInner::ChannelMetrics(c), now, ids);
            w == v || {
                &&& w.channels == v.channels.push(
                    ChannelRow { id: ids[0], recording: id, idx: c.idx, metrics: c.metrics },
                )
                &&& w.segments.len() == v.segments.len() + c.segments@.len()
                &&& w.segments.subrange(0, v.segments.len() as int) == v.segments
                &&& forall|i: int|
                    v.segments.len() <= i < w.segments.len() ==> (#[trigger] w.segments[i]).channel
                        == ids[0]
            }
        }),
{
    let msg = KafkaAnalysisResponseInner::ChannelMetrics(c);
    let w = ingested(v, id, msg, now, ids);
    if w != v {
        assert(w.segments.subrange(0, v.segments.len() as int) =~= v.segments);
        assert forall|i: int| v.segments.len() <= i < w.segments.len() implies (
        #[trigger] w.segments[i]).channel == ids[0] by {
            assert(w.segments[i] == segment_rows(c.segments@, ids[0], ids)[i - v.segments.len()]);
        }
    }
}

impl ResultStore {
    pub open spec fn wf(&self) -> bool {
        store_wf(self@)
    }

    /// An empty store.
    pub fn new() -> (r: ResultStore)
        ensures
            r.wf(),
            r@.progress == Map::<u128, ProgressView>::empty(),
            r@.stats == Map::<u128, Seq<MetricCollection>>::empty(),
            r@.channels.len() == 0,
            r@.segments.len() == 0,
    {
        let r = ResultStore {
            recordings: HashMap::new(),
            stats: HashMap::new(),
            channels: Vec::new(),
            segments: Vec::new(),
        };
        assert(r@.progress =~= Map::<u128, ProgressView>::empty());
        assert(r@.stats =~= Map::<u128, Seq<MetricCollection>>::empty());
        r
    }

    /// Records a submitted job as pending; a job that is already known keeps
    /// its state. Returns whether the job was new.
    pub fn register(&mut self, id: u128, now: u64) -> (r: bool)
        requires
            old(self).wf(),
        ensures
            final(self).wf(),
            r == !old(self)@.progress.contains_key(id),
            r ==> final(self)@ == (StoreView {
                progress: old(self)@.progress.insert(id, pending_view(now)),
                ..old(self)@
            }),
            !r ==> final(self)@ == old(self)@,
    {
        if self.recordings.contains_key(&id) {
            return false;
        }
        let ghost before = self@;
        self.recordings.insert(id, RecordingProgress::pending(now));
        assert(self@.progress =~= before.progress.insert(id, pending_view(now)));
        assert(self@.stats =~= before.stats);
        true
    }

    fn channel_exists(&self, id: u128) -> (r: bool)
        ensures
            r == has_channel_id(self@.channels, id),
    {
        let mut i: usize = 0;
        while i < self.channels.len()
            invariant
                i <= self.channels@.len(),
                forall|k: int| 0 <= k < i ==> self.channels@[k].id != id,
            decreases self.channels@.len() - i,
        {
            if self.channels[i].id == id {
                return true;
            }
            i = i + 1;
        }
        false
    }

    fn segment_exists(&self, id: u128) -> (r: bool)
        ensures
            r == has_segment_id(self@.segments, id),
    {
        let mut i: usize = 0;
        while i < self.segments.len()
            invariant
                i <= self.segments@.len(),
                forall|k: int| 0 <= k < i ==> self.segments@[k].id != id,
            decreases self.segments@.len() - i,
        {
            if self.segments[i].id == id {
                return true;
            }
            i = i + 1;
        }
        false
    }

    /// Inserts a channel and all of its segments as one transaction: either
    /// every row is stored, or (on an identity collision, found before or in
    /// the middle of the inserts) the inserts made so far are rolled back.
    fn insert_channel(&mut self, rec: u128, c: ChannelMetrics, ids: &Vec<u128>) -> (r: Result<
        (),
        StoreError,
    >)
        requires
            old(self).wf(),
            ids@.len() == c.segments@.len() + 1,
        ensures
            final(self).wf(),
            final(self).recordings == old(self).recordings,
            final(self).stats == old(self).stats,
            r.is_err() == (has_channel_id(old(self)@.channels, ids@[0]) || !segment_ids_fresh(
                old(self)@.segments,
                ids@.subrange(1, c.segments@.len() + 1 as int),
            )),
            r.is_err() ==> final(self)@ == old(self)@,
            r.is_ok() ==> final(self)@.channels == old(self)@.channels.push(
                ChannelRow { id: ids@[0], recording: rec, idx: c.idx, metrics: c.metrics },
            ),
            r.is_ok() ==> final(self)@.segments == old(self)@.segments + segment_rows(
                c.segments@,
                ids@[0],
                ids@,
            ),
    {
        let ghost old_view = self@;
        let ghost orig = c.segments@;
        let ghost new_ids = ids@.subrange(1, c.segments@.len() + 1 as int);
        let n_channels = self.channels.len();
        let n_segments = self.segments.len();
        let cid = ids[0];
        if self.channel_exists(cid) {
            return Err(StoreError::DuplicateId);
        }
        let n = c.segments.len();
        self.channels.push(ChannelRow { id: cid, recording: rec, idx: c.idx, metrics: c.metrics });
        assert forall|i: int, j: int|
            0 <= i < j < self.channels@.len() implies self.channels@[i].id
            != self.channels@[j].id by {
            if j == n_channels {
                assert(old_view.channels[i].id != cid);
            }
        }
        assert(self@.segments == old_view.segments);
        assert(self@.channels == old_view.channels.push(
            ChannelRow { id: cid, recording: rec, idx: c.idx, metrics: c.metrics },
        ));
        assert(segment_rows(orig.take(0), cid, ids@) =~= Seq::<SegmentRow>::empty());
        assert(old_view.segments + Seq::<SegmentRow>::empty() =~= old_view.segments);
        let mut segs = c.segments;
        let mut k: usize = 0;
        while k < n
            invariant
                n == orig.len(),
                ids@.len() == n + 1,
                cid == ids@[0],
                new_ids == ids@.subrange(1, n + 1 as int),
                k <= n,
                segs@ == orig.subrange(k as int, n as int),
                old_view == old(self)@,
                orig == c.segments@,
                n_channels == old_view.channels.len(),
                n_segments == old_view.segments.len(),
                self.channels@ == old_view.channels.push(
                    ChannelRow { id: cid, recording: rec, idx: c.idx, metrics: c.metrics },
                ),
                self.segments@ == old_view.segments + segment_rows(
                    orig.take(k as int),
                    cid,
                    ids@,
                ),
                self.recordings == old(self).recordings,
                self.stats == old(self).stats,
                store_wf(self@),
                store_wf(old_view),
                !has_channel_id(old_view.channels, cid),
                segment_ids_fresh(old_view.segments, new_ids.take(k as int)),
            decreases n - k,
        {
            let seg = segs.remove(0);
            let sid = ids[k + 1];
            if self.segment_exists(sid) {
                proof {
                    let w = choose|w: int| 0 <= w < self.segments@.len() && self.segments@[w].id == sid;
                    if w < n_segments {
                        assert(old_view.segments[w].id == sid);
                        assert(has_segment_id(old_view.segments, new_ids[k as int]));
                    } else {
                        let j = w - n_segments;
                        assert(self.segments@[w] == segment_rows(orig.take(k as int), cid, ids@)[j]);
                        assert(new_ids[j] == ids@[j + 1]);
                        assert(new_ids[j] == new_ids[k as int]);
                    }
                }
                self.channels.truncate(n_channels);
                self.segments.truncate(n_segments);
                assert(self.channels@ =~= old_view.channels);
                assert(self.segments@ =~= old_view.segments);
                assert(self@.progress =~= old_view.progress);
                assert(self@.stats =~= old_view.stats);
                assert(self@ == old_view);
                return Err(StoreError::DuplicateId);
            }
            let ghost before = self@;
            self.segments.push(
                SegmentRow {
                    id: sid,
                    channel: cid,
                    start: seg.start,
                    end: seg.end,
                    text: seg.text,
                    metrics: seg.metrics,
                },
            );
            proof {
                assert(segs@ =~= orig.subrange(k + 1, n as int));
                assert(self.segments@ =~= old_view.segments + segment_rows(
                    orig.take(k + 1),
                    cid,
                    ids@,
                ));
                assert(self@.channels == before.channels);
                assert forall|i: int, j: int|
                    0 <= i < j < self.segments@.len() implies self.segments@[i].id
                    != self.segments@[j].id by {
                    assert(self.segments@[i] == before.segments[i]);
                    if j == self.segments@.len() - 1 {
                        assert(self.segments@[i].id != sid);
                    } else {
                        assert(self.segments@[j] == before.segments[j]);
                    }
                }
                let t = new_ids.take(k + 1);
                assert forall|i: int| 0 <= i < t.len() implies !has_segment_id(
                    old_view.segments,
                    #[trigger] t[i],
                ) by {
                    if i < k {
                        assert(t[i] == new_ids.take(k as int)[i]);
                    } else {
                        assert(t[i] == sid);
                        if has_segment_id(old_view.segments, sid) {
                            let w = choose|w: int|
                                0 <= w < old_view.segments.len() && old_view.segments[w].id == sid;
                            assert(self.segments@[w].id == sid);
                        }
                    }
                }
                assert forall|i: int, j: int| 0 <= j < i < t.len() implies t[j] != t[i] by {
                    if i < k {
                        assert(t[i] == new_ids.take(k as int)[i]);
                        assert(t[j] == new_ids.take(k as int)[j]);
                    } else {
                        let w = n_segments + j;
                        assert(self.segments@[w].id == ids@[j + 1]);
                    }
                }
            }
            k = k + 1;
        }
        assert(orig.take(n as int) =~= orig);
        assert(new_ids.take(n as int) =~= new_ids);
        Ok(())
    }

    fn take_progress(&mut self, id: u128) -> (r: Option<RecordingProgress>)
        ensures
            final(self).stats == old(self).stats,
            final(self).channels == old(self).channels,
            final(self).segments == old(self).segments,
            final(self).recordings@ == old(self).recordings@.remove(id),
            old(self).wf() ==> final(self).wf(),
            r.is_some() == old(self).recordings@.contains_key(id),
            r matches Some(p) ==> p == old(self).recordings@[id],
    {
        let r = self.recordings.remove(&id);
        assert(self.recordings@ =~= old(self).recordings@.remove(id));
        assert(self@.channels == old(self)@.channels);
        assert(self@.segments == old(self)@.segments);
        r
    }

    fn put_progress(&mut self, id: u128, p: RecordingProgress)
        requires
            old(self).wf(),
        ensures
            final(self).wf(),
            final(self)@ == (StoreView {
                progress: old(self)@.progress.insert(id, p@),
                ..old(self)@
            }),
    {
        let ghost before = self@;
        self.recordings.insert(id, p);
        assert(self@.progress =~= before.progress.insert(id, p@));
        assert(self@.stats =~= before.stats);
    }

    /// Applies one response envelope to the store. A response whose
    /// correlation id names no known recording is skipped. Otherwise the
    /// response is applied by its kind: a recording-level result is stored
    /// (replacing an earlier one) and ends the job as done; a channel result
    /// stores the channel with all of its segments, `ids[0]` naming the channel
    /// and `ids[i + 1]` its segment `i`, all or nothing; a progress report
    /// moves the percent forward only; an error report ends the job in error.
    /// A job that has ended keeps its status.
    pub fn ingest_response(&mut self, env: KafkaAnalysisResponse, now: u64, ids: &Vec<u128>) -> (r:
        Result<IngestOutcome, StoreError>)
        requires
            old(self).wf(),
            ids@.len() == ids_needed(env.data),
        ensures
            final(self).wf(),
            final(self)@ == ingested(old(self)@, env.id, env.data, now, ids@),
            r == ingest_result(old(self)@, env.id, env.data, ids@),
    {
        let ghost v = self@;
        let id = env.id;
        if !self.recordings.contains_key(&id) {
            return Ok(IngestOutcome::UnknownRecording);
        }
        match env.data {
            KafkaAnalysisResponseInner::RecordingMetrics(m) => {
                let ghost mv = m.metrics@;
                let p = match self.take_progress(id) {
                    Some(p) => p,
                    None => return Ok(IngestOutcome::UnknownRecording),
                };
                let ghost pv = p@;
                self.put_progress(id, p.on_recording_metrics(now));
                let ghost mid = self@;
                self.stats.insert(id, m.metrics);
                assert(self@.stats =~= mid.stats.insert(id, mv));
                assert(self@.progress =~= mid.progress);
                assert(self@.progress =~= v.progress.insert(id, after_recording_metrics(pv, now)));
            },
            KafkaAnalysisResponseInner::ChannelMetrics(c) => {
                match self.insert_channel(id, c, ids) {
                    Ok(()) => {},
                    Err(e) => return Err(e),
                }
                let ghost mid = self@;
                assert(mid.progress =~= v.progress);
                assert(mid.stats =~= v.stats);
                let p = match self.take_progress(id) {
                    Some(p) => p,
                    None => return Ok(IngestOutcome::UnknownRecording),
                };
                let ghost pv = p@;
                self.put_progress(id, p.on_channel_metrics(now));
                assert(self@.progress =~= v.progress.insert(id, after_channel_metrics(pv, now)));
            },
            KafkaAnalysisResponseInner::ProgressMsg(m) => {
                let p = match self.take_progress(id) {
                    Some(p) => p,
                    None => return Ok(IngestOutcome::UnknownRecording),
                };
                let ghost pv = p@;
                let ghost mm = m;
                self.put_progress(id, p.on_progress(m, now));
                assert(self@.progress =~= v.progress.insert(id, after_progress(pv, mm, now)));
            },
            KafkaAnalysisResponseInner::ErrorMsg(e) => {
                let p = match self.take_progress(id) {
                    Some(p) => p,
                    None => return Ok(IngestOutcome::UnknownRecording),
                };
                let ghost pv = p@;
                let ghost ee = e;
                self.put_progress(id, p.on_error(e, now));
                assert(self@.progress =~= v.progress.insert(id, after_error(pv, ee, now)));
            },
        }
        Ok(IngestOutcome::Applied)
    }

    /// Applies one response envelope as `ingest_response` does, drawing a
    /// fresh random identity for a new channel and for each of its segments.
    pub fn ingest(&mut self, env: KafkaAnalysisResponse, now: u64) -> (r: Result<
        IngestOutcome,
        StoreError,
    >)
        requires
            old(self).wf(),
        ensures
            final(self).wf(),
            exists|ids: Seq<u128>|
                ids.len() == ids_needed(env.data) && final(self)@ == #[trigger] ingested(
                    old(self)@,
                    env.id,
                    env.data,
                    now,
                    ids,
                ) && r == ingest_result(old(self)@, env.id, env.data, ids),
    {
        let mut ids: Vec<u128> = Vec::new();
        match &env.data {
            KafkaAnalysisResponseInner::ChannelMetrics(c) => {
                ids.push(fresh_id());
                let n = c.segments.len();
                let mut k: usize = 0;
                while k < n
                    invariant
                        n == c.segments@.len(),
                        k <= n,
                        ids@.len() == k + 1,
                    decreases n - k,
                {
                    ids.push(fresh_id());
                    k = k + 1;
                }
            },
            _ => {},
        }
        let ghost data = env.data;
        let ghost id = env.id;
        let ghost v = self@;
        let r = self.ingest_response(env, now, &ids);
        assert(self@ == ingested(v, id, data, now, ids@));
        r
    }
}

} // verus!
