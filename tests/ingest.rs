use analysis_ingest::messages::{
    build_request, ChannelMetrics, ErrorMsg, KafkaAnalysisResponseInner, KafkaEnvelope,
    ProgressMsg, RecordingMetrics, Segment,
};
use analysis_ingest::metrics::{Metric, MetricCollection};
use analysis_ingest::progress::{AnalysisStatus, RecordingProgress};
use analysis_ingest::store::{IngestOutcome, ResultStore, StoreError};

const REC: u128 = 0x1234;

fn progress(p: Option<i32>) -> KafkaAnalysisResponseInner {
    KafkaAnalysisResponseInner::ProgressMsg(ProgressMsg {
        percent_done: p,
        channel: None,
        description: None,
    })
}

fn env(data: KafkaAnalysisResponseInner) -> KafkaEnvelope<KafkaAnalysisResponseInner> {
    KafkaEnvelope { id: REC, data }
}

fn segment(text: &str) -> Segment {
    Segment { start: 0.0f32.to_bits(), end: 1.0f32.to_bits(), text: text.to_string(), metrics: vec![] }
}

fn stats() -> Vec<MetricCollection> {
    vec![MetricCollection {
        provider: "p".to_string(),
        metrics: vec![Metric::Int {
            name: "n".to_string(),
            value: Some(3),
            description: None,
            unit: None,
        }],
        description: None,
    }]
}

fn store_with_job() -> ResultStore {
    let mut s = ResultStore::new();
    assert!(s.register(REC, 1));
    s
}

fn status(s: &ResultStore) -> (AnalysisStatus, Option<i32>) {
    let p: &RecordingProgress = s.recordings.get(&REC).unwrap();
    (p.status, p.percent)
}

#[test]
fn end_to_end_progress_channel_recording() {
    let req = build_request(REC, "https://x/a.wav".to_string(), None, None);
    assert_eq!(req.id, REC);
    assert_eq!(req.data.download_url, "https://x/a.wav");
    let mut s = store_with_job();
    assert_eq!(status(&s), (AnalysisStatus::Pending, None));

    assert_eq!(s.ingest(env(progress(Some(40))), 2), Ok(IngestOutcome::Applied));
    assert_eq!(status(&s), (AnalysisStatus::Running, Some(40)));

    assert_eq!(s.ingest(env(progress(Some(20))), 3), Ok(IngestOutcome::Applied));
    assert_eq!(status(&s), (AnalysisStatus::Running, Some(40)));

    let ch = ChannelMetrics { idx: 0, segments: vec![segment("hi")], metrics: vec![] };
    assert_eq!(
        s.ingest(env(KafkaAnalysisResponseInner::ChannelMetrics(ch)), 4),
        Ok(IngestOutcome::Applied)
    );
    assert_eq!(s.channels.len(), 1);
    assert_eq!(s.segments.len(), 1);
    assert_eq!(s.channels[0].recording, REC);
    assert_eq!(s.channels[0].idx, 0);
    assert_eq!(s.segments[0].channel, s.channels[0].id);
    assert_eq!(s.segments[0].text, "hi");
    assert_eq!(f32::from_bits(s.segments[0].end), 1.0);
    assert_eq!(status(&s), (AnalysisStatus::Running, Some(40)));

    let rm = RecordingMetrics { metrics: vec![] };
    assert_eq!(
        s.ingest(env(KafkaAnalysisResponseInner::RecordingMetrics(rm)), 5),
        Ok(IngestOutcome::Applied)
    );
    assert_eq!(status(&s), (AnalysisStatus::Done, Some(100)));
}

#[test]
fn progress_never_regresses_out_of_order() {
    let mut s = store_with_job();
    for (i, p) in [10, 50, 30, 50, 49, 70, 0].iter().enumerate() {
        let before = status(&s).1;
        s.ingest(env(progress(Some(*p))), i as u64).unwrap();
        let after = status(&s).1;
        assert!(after >= before);
    }
    assert_eq!(status(&s), (AnalysisStatus::Running, Some(70)));
    s.ingest(env(progress(None)), 9).unwrap();
    assert_eq!(status(&s), (AnalysisStatus::Running, Some(70)));
}

#[test]
fn progress_fields_are_stored() {
    let mut s = store_with_job();
    let m = ProgressMsg { percent_done: Some(5), channel: Some(1), description: Some("vad".to_string()) };
    s.ingest(env(KafkaAnalysisResponseInner::ProgressMsg(m)), 7).unwrap();
    let p = s.recordings.get(&REC).unwrap();
    assert_eq!(p.channel, Some(1));
    assert_eq!(p.description.as_deref(), Some("vad"));
    assert_eq!(p.last_update, 7);
}

#[test]
fn progress_of_hundred_is_done_and_terminal() {
    let mut s = store_with_job();
    s.ingest(env(progress(Some(100))), 2).unwrap();
    assert_eq!(status(&s), (AnalysisStatus::Done, Some(100)));
    s.ingest(env(progress(Some(100))), 3).unwrap();
    let err = ErrorMsg { error: "late".to_string(), trace: "t".to_string() };
    s.ingest(env(KafkaAnalysisResponseInner::ErrorMsg(err)), 4).unwrap();
    assert_eq!(status(&s), (AnalysisStatus::Done, Some(100)));
    assert_eq!(s.recordings.get(&REC).unwrap().error, None);
    assert_eq!(s.recordings.get(&REC).unwrap().last_update, 2);
}

#[test]
fn recording_metrics_redelivery_is_idempotent() {
    let mut s = store_with_job();
    s.ingest(env(progress(Some(30))), 2).unwrap();
    let m = RecordingMetrics { metrics: stats() };
    s.ingest(env(KafkaAnalysisResponseInner::RecordingMetrics(m.clone())), 3).unwrap();
    let once_progress = format!("{:?}", s.recordings.get(&REC).unwrap());
    let once_stats = format!("{:?}", s.stats.get(&REC).unwrap());
    s.ingest(env(KafkaAnalysisResponseInner::RecordingMetrics(m)), 9).unwrap();
    assert_eq!(format!("{:?}", s.recordings.get(&REC).unwrap()), once_progress);
    assert_eq!(format!("{:?}", s.stats.get(&REC).unwrap()), once_stats);
    assert_eq!(s.stats.len(), 1);
    assert_eq!(status(&s), (AnalysisStatus::Done, Some(100)));
}

#[test]
fn channel_insert_rolls_back_on_mid_insert_failure() {
    let mut s = store_with_job();
    let first = ChannelMetrics { idx: 0, segments: vec![segment("a")], metrics: vec![] };
    let r = s.ingest_response(env(KafkaAnalysisResponseInner::ChannelMetrics(first)), 2, &vec![10, 11]);
    assert_eq!(r, Ok(IngestOutcome::Applied));
    let ch = ChannelMetrics { idx: 1, segments: vec![segment("b"), segment("c"), segment("d")], metrics: vec![] };
    let r = s.ingest_response(env(KafkaAnalysisResponseInner::ChannelMetrics(ch)), 3, &vec![20, 21, 11, 22]);
    assert_eq!(r, Err(StoreError::DuplicateId));
    assert_eq!(s.channels.len(), 1);
    assert_eq!(s.segments.len(), 1);
    assert_eq!(s.segments[0].id, 11);
    assert_eq!(s.recordings.get(&REC).unwrap().last_update, 2);
}

#[test]
fn channel_insert_rejects_repeated_ids_in_one_message() {
    let mut s = store_with_job();
    let ch = ChannelMetrics { idx: 0, segments: vec![segment("a"), segment("b")], metrics: vec![] };
    let r = s.ingest_response(env(KafkaAnalysisResponseInner::ChannelMetrics(ch)), 3, &vec![1, 2, 2]);
    assert_eq!(r, Err(StoreError::DuplicateId));
    assert_eq!(s.channels.len(), 0);
    assert_eq!(s.segments.len(), 0);
    let ch = ChannelMetrics { idx: 0, segments: vec![], metrics: vec![] };
    let r = s.ingest_response(env(KafkaAnalysisResponseInner::ChannelMetrics(ch)), 3, &vec![1]);
    assert_eq!(r, Ok(IngestOutcome::Applied));
    let ch = ChannelMetrics { idx: 1, segments: vec![], metrics: vec![] };
    let r = s.ingest_response(env(KafkaAnalysisResponseInner::ChannelMetrics(ch)), 4, &vec![1]);
    assert_eq!(r, Err(StoreError::DuplicateId));
    assert_eq!(s.channels.len(), 1);
}

#[test]
fn channel_with_segments_is_stored_whole() {
    let mut s = store_with_job();
    let ch = ChannelMetrics { idx: 2, segments: vec![segment("a"), segment("b"), segment("c")], metrics: stats() };
    s.ingest_response(env(KafkaAnalysisResponseInner::ChannelMetrics(ch)), 3, &vec![7, 8, 9, 10]).unwrap();
    assert_eq!(s.channels.len(), 1);
    assert_eq!(s.channels[0].id, 7);
    assert_eq!(s.channels[0].metrics.len(), 1);
    let texts: Vec<&str> = s.segments.iter().map(|x| x.text.as_str()).collect();
    assert_eq!(texts, vec!["a", "b", "c"]);
    let ids: Vec<u128> = s.segments.iter().map(|x| x.id).collect();
    assert_eq!(ids, vec![8, 9, 10]);
    assert!(s.segments.iter().all(|x| x.channel == 7));
    assert_eq!(status(&s).0, AnalysisStatus::Running);
}

#[test]
fn fresh_ids_are_random_version_four() {
    let mut s = store_with_job();
    for i in 0..2 {
        let ch = ChannelMetrics { idx: i, segments: vec![segment("x")], metrics: vec![] };
        s.ingest(env(KafkaAnalysisResponseInner::ChannelMetrics(ch)), 2).unwrap();
    }
    assert_eq!(s.channels.len(), 2);
    assert_ne!(s.channels[0].id, s.channels[1].id);
    assert_ne!(s.channels[0].id, 0);
    for c in &s.channels {
        assert_eq!((c.id >> 76) & 0xf, 4);
    }
}

#[test]
fn error_after_progress_sets_error() {
    let mut s = store_with_job();
    s.ingest(env(progress(Some(80))), 2).unwrap();
    let err = ErrorMsg { error: "boom".to_string(), trace: "at x".to_string() };
    s.ingest(env(KafkaAnalysisResponseInner::ErrorMsg(err)), 3).unwrap();
    let p = s.recordings.get(&REC).unwrap();
    assert_eq!(p.status, AnalysisStatus::Error);
    assert_eq!(p.error.as_deref(), Some("boom\nat x"));
    assert_eq!(p.percent, Some(80));
    s.ingest(env(progress(Some(90))), 4).unwrap();
    assert_eq!(status(&s), (AnalysisStatus::Error, Some(80)));
}

#[test]
fn unknown_recording_is_skipped() {
    let mut s = store_with_job();
    let e = KafkaEnvelope { id: 99, data: progress(Some(10)) };
    assert_eq!(s.ingest(e, 2), Ok(IngestOutcome::UnknownRecording));
    assert_eq!(s.recordings.len(), 1);
    assert!(s.recordings.get(&99).is_none());
    assert_eq!(status(&s), (AnalysisStatus::Pending, None));
}

#[test]
fn register_keeps_existing_job() {
    let mut s = store_with_job();
    s.ingest(env(progress(Some(10))), 2).unwrap();
    assert!(!s.register(REC, 5));
    assert_eq!(status(&s), (AnalysisStatus::Running, Some(10)));
}
