use vstd::prelude::*;
use crate::metrics::MetricCollection;

verus! {

/// A correlation id (a UUID as its 128-bit value) and a payload; the unit that
/// crosses the work-distribution boundary, for requests and responses alike.
#[derive(Debug, Clone)]
pub struct KafkaEnvelope<T> {
    pub id: u128,
    pub data: T,
}

/// The work to do for one recording.
#[derive(Debug, Clone)]
pub struct AnalysisRequestInner {
    pub download_url: String,
    pub transcript_url: Option<String>,
    pub force_diarize: Option<bool>,
}

pub type AnalysisRequest = KafkaEnvelope<AnalysisRequestInner>;

/// One transcribed stretch of a channel. `start` and `end` are seconds, each
/// an IEEE-754 single-precision bit pattern.
#[derive(Debug, Clone)]
pub struct Segment {
    pub start: u32,
    pub end: u32,
    pub text: String,
    pub metrics: Vec<MetricCollection>,
}

/// The result for one channel of a recording, with all of its segments.
#[derive(Debug, Clone)]
pub struct ChannelMetrics {
    pub idx: i32,
    pub segments: Vec<Segment>,
    pub metrics: Vec<MetricCollection>,
}

/// How far the analysis of a recording has come.
#[derive(Debug, Clone)]
pub struct ProgressMsg {
    pub percent_done: Option<i32>,
    pub channel: Option<i32>,
    pub description: Option<String>,
}

/// The recording-level result; the terminal success signal of a job.
#[derive(Debug, Clone)]
pub struct RecordingMetrics {
    pub metrics: Vec<MetricCollection>,
}

/// The analysis of a recording failed.
#[derive(Debug, Clone)]
pub struct ErrorMsg {
    pub error: String,
    pub trace: String,
}

/// A response payload; exactly one kind per message, named by its wire tag.
#[derive(Debug, Clone)]
pub enum KafkaAnalysisResponseInner {
    RecordingMetrics(RecordingMetrics),
    ChannelMetrics(ChannelMetrics),
    ProgressMsg(ProgressMsg),
    ErrorMsg(ErrorMsg),
}

pub type KafkaAnalysisResponse = KafkaEnvelope<KafkaAnalysisResponseInner>;

/// Builds the request envelope for a recording job from its identifier and
/// the resolved, fetchable locations of its audio and optional transcript.
pub fn build_request(
    rec_id: u128,
    download_url: String,
    transcript_url: Option<String>,
    force_diarize: Option<bool>,
) -> (r: AnalysisRequest)
    ensures
        r.id == rec_id,
        r.data.download_url == download_url,
        r.data.transcript_url == transcript_url,
        r.data.force_diarize == force_diarize,
{
    KafkaEnvelope {
        id: rec_id,
        data: AnalysisRequestInner { download_url, transcript_url, force_diarize },
    }
}

} // verus!
