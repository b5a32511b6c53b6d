//! Streaming segmentation of an audio signal into spans of speech.
//!
//! A sample is carried as the 32-bit pattern of an IEEE 754 binary32 number,
//! so the library can compare amplitudes without any arithmetic on the
//! numbers themselves: for two patterns with a clear sign bit that are not
//! NaN, the numeric order is the order of the patterns read as integers.

use vstd::prelude::*;
use crate::clock::{fresh_id, now_millis, ID_LEN};
use crate::error::{AppError, AppResult};

verus! {

/// Mask that clears the sign bit of a sample, leaving its magnitude.
pub const MAGNITUDE_MASK: u32 = 0x7fff_ffff;

/// Pattern of positive infinity; every larger magnitude is a NaN.
pub const INFINITY_BITS: u32 = 0x7f80_0000;

/// Pattern of the default silence threshold, one hundredth of full scale.
pub const DEFAULT_SILENCE_THRESHOLD: u32 = 0x3c23_d70a;

/// Shortest run of silence, in milliseconds, that a segmenter can be asked
/// to wait for.
pub const MIN_SILENCE_FLOOR_MS: u32 = 100;

/// Shortest maximum segment duration, in milliseconds.
pub const MAX_SEGMENT_FLOOR_MS: u32 = 1000;

/// The sample with its sign bit cleared.
pub open spec fn magnitude(sample: u32) -> u32 {
    sample & MAGNITUDE_MASK
}

/// Whether the amplitude of `sample` lies strictly below `threshold`.
///
/// A threshold that is negative (minus zero included) or NaN is above no
/// amplitude; a NaN sample is below no threshold.
pub open spec fn is_quiet(sample: u32, threshold: u32) -> bool {
    threshold <= INFINITY_BITS && magnitude(sample) < threshold
}

/// Number of consecutive quiet samples at the end of `buffer`.
pub open spec fn quiet_tail(buffer: Seq<u32>, threshold: u32) -> nat
    decreases buffer.len(),
{
    if buffer.len() > 0 && is_quiet(buffer.last(), threshold) {
        1 + quiet_tail(buffer.drop_last(), threshold)
    } else {
        0
    }
}

/// The parameters that decide where a segment ends.
#[derive(Clone, Copy, Debug, PartialEq, Eq, Structural)]
pub struct CutRule {
    /// Samples per second.
    pub sample_rate: u32,
    /// Amplitude below which a sample counts as silence.
    pub silence_threshold: u32,
    /// Length of the silent run that ends a segment.
    pub min_silence_samples: usize,
    /// Length at which a segment ends whatever it holds.
    pub max_segment_samples: usize,
}

/// Whether `buffer`, taken just after a sample was appended, has to be cut:
/// it has reached the maximum length, or it ends in enough silence and is
/// longer than half a second.
pub open spec fn must_cut(rule: CutRule, buffer: Seq<u32>) -> bool {
    ||| buffer.len() >= rule.max_segment_samples
    ||| (quiet_tail(buffer, rule.silence_threshold) >= rule.min_silence_samples
        && buffer.len() > rule.sample_rate / 2)
}

/// `buffer` without its trailing run of silence.
pub open spec fn speech_part(buffer: Seq<u32>, threshold: u32) -> Seq<u32> {
    buffer.take(buffer.len() - quiet_tail(buffer, threshold))
}

/// What a cut of `buffer` hands out: its speech part, unless that is empty.
pub open spec fn cut_of(buffer: Seq<u32>, threshold: u32) -> Option<Seq<u32>> {
    if speech_part(buffer, threshold).len() > 0 {
        Some(speech_part(buffer, threshold))
    } else {
        None
    }
}

/// The buffer after `sample` was pushed onto `buffer`.
pub open spec fn buffer_after(rule: CutRule, buffer: Seq<u32>, sample: u32) -> Seq<u32> {
    if must_cut(rule, buffer.push(sample)) {
        Seq::empty()
    } else {
        buffer.push(sample)
    }
}

/// The samples of the segment that pushing `sample` onto `buffer` emits.
pub open spec fn emitted_by(rule: CutRule, buffer: Seq<u32>, sample: u32) -> Option<Seq<u32>> {
    if must_cut(rule, buffer.push(sample)) {
        cut_of(buffer.push(sample), rule.silence_threshold)
    } else {
        None
    }
}

/// The buffer after all of `samples` were pushed, in order, onto `buffer`.
pub open spec fn buffer_after_all(rule: CutRule, buffer: Seq<u32>, samples: Seq<u32>) -> Seq<u32>
    decreases samples.len(),
{
    if samples.len() == 0 {
        buffer
    } else {
        buffer_after(rule, buffer_after_all(rule, buffer, samples.drop_last()), samples.last())
    }
}

/// The samples of every segment emitted while `samples` were pushed, in
/// order, onto `buffer`.
pub open spec fn emitted_by_all(rule: CutRule, buffer: Seq<u32>, samples: Seq<u32>) -> Seq<
    Seq<u32>,
>
    decreases samples.len(),
{
    if samples.len() == 0 {
        Seq::empty()
    } else {
        let earlier = emitted_by_all(rule, buffer, samples.drop_last());
        let held = buffer_after_all(rule, buffer, samples.drop_last());
        match emitted_by(rule, held, samples.last()) {
            Some(segment) => earlier.push(segment),
            None => earlier,
        }
    }
}

/// Whether `buffer` is cut at least once while `samples` are pushed onto it.
pub open spec fn cut_during(rule: CutRule, buffer: Seq<u32>, samples: Seq<u32>) -> bool
    decreases samples.len(),
{
    samples.len() > 0 && (cut_during(rule, buffer, samples.drop_last()) || must_cut(
        rule,
        buffer_after_all(rule, buffer, samples.drop_last()).push(samples.last()),
    ))
}

/// The samples of the segment that the first cut emits while `samples` are
/// pushed onto `buffer`: none where `buffer` is not cut, or where its first
/// cut finds nothing but silence.
pub open spec fn first_cut(rule: CutRule, buffer: Seq<u32>, samples: Seq<u32>) -> Option<
    Seq<u32>,
>
    decreases samples.len(),
{
    if samples.len() == 0 {
        None
    } else if cut_during(rule, buffer, samples.drop_last()) {
        first_cut(rule, buffer, samples.drop_last())
    } else {
        emitted_by(
            rule,
            buffer_after_all(rule, buffer, samples.drop_last()),
            samples.last(),
        )
    }
}

/// Duration of `len` samples at `rate` samples per second, in whole
/// milliseconds, rounded down and capped at the largest `u64`. At a rate of
/// zero the duration is the cap.
pub open spec fn duration_millis(len: nat, rate: u32) -> u64 {
    if rate == 0 || len * 1000 / (rate as nat) > u64::MAX {
        u64::MAX
    } else {
        (len * 1000 / (rate as nat)) as u64
    }
}

/// Number of samples in `millis` milliseconds at `rate` samples per second,
/// rounded to the nearest sample, where `millis` counts as at least
/// `floor_millis`. The count is capped at the largest `usize`.
pub open spec fn samples_in(millis: u32, floor_millis: u32, rate: u32) -> usize {
    let held = if millis < floor_millis { floor_millis } else { millis };
    let count = (held as nat * rate as nat + 500) / 1000;
    if count > usize::MAX {
        usize::MAX
    } else {
        count as usize
    }
}

/// The rule a segmenter follows for the given rate, threshold and the two
/// durations in milliseconds.
pub open spec fn cut_rule(
    sample_rate: u32,
    silence_threshold: u32,
    min_silence_ms: u32,
    max_segment_ms: u32,
) -> CutRule {
    CutRule {
        sample_rate,
        silence_threshold,
        min_silence_samples: samples_in(min_silence_ms, MIN_SILENCE_FLOOR_MS, sample_rate),
        max_segment_samples: samples_in(max_segment_ms, MAX_SEGMENT_FLOOR_MS, sample_rate),
    }
}

/// Decides whether a sample is silence under a threshold.
pub fn quiet(sample: u32, threshold: u32) -> (q: bool)
    ensures
        q == is_quiet(sample, threshold),
{
    threshold <= INFINITY_BITS && (sample & MAGNITUDE_MASK) < threshold
}

/// Computes [`duration_millis`].
pub fn duration_of(len: usize, rate: u32) -> (ms: u64)
    ensures
        ms == duration_millis(len as nat, rate),
{
    if rate == 0 {
        return u64::MAX;
    }
    let scaled: u128 = (len as u128) * 1000;
    let whole: u128 = scaled / (rate as u128);
    if whole > u64::MAX as u128 {
        u64::MAX
    } else {
        whole as u64
    }
}

/// Computes [`samples_in`].
pub fn sample_count(millis: u32, floor_millis: u32, rate: u32) -> (count: usize)
    ensures
        count == samples_in(millis, floor_millis, rate),
{
    let held: u32 = if millis < floor_millis {
        floor_millis
    } else {
        millis
    };
    assert(held as nat * rate as nat <= 0xffff_ffff * 0xffff_ffff) by (nonlinear_arith)
        requires
            held <= 0xffff_ffff,
            rate <= 0xffff_ffff,
    ;
    let total: u64 = (held as u64) * (rate as u64) + 500;
    let count: u64 = total / 1000;
    if count > usize::MAX as u64 {
        usize::MAX
    } else {
        count as usize
    }
}

/// Capture settings: how silence is recognised and how long a segment may
/// grow.
#[derive(Clone, Copy, Debug, PartialEq, Eq, Structural)]
pub struct RecorderConfig {
    /// Amplitude below which a sample counts as silence.
    pub silence_threshold: u32,
    /// Silence, in milliseconds, that ends a segment.
    pub min_silence_ms: u32,
    /// Longest segment, in milliseconds.
    pub max_segment_ms: u32,
    /// Sample rate to ask the input device for, if any.
    pub preferred_sample_rate: Option<u32>,
}

impl RecorderConfig {
    /// The settings used when nothing else is configured: a threshold of one
    /// hundredth of full scale, 0.9 s of silence, segments of at most 12 s,
    /// and the device's own sample rate.
    pub fn with_defaults() -> (config: Self)
        ensures
            config == (RecorderConfig {
                silence_threshold: DEFAULT_SILENCE_THRESHOLD,
                min_silence_ms: 900,
                max_segment_ms: 12_000,
                preferred_sample_rate: None,
            }),
    {
        RecorderConfig {
            silence_threshold: DEFAULT_SILENCE_THRESHOLD,
            min_silence_ms: 900,
            max_segment_ms: 12_000,
            preferred_sample_rate: None,
        }
    }
}

/// The sample rate to capture at: the preferred one where there is one,
/// else the device's own.
pub fn negotiated_rate(preferred: Option<u32>, device_default: u32) -> (rate: u32)
    ensures
        rate == match preferred {
            Some(asked) => asked,
            None => device_default,
        },
{
    match preferred {
        Some(asked) => asked,
        None => device_default,
    }
}

/// A finished span of speech that has not been given an identifier yet.
#[derive(Debug)]
pub struct SegmentCut {
    /// The samples, trailing silence removed; never empty.
    pub samples: Vec<u32>,
    /// Samples per second.
    pub sample_rate: u32,
    /// Time at which the first sample arrived, in milliseconds since the
    /// Unix epoch.
    pub started_at: i64,
    /// Duration of `samples` in milliseconds.
    pub duration_ms: u64,
}

/// A span of speech on its way to recognition.
#[derive(Debug)]
pub struct AudioSegment {
    /// Identifier of the segment.
    pub id: String,
    /// The samples, trailing silence removed; never empty.
    pub samples: Vec<u32>,
    /// Samples per second.
    pub sample_rate: u32,
    /// Time at which the first sample arrived, in milliseconds since the
    /// Unix epoch.
    pub started_at: i64,
    /// Duration of `samples` in milliseconds.
    pub duration_ms: u64,
}

impl SegmentCut {
    /// Whether the cut holds `samples`, recorded at `rate` from `started_at`
    /// on, with the duration that follows from the two.
    pub open spec fn holds(&self, samples: Seq<u32>, rate: u32, started_at: i64) -> bool {
        &&& self.samples@ == samples
        &&& self.sample_rate == rate
        &&& self.started_at == started_at
        &&& self.duration_ms == duration_millis(samples.len(), rate)
    }

    /// Names the cut, which makes it a segment.
    pub fn into_segment(self, id: String) -> (segment: AudioSegment)
        ensures
            segment.id == id,
            segment.samples == self.samples,
            segment.sample_rate == self.sample_rate,
            segment.started_at == self.started_at,
            segment.duration_ms == self.duration_ms,
    {
        AudioSegment {
            id,
            samples: self.samples,
            sample_rate: self.sample_rate,
            started_at: self.started_at,
            duration_ms: self.duration_ms,
        }
    }
}

impl Clone for AudioSegment {
    fn clone(&self) -> (copy: Self)
        ensures
            copy.id == self.id,
            copy.samples@ == self.samples@,
            copy.sample_rate == self.sample_rate,
            copy.started_at == self.started_at,
            copy.duration_ms == self.duration_ms,
    {
        let samples = self.samples.clone();
        assert(samples@ =~= self.samples@);
        AudioSegment {
            id: self.id.clone(),
            samples,
            sample_rate: self.sample_rate,
            started_at: self.started_at,
            duration_ms: self.duration_ms,
        }
    }
}

impl AudioSegment {
    /// Whether the segment holds `samples`, recorded at `rate`, with the
    /// duration that follows from the two.
    pub open spec fn carries(&self, samples: Seq<u32>, rate: u32) -> bool {
        &&& self.samples@ == samples
        &&& self.sample_rate == rate
        &&& self.duration_ms == duration_millis(samples.len(), rate)
    }
}

/// The samples of each segment in `segments`, in order.
pub open spec fn samples_of(segments: Seq<AudioSegment>) -> Seq<Seq<u32>> {
    Seq::new(segments.len(), |i: int| segments[i].samples@)
}

/// Splits a stream of samples into segments, one sample at a time.
pub struct Segmenter {
    rule: CutRule,
    current: Vec<u32>,
    silence_run: usize,
    current_started_at: Option<i64>,
}

impl Segmenter {
    /// The rule the segmenter cuts by.
    pub closed spec fn rule(&self) -> CutRule {
        self.rule
    }

    /// The samples buffered since the last cut.
    pub closed spec fn buffer(&self) -> Seq<u32> {
        self.current@
    }

    /// Arrival time of the first buffered sample.
    pub closed spec fn started_at(&self) -> Option<i64> {
        self.current_started_at
    }

    /// The consistency that every segmenter keeps: its count of trailing
    /// silence is that of the buffer, a start time is held exactly while the
    /// buffer is not empty, and a buffer that is not empty is one that did
    /// not have to be cut.
    pub closed spec fn wf(&self) -> bool {
        &&& self.silence_run == quiet_tail(self.current@, self.rule.silence_threshold)
        &&& (self.current_started_at is Some <==> self.current@.len() > 0)
        &&& (self.current@.len() > 0 ==> !must_cut(self.rule, self.current@))
    }

    /// What [`Segmenter::wf`] says, over the public view of the segmenter.
    pub proof fn lemma_wf(&self)
        requires
            self.wf(),
        ensures
            self.started_at() is Some <==> self.buffer().len() > 0,
            self.buffer().len() > 0 ==> !must_cut(self.rule(), self.buffer()),
            self.buffer().len() > 0 ==> self.buffer().len() < self.rule().max_segment_samples,
    {
    }

    /// A segmenter with an empty buffer that cuts by `rule`.
    pub fn with_rule(rule: CutRule) -> (segmenter: Self)
        ensures
            segmenter.wf(),
            segmenter.rule() == rule,
            segmenter.buffer() == Seq::<u32>::empty(),
            segmenter.started_at() is None,
    {
        Segmenter { rule, current: Vec::new(), silence_run: 0, current_started_at: None }
    }

    /// A segmenter with an empty buffer for a stream of `sample_rate` samples
    /// per second. Silence of `min_silence_ms` (at least 100 ms) after more
    /// than half a second of audio ends a segment, and so does reaching
    /// `max_segment_ms` (at least 1 s).
    pub fn new(
        sample_rate: u32,
        silence_threshold: u32,
        min_silence_ms: u32,
        max_segment_ms: u32,
    ) -> (segmenter: Self)
        ensures
            segmenter.wf(),
            segmenter.rule() == cut_rule(
                sample_rate,
                silence_threshold,
                min_silence_ms,
                max_segment_ms,
            ),
            segmenter.buffer() == Seq::<u32>::empty(),
            segmenter.started_at() is None,
    {
        let rule = CutRule {
            sample_rate,
            silence_threshold,
            min_silence_samples: sample_count(min_silence_ms, MIN_SILENCE_FLOOR_MS, sample_rate),
            max_segment_samples: sample_count(max_segment_ms, MAX_SEGMENT_FLOOR_MS, sample_rate),
        };
        Segmenter::with_rule(rule)
    }

    /// The rule the segmenter cuts by.
    pub fn cut_rule(&self) -> (rule: CutRule)
        ensures
            rule == self.rule(),
    {
        self.rule
    }

    /// Number of samples buffered since the last cut.
    pub fn buffered_len(&self) -> (len: usize)
        ensures
            len == self.buffer().len(),
    {
        self.current.len()
    }

    /// Number of consecutive silent samples at the end of the buffer.
    pub fn silence_run(&self) -> (run: usize)
        requires
            self.wf(),
        ensures
            run == quiet_tail(self.buffer(), self.rule().silence_threshold),
    {
        self.silence_run
    }

    /// Arrival time of the first buffered sample, if the buffer holds any.
    pub fn buffer_started_at(&self) -> (at: Option<i64>)
        ensures
            at == self.started_at(),
    {
        self.current_started_at
    }

    /// Cuts the buffer: empties it and hands out its speech part, if any.
    fn split_current(&mut self) -> (cut: Option<SegmentCut>)
        requires
            old(self).silence_run == quiet_tail(
                old(self).current@,
                old(self).rule.silence_threshold,
            ),
            old(self).current_started_at is Some,
        ensures
            final(self).wf(),
            final(self).rule == old(self).rule,
            final(self).current@ == Seq::<u32>::empty(),
            final(self).current_started_at is None,
            match cut_of(old(self).current@, old(self).rule.silence_threshold) {
                Some(samples) => cut matches Some(c) && c.holds(
                    samples,
                    old(self).rule.sample_rate,
                    old(self).current_started_at->0,
                ),
                None => cut is None,
            },
    {
        let mut samples: Vec<u32> = Vec::new();
        std::mem::swap(&mut samples, &mut self.current);
        let run = self.silence_run;
        let started = self.current_started_at;
        self.silence_run = 0;
        self.current_started_at = None;
        proof {
            lemma_quiet_tail_bound(samples@, self.rule.silence_threshold);
        }
        let keep: usize = samples.len() - run;
        if keep == 0 {
            return None;
        }
        samples.truncate(keep);
        let duration_ms = duration_of(keep, self.rule.sample_rate);
        match started {
            Some(started_at) => Some(
                SegmentCut { samples, sample_rate: self.rule.sample_rate, started_at, duration_ms },
            ),
            None => None,
        }
    }

    /// Takes one sample that arrived at time `now`.
    ///
    /// The sample joins the buffer, and if the buffer was empty `now` becomes
    /// its start time. If the buffer then has to be cut, it is emptied and
    /// its speech part, if any, is handed out.
    pub fn push_sample(&mut self, sample: u32, now: i64) -> (cut: Option<SegmentCut>)
        requires
            old(self).wf(),
        ensures
            final(self).wf(),
            final(self).rule() == old(self).rule(),
            final(self).buffer() == buffer_after(old(self).rule(), old(self).buffer(), sample),
            final(self).started_at() == if final(self).buffer().len() == 0 {
                None
            } else if old(self).buffer().len() == 0 {
                Some(now)
            } else {
                old(self).started_at()
            },
            match emitted_by(old(self).rule(), old(self).buffer(), sample) {
                Some(samples) => cut matches Some(c) && c.holds(
                    samples,
                    old(self).rule().sample_rate,
                    if old(self).buffer().len() == 0 {
                        now
                    } else {
                        old(self).started_at()->0
                    },
                ),
                None => cut is None,
            },
    {
        if self.current.len() == 0 {
            self.current_started_at = Some(now);
        }
        proof {
            lemma_quiet_tail_bound(self.current@, self.rule.silence_threshold);
            assert(self.current@.push(sample).drop_last() == self.current@);
        }
        if quiet(sample, self.rule.silence_threshold) {
            self.silence_run = self.silence_run + 1;
        } else {
            self.silence_run = 0;
        }
        self.current.push(sample);
        let len = self.current.len();
        let reached_max = len >= self.rule.max_segment_samples;
        let silent_tail = self.silence_run >= self.rule.min_silence_samples;
        let long_enough = len > (self.rule.sample_rate as usize) / 2;
        if reached_max || (silent_tail && long_enough) {
            self.split_current()
        } else {
            None
        }
    }

    /// Takes a run of samples as they arrive, and returns the segments that
    /// were completed on the way, in order.
    ///
    /// The clock is read whenever a sample starts a new buffer, and each
    /// segment gets a fresh identifier. The buffer that is left and the
    /// samples, rate and duration of each segment do not depend on either.
    /// Nor does the start time of what was buffered before: a buffer that is
    /// not cut keeps it, and the segment that its first cut emits has it. An
    /// empty run changes nothing. Every other start time is a reading of the
    /// clock.
    pub fn push_samples(&mut self, samples: &[u32]) -> (ready: Vec<AudioSegment>)
        requires
            old(self).wf(),
        ensures
            final(self).wf(),
            final(self).rule() == old(self).rule(),
            final(self).buffer() == buffer_after_all(
                old(self).rule(),
                old(self).buffer(),
                samples@,
            ),
            samples_of(ready@) == emitted_by_all(old(self).rule(), old(self).buffer(), samples@),
            forall|i: int|
                0 <= i < ready.len() ==> {
                    &&& (#[trigger] ready[i]).samples@.len() > 0
                    &&& ready[i].carries(ready[i].samples@, old(self).rule().sample_rate)
                    &&& ready[i].id@.len() == ID_LEN
                },
            !cut_during(old(self).rule(), old(self).buffer(), samples@) ==> ready@.len() == 0,
            !cut_during(old(self).rule(), old(self).buffer(), samples@) && (old(
                self,
            ).buffer().len() > 0 || samples@.len() == 0) ==> final(self).started_at() == old(
                self,
            ).started_at(),
            old(self).buffer().len() > 0 && first_cut(
                old(self).rule(),
                old(self).buffer(),
                samples@,
            ) is Some ==> ready@.len() > 0 && ready[0].started_at == old(self).started_at()->0,
    {
        let ghost rule = self.rule;
        let ghost held = self.current@;
        let ghost held_since = self.current_started_at;
        let mut ready: Vec<AudioSegment> = Vec::new();
        let mut i: usize = 0;
        while i < samples.len()
            invariant
                i <= samples.len(),
                self.wf(),
                self.rule == rule,
                self.current@ == buffer_after_all(rule, held, samples@.take(i as int)),
                samples_of(ready@) == emitted_by_all(rule, held, samples@.take(i as int)),
                forall|j: int|
                    0 <= j < ready.len() ==> {
                        &&& (#[trigger] ready[j]).samples@.len() > 0
                        &&& ready[j].carries(ready[j].samples@, rule.sample_rate)
                        &&& ready[j].id@.len() == ID_LEN
                    },
                held.len() > 0 ==> held_since is Some,
                !cut_during(rule, held, samples@.take(i as int)) ==> ready@.len() == 0,
                !cut_during(rule, held, samples@.take(i as int)) && (held.len() > 0 || i == 0)
                    ==> self.current_started_at == held_since,
                held.len() > 0 && first_cut(rule, held, samples@.take(i as int)) is Some
                    ==> ready@.len() > 0 && ready[0].started_at == held_since->0,
            decreases samples.len() - i,
        {
            let now = match self.current_started_at {
                Some(since) => since,
                None => now_millis(),
            };
            let ghost before = ready@;
            let cut = self.push_sample(samples[i], now);
            proof {
                let upto = samples@.take(i as int + 1);
                assert(upto.drop_last() == samples@.take(i as int));
                assert(upto.last() == samples@[i as int]);
            }
            match cut {
                Some(body) => {
                    let segment = body.into_segment(fresh_id());
                    ready.push(segment);
                    assert(samples_of(ready@) == samples_of(before).push(segment.samples@));
                },
                None => {},
            }
            i = i + 1;
        }
        assert(samples@.take(samples.len() as int) == samples@);
        ready
    }

    /// Cuts whatever is buffered, however short, gives the speech part a
    /// fresh identifier and hands it out. At most one segment results, and
    /// the segmenter is left with an empty buffer, no silence counted and no
    /// start time.
    pub fn flush(&mut self) -> (segment: Option<AudioSegment>)
        requires
            old(self).wf(),
        ensures
            final(self).wf(),
            final(self).rule() == old(self).rule(),
            final(self).buffer() == Seq::<u32>::empty(),
            final(self).started_at() is None,
            quiet_tail(final(self).buffer(), final(self).rule().silence_threshold) == 0,
            match cut_of(old(self).buffer(), old(self).rule().silence_threshold) {
                Some(samples) => segment matches Some(a) && a.carries(
                    samples,
                    old(self).rule().sample_rate,
                ) && a.started_at == old(self).started_at()->0 && a.id@.len() == ID_LEN,
                None => segment is None,
            },
    {
        match self.flush_cut() {
            Some(body) => Some(body.into_segment(fresh_id())),
            None => None,
        }
    }

    /// Cuts whatever is buffered, however short, and hands out its speech
    /// part, if any. The segmenter is left with an empty buffer.
    pub fn flush_cut(&mut self) -> (cut: Option<SegmentCut>)
        requires
            old(self).wf(),
        ensures
            final(self).wf(),
            final(self).rule() == old(self).rule(),
            final(self).buffer() == Seq::<u32>::empty(),
            final(self).started_at() is None,
            match cut_of(old(self).buffer(), old(self).rule().silence_threshold) {
                Some(samples) => cut matches Some(c) && c.holds(
                    samples,
                    old(self).rule().sample_rate,
                    old(self).started_at()->0,
                ),
                None => cut is None,
            },
    {
        if self.current.len() == 0 {
            return None;
        }
        self.split_current()
    }
}

/// The quiet tail of a buffer is no longer than the buffer.
pub proof fn lemma_quiet_tail_bound(buffer: Seq<u32>, threshold: u32)
    ensures
        quiet_tail(buffer, threshold) <= buffer.len(),
    decreases buffer.len(),
{
    if buffer.len() > 0 && is_quiet(buffer.last(), threshold) {
        lemma_quiet_tail_bound(buffer.drop_last(), threshold);
    }
}

impl RecorderConfig {
    /// A segmenter for a stream of `sample_rate` samples per second that is
    /// captured with these settings.
    pub fn segmenter(&self, sample_rate: u32) -> (segmenter: Segmenter)
        ensures
            segmenter.wf(),
            segmenter.rule() == cut_rule(
                sample_rate,
                self.silence_threshold,
                self.min_silence_ms,
                self.max_segment_ms,
            ),
            segmenter.buffer() == Seq::<u32>::empty(),
            segmenter.started_at() is None,
    {
        Segmenter::new(
            sample_rate,
            self.silence_threshold,
            self.min_silence_ms,
            self.max_segment_ms,
        )
    }
}

/// The samples of the segments that a whole stream falls into: those
/// emitted while the stream is pushed onto an empty buffer, then the one that
/// the final flush hands out, if any.
pub open spec fn segments_of(rule: CutRule, samples: Seq<u32>) -> Seq<Seq<u32>> {
    let emitted = emitted_by_all(rule, Seq::empty(), samples);
    match cut_of(buffer_after_all(rule, Seq::empty(), samples), rule.silence_threshold) {
        Some(rest) => emitted.push(rest),
        None => emitted,
    }
}

/// Splits a complete recording into segments: pushes all of `samples`
/// through a new segmenter and flushes it.
pub fn segment_audio(samples: &[u32], sample_rate: u32, config: &RecorderConfig) -> (segments:
    Vec<AudioSegment>)
    ensures
        samples_of(segments@) == segments_of(
            cut_rule(
                sample_rate,
                config.silence_threshold,
                config.min_silence_ms,
                config.max_segment_ms,
            ),
            samples@,
        ),
        forall|i: int|
            0 <= i < segments.len() ==> {
                &&& (#[trigger] segments[i]).samples@.len() > 0
                &&& segments[i].carries(segments[i].samples@, sample_rate)
                &&& segments[i].id@.len() == ID_LEN
            },
{
    let mut segmenter = config.segmenter(sample_rate);
    let mut segments = segmenter.push_samples(samples);
    let ghost emitted = segments@;
    match segmenter.flush() {
        Some(last) => {
            segments.push(last);
            assert(samples_of(segments@) == samples_of(emitted).push(last.samples@));
        },
        None => {},
    }
    segments
}

/// A cut never hands out an empty segment, and what it hands out ends in a
/// sample that is not silence: the whole trailing run of silence is gone.
pub proof fn lemma_cut_keeps_speech(buffer: Seq<u32>, threshold: u32)
    ensures
        match cut_of(buffer, threshold) {
            Some(samples) => {
                &&& samples.len() > 0
                &&& samples.len() + quiet_tail(buffer, threshold) == buffer.len()
                &&& samples == buffer.take(samples.len() as int)
                &&& !is_quiet(samples.last(), threshold)
            },
            None => quiet_tail(buffer, threshold) == buffer.len(),
        },
    decreases buffer.len(),
{
    lemma_quiet_tail_bound(buffer, threshold);
    if buffer.len() > 0 && is_quiet(buffer.last(), threshold) {
        let shorter = buffer.drop_last();
        lemma_cut_keeps_speech(shorter, threshold);
        lemma_quiet_tail_bound(shorter, threshold);
        let kept = shorter.len() - quiet_tail(shorter, threshold);
        assert(buffer.take(kept) == shorter.take(kept));
    } else if buffer.len() > 0 {
        assert(buffer.take(buffer.len() as int) == buffer);
    }
}

/// Every sample that a cut drops is silence.
pub proof fn lemma_cut_drops_silence(buffer: Seq<u32>, threshold: u32, i: int)
    requires
        buffer.len() - quiet_tail(buffer, threshold) <= i < buffer.len(),
    ensures
        is_quiet(buffer[i], threshold),
    decreases buffer.len(),
{
    lemma_quiet_tail_bound(buffer, threshold);
    if i < buffer.len() - 1 {
        lemma_cut_drops_silence(buffer.drop_last(), threshold, i);
    }
}

/// No segment that a push emits is empty.
pub proof fn lemma_emitted_not_empty(rule: CutRule, buffer: Seq<u32>, sample: u32)
    ensures
        emitted_by(rule, buffer, sample) matches Some(samples) ==> samples.len() > 0,
{
}

/// For every stream and every buffer it meets, no emitted segment is empty.
pub proof fn lemma_all_emitted_not_empty(rule: CutRule, buffer: Seq<u32>, samples: Seq<u32>)
    ensures
        forall|i: int|
            0 <= i < emitted_by_all(rule, buffer, samples).len() ==> (#[trigger] emitted_by_all(
                rule,
                buffer,
                samples,
            )[i]).len() > 0,
    decreases samples.len(),
{
    if samples.len() > 0 {
        lemma_all_emitted_not_empty(rule, buffer, samples.drop_last());
        let earlier = emitted_by_all(rule, buffer, samples.drop_last());
        let all = emitted_by_all(rule, buffer, samples);
        assert forall|i: int| 0 <= i < all.len() implies (#[trigger] all[i]).len() > 0 by {
            if i < earlier.len() {
                assert(all[i] == earlier[i]);
            }
        }
    }
}

/// No segment of a whole stream is empty, the flushed one included.
pub proof fn lemma_segments_not_empty(rule: CutRule, samples: Seq<u32>)
    ensures
        forall|i: int|
            0 <= i < segments_of(rule, samples).len() ==> (#[trigger] segments_of(
                rule,
                samples,
            )[i]).len() > 0,
{
    lemma_all_emitted_not_empty(rule, Seq::empty(), samples);
}

/// A push that brings the buffer to the maximum segment length cuts it,
/// whether the buffer ends in silence or not.
pub proof fn lemma_cut_at_maximum(rule: CutRule, buffer: Seq<u32>, sample: u32)
    requires
        buffer.len() + 1 >= rule.max_segment_samples,
    ensures
        buffer_after(rule, buffer, sample) == Seq::<u32>::empty(),
        emitted_by(rule, buffer, sample) == cut_of(buffer.push(sample), rule.silence_threshold),
{
}

/// Whatever was pushed, the buffer is empty or shorter than the maximum
/// segment length.
pub proof fn lemma_buffer_below_maximum(rule: CutRule, buffer: Seq<u32>, samples: Seq<u32>)
    requires
        buffer.len() == 0 || buffer.len() < rule.max_segment_samples,
    ensures
        buffer_after_all(rule, buffer, samples).len() == 0 || buffer_after_all(
            rule,
            buffer,
            samples,
        ).len() < rule.max_segment_samples,
    decreases samples.len(),
{
    if samples.len() > 0 {
        lemma_buffer_below_maximum(rule, buffer, samples.drop_last());
    }
}

/// A push after which the buffer ends in at least the minimum run of silence
/// and is longer than half a second cuts it, and the segment it emits is the
/// buffer without that trailing run.
pub proof fn lemma_cut_on_silence(rule: CutRule, buffer: Seq<u32>, sample: u32)
    requires
        quiet_tail(buffer.push(sample), rule.silence_threshold) >= rule.min_silence_samples,
        buffer.len() + 1 > rule.sample_rate / 2,
    ensures
        buffer_after(rule, buffer, sample) == Seq::<u32>::empty(),
        match emitted_by(rule, buffer, sample) {
            Some(samples) => {
                &&& samples.len() > 0
                &&& samples.len() + quiet_tail(buffer.push(sample), rule.silence_threshold)
                    == buffer.len() + 1
                &&& samples == buffer.push(sample).take(samples.len() as int)
            },
            None => quiet_tail(buffer.push(sample), rule.silence_threshold) == buffer.len() + 1,
        },
{
    lemma_cut_keeps_speech(buffer.push(sample), rule.silence_threshold);
}

/// A push cuts only for one of the two reasons: the maximum length, or
/// enough silence after more than half a second.
pub proof fn lemma_no_other_cut(rule: CutRule, buffer: Seq<u32>, sample: u32)
    requires
        buffer.len() + 1 < rule.max_segment_samples,
        quiet_tail(buffer.push(sample), rule.silence_threshold) < rule.min_silence_samples
            || buffer.len() + 1 <= rule.sample_rate / 2,
    ensures
        buffer_after(rule, buffer, sample) == buffer.push(sample),
        emitted_by(rule, buffer, sample) is None,
{
}

/// A buffer that is not cut while samples are pushed holds them all
/// afterwards, behind what it held, and nothing was emitted.
pub proof fn lemma_uncut_keeps_all(rule: CutRule, buffer: Seq<u32>, samples: Seq<u32>)
    requires
        !cut_during(rule, buffer, samples),
    ensures
        buffer_after_all(rule, buffer, samples) == buffer + samples,
        emitted_by_all(rule, buffer, samples) == Seq::<Seq<u32>>::empty(),
        first_cut(rule, buffer, samples) is None,
    decreases samples.len(),
{
    if samples.len() == 0 {
        assert(buffer + samples == buffer);
    } else {
        lemma_uncut_keeps_all(rule, buffer, samples.drop_last());
        assert((buffer + samples.drop_last()).push(samples.last()) == buffer + samples);
    }
}

/// A stream that brings the buffer to no more than half a second, and not
/// to the maximum segment length, emits nothing: all of it waits in the
/// buffer for more, or for a flush.
pub proof fn lemma_short_stream_waits(rule: CutRule, buffer: Seq<u32>, samples: Seq<u32>)
    requires
        buffer.len() + samples.len() <= rule.sample_rate / 2,
        buffer.len() + samples.len() < rule.max_segment_samples,
    ensures
        buffer_after_all(rule, buffer, samples) == buffer + samples,
        emitted_by_all(rule, buffer, samples) == Seq::<Seq<u32>>::empty(),
    decreases samples.len(),
{
    if samples.len() == 0 {
        assert(buffer + samples == buffer);
    } else {
        lemma_short_stream_waits(rule, buffer, samples.drop_last());
        assert((buffer + samples.drop_last()).push(samples.last()) == buffer + samples);
    }
}

/// How a stream is chopped up for pushing does not matter: pushing `first`
/// and then `second` leaves the buffer and emits the segments that pushing
/// the two in one run does.
pub proof fn lemma_push_in_parts(
    rule: CutRule,
    buffer: Seq<u32>,
    first: Seq<u32>,
    second: Seq<u32>,
)
    ensures
        buffer_after_all(rule, buffer, first + second) == buffer_after_all(
            rule,
            buffer_after_all(rule, buffer, first),
            second,
        ),
        emitted_by_all(rule, buffer, first + second) == emitted_by_all(rule, buffer, first)
            + emitted_by_all(rule, buffer_after_all(rule, buffer, first), second),
    decreases second.len(),
{
    if second.len() == 0 {
        assert(first + second == first);
        assert(emitted_by_all(rule, buffer, first) + Seq::<Seq<u32>>::empty() == emitted_by_all(
            rule,
            buffer,
            first,
        ));
    } else {
        lemma_push_in_parts(rule, buffer, first, second.drop_last());
        assert((first + second).drop_last() == first + second.drop_last());
        assert((first + second).last() == second.last());
        let early = emitted_by_all(rule, buffer, first);
        let late = emitted_by_all(
            rule,
            buffer_after_all(rule, buffer, first),
            second.drop_last(),
        );
        let held = buffer_after_all(rule, buffer, first + second.drop_last());
        match emitted_by(rule, held, second.last()) {
            Some(segment) => {
                assert((early + late).push(segment) == early + late.push(segment));
            },
            None => {},
        }
    }
}

/// Number of bytes before the samples in a WAVE file.
pub const WAV_HEADER_LEN: usize = 44;

/// Bytes of one sample in a WAVE file of one channel and 16 bits.
pub const WAV_BLOCK_ALIGN: u32 = 2;

/// The two bytes of `value`, low byte first.
pub open spec fn le16(value: u16) -> Seq<u8> {
    seq![(value % 256) as u8, (value / 256) as u8]
}

/// The four bytes of `value`, lowest byte first.
pub open spec fn le32(value: u32) -> Seq<u8> {
    seq![
        (value % 256) as u8,
        (value / 256 % 256) as u8,
        (value / 65536 % 256) as u8,
        (value / 16777216) as u8,
    ]
}

/// The 16 bits of a signed sample, read as an unsigned number.
pub open spec fn twos_complement(sample: i16) -> u16 {
    if sample >= 0 {
        sample as u16
    } else {
        (sample + 65536) as u16
    }
}

/// The bytes of `pcm`, two for each sample, low byte first.
pub open spec fn pcm_bytes(pcm: Seq<i16>) -> Seq<u8>
    decreases pcm.len(),
{
    if pcm.len() == 0 {
        Seq::empty()
    } else {
        pcm_bytes(pcm.drop_last()) + le16(twos_complement(pcm.last()))
    }
}

/// The header of a WAVE file of one channel of 16-bit PCM: the `RIFF` chunk
/// with its size, the `WAVE` form, the `fmt ` chunk of 16 bytes (format 1,
/// one channel, the sample rate, the byte rate, the block alignment, the
/// bits per sample), and the `data` chunk tag with the size of the data.
pub open spec fn wav_header(data_len: u32, sample_rate: u32) -> Seq<u8> {
    seq![82u8, 73, 70, 70] + le32((36 + data_len) as u32) + seq![87u8, 65, 86, 69] + seq![
        102u8,
        109,
        116,
        32,
    ] + le32(16) + le16(1) + le16(1) + le32(sample_rate) + le32(
        (sample_rate * WAV_BLOCK_ALIGN) as u32,
    ) + le16(2) + le16(16) + seq![100u8, 97, 116, 97] + le32(data_len)
}

/// Whether `len` samples at `sample_rate` fit a WAVE file: the byte rate
/// and the size of the `RIFF` chunk have to fit 32 bits.
pub open spec fn fits_wav(len: nat, sample_rate: u32) -> bool {
    sample_rate * WAV_BLOCK_ALIGN <= u32::MAX && 36 + len * WAV_BLOCK_ALIGN <= u32::MAX
}

/// Appends the two bytes of `value`, low byte first.
fn push_le16(buffer: &mut Vec<u8>, value: u16)
    ensures
        final(buffer)@ == old(buffer)@ + le16(value),
{
    buffer.push((value % 256) as u8);
    buffer.push((value / 256) as u8);
    assert(buffer@ =~= old(buffer)@ + le16(value));
}

/// Appends the four bytes of `value`, lowest byte first.
fn push_le32(buffer: &mut Vec<u8>, value: u32)
    ensures
        final(buffer)@ == old(buffer)@ + le32(value),
{
    buffer.push((value % 256) as u8);
    buffer.push((value / 256 % 256) as u8);
    buffer.push((value / 65536 % 256) as u8);
    buffer.push((value / 16777216) as u8);
    assert(buffer@ =~= old(buffer)@ + le32(value));
}

/// Appends the four bytes of a chunk tag.
fn push_tag(buffer: &mut Vec<u8>, a: u8, b: u8, c: u8, d: u8)
    ensures
        final(buffer)@ == old(buffer)@ + seq![a, b, c, d],
{
    buffer.push(a);
    buffer.push(b);
    buffer.push(c);
    buffer.push(d);
    assert(buffer@ =~= old(buffer)@ + seq![a, b, c, d]);
}

/// Computes [`twos_complement`].
pub fn sample_word(sample: i16) -> (word: u16)
    ensures
        word == twos_complement(sample),
{
    if sample >= 0 {
        sample as u16
    } else {
        (sample as i32 + 65536) as u16
    }
}

/// Packs 16-bit samples of one channel as a WAVE file: the 44 bytes of the
/// header, then the samples, low byte first.
///
/// Recordings that do not fit the 32-bit sizes of the format are refused.
pub fn encode_wav(pcm: &[i16], sample_rate: u32) -> (wav: AppResult<Vec<u8>>)
    ensures
        match wav {
            Ok(bytes) => {
                &&& fits_wav(pcm@.len(), sample_rate)
                &&& bytes@ == wav_header((pcm@.len() * WAV_BLOCK_ALIGN) as u32, sample_rate)
                    + pcm_bytes(pcm@)
                &&& bytes@.len() == WAV_HEADER_LEN + 2 * pcm@.len()
            },
            Err(e) => !fits_wav(pcm@.len(), sample_rate) && e is Other,
        },
{
    if sample_rate > u32::MAX / 2 || pcm.len() > ((u32::MAX - 36) / 2) as usize {
        return Err(AppError::Other("Recording does not fit a WAVE file".to_string()));
    }
    let byte_rate: u32 = sample_rate * WAV_BLOCK_ALIGN;
    let data_len: u32 = (pcm.len() as u32) * WAV_BLOCK_ALIGN;
    let mut buffer: Vec<u8> = Vec::new();
    push_tag(&mut buffer, 82, 73, 70, 70);
    push_le32(&mut buffer, 36 + data_len);
    push_tag(&mut buffer, 87, 65, 86, 69);
    push_tag(&mut buffer, 102, 109, 116, 32);
    push_le32(&mut buffer, 16);
    push_le16(&mut buffer, 1);
    push_le16(&mut buffer, 1);
    push_le32(&mut buffer, sample_rate);
    push_le32(&mut buffer, byte_rate);
    push_le16(&mut buffer, 2);
    push_le16(&mut buffer, 16);
    push_tag(&mut buffer, 100, 97, 116, 97);
    push_le32(&mut buffer, data_len);
    let ghost header = buffer@;
    assert(header == wav_header(data_len, sample_rate));
    assert(header.len() == 44);
    let mut i: usize = 0;
    while i < pcm.len()
        invariant
            i <= pcm.len(),
            buffer@ == header + pcm_bytes(pcm@.take(i as int)),
            buffer@.len() == 44 + 2 * i,
        decreases pcm.len() - i,
    {
        proof {
            let upto = pcm@.take(i as int + 1);
            assert(upto.drop_last() == pcm@.take(i as int));
            assert(upto.last() == pcm@[i as int]);
        }
        let ghost before = buffer@;
        push_le16(&mut buffer, sample_word(pcm[i]));
        assert(buffer@ =~= header + pcm_bytes(pcm@.take(i as int + 1)));
        i = i + 1;
    }
    assert(pcm@.take(pcm.len() as int) == pcm@);
    Ok(buffer)
}

} // verus!
