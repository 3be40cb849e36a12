//! How often frames are shown. Times are nanoseconds since the program started.

use vstd::prelude::*;

use crate::pacing::{time_between, SAMPLE_NANOS};

verus! {

/// A number of frames, and the time over which they were shown.
#[derive(Clone, Copy, Debug, PartialEq, Eq, Structural)]
pub struct FrameSample {
    pub frames: u32,
    pub elapsed: u64,
}

/// What a frame tells: the time since the frame before it, and the sample that it
/// completes.
#[derive(Clone, Copy, Debug, PartialEq, Eq, Structural)]
pub struct FrameReport {
    pub frame_time: Option<u64>,
    pub sample: Option<FrameSample>,
}

/// A count of the frames that were shown.
#[derive(Clone, Copy, Debug, PartialEq, Eq, Structural)]
pub struct FrameStats {
    pub last_presented_at: Option<u64>,
    pub sample_started_at: u64,
    pub presented_frames_in_sample: u32,
    pub show_fps_counter: bool,
}

impl FrameStats {
    /// The count after a frame that is shown at `now`.
    pub open spec fn after_frame(self, now: u64) -> FrameStats {
        if time_between(self.sample_started_at, now) >= SAMPLE_NANOS {
            FrameStats {
                last_presented_at: Some(now),
                sample_started_at: now,
                presented_frames_in_sample: 0,
                ..self
            }
        } else {
            FrameStats {
                last_presented_at: Some(now),
                presented_frames_in_sample: (self.presented_frames_in_sample + 1) as u32,
                ..self
            }
        }
    }

    /// What a frame that is shown at `now` tells.
    pub open spec fn report_at(self, now: u64) -> FrameReport {
        FrameReport {
            frame_time: match self.last_presented_at {
                Some(last) => Some(time_between(last, now)),
                None => None,
            },
            sample: if time_between(self.sample_started_at, now) >= SAMPLE_NANOS {
                Some(
                    FrameSample {
                        frames: (self.presented_frames_in_sample + 1) as u32,
                        elapsed: time_between(self.sample_started_at, now),
                    },
                )
            } else {
                None
            },
        }
    }

    /// A count that starts now.
    pub fn new(now: u64) -> (stats: Self)
        ensures
            stats == (FrameStats {
                last_presented_at: None,
                sample_started_at: now,
                presented_frames_in_sample: 0,
                show_fps_counter: false,
            }),
    {
        FrameStats {
            last_presented_at: None,
            sample_started_at: now,
            presented_frames_in_sample: 0,
            show_fps_counter: false,
        }
    }

    /// Counts a frame that was shown. A sample is complete after a second.
    pub fn record_presented_frame(&mut self, now: u64) -> (report: FrameReport)
        requires
            old(self).presented_frames_in_sample < u32::MAX,
        ensures
            *final(self) == old(self).after_frame(now),
            report == old(self).report_at(now),
            report.frame_time == match old(self).last_presented_at {
                Some(last) => Some(time_between(last, now)),
                None => None,
            },
            final(self).last_presented_at == Some(now),
            final(self).show_fps_counter == old(self).show_fps_counter,
            ({
                let elapsed = time_between(old(self).sample_started_at, now);
                let frames = (old(self).presented_frames_in_sample + 1) as u32;
                if elapsed >= SAMPLE_NANOS {
                    &&& report.sample == Some(FrameSample { frames, elapsed })
                    &&& final(self).presented_frames_in_sample == 0
                    &&& final(self).sample_started_at == now
                } else {
                    &&& report.sample is None
                    &&& final(self).presented_frames_in_sample == frames
                    &&& final(self).sample_started_at == old(self).sample_started_at
                }
            }),
    {
        let frame_time: Option<u64> = match self.last_presented_at {
            Some(last) => Some(now.saturating_sub(last)),
            None => None,
        };
        self.last_presented_at = Some(now);
        self.presented_frames_in_sample = self.presented_frames_in_sample + 1;
        let elapsed: u64 = now.saturating_sub(self.sample_started_at);
        let mut sample: Option<FrameSample> = None;
        if elapsed >= SAMPLE_NANOS {
            sample = Some(FrameSample { frames: self.presented_frames_in_sample, elapsed });
            self.presented_frames_in_sample = 0;
            self.sample_started_at = now;
        }
        FrameReport { frame_time, sample }
    }
}

/// Frames tell the time between each and the one before it; the first tells none.
pub proof fn frames_tell_the_time_between_them(stats: FrameStats, first: u64, second: u64)
    requires
        first <= second,
    ensures
        stats.last_presented_at is None ==> stats.report_at(first).frame_time is None,
        stats.after_frame(first).report_at(second).frame_time == Some((second - first) as u64),
{
}

/// Frames are counted until a second has passed since the count began; then the sample
/// holds all of them and the time that passed, and the count begins anew.
pub proof fn frames_are_sampled_by_the_second(stats: FrameStats, now: u64)
    requires
        stats.presented_frames_in_sample < u32::MAX,
        stats.sample_started_at <= now,
    ensures
        ({
            let after = stats.after_frame(now);
            let elapsed = now - stats.sample_started_at;
            &&& after.last_presented_at == Some(now)
            &&& after.show_fps_counter == stats.show_fps_counter
            &&& elapsed < 1_000_000_000 ==> stats.report_at(now).sample is None
                && after.presented_frames_in_sample == stats.presented_frames_in_sample + 1
                && after.sample_started_at == stats.sample_started_at
            &&& elapsed >= 1_000_000_000 ==> after.presented_frames_in_sample == 0
                && after.sample_started_at == now && (stats.report_at(now).sample matches Some(
                sample,
            ) && sample.frames == stats.presented_frames_in_sample + 1 && sample.elapsed
                == elapsed)
        }),
{
}

} // verus!
