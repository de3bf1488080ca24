use vstd::prelude::*;

verus! {

/// One second, in nanoseconds: how often the frame statistics are reported.
pub const REPORT_INTERVAL_NANOS: u128 = 1_000_000_000;

/// Frame and update statistics gathered since the last report.
pub struct PerfDisplayerHandler {
    /// Time spent drawing frames, in nanoseconds.
    pub frame_time: u128,
    pub frame_count: u64,
    /// Time spent in game updates, in nanoseconds.
    pub update_time: u128,
    pub update_count: u64,
}

/// The statistics of one report period: counts and whole milliseconds spent.
pub struct PerfReport {
    pub frame_count: u64,
    pub frame_millis: u128,
    pub update_count: u64,
    pub update_millis: u128,
}

impl PerfDisplayerHandler {
    /// Nothing gathered yet.
    pub fn new() -> (r: PerfDisplayerHandler)
        ensures
            r.frame_time == 0 && r.frame_count == 0 && r.update_time == 0 && r.update_count == 0,
    {
        PerfDisplayerHandler { frame_time: 0, frame_count: 0, update_time: 0, update_count: 0 }
    }

    /// When more than a second has passed since the last report, hands out the gathered
    /// statistics and starts gathering anew; otherwise changes nothing.
    pub fn tick(&mut self, since_last_report_nanos: u128) -> (r: Option<PerfReport>)
        ensures
            since_last_report_nanos > REPORT_INTERVAL_NANOS ==> {
                &&& r matches Some(rep) && {
                    &&& rep.frame_count == old(self).frame_count
                    &&& rep.frame_millis == old(self).frame_time / 1_000_000
                    &&& rep.update_count == old(self).update_count
                    &&& rep.update_millis == old(self).update_time / 1_000_000
                }
                &&& final(self).frame_time == 0 && final(self).frame_count == 0
                &&& final(self).update_time == 0 && final(self).update_count == 0
            },
            since_last_report_nanos <= REPORT_INTERVAL_NANOS ==> {
                &&& r is None
                &&& final(self).frame_time == old(self).frame_time
                &&& final(self).frame_count == old(self).frame_count
                &&& final(self).update_time == old(self).update_time
                &&& final(self).update_count == old(self).update_count
            },
    {
        if since_last_report_nanos > REPORT_INTERVAL_NANOS {
            let report = PerfReport {
                frame_count: self.frame_count,
                frame_millis: self.frame_time / 1_000_000,
                update_count: self.update_count,
                update_millis: self.update_time / 1_000_000,
            };
            self.update_count = 0;
            self.update_time = 0;
            self.frame_count = 0;
            self.frame_time = 0;
            Some(report)
        } else {
            None
        }
    }
}

} // verus!
