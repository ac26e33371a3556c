//! The counters of a run.

use crate::text::{decimal, push_decimal, texts, to_chars, to_text};
use vstd::prelude::*;

verus! {

/// A line that separates one report from the next.
pub const REPORT_RULE: &'static str = "============================================";

pub const TOTAL_LABEL: &'static str = "total requests: ";

pub const SUCCESSFUL_LABEL: &'static str = "successful requests: ";

pub const FAILED_LABEL: &'static str = "failed requests: ";

/// When a run began, in milliseconds on the caller's clock, and how many
/// requests have come to an end since: all of them, those that got the
/// expected status, and those that did not.
#[derive(Clone, Copy, Debug)]
pub struct Metrics {
    pub start_time: u64,
    pub successful_requests: u64,
    pub failed_requests: u64,
    pub total_requests: u64,
}

/// The lines of a report on `metrics`: a rule, then the three counters.
pub open spec fn report_lines(metrics: Metrics) -> Seq<Seq<char>> {
    seq![
        REPORT_RULE@,
        TOTAL_LABEL@ + decimal(metrics.total_requests as nat),
        SUCCESSFUL_LABEL@ + decimal(metrics.successful_requests as nat),
        FAILED_LABEL@ + decimal(metrics.failed_requests as nat),
    ]
}

impl Metrics {
    /// Every counted request was counted as a success or as a failure.
    pub open spec fn consistent(self) -> bool {
        self.total_requests == self.successful_requests + self.failed_requests
    }

    /// The counters after one more outcome.
    pub open spec fn counted(self, success: bool) -> Metrics {
        Metrics {
            start_time: self.start_time,
            successful_requests: if success {
                (self.successful_requests + 1) as u64
            } else {
                self.successful_requests
            },
            failed_requests: if success {
                self.failed_requests
            } else {
                (self.failed_requests + 1) as u64
            },
            total_requests: (self.total_requests + 1) as u64,
        }
    }

    /// Whether one more outcome can be counted without leaving `u64`.
    pub open spec fn has_room(self, success: bool) -> bool {
        &&& self.total_requests < u64::MAX
        &&& success ==> self.successful_requests < u64::MAX
        &&& !success ==> self.failed_requests < u64::MAX
    }

    /// The counters of a run that begins at `start_time`.
    pub fn new(start_time: u64) -> (metrics: Self)
        ensures
            metrics == (Metrics {
                start_time,
                successful_requests: 0,
                failed_requests: 0,
                total_requests: 0,
            }),
            metrics.consistent(),
    {
        Self { start_time, successful_requests: 0, failed_requests: 0, total_requests: 0 }
    }

    /// How long the run has lasted at the time `now`, in milliseconds; zero
    /// where `now` lies before the start.
    pub fn elapsed_millis(&self, now: u64) -> (elapsed: u64)
        ensures
            elapsed == if now >= self.start_time {
                now - self.start_time
            } else {
                0
            },
    {
        if now >= self.start_time {
            now - self.start_time
        } else {
            0
        }
    }

    /// Counts one outcome: the total and one of the two other counters go up
    /// by one, in one step.
    pub fn record(&mut self, success: bool)
        requires
            old(self).has_room(success),
        ensures
            *final(self) == old(self).counted(success),
            final(self).total_requests == old(self).total_requests + 1,
            final(self).successful_requests == old(self).successful_requests + if success {
                1int
            } else {
                0int
            },
            final(self).failed_requests == old(self).failed_requests + if success {
                0int
            } else {
                1int
            },
            old(self).consistent() ==> final(self).consistent(),
    {
        if success {
            self.successful_requests = self.successful_requests + 1;
        } else {
            self.failed_requests = self.failed_requests + 1;
        }
        self.total_requests = self.total_requests + 1;
    }

    /// Whether `record` may be called with `success`.
    pub fn can_record(&self, success: bool) -> (room: bool)
        ensures
            room == self.has_room(success),
    {
        self.total_requests < u64::MAX && if success {
            self.successful_requests < u64::MAX
        } else {
            self.failed_requests < u64::MAX
        }
    }

    /// The lines of a report on these counters.
    pub fn display(&self) -> (lines: Vec<String>)
        ensures
            texts(lines@) == report_lines(*self),
    {
        let mut lines: Vec<String> = Vec::new();
        lines.push(REPORT_RULE.to_owned());
        lines.push(labelled(TOTAL_LABEL, self.total_requests));
        lines.push(labelled(SUCCESSFUL_LABEL, self.successful_requests));
        lines.push(labelled(FAILED_LABEL, self.failed_requests));
        assert(texts(lines@) =~= report_lines(*self));
        lines
    }
}

/// `label` followed by the decimal numeral of `n`.
pub fn labelled(label: &str, n: u64) -> (line: String)
    ensures
        line@ == label@ + decimal(n as nat),
{
    let mut chars = to_chars(label);
    push_decimal(&mut chars, n);
    to_text(&chars)
}

} // verus!
