//! The monitor loop's state and per-tick decisions: aggregation, mapping and
//! change detection. The timer and the I/O of each tick live outside; the
//! loop state never crosses a poll boundary except through these methods.

use vstd::prelude::*;
use crate::color::{spec_map, ColorMapConfig, ColorRgb};
use crate::sensors::{sample, spec_sample, Reading};

verus! {

/// The state the loop carries from one poll cycle to the next: the mapping
/// configuration, the poll interval, the dispatch policy, and the last
/// temperature a dispatch was completed for.
pub struct MonitorLoop {
    /// The mapping configuration, fixed at startup.
    pub config: ColorMapConfig,
    /// Milliseconds to wait between poll cycles.
    pub interval_ms: u64,
    /// When set, a tick whose temperature equals the last applied one skips
    /// its dispatch; when clear, every tick dispatches.
    pub dispatch_on_change: bool,
    /// The temperature of the last completed dispatch; `None` until the
    /// first dispatch completes, so that the first poll always dispatches.
    pub last_applied: Option<i64>,
}

impl MonitorLoop {
    /// The loop only ever runs with a usable mapping configuration.
    pub open spec fn wf(self) -> bool {
        self.config.wf()
    }

    /// Whether a tick that sampled temperature `t` dispatches: always,
    /// unless the change-detection policy is on and `t` is exactly the last
    /// applied temperature.
    pub open spec fn spec_should_dispatch(self, t: i64) -> bool {
        !(self.dispatch_on_change && self.last_applied == Some(t))
    }

    /// Fresh loop state. `last_applied` starts at the "nothing applied yet"
    /// sentinel, under which every temperature counts as changed.
    pub fn new(config: ColorMapConfig, interval_ms: u64, dispatch_on_change: bool) -> (m:
        MonitorLoop)
        requires
            config.wf(),
        ensures
            m.wf(),
            m.config == config,
            m.interval_ms == interval_ms,
            m.dispatch_on_change == dispatch_on_change,
            m.last_applied is None,
    {
        MonitorLoop { config, interval_ms, dispatch_on_change, last_applied: None }
    }

    /// One tick's computation: reduces the poll cycle's readings to the
    /// aggregate temperature and decides whether — and with which color — a
    /// dispatch follows.
    pub fn evaluate(&self, readings: &Vec<Reading>) -> (r: (i64, Option<ColorRgb>))
        requires
            self.wf(),
        ensures
            r.0 == spec_sample(readings@),
            r.1 == if self.spec_should_dispatch(r.0) {
                Some(spec_map(self.config, r.0 as int))
            } else {
                None::<ColorRgb>
            },
    {
        let t = sample(readings);
        if self.dispatch_on_change && self.is_last_applied(t) {
            (t, None)
        } else {
            (t, Some(crate::color::map(&self.config, t)))
        }
    }

    /// Whether `t` equals the last applied temperature.
    fn is_last_applied(&self, t: i64) -> (r: bool)
        ensures
            r == (self.last_applied == Some(t)),
    {
        match self.last_applied {
            Some(prev) => prev == t,
            None => false,
        }
    }

    /// Records a completed dispatch, making `t` the temperature that change
    /// detection compares against.
    pub fn record_dispatch(&mut self, t: i64)
        requires
            old(self).wf(),
        ensures
            final(self).wf(),
            final(self).config == old(self).config,
            final(self).interval_ms == old(self).interval_ms,
            final(self).dispatch_on_change == old(self).dispatch_on_change,
            final(self).last_applied == Some(t),
    {
        self.last_applied = Some(t);
    }

    /// The sentinel honors its promise: a loop state that has not completed
    /// a dispatch yet dispatches on its next tick, whatever the temperature
    /// and whatever the policy.
    pub proof fn lemma_first_tick_dispatches(self, t: i64)
        requires
            self.last_applied is None,
        ensures
            self.spec_should_dispatch(t),
    {
    }
}

} // verus!
