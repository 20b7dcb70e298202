//! The device synchronizer: decides, controller by controller, how one
//! color is fanned out to the attached lighting controllers. The surrounding
//! process performs the protocol I/O and feeds the query results back in as
//! plain values; every decision taken here is verified.

use vstd::prelude::*;
use crate::color::ColorRgb;

verus! {

/// Why a dispatch cycle had to give up. Both causes are fatal for the loop:
/// they indicate a connectivity or protocol problem, not a transient
/// per-device one.
#[derive(Clone, Copy, Debug, PartialEq, Eq, Structural)]
pub enum DispatchError {
    /// The controller-count query itself failed.
    ControllerCountUnavailable,
    /// Writing the LED array of this controller failed.
    WriteFailed { controller: u32 },
}

/// One pending write: a uniform color array destined for one controller.
#[derive(Clone, Debug)]
pub struct LedWrite {
    /// The controller the array is addressed to.
    pub controller: u32,
    /// One color per LED of that controller, all equal.
    pub colors: Vec<ColorRgb>,
}

/// Builds the uniform frame for one controller: `n` copies of `color`, one
/// per LED.
pub fn uniform_frame(color: ColorRgb, n: usize) -> (frame: Vec<ColorRgb>)
    ensures
        frame@.len() == n,
        forall|k: int| 0 <= k < n ==> frame@[k] == color,
{
    let mut frame: Vec<ColorRgb> = Vec::new();
    let mut i: usize = 0;
    while i < n
        invariant
            i <= n,
            frame@.len() == i,
            forall|k: int| 0 <= k < i ==> frame@[k] == color,
        decreases n - i,
    {
        frame.push(color);
        i = i + 1;
    }
    frame
}

/// Walks the controllers of one dispatch cycle in order and decides, for
/// each, whether a write is issued. A failed LED-count query skips exactly
/// that controller; a failed controller count or a failed write is fatal.
pub struct DeviceSynchronizer {
    /// The color of this cycle, applied uniformly to every reachable LED.
    pub color: ColorRgb,
    /// How many controllers the session reported.
    pub total: u32,
    /// The next controller to handle; all controllers below it are done.
    pub next: u32,
}

impl DeviceSynchronizer {
    /// The synchronizer never runs past the reported controller count.
    pub open spec fn wf(self) -> bool {
        self.next <= self.total
    }

    /// Decision on the controller-count query: a failure is fatal for the
    /// whole cycle, a count starts the walk at controller 0.
    pub fn start(color: ColorRgb, controller_count: Option<u32>) -> (r: Result<
        DeviceSynchronizer,
        DispatchError,
    >)
        ensures
            match controller_count {
                Some(n) => r matches Ok(s) && s == (DeviceSynchronizer {
                    color,
                    total: n,
                    next: 0,
                }),
                None => r == Err::<DeviceSynchronizer, DispatchError>(
                    DispatchError::ControllerCountUnavailable,
                ),
            },
    {
        match controller_count {
            Some(n) => Ok(DeviceSynchronizer { color, total: n, next: 0 }),
            None => Err(DispatchError::ControllerCountUnavailable),
        }
    }

    /// The controller whose LED count should be queried next, or `None` when
    /// the cycle has handled every controller.
    pub fn pending(&self) -> (r: Option<u32>)
        ensures
            r == if self.next < self.total {
                Some(self.next)
            } else {
                None::<u32>
            },
    {
        if self.next < self.total {
            Some(self.next)
        } else {
            None
        }
    }

    /// Decision on one controller's LED-count query: a count yields the
    /// uniform frame to write to that controller, a failure skips it. Either
    /// way the walk moves on to the next controller — one controller's
    /// failure never disturbs the rest of the cycle.
    pub fn on_led_count(&mut self, leds: Option<usize>) -> (w: Option<LedWrite>)
        requires
            old(self).wf(),
            old(self).next < old(self).total,
        ensures
            final(self).wf(),
            final(self).color == old(self).color,
            final(self).total == old(self).total,
            final(self).next == old(self).next + 1,
            match leds {
                Some(n) => w matches Some(lw) && lw.controller == old(self).next
                    && lw.colors@.len() == n && forall|k: int|
                    0 <= k < n ==> lw.colors@[k] == old(self).color,
                None => w is None,
            },
    {
        let id = self.next;
        self.next = self.next + 1;
        match leds {
            Some(n) => Some(LedWrite { controller: id, colors: uniform_frame(self.color, n) }),
            None => None,
        }
    }

    /// Decision on the outcome of one write: a failure is fatal — the
    /// session is no longer trustworthy — and is surfaced as a typed error
    /// naming the controller.
    pub fn on_write_result(&self, controller: u32, ok: bool) -> (r: Result<(), DispatchError>)
        ensures
            r == if ok {
                Ok::<(), DispatchError>(())
            } else {
                Err::<(), DispatchError>(DispatchError::WriteFailed { controller })
            },
    {
        if ok {
            Ok(())
        } else {
            Err(DispatchError::WriteFailed { controller })
        }
    }
}

/// The dispatch plan of one cycle: given the result of every controller's
/// LED-count query, the pairs (controller, LED count) that receive a write,
/// in controller order. Controllers whose query failed are absent.
pub open spec fn spec_plan(counts: Seq<Option<usize>>) -> Seq<(int, usize)>
    decreases counts.len(),
{
    if counts.len() == 0 {
        Seq::empty()
    } else {
        let rest = spec_plan(counts.drop_last());
        match counts.last() {
            Some(n) => rest.push((counts.len() - 1, n)),
            None => rest,
        }
    }
}

/// Drives a full cycle over the query results of every controller and
/// returns the writes the synchronizer decided on: exactly one uniform
/// frame per controller whose LED count was obtained, in controller order.
pub fn plan_writes(color: ColorRgb, led_counts: &Vec<Option<usize>>) -> (ws: Vec<LedWrite>)
    requires
        led_counts@.len() <= u32::MAX,
    ensures
        ws@.len() == spec_plan(led_counts@).len(),
        forall|k: int|
            0 <= k < ws@.len() ==> (#[trigger] ws@[k]).controller == spec_plan(led_counts@)[k].0
                && ws@[k].colors@.len() == spec_plan(led_counts@)[k].1 && forall|l: int|
                0 <= l < ws@[k].colors@.len() ==> ws@[k].colors@[l] == color,
{
    let total: u32 = led_counts.len() as u32;
    let mut sync = DeviceSynchronizer { color, total, next: 0 };
    let mut ws: Vec<LedWrite> = Vec::new();
    let mut i: usize = 0;
    while i < led_counts.len()
        invariant
            i <= led_counts@.len(),
            led_counts@.len() <= u32::MAX,
            sync.total == led_counts@.len(),
            sync.next == i,
            sync.color == color,
            ws@.len() == spec_plan(led_counts@.take(i as int)).len(),
            forall|k: int|
                0 <= k < ws@.len() ==> (#[trigger] ws@[k]).controller == spec_plan(
                    led_counts@.take(i as int),
                )[k].0 && ws@[k].colors@.len() == spec_plan(led_counts@.take(i as int))[k].1
                && forall|l: int| 0 <= l < ws@[k].colors@.len() ==> ws@[k].colors@[l] == color,
        decreases led_counts@.len() - i,
    {
        proof {
            assert(led_counts@.take(i + 1).drop_last() =~= led_counts@.take(i as int));
            assert(led_counts@.take(i + 1).last() == led_counts@[i as int]);
        }
        let c = led_counts[i];
        match sync.on_led_count(c) {
            Some(w) => {
                ws.push(w);
            },
            None => {},
        }
        i = i + 1;
    }
    proof {
        assert(led_counts@.take(led_counts@.len() as int) =~= led_counts@);
    }
    ws
}

/// Partial-failure containment: a controller whose LED-count query failed is
/// the only one left out of the plan — every controller whose count was
/// obtained receives its write, and no write goes to a controller whose
/// count was not obtained.
pub proof fn lemma_partial_failure_containment(counts: Seq<Option<usize>>)
    ensures
        forall|j: int|
            0 <= j < counts.len() ==> ((#[trigger] counts[j]) matches Some(n) ==> exists|k: int|
                0 <= k < spec_plan(counts).len() && #[trigger] spec_plan(counts)[k] == (j, n)),
        forall|k: int|
            0 <= k < spec_plan(counts).len() ==> 0 <= (#[trigger] spec_plan(counts)[k]).0
                < counts.len() && counts[spec_plan(counts)[k].0] == Some(spec_plan(counts)[k].1),
    decreases counts.len(),
{
    if counts.len() > 0 {
        lemma_partial_failure_containment(counts.drop_last());
        let rest = spec_plan(counts.drop_last());
        assert(forall|i: int| 0 <= i < counts.len() - 1 ==> counts[i] == counts.drop_last()[i]);
        assert forall|j: int|
            0 <= j < counts.len() && (#[trigger] counts[j]) is Some implies exists|k: int|
            0 <= k < spec_plan(counts).len() && #[trigger] spec_plan(counts)[k] == (
                j,
                counts[j].unwrap(),
            ) by {
            let n = counts[j].unwrap();
            if j < counts.len() - 1 {
                let k = choose|k: int| 0 <= k < rest.len() && #[trigger] rest[k] == (j, n);
                assert(spec_plan(counts)[k] == (j, n));
            } else {
                assert(spec_plan(counts)[spec_plan(counts).len() - 1] == (j, n));
            }
        }
    }
}

} // verus!
