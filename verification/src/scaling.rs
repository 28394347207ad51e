//! The scaling policy: one step up or down within fixed bounds, no sooner
//! than a cool-down after the last change.
//!
//! The caller measures the load and compares it with its thresholds; the
//! policy decides from the result.

use vstd::prelude::*;
use vstd::string::*;

verus! {

/// The bounds of scaling.
#[derive(Clone, Copy, Debug, PartialEq, Eq, Structural)]
pub struct ScalingConfig {
    /// The smallest number of cores.
    pub min_vcore: i32,
    /// The greatest number of cores.
    pub max_vcore: i32,
    /// The shortest time between two changes, in milliseconds.
    pub cooldown_period: u64,
}

/// The scale at one moment.
#[derive(Clone, Copy, Debug, PartialEq, Eq, Structural)]
pub struct ScaleState {
    /// The number of cores.
    pub vcore_count: i32,
    /// When the number last changed, in milliseconds.
    pub last_scale_time: u64,
}

/// The measured load against the caller's thresholds.
#[derive(Clone, Copy, Debug, PartialEq, Eq, Structural)]
pub enum Load {
    /// Above the threshold for scaling up.
    High,
    /// Between the thresholds.
    Normal,
    /// Below the threshold for scaling down.
    Low,
}

/// One change of scale.
#[derive(Debug)]
pub struct ScalingEvent {
    /// When the scale changed, in milliseconds.
    pub timestamp: u64,
    pub old_scale: i32,
    pub new_scale: i32,
    /// Why it changed.
    pub reason: String,
}

/// The mathematical form of a [`ScalingEvent`].
pub struct ScalingEventView {
    pub timestamp: nat,
    pub old_scale: int,
    pub new_scale: int,
    pub reason: Seq<char>,
}

impl View for ScalingEvent {
    type V = ScalingEventView;

    open spec fn view(&self) -> ScalingEventView {
        ScalingEventView {
            timestamp: self.timestamp as nat,
            old_scale: self.old_scale as int,
            new_scale: self.new_scale as int,
            reason: self.reason@,
        }
    }
}

/// The views of a sequence of scaling events, in order.
pub open spec fn history_view(items: Seq<ScalingEvent>) -> Seq<ScalingEventView> {
    Seq::new(items.len(), |i: int| items[i]@)
}

/// The scaling policy with its state and the history of its changes.
#[derive(Debug)]
pub struct ScalingManager {
    current_scale: ScaleState,
    scaling_history: Vec<ScalingEvent>,
    config: ScalingConfig,
}

/// The mathematical form of a [`ScalingManager`].
pub struct ScalingView {
    pub state: ScaleState,
    pub history: Seq<ScalingEventView>,
    pub config: ScalingConfig,
}

impl View for ScalingManager {
    type V = ScalingView;

    closed spec fn view(&self) -> ScalingView {
        ScalingView {
            state: self.current_scale,
            history: history_view(self.scaling_history@),
            config: self.config,
        }
    }
}

/// The time since the last change; none where the clock went back.
pub open spec fn elapsed(now: u64, last: u64) -> nat {
    if now >= last {
        (now - last) as nat
    } else {
        0
    }
}

/// The number of cores after one look at the load. Nothing changes before
/// the cool-down is over. After it, a high load adds one core below the
/// upper bound, and a low load takes one away above the lower bound.
pub open spec fn next_scale(state: ScaleState, config: ScalingConfig, load: Load, now: u64) -> int {
    if elapsed(now, state.last_scale_time) < config.cooldown_period {
        state.vcore_count as int
    } else {
        match load {
            Load::High => if state.vcore_count < config.max_vcore {
                state.vcore_count + 1
            } else {
                state.vcore_count as int
            },
            Load::Low => if state.vcore_count > config.min_vcore {
                state.vcore_count - 1
            } else {
                state.vcore_count as int
            },
            Load::Normal => state.vcore_count as int,
        }
    }
}

/// The reason recorded with a change of scale.
pub open spec fn reason_spec(load: Load, usage: Seq<char>) -> Seq<char> {
    match load {
        Load::Low => "Low usage: "@ + usage,
        _ => "High usage: "@ + usage,
    }
}

/// The policy after one look at the load: where the scale changes, the
/// change is dated and recorded; otherwise everything stays.
pub open spec fn monitor_spec(v: ScalingView, load: Load, usage: Seq<char>, now: u64) -> ScalingView {
    let next = next_scale(v.state, v.config, load, now);
    if next == v.state.vcore_count {
        v
    } else {
        ScalingView {
            state: ScaleState { vcore_count: next as i32, last_scale_time: now },
            history: v.history.push(
                ScalingEventView {
                    timestamp: now as nat,
                    old_scale: v.state.vcore_count as int,
                    new_scale: next,
                    reason: reason_spec(load, usage),
                },
            ),
            config: v.config,
        }
    }
}

/// A scale inside the bounds stays inside them, and one look changes it
/// by one core at most.
pub proof fn lemma_scale_stays_in_bounds(
    state: ScaleState,
    config: ScalingConfig,
    load: Load,
    now: u64,
)
    requires
        config.min_vcore <= state.vcore_count <= config.max_vcore,
    ensures
        config.min_vcore <= next_scale(state, config, load, now) <= config.max_vcore,
        state.vcore_count - 1 <= next_scale(state, config, load, now) <= state.vcore_count + 1,
{
}

/// Before the cool-down is over nothing changes, whatever the load.
pub proof fn lemma_cooldown_holds(v: ScalingView, load: Load, usage: Seq<char>, now: u64)
    requires
        elapsed(now, v.state.last_scale_time) < v.config.cooldown_period,
    ensures
        monitor_spec(v, load, usage, now) == v,
{
}

impl ScalingManager {
    /// A policy that starts at the smallest scale at the time `now`, with
    /// an empty history.
    pub fn new(config: ScalingConfig, now: u64) -> (r: ScalingManager)
        ensures
            r@ == (ScalingView {
                state: ScaleState { vcore_count: config.min_vcore, last_scale_time: now },
                history: Seq::empty(),
                config,
            }),
    {
        let r = ScalingManager {
            current_scale: ScaleState { vcore_count: config.min_vcore, last_scale_time: now },
            scaling_history: Vec::new(),
            config,
        };
        proof {
            assert(r@.history =~= Seq::<ScalingEventView>::empty());
        }
        r
    }

    /// The current number of cores.
    pub fn vcore_count(&self) -> (n: i32)
        ensures
            n == self@.state.vcore_count,
    {
        self.current_scale.vcore_count
    }

    /// The changes of scale so far, oldest first.
    pub fn history(&self) -> (r: &Vec<ScalingEvent>)
        ensures
            history_view(r@) == self@.history,
    {
        &self.scaling_history
    }

    /// Looks at the load at the time `now` and scales by one step where the
    /// policy asks for it. `usage` is the measured load as text, for the
    /// record. Returns the new number of cores where it changed.
    pub fn monitor_and_scale(&mut self, load: Load, usage: &str, now: u64) -> (r: Option<i32>)
        ensures
            final(self)@ == monitor_spec(old(self)@, load, usage@, now),
            match r {
                Some(n) => n == final(self)@.state.vcore_count && n != old(self)@.state.vcore_count,
                None => final(self)@ == old(self)@,
            },
    {
        let last = self.current_scale.last_scale_time;
        let waited: u64 = if now >= last {
            now - last
        } else {
            0
        };
        if waited < self.config.cooldown_period {
            return None;
        }
        let count = self.current_scale.vcore_count;
        match load {
            Load::High => {
                if count < self.config.max_vcore {
                    let mut reason = String::from_str("High usage: ");
                    reason.append(usage);
                    self.record_scaling_event(count, count + 1, reason, now);
                    Some(count + 1)
                } else {
                    None
                }
            },
            Load::Low => {
                if count > self.config.min_vcore {
                    let mut reason = String::from_str("Low usage: ");
                    reason.append(usage);
                    self.record_scaling_event(count, count - 1, reason, now);
                    Some(count - 1)
                } else {
                    None
                }
            },
            Load::Normal => None,
        }
    }

    /// Sets the new scale, dates it and records the change.
    fn record_scaling_event(&mut self, old_scale: i32, new_scale: i32, reason: String, now: u64)
        ensures
            final(self)@ == (ScalingView {
                state: ScaleState { vcore_count: new_scale, last_scale_time: now },
                history: old(self)@.history.push(
                    ScalingEventView {
                        timestamp: now as nat,
                        old_scale: old_scale as int,
                        new_scale: new_scale as int,
                        reason: reason@,
                    },
                ),
                config: old(self)@.config,
            }),
    {
        let event = ScalingEvent { timestamp: now, old_scale, new_scale, reason };
        proof {
            assert(history_view(self.scaling_history@.push(event)) =~= history_view(
                self.scaling_history@,
            ).push(event@));
        }
        self.scaling_history.push(event);
        self.current_scale = ScaleState { vcore_count: new_scale, last_scale_time: now };
    }
}

} // verus!
