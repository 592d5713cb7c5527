//! What the terminal shows of a running agent.

pub mod progress;
pub mod sink;

use vstd::prelude::*;

verus! {

/// Whether there is a terminal to draw on.
#[derive(Clone, Copy, Debug, PartialEq, Eq, Structural)]
pub enum Surface {
    Tui,
    Plain,
}

impl Surface {
    pub fn from_tty(is_tty: bool) -> (r: Surface)
        ensures
            r == if is_tty {
                Surface::Tui
            } else {
                Surface::Plain
            },
    {
        if is_tty {
            Surface::Tui
        } else {
            Surface::Plain
        }
    }

    pub fn is_tui(self) -> (r: bool)
        ensures
            r == (self == Surface::Tui),
    {
        self == Surface::Tui
    }
}

/// What the agent is at.
#[derive(Clone, Copy, Debug, PartialEq, Eq, Structural)]
pub enum WorkerPhase {
    Idle,
    Prefill,
    Generating,
    Compacting,
    Draining,
    Saving,
    Error,
    Stopped,
}

/// The state of the agent.
#[derive(Clone, Copy, Debug)]
pub struct Status<'a> {
    pub phase: WorkerPhase,
    pub ctx_used: i32,
    pub ctx_size: i32,
    pub prefill_done: i32,
    pub prefill_total: i32,
    pub prefill_label: u32,
    pub generated: i32,
    /// The tokens per second, in decimal.
    pub gen_tps: &'a str,
    pub power_percent: i32,
    pub error: &'a str,
}

/// The state of a prefill.
#[derive(Clone, Copy, Debug)]
pub struct PrefillView {
    pub ctx_size: i32,
    pub done: i32,
    pub total: i32,
    pub label: u32,
    pub power_percent: i32,
}

/// The state of a generation.
#[derive(Clone, Copy, Debug)]
pub struct GenerationView<'a> {
    pub ctx_used: i32,
    pub ctx_size: i32,
    pub generated: i32,
    pub gen_tps: &'a str,
    pub power_percent: i32,
}

impl PrefillView {
    /// The state of the agent during a prefill.
    pub fn status(self) -> (r: Status<'static>)
        ensures
            r.phase == WorkerPhase::Prefill,
            r.ctx_used == self.done,
            r.ctx_size == self.ctx_size,
            r.prefill_done == self.done,
            r.prefill_total == self.total,
            r.prefill_label == self.label,
            r.generated == 0,
            r.gen_tps@ == "0.0"@,
            r.power_percent == self.power_percent,
            r.error@ == ""@,
    {
        Status {
            phase: WorkerPhase::Prefill,
            ctx_used: self.done,
            ctx_size: self.ctx_size,
            prefill_done: self.done,
            prefill_total: self.total,
            prefill_label: self.label,
            generated: 0,
            gen_tps: "0.0",
            power_percent: self.power_percent,
            error: "",
        }
    }
}

impl<'a> GenerationView<'a> {
    /// The state of the agent during a generation.
    pub fn status(self) -> (r: Status<'a>)
        ensures
            r.phase == WorkerPhase::Generating,
            r.ctx_used == self.ctx_used,
            r.ctx_size == self.ctx_size,
            r.prefill_done == 0,
            r.prefill_total == 0,
            r.prefill_label == 0,
            r.generated == self.generated,
            r.gen_tps@ == self.gen_tps@,
            r.power_percent == self.power_percent,
            r.error@ == ""@,
    {
        Status {
            phase: WorkerPhase::Generating,
            ctx_used: self.ctx_used,
            ctx_size: self.ctx_size,
            prefill_done: 0,
            prefill_total: 0,
            prefill_label: 0,
            generated: self.generated,
            gen_tps: self.gen_tps,
            power_percent: self.power_percent,
            error: "",
        }
    }
}

} // verus!
