//! A dump of log probabilities, step by step: a step is written, and unless
//! its token stops the text, the token is evaluated.

use vstd::prelude::*;

verus! {

/// What a dump does next.
#[derive(Clone, Copy, Debug, PartialEq, Eq, Structural)]
pub enum DumpAction {
    /// Write the step of the most likely token.
    Step,
    /// Evaluate the token.
    Eval(i32),
    /// End the file.
    Done,
}

/// A dump of at most `limit` steps.
#[derive(Clone, Copy, Debug, PartialEq, Eq, Structural)]
pub struct DumpRun {
    pub limit: i32,
    /// The steps that are written and evaluated; the number of the next one.
    pub generated: i32,
    pub action: DumpAction,
}

impl DumpRun {
    pub open spec fn well_formed(self) -> bool {
        &&& 0 <= self.generated
        &&& !(self.action is Done) ==> self.generated < self.limit
    }

    /// The dump after the step of `token` was written.
    pub open spec fn after_step(self, token: i32, is_stop: bool) -> DumpRun {
        DumpRun {
            action: if is_stop {
                DumpAction::Done
            } else {
                DumpAction::Eval(token)
            },
            ..self
        }
    }

    /// The dump after the token was evaluated.
    pub open spec fn after_eval(self) -> DumpRun {
        DumpRun {
            generated: (self.generated + 1) as i32,
            action: if self.generated + 1 < self.limit {
                DumpAction::Step
            } else {
                DumpAction::Done
            },
            ..self
        }
    }

    /// Begins a dump.
    pub fn new(limit: i32) -> (r: DumpRun)
        ensures
            r.well_formed(),
            r == (DumpRun {
                limit,
                generated: 0,
                action: if limit > 0 {
                    DumpAction::Step
                } else {
                    DumpAction::Done
                },
            }),
    {
        DumpRun {
            limit,
            generated: 0,
            action: if limit > 0 {
                DumpAction::Step
            } else {
                DumpAction::Done
            },
        }
    }

    /// The step of `token` was written.
    pub fn stepped(&mut self, token: i32, is_stop: bool)
        requires
            old(self).well_formed(),
            old(self).action == DumpAction::Step,
        ensures
            final(self).well_formed(),
            *final(self) == old(self).after_step(token, is_stop),
    {
        self.action = if is_stop {
            DumpAction::Done
        } else {
            DumpAction::Eval(token)
        };
    }

    /// The token was evaluated.
    pub fn evaluated(&mut self)
        requires
            old(self).well_formed(),
            old(self).action is Eval,
        ensures
            final(self).well_formed(),
            *final(self) == old(self).after_eval(),
    {
        self.generated = self.generated + 1;
        self.action = if self.generated < self.limit {
            DumpAction::Step
        } else {
            DumpAction::Done
        };
    }
}

/// The token that is written is the one that is evaluated; one that stops the
/// text is not evaluated, and ends the dump.
pub proof fn law_written_token_is_evaluated(d: DumpRun, token: i32, is_stop: bool)
    requires
        d.well_formed(),
        d.action == DumpAction::Step,
    ensures
        d.after_step(token, is_stop).action == if is_stop {
            DumpAction::Done
        } else {
            DumpAction::Eval(token)
        },
        d.after_step(token, is_stop).generated == d.generated,
        !is_stop ==> d.after_step(token, is_stop).after_eval().generated == d.generated + 1,
        !is_stop ==> d.after_step(token, is_stop).after_eval().generated <= d.limit,
{
}

} // verus!
