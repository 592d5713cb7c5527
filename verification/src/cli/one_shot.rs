//! A one-shot generation, step by step.
//!
//! A sampled token is evaluated before it is printed, a greedy one after, and
//! the last greedy one not at all.

use vstd::prelude::*;
use vstd::string::*;

verus! {

/// What a generation does next.
#[derive(Clone, Copy, Debug, PartialEq, Eq, Structural)]
pub enum ShotAction {
    /// Choose a token, by sampling or greedily.
    Choose,
    /// Evaluate the token.
    Eval(i32),
    /// Print the token.
    Print(i32),
    /// End the text.
    Finish,
}

/// Why a generation ended early.
#[derive(Clone, Copy, Debug, PartialEq, Eq, Structural)]
pub enum ShotFailure {
    NoFailure,
    /// No token could be chosen.
    Choice,
    /// A token could not be evaluated.
    Eval,
}

/// A generation of at most `max_tokens` tokens.
#[derive(Clone, Copy, Debug, PartialEq, Eq, Structural)]
pub struct OneShot {
    pub sampled: bool,
    pub max_tokens: i32,
    /// The tokens that are done.
    pub generated: i32,
    pub action: ShotAction,
    pub failure: ShotFailure,
}

impl OneShot {
    /// The token in hand is one that may be shown, and there is room for it.
    pub open spec fn well_formed(self) -> bool {
        &&& 0 <= self.generated
        &&& match self.action {
            ShotAction::Choose => self.generated < self.max_tokens,
            ShotAction::Eval(t) => 0 <= t && self.generated < self.max_tokens,
            ShotAction::Print(t) => 0 <= t && self.generated < self.max_tokens,
            ShotAction::Finish => true,
        }
    }

    /// The generation with one more token done.
    pub open spec fn counted(self) -> OneShot {
        OneShot {
            generated: (self.generated + 1) as i32,
            action: if self.generated + 1 < self.max_tokens {
                ShotAction::Choose
            } else {
                ShotAction::Finish
            },
            ..self
        }
    }

    /// The generation after the choice of `token`.
    pub open spec fn after_choice(self, token: i32, is_stop: bool) -> OneShot {
        if token < 0 {
            OneShot { action: ShotAction::Finish, failure: ShotFailure::Choice, ..self }
        } else if is_stop {
            OneShot { action: ShotAction::Finish, ..self }
        } else if self.sampled {
            OneShot { action: ShotAction::Eval(token), ..self }
        } else {
            OneShot { action: ShotAction::Print(token), ..self }
        }
    }

    /// The generation after an evaluation of the token in hand.
    pub open spec fn after_eval(self, ok: bool) -> OneShot {
        if !ok {
            OneShot { action: ShotAction::Finish, failure: ShotFailure::Eval, ..self }
        } else if self.sampled {
            OneShot { action: ShotAction::Print(self.action->Eval_0), ..self }
        } else {
            self.counted()
        }
    }

    /// The generation after printing the token in hand.
    pub open spec fn after_print(self) -> OneShot {
        if self.sampled {
            self.counted()
        } else if self.generated + 1 == self.max_tokens {
            OneShot { action: ShotAction::Finish, ..self }
        } else {
            OneShot { action: ShotAction::Eval(self.action->Print_0), ..self }
        }
    }

    /// Begins a generation.
    pub fn new(sampled: bool, max_tokens: i32) -> (r: OneShot)
        ensures
            r.well_formed(),
            r.sampled == sampled,
            r.max_tokens == max_tokens,
            r.generated == 0,
            r.failure == ShotFailure::NoFailure,
            r.action == if max_tokens > 0 {
                ShotAction::Choose
            } else {
                ShotAction::Finish
            },
    {
        OneShot {
            sampled,
            max_tokens,
            generated: 0,
            action: if max_tokens > 0 {
                ShotAction::Choose
            } else {
                ShotAction::Finish
            },
            failure: ShotFailure::NoFailure,
        }
    }

    fn count(&mut self)
        requires
            0 <= old(self).generated < old(self).max_tokens,
        ensures
            *final(self) == old(self).counted(),
    {
        self.generated = self.generated + 1;
        self.action = if self.generated < self.max_tokens {
            ShotAction::Choose
        } else {
            ShotAction::Finish
        };
    }

    /// `token` was chosen; below 0 there was none.
    pub fn chosen(&mut self, token: i32, is_stop: bool)
        requires
            old(self).well_formed(),
            old(self).action == ShotAction::Choose,
        ensures
            final(self).well_formed(),
            *final(self) == old(self).after_choice(token, is_stop),
    {
        if token < 0 {
            self.failure = ShotFailure::Choice;
            self.action = ShotAction::Finish;
        } else if is_stop {
            self.action = ShotAction::Finish;
        } else if self.sampled {
            self.action = ShotAction::Eval(token);
        } else {
            self.action = ShotAction::Print(token);
        }
    }

    /// The token in hand was evaluated.
    pub fn evaluated(&mut self, ok: bool)
        requires
            old(self).well_formed(),
            old(self).action is Eval,
        ensures
            final(self).well_formed(),
            *final(self) == old(self).after_eval(ok),
    {
        if let ShotAction::Eval(token) = self.action {
            if !ok {
                self.failure = ShotFailure::Eval;
                self.action = ShotAction::Finish;
            } else if self.sampled {
                self.action = ShotAction::Print(token);
            } else {
                self.count();
            }
        }
    }

    /// The token in hand was printed.
    pub fn printed(&mut self)
        requires
            old(self).well_formed(),
            old(self).action is Print,
        ensures
            final(self).well_formed(),
            *final(self) == old(self).after_print(),
    {
        if let ShotAction::Print(token) = self.action {
            if self.sampled {
                self.count();
            } else if self.generated + 1 == self.max_tokens {
                self.action = ShotAction::Finish;
            } else {
                self.action = ShotAction::Eval(token);
            }
        }
    }

    /// The message of the failure, if there was one other than the engine's.
    pub fn choice_message(&self) -> (r: Option<&'static str>)
        ensures
            match r {
                None => self.failure != ShotFailure::Choice,
                Some(m) => self.failure == ShotFailure::Choice && m@ == if self.sampled {
                    "failed to sample the next token"@
                } else {
                    "failed to select the next token"@
                },
            },
    {
        match self.failure {
            ShotFailure::Choice => Some(
                if self.sampled {
                    "failed to sample the next token"
                } else {
                    "failed to select the next token"
                },
            ),
            _ => None,
        }
    }
}

/// Only a token that was chosen and does not stop the text is printed, and a
/// sampled one only after it was evaluated.
pub proof fn law_printed_tokens(s: OneShot, token: i32, is_stop: bool, ok: bool)
    requires
        s.well_formed(),
        s.action == ShotAction::Choose,
    ensures
        s.after_choice(token, is_stop).action == ShotAction::Print(token) ==> token >= 0
            && !is_stop && !s.sampled,
        s.sampled && s.after_choice(token, is_stop).action is Eval ==> s.after_choice(
            token,
            is_stop,
        ).after_eval(true).action == ShotAction::Print(token) && !(s.after_choice(
            token,
            is_stop,
        ).after_eval(false).action is Print),
{
}

/// A generation never counts more tokens than it may make.
pub proof fn law_count_is_bounded(s: OneShot)
    requires
        s.well_formed(),
        s.generated < s.max_tokens,
    ensures
        s.counted().generated <= s.max_tokens,
        s.counted().well_formed(),
{
}

} // verus!
