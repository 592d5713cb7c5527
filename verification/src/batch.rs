//! Continuous batching: what the host hands to the engine's scheduler.

use std::collections::HashMap;
use vstd::prelude::*;

verus! {

broadcast use vstd::std_specs::hash::group_hash_axioms;

/// Sampling is left to the engine.
pub const CONT_SAMPLE_NONE: i32 = 0;

/// The most likely token is taken.
pub const CONT_SAMPLE_GREEDY: i32 = 1;

/// The override that forces `token_id`.
pub fn cont_sample_token(token_id: i32) -> (r: i32)
    requires
        token_id <= i32::MAX - 2,
    ensures
        r == token_id + 2,
{
    token_id + 2
}

/// A forced token is told from the two other overrides, and from every other
/// forced token.
pub proof fn law_overrides_are_distinct(a: i32, b: i32)
    requires
        0 <= a,
        0 <= b,
    ensures
        a + 2 != CONT_SAMPLE_NONE,
        a + 2 != CONT_SAMPLE_GREEDY,
        a + 2 == b + 2 ==> a == b,
{
}

/// One admission. Fractions are held as the bits of 32-bit floats.
#[derive(Debug)]
pub struct ContAdmit {
    pub user: usize,
    pub tokens: Vec<i32>,
    pub max_new: i32,
    /// Below 0: the model's own end token.
    pub eos: i32,
    /// 0 or below: the most likely token, whatever the rest of the sampling.
    pub temperature_bits: u32,
    pub top_k: i32,
    pub top_p_bits: u32,
    pub min_p_bits: u32,
    pub seed: u64,
    /// The bank to place the request in, plus 1; 0 leaves it to the engine.
    pub place_bank: i32,
    /// The length of the prefix that is cached.
    pub n_cached: i32,
    /// The bank to copy from, plus 1; 0 for none.
    pub fork_bank: i32,
}

impl ContAdmit {
    /// A greedy admission with nothing cached.
    pub fn cold(user: usize, tokens: Vec<i32>, max_new: i32) -> (r: ContAdmit)
        ensures
            r.user == user,
            r.tokens@ == tokens@,
            r.max_new == max_new,
            r.eos == -1,
            r.temperature_bits == 0,
            r.top_k == 0,
            r.top_p_bits == 0,
            r.min_p_bits == 0,
            r.seed == 0,
            r.place_bank == 0,
            r.n_cached == 0,
            r.fork_bank == 0,
    {
        ContAdmit {
            user,
            tokens,
            max_new,
            eos: -1,
            temperature_bits: 0,
            top_k: 0,
            top_p_bits: 0,
            min_p_bits: 0,
            seed: 0,
            place_bank: 0,
            n_cached: 0,
            fork_bank: 0,
        }
    }
}

/// The host's half of a batch run. No admission and no active sequence ends
/// the run; `on_token` aborts its sequence with `false`, `on_admitted` cancels
/// before prefill, `alive` gives up a pending admission.
pub trait ContDriver {
    fn next_admission(&mut self) -> Option<ContAdmit>;

    fn on_token(&mut self, user: usize, token: i32) -> bool;

    fn on_done(&mut self, user: usize, tokens: &[i32], finish: i32);

    fn sample_override(&mut self, _user: usize) -> (r: i32)
        default_ensures
            r == CONT_SAMPLE_NONE,
    {
        CONT_SAMPLE_NONE
    }

    fn alive(&mut self, _user: usize) -> (r: bool)
        default_ensures
            r,
    {
        true
    }

    fn on_admitted(&mut self, _user: usize, _n_cached: i32, _n_computed: i32, _bank: i32) -> (r:
        bool)
        default_ensures
            r,
    {
        true
    }
}

/// What the engine reads of an admission, beside the tokens themselves.
#[derive(Clone, Copy, Debug, PartialEq, Eq, Structural)]
pub struct ContRequest {
    pub user: usize,
    pub n: i32,
    pub max_new: i32,
    pub eos: i32,
    pub temperature_bits: u32,
    pub top_k: i32,
    pub top_p_bits: u32,
    pub min_p_bits: u32,
    pub seed: u64,
    pub place_bank: i32,
    pub n_cached: i32,
    pub fork_bank: i32,
}

/// The request says what the admission says.
pub open spec fn asks(r: ContRequest, a: ContAdmit) -> bool {
    &&& r.user == a.user
    &&& r.n == a.tokens@.len()
    &&& r.max_new == a.max_new
    &&& r.eos == a.eos
    &&& r.temperature_bits == a.temperature_bits
    &&& r.top_k == a.top_k
    &&& r.top_p_bits == a.top_p_bits
    &&& r.min_p_bits == a.min_p_bits
    &&& r.seed == a.seed
    &&& r.place_bank == a.place_bank
    &&& r.n_cached == a.n_cached
    &&& r.fork_bank == a.fork_bank
}

/// Whether a sequence goes on after its driver was handed a token; it ends
/// where the driver failed.
pub fn token_reply(answer: Option<bool>) -> (r: i32)
    ensures
        r == if answer == Some(true) {
            1int
        } else {
            0
        },
{
    match answer {
        Some(true) => 1,
        _ => 0,
    }
}

/// Whether an admission stands; it does where its driver failed.
pub fn admission_reply(answer: Option<bool>) -> (r: i32)
    ensures
        r == if answer == Some(false) {
            0int
        } else {
            1
        },
{
    match answer {
        Some(false) => 0,
        _ => 1,
    }
}

/// The override of a driver; none where it failed.
pub fn override_reply(answer: Option<i32>) -> (r: i32)
    ensures
        r == match answer {
            Some(v) => v,
            None => CONT_SAMPLE_NONE,
        },
{
    match answer {
        Some(v) => v,
        None => CONT_SAMPLE_NONE,
    }
}

/// The prompts that the engine may still read, by user.
pub struct LivePrompts {
    prompts: HashMap<usize, Vec<i32>>,
}

impl View for LivePrompts {
    type V = Map<usize, Seq<i32>>;

    closed spec fn view(&self) -> Map<usize, Seq<i32>> {
        self.prompts@.map_values(|v: Vec<i32>| v@)
    }
}

impl LivePrompts {
    /// No prompt is live.
    pub fn new() -> (r: LivePrompts)
        ensures
            r@ == Map::<usize, Seq<i32>>::empty(),
    {
        let r = LivePrompts { prompts: HashMap::new() };
        assert(r@ =~= Map::empty());
        r
    }

    /// The prompt of `user` is live from its admission on; a later admission
    /// replaces it.
    pub fn insert(&mut self, user: usize, tokens: Vec<i32>)
        ensures
            final(self)@ == old(self)@.insert(user, tokens@),
    {
        let ghost before = self@;
        self.prompts.insert(user, tokens);
        assert(self@ =~= before.insert(user, tokens@));
    }

    /// The driver was asked for an admission: its prompt is live from then on.
    /// `None`, also of a driver that failed, admits nothing.
    pub fn admitted(&mut self, a: Option<ContAdmit>) -> (r: Option<ContRequest>)
        requires
            a matches Some(x) ==> x.tokens@.len() <= i32::MAX,
        ensures
            match a {
                None => r is None && final(self)@ == old(self)@,
                Some(x) => {
                    &&& r matches Some(q)
                    &&& asks(q, x)
                    &&& final(self)@ == old(self)@.insert(x.user, x.tokens@)
                },
            },
    {
        match a {
            None => None,
            Some(x) => {
                let q = ContRequest {
                    user: x.user,
                    n: x.tokens.len() as i32,
                    max_new: x.max_new,
                    eos: x.eos,
                    temperature_bits: x.temperature_bits,
                    top_k: x.top_k,
                    top_p_bits: x.top_p_bits,
                    min_p_bits: x.min_p_bits,
                    seed: x.seed,
                    place_bank: x.place_bank,
                    n_cached: x.n_cached,
                    fork_bank: x.fork_bank,
                };
                self.insert(x.user, x.tokens);
                Some(q)
            },
        }
    }

    /// The prompt of `user` is dropped when the user's request is done.
    pub fn done(&mut self, user: usize)
        ensures
            final(self)@ == old(self)@.remove(user),
    {
        let ghost before = self@;
        self.prompts.remove(&user);
        assert(self@ =~= before.remove(user));
    }

    /// The prompt of `user`, if it is live.
    pub fn get(&self, user: usize) -> (r: Option<&Vec<i32>>)
        ensures
            match r {
                Some(v) => self@.dom().contains(user) && v@ == self@[user],
                None => !self@.dom().contains(user),
            },
    {
        self.prompts.get(&user)
    }
}

/// A prompt is live from its user's admission until that user is done, whoever
/// else is done meanwhile.
pub proof fn law_prompt_lives_until_done(
    live: Map<usize, Seq<i32>>,
    user: usize,
    tokens: Seq<i32>,
    other: usize,
)
    requires
        other != user,
    ensures
        live.insert(user, tokens).remove(other).dom().contains(user),
        live.insert(user, tokens).remove(other)[user] == tokens,
        !live.insert(user, tokens).remove(other).remove(user).dom().contains(user),
{
}

} // verus!
