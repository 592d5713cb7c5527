//! The tools that run, follow and stop shell commands.

pub mod obs;

use crate::agent::search::scan;
use crate::agent::search::scan::parse_int_default;
use crate::bench;
use crate::text;
use crate::text::{chars_of, push_i64, str_eq};
use vstd::arithmetic::power2::*;
use vstd::bits::*;
use vstd::prelude::*;
use vstd::string::*;

verus! {

/// The names of the tools.
pub const BASH: &'static str = "bash";

pub const BASH_STATUS: &'static str = "bash_status";

pub const BASH_STOP: &'static str = "bash_stop";

pub const DEFAULT_TIMEOUT: i32 = 3600;

pub const MAX_TIMEOUT: i32 = 86400;

pub const DEFAULT_REFRESH: i32 = 60;

pub const MAX_REFRESH: i32 = 3600;

/// A job: a command that was started.
#[derive(Debug)]
pub struct BashJob {
    pub id: i32,
    pub pid: i32,
    /// The file with its output.
    pub path: String,
    pub timeout_sec: i32,
    /// It was shown before.
    pub observed_once: bool,
    pub exit_status: i32,
    pub running: bool,
    pub timed_out: bool,
}

/// The jobs, the newest first.
#[derive(Debug)]
pub struct BashTable {
    pub next_id: i32,
    pub jobs: Vec<BashJob>,
}

/// How a process ended.
#[derive(Clone, Copy, Debug, PartialEq, Eq, Structural)]
pub enum ExitStatus {
    Code(i32),
    Signal(i32),
    Unknown,
}

/// The number that tells how a process ended.
pub open spec fn exit_number(status: ExitStatus) -> int {
    match status {
        ExitStatus::Code(c) => c as int,
        ExitStatus::Signal(s) => 128 + s,
        ExitStatus::Unknown => -1,
    }
}

impl BashJob {
    /// The process has ended.
    pub fn reaped(&mut self, status: ExitStatus)
        requires
            exit_number(status) <= i32::MAX,
        ensures
            *final(self) == (BashJob {
                exit_status: exit_number(status) as i32,
                running: false,
                ..*old(self)
            }),
    {
        self.exit_status = match status {
            ExitStatus::Code(c) => c,
            ExitStatus::Signal(s) => 128 + s,
            ExitStatus::Unknown => -1,
        };
        self.running = false;
    }

    /// The job was looked at: `ended` tells how its process ended, if it did;
    /// `elapsed` is how long it has run, in nanoseconds. Gives whether it is
    /// to be killed and waited for, because its time is up.
    pub fn polled(&mut self, ended: Option<ExitStatus>, elapsed: u64) -> (r: bool)
        requires
            ended is Some ==> exit_number(ended->0) <= i32::MAX,
        ensures
            !old(self).running ==> !r && *final(self) == *old(self),
            old(self).running ==> match ended {
                Some(status) => !r && *final(self) == (BashJob {
                    exit_status: exit_number(status) as i32,
                    running: false,
                    ..*old(self)
                }),
                None => r == (elapsed >= old(self).timeout_sec * 1_000_000_000) && *final(self)
                    == (BashJob { timed_out: old(self).timed_out || r, ..*old(self) }),
            },
    {
        if !self.running {
            return false;
        }
        if let Some(status) = ended {
            self.reaped(status);
            return false;
        }
        let expired = self.timeout_sec < 0 || elapsed >= self.timeout_sec as u64 * 1_000_000_000;
        if expired {
            self.timed_out = true;
        }
        expired
    }
}

/// What stopping a job does next.
#[derive(Clone, Copy, Debug, PartialEq, Eq, Structural)]
pub enum StopAction {
    /// Ask the process to end.
    Terminate,
    /// Look at the job, and wait a little.
    Look,
    /// Kill the process and wait for it.
    Kill,
    Stopped,
}

/// What stopping a job does next: a process that was asked to end has one
/// second for it. `waited` counts from the asking, in nanoseconds.
pub fn stop_action(running: bool, asked: bool, waited: u64) -> (r: StopAction)
    ensures
        r == if !running {
            StopAction::Stopped
        } else if !asked {
            StopAction::Terminate
        } else if waited < 1_000_000_000 {
            StopAction::Look
        } else {
            StopAction::Kill
        },
{
    if !running {
        StopAction::Stopped
    } else if !asked {
        StopAction::Terminate
    } else if waited < 1_000_000_000 {
        StopAction::Look
    } else {
        StopAction::Kill
    }
}

/// Whether a job is still watched after `waited` nanoseconds: it runs, and the
/// refresh time is not over.
pub fn keeps_watching(running: bool, refresh: i32, waited: u64) -> (r: bool)
    ensures
        r == (running && waited < refresh * 1_000_000_000),
{
    running && refresh > 0 && waited < refresh as u64 * 1_000_000_000
}

/// The whole seconds of a 64-bit float that is positive and below 2 to the
/// 17th; 0 where it is below 1.
pub open spec fn whole_part(bits: u64) -> int {
    let exponent = bits / 0x10_0000_0000_0000;
    let fraction = bits % 0x10_0000_0000_0000 + 0x10_0000_0000_0000;
    if exponent < 1023 {
        0
    } else {
        fraction / (pow2((1075 - exponent) as nat) as int)
    }
}

/// `s` holds a zero character.
pub open spec fn holds_nul(s: Seq<char>) -> bool {
    exists|i: int| 0 <= i < s.len() && #[trigger] s[i] == '\0'
}

/// The seconds that a job may run: the number that is given, brought between a
/// second and a day; an hour where there is none that is above 0. `bits` are
/// those of the float that the start of the text writes.
pub open spec fn timeout_of(value: Option<&str>, bits: Option<u64>) -> int {
    if !crate::agent::write::given(value) || holds_nul(value->0@) || bits is None
        || !bench::float_finite(bits->0) || bits->0 >= 0x8000_0000_0000_0000 || bits->0 == 0 {
        DEFAULT_TIMEOUT as int
    } else if bits->0 >= 0x4100_0000_0000_0000 {
        MAX_TIMEOUT as int
    } else {
        scan::clamped(whole_part(bits->0), 1, MAX_TIMEOUT as int)
    }
}

fn has_nul(s: &str) -> (r: bool)
    ensures
        r == holds_nul(s@),
{
    let cs = chars_of(s);
    let n: usize = cs.len();
    let mut i: usize = 0;
    while i < n
        invariant
            cs@ == s@,
            n == cs@.len(),
            i <= n,
            forall|k: int| 0 <= k < i ==> #[trigger] cs@[k] != '\0',
        decreases n - i,
    {
        if cs[i] == '\0' {
            assert(s@[i as int] == '\0');
            return true;
        }
        i += 1;
    }
    false
}

/// The seconds that a job may run.
pub fn parse_timeout(value: Option<&str>, bits: Option<u64>) -> (r: i32)
    ensures
        r == timeout_of(value, bits),
{
    match value {
        Some(v) if v.unicode_len() > 0 => {
            if has_nul(v) {
                return DEFAULT_TIMEOUT;
            }
        },
        _ => {
            return DEFAULT_TIMEOUT;
        },
    }
    let bits: u64 = match bits {
        None => {
            return DEFAULT_TIMEOUT;
        },
        Some(b) => b,
    };
    if bits % 0x8000_0000_0000_0000 >= bench::F64_INFINITY || bits >= 0x8000_0000_0000_0000 || bits
        == 0 {
        return DEFAULT_TIMEOUT;
    }
    if bits >= 0x4100_0000_0000_0000 {
        return MAX_TIMEOUT;
    }
    let exponent: u64 = bits / 0x10_0000_0000_0000;
    if exponent < 1023 {
        return 1;
    }
    let fraction: u64 = bits % 0x10_0000_0000_0000 + 0x10_0000_0000_0000;
    let shift: u64 = 1075 - exponent;
    proof {
        lemma_u64_shr_is_div(fraction, shift);
        lemma_small_whole(fraction as int, shift as nat);
    }
    let whole: u64 = fraction >> shift;
    if whole > MAX_TIMEOUT as u64 {
        MAX_TIMEOUT
    } else {
        whole as i32
    }
}

proof fn lemma_small_whole(fraction: int, shift: nat)
    requires
        0x10_0000_0000_0000 <= fraction < 0x20_0000_0000_0000,
        shift <= 52,
    ensures
        1 <= fraction / (pow2(shift) as int),
{
    lemma_pow2_pos(shift);
    lemma_pow2_strictly_increases_or_same(shift);
    lemma2_to64();
    lemma_pow2_52();
    assert(1 <= fraction / (pow2(shift) as int)) by (nonlinear_arith)
        requires
            0 < pow2(shift) <= fraction,
    ;
}

proof fn lemma_pow2_52()
    ensures
        pow2(52) == 0x10_0000_0000_0000,
{
    lemma2_to64();
    lemma2_to64_rest();
}

proof fn lemma_pow2_strictly_increases_or_same(shift: nat)
    requires
        shift <= 52,
    ensures
        pow2(shift) <= pow2(52),
{
    if shift < 52 {
        lemma_pow2_strictly_increases(shift, 52);
    }
}

/// The arguments of a call.
#[derive(Clone, Copy, Debug)]
pub struct BashArgs<'a> {
    pub command: Option<&'a str>,
    pub timeout_sec: Option<&'a str>,
    /// The bits of the 64-bit float that the start of the timeout writes.
    pub timeout_bits: Option<u64>,
    pub refresh_sec: Option<&'a str>,
    pub job: Option<&'a str>,
    pub pid: Option<&'a str>,
}

/// What a call comes to.
#[derive(Debug)]
pub enum BashStep {
    /// It is answered at once.
    Answer(String),
    /// The command of the call is started and then watched.
    Start { timeout: i32, refresh: i32 },
    /// The job at this place is looked at, or stopped and watched.
    Follow { index: usize, refresh: i32, stop: bool },
}

/// A job is the one that is asked for: by its number, or by that of its
/// process where no number is given.
pub open spec fn is_asked_for(job: BashJob, id: int, pid: int) -> bool {
    (id > 0 && job.id == id) || (id <= 0 && pid > 0 && job.pid == pid)
}

/// The first job from `i` on that is asked for.
pub open spec fn job_from(jobs: Seq<BashJob>, id: int, pid: int, i: int) -> Option<int>
    decreases jobs.len() - i,
{
    if i < 0 || i >= jobs.len() {
        None
    } else if is_asked_for(jobs[i], id, pid) {
        Some(i)
    } else {
        job_from(jobs, id, pid, i + 1)
    }
}

/// What a failed start is answered.
pub fn start_failed(error: &str) -> (r: String)
    ensures
        r@ == "Tool error: bash failed to start: "@ + error@ + "\n"@,
{
    let mut r = String::from_str("Tool error: bash failed to start: ");
    r.append(error);
    r.append("\n");
    r
}

pub open spec fn not_found_text(id: int, pid: int) -> Seq<char> {
    "Tool error: bash job not found: job="@ + text::signed_decimal(id) + " pid="@
        + text::signed_decimal(pid) + "\n"@
}

/// What a call comes to.
pub open spec fn bash_plan(jobs: Seq<BashJob>, name: Seq<char>, call: BashArgs, r: BashStep) -> bool {
    let refresh = scan::int_or(call.refresh_sec, DEFAULT_REFRESH, 1, MAX_REFRESH);
    if name == BASH@ {
        if !crate::agent::write::given(call.command) {
            r matches BashStep::Answer(s) && s@ == "Tool error: bash requires command\n"@
        } else {
            r == BashStep::Start {
                timeout: timeout_of(call.timeout_sec, call.timeout_bits) as i32,
                refresh: refresh as i32,
            }
        }
    } else if name == BASH_STATUS@ || name == BASH_STOP@ {
        let id = scan::int_or(call.job, 0, 0, i32::MAX);
        let pid = scan::int_or(call.pid, 0, 0, i32::MAX);
        match job_from(jobs, id, pid, 0) {
            None => r matches BashStep::Answer(s) && s@ == not_found_text(id, pid),
            Some(index) => r == BashStep::Follow {
                index: index as usize,
                refresh: refresh as i32,
                stop: name == BASH_STOP@,
            },
        }
    } else {
        r matches BashStep::Answer(s) && s@ == "Tool error: unknown tool\n"@
    }
}

/// The number of the job that is added next.
pub open spec fn new_id(next: i32) -> i32 {
    if next <= 0 {
        1
    } else {
        next
    }
}

impl BashTable {
    pub fn new() -> (r: BashTable)
        ensures
            r.next_id == 1,
            r.jobs@.len() == 0,
    {
        BashTable { next_id: 1, jobs: Vec::new() }
    }

    /// Adds a job that was started. It stands in front of the others.
    pub fn spawned(&mut self, pid: i32, path: String, timeout: i32)
        ensures
            final(self).next_id == if new_id(old(self).next_id) == i32::MAX {
                i32::MIN
            } else {
                (new_id(old(self).next_id) + 1) as i32
            },
            final(self).jobs@ == seq![
                (BashJob {
                    id: new_id(old(self).next_id),
                    pid,
                    path,
                    timeout_sec: timeout,
                    observed_once: false,
                    exit_status: -1i32,
                    running: true,
                    timed_out: false,
                }),
            ] + old(self).jobs@,
    {
        if self.next_id <= 0 {
            self.next_id = 1;
        }
        let id: i32 = self.next_id;
        self.next_id = if id == i32::MAX {
            i32::MIN
        } else {
            id + 1
        };
        self.jobs.insert(
            0,
            BashJob {
                id,
                pid,
                path,
                timeout_sec: timeout,
                observed_once: false,
                exit_status: -1,
                running: true,
                timed_out: false,
            },
        );
        assert(self.jobs@ =~= seq![self.jobs@[0]] + old(self).jobs@);
    }

    /// The place of the job that is asked for.
    pub fn find_job(&self, id: i32, pid: i32) -> (r: Option<usize>)
        ensures
            match (r, job_from(self.jobs@, id as int, pid as int, 0)) {
                (Some(i), Some(k)) => i == k && i < self.jobs@.len(),
                (None, None) => true,
                _ => false,
            },
    {
        let n: usize = self.jobs.len();
        let mut i: usize = 0;
        while i < n
            invariant
                n == self.jobs@.len(),
                i <= n,
                job_from(self.jobs@, id as int, pid as int, 0) == job_from(
                    self.jobs@,
                    id as int,
                    pid as int,
                    i as int,
                ),
            decreases n - i,
        {
            let job = &self.jobs[i];
            if (id > 0 && job.id == id) || (id <= 0 && pid > 0 && job.pid == pid) {
                return Some(i);
            }
            i += 1;
        }
        None
    }

    /// What a call of the tool `name` comes to.
    pub fn plan(&self, name: &str, call: &BashArgs) -> (r: BashStep)
        ensures
            bash_plan(self.jobs@, name@, *call, r),
            r matches BashStep::Follow { index, .. } ==> index < self.jobs@.len(),
    {
        let n: usize = self.jobs.len();
        let refresh: i32 = parse_int_default(call.refresh_sec, DEFAULT_REFRESH, 1, MAX_REFRESH);
        if str_eq(name, BASH) {
            return match call.command {
                Some(c) if c.unicode_len() > 0 => BashStep::Start {
                    timeout: parse_timeout(call.timeout_sec, call.timeout_bits),
                    refresh,
                },
                _ => BashStep::Answer(String::from_str("Tool error: bash requires command\n")),
            };
        }
        if !str_eq(name, BASH_STATUS) && !str_eq(name, BASH_STOP) {
            return BashStep::Answer(String::from_str("Tool error: unknown tool\n"));
        }
        let id: i32 = parse_int_default(call.job, 0, 0, i32::MAX);
        let pid: i32 = parse_int_default(call.pid, 0, 0, i32::MAX);
        match self.find_job(id, pid) {
            None => {
                let mut s = String::from_str("Tool error: bash job not found: job=");
                push_i64(&mut s, id as i64);
                s.append(" pid=");
                push_i64(&mut s, pid as i64);
                s.append("\n");
                BashStep::Answer(s)
            },
            Some(index) => BashStep::Follow { index, refresh, stop: str_eq(name, BASH_STOP) },
        }
    }

    /// Drops the job at `index` once it was shown and has ended.
    pub fn observed(&mut self, index: usize)
        requires
            index < old(self).jobs@.len(),
        ensures
            final(self).next_id == old(self).next_id,
            final(self).jobs@ == if old(self).jobs@[index as int].running {
                old(self).jobs@
            } else {
                old(self).jobs@.remove(index as int)
            },
    {
        if !self.jobs[index].running {
            let _ = self.jobs.remove(index);
        }
    }

    /// The jobs have numbers of their own, all given out before.
    pub open spec fn well_formed(self) -> bool {
        &&& 0 < self.next_id
        &&& forall|i: int| 0 <= i < self.jobs@.len() ==> 0 < (#[trigger] self.jobs@[i]).id
            < self.next_id
        &&& forall|i: int, j: int|
            0 <= i < j < self.jobs@.len() ==> (#[trigger] self.jobs@[i]).id != (
            #[trigger] self.jobs@[j]).id
    }
}

proof fn lemma_job_from(jobs: Seq<BashJob>, id: int, pid: int, i: int, k: int)
    requires
        0 <= i <= k < jobs.len(),
        is_asked_for(jobs[k], id, pid),
        forall|j: int| i <= j < k ==> !is_asked_for(#[trigger] jobs[j], id, pid),
    ensures
        job_from(jobs, id, pid, i) == Some(k),
    decreases k - i,
{
    if i < k {
        assert(!is_asked_for(jobs[i], id, pid));
        lemma_job_from(jobs, id, pid, i + 1, k);
    }
}

/// While the numbers last, every job of a table has its own, a new job is found
/// by the number it gets, and the old ones by theirs.
pub proof fn law_jobs_are_found(before: BashTable, job: BashJob, after: BashTable, k: int)
    requires
        before.well_formed(),
        before.next_id < i32::MAX,
        job.id == before.next_id,
        after.next_id == before.next_id + 1,
        after.jobs@ == seq![job] + before.jobs@,
        0 <= k < after.jobs@.len(),
    ensures
        after.well_formed(),
        job_from(after.jobs@, after.jobs@[k].id as int, 0, 0) == Some(k),
{
    let a = after.jobs@;
    let b = before.jobs@;
    assert forall|i: int| 0 <= i < a.len() implies 0 < (#[trigger] a[i]).id < after.next_id by {
        if i > 0 {
            assert(a[i] == b[i - 1]);
        }
    }
    assert forall|i: int, j: int| 0 <= i < j < a.len() implies (#[trigger] a[i]).id != (
    #[trigger] a[j]).id by {
        assert(a[j] == b[j - 1]);
        if i > 0 {
            assert(a[i] == b[i - 1]);
        }
    }
    assert forall|j: int| 0 <= j < k implies !is_asked_for(#[trigger] a[j], a[k].id as int, 0) by {
        assert(a[j].id != a[k].id);
    }
    lemma_job_from(a, a[k].id as int, 0, 0, k);
}

} // verus!
