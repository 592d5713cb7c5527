//! What the commands about saved sessions answer, and what they change.

use crate::agent::kv::catalog;
use crate::agent::kv::catalog::{KvError, ListedSession};
use crate::agent::kv::identity;
use crate::agent::kv::identity::{
    cut_at, title_from_prompt, title_from_text, SessionIdentity,
};
use crate::agent::kv::store::SwitchPlan;
use crate::text;
use crate::text::{chars_of, push_u64, substring};
use vstd::prelude::*;
use vstd::string::*;
use vstd::utf8::*;

verus! {

impl SessionIdentity {
    /// No session yet.
    pub fn new() -> (r: SessionIdentity)
        ensures
            r.title is None,
            r.created_at == 0,
            r.sha is None,
            !r.has_user_turn,
    {
        SessionIdentity { title: None, created_at: 0, sha: None, has_user_turn: false }
    }

    /// The first prompt of the user names the session and begins it.
    pub fn note_user_prompt(&mut self, prompt: &str, now: u64)
        ensures
            final(self).has_user_turn,
            final(self).sha == old(self).sha,
            if old(self).has_user_turn {
                *final(self) == *old(self)
            } else {
                final(self).created_at == now && identity::string_view(final(self).title) == Some(
                    identity::span_title(encode_utf8(prompt@), 0, "(empty user prompt)"@),
                )
            },
    {
        if self.has_user_turn {
            return;
        }
        self.title = Some(title_from_prompt(prompt));
        self.created_at = now;
        self.has_user_turn = true;
    }

    /// What the session is saved under: its title and the time it was begun,
    /// made up where it has none yet. Without a turn of the user there is
    /// nothing to save.
    pub fn save_under(&self, text: &[u8], now: u64) -> (r: Result<(String, u64), KvError>)
        ensures
            match r {
                Err(e) => !self.has_user_turn && e is NothingToSave,
                Ok(p) => {
                    &&& self.has_user_turn
                    &&& p.0@ == match self.title {
                        Some(t) => t@,
                        None => identity::text_title(text@, 0),
                    }
                    &&& p.1 == if self.created_at == 0 {
                        now
                    } else {
                        self.created_at
                    }
                },
            },
    {
        if !self.has_user_turn {
            return Err(KvError::NothingToSave);
        }
        let title = match &self.title {
            Some(t) => t.clone(),
            None => title_from_text(text, 0),
        };
        let created_at: u64 = if self.created_at == 0 {
            now
        } else {
            self.created_at
        };
        Ok((title, created_at))
    }

    /// The session was saved.
    pub fn saved(&mut self, title: String, created_at: u64, sha: String)
        ensures
            *final(self) == (SessionIdentity {
                title: Some(title),
                created_at,
                sha: Some(sha),
                ..*old(self)
            }),
    {
        self.title = Some(title);
        self.created_at = created_at;
        self.sha = Some(sha);
    }

    /// Another session was resumed.
    pub fn switched(&mut self, plan: &SwitchPlan, now: u64)
        ensures
            identity::string_view(final(self).title) == Some(plan.title@),
            identity::string_view(final(self).sha) == Some(plan.sha@),
            final(self).created_at == if plan.created_at == 0 {
                now
            } else {
                plan.created_at
            },
            final(self).has_user_turn,
    {
        self.title = Some(plan.title.clone());
        self.created_at = if plan.created_at == 0 {
            now
        } else {
            plan.created_at
        };
        self.sha = Some(plan.sha.clone());
        self.has_user_turn = true;
    }
}

/// A number that is saved in 32 bits; the greatest one where it does not fit.
pub fn saturated_u32(n: usize) -> (r: u32)
    ensures
        r == if n > u32::MAX {
            u32::MAX as int
        } else {
            n as int
        },
{
    if n as u64 > u32::MAX as u64 {
        u32::MAX
    } else {
        n as u32
    }
}

/// The start of a hash that is shown: eight bytes, or eight characters where
/// those do not end between two characters.
pub open spec fn short_sha(sha: Seq<char>) -> Seq<char> {
    match identity::cut_from(sha, 0, 8) {
        Some(k) => sha.take(k),
        None => catalog::at_most(sha, 8),
    }
}

fn sha_short(sha: &str) -> (r: String)
    ensures
        r@ == short_sha(sha@),
{
    let cs = chars_of(sha);
    match cut_at(cs.as_slice(), 8) {
        Some(k) => {
            let s = substring(cs.as_slice(), 0, k);
            assert(s@ =~= sha@.take(k as int));
            s
        },
        None => catalog::shortened(sha, 8),
    }
}

/// What a command answers where it failed.
pub fn failure(command: &str, error: &str) -> (r: String)
    ensures
        r@ == command@ + " failed: "@ + error@ + "\n"@,
{
    let mut r = String::from_str(command);
    r.append(" failed: ");
    r.append(error);
    r.append("\n");
    r
}

/// The complaint about a command as it is answered.
pub fn usage_answer(usage: &str) -> (r: String)
    ensures
        r@ == usage@ + "\n"@,
{
    let mut r = String::from_str(usage);
    r.append("\n");
    r
}

/// What a command answers that was carried out on a session.
pub open spec fn done_text(verb: Seq<char>, sha: Seq<char>, tokens: nat) -> Seq<char> {
    verb + short_sha(sha) + " ("@ + text::decimal(tokens) + " tokens)\n"@
}

fn done_answer(verb: &str, sha: &str, tokens: u32) -> (r: String)
    ensures
        r@ == done_text(verb@, sha@, tokens as nat),
{
    let s = sha_short(sha);
    let mut r = String::from_str(verb);
    r.append(s.as_str());
    r.append(" (");
    push_u64(&mut r, tokens as u64);
    r.append(" tokens)\n");
    r
}

/// What saving answers.
pub fn saved_answer(sha: &str, tokens: u32) -> (r: String)
    ensures
        r@ == done_text("saved session "@, sha@, tokens as nat),
{
    done_answer("saved session ", sha, tokens)
}

/// What stripping answers.
pub fn stripped_answer(sha: &str, tokens: u32) -> (r: String)
    ensures
        r@ == done_text("stripped session "@, sha@, tokens as nat),
{
    done_answer("stripped session ", sha, tokens)
}

/// What deleting answers.
pub fn deleted_answer(sha: &str) -> (r: String)
    ensures
        r@ == "deleted session "@ + short_sha(sha@) + "\n"@,
{
    let s = sha_short(sha);
    let mut r = String::from_str("deleted session ");
    r.append(s.as_str());
    r.append("\n");
    r
}

/// The note that a session is built again.
pub open spec fn rebuilding_text(sha: Seq<char>) -> Seq<char> {
    "rebuilding stripped session "@ + short_sha(sha) + " from rendered text...\n"@
}

/// What resuming answers: `failed` is why the state could not be loaded or
/// built, if it could not.
pub open spec fn switch_answer(
    sha: Seq<char>,
    needs_prefill: bool,
    tokens: nat,
    failed: Option<Seq<char>>,
) -> Seq<char> {
    let head = if needs_prefill {
        rebuilding_text(sha)
    } else {
        ""@
    };
    match failed {
        Some(e) => head + "switch failed: "@ + e + "\n"@,
        None => head + "switched to session "@ + short_sha(sha) + " ("@ + text::decimal(tokens)
            + " tokens"@ + (if needs_prefill {
            ", rebuilt from text"@
        } else {
            ""@
        }) + ")\n"@,
    }
}

/// What resuming answers.
pub fn switched_answer(plan: &SwitchPlan, tokens: usize, failed: Option<&str>) -> (r: String)
    ensures
        r@ == switch_answer(
            plan.sha@,
            plan.needs_prefill,
            tokens as nat,
            identity::str_view(failed),
        ),
{
    let short = sha_short(plan.sha.as_str());
    let mut r = String::from_str("");
    if plan.needs_prefill {
        r = String::from_str("rebuilding stripped session ");
        r.append(short.as_str());
        r.append(" from rendered text...\n");
    }
    match failed {
        Some(e) => {
            r.append("switch failed: ");
            r.append(e);
            r.append("\n");
        },
        None => {
            r.append("switched to session ");
            r.append(short.as_str());
            r.append(" (");
            push_u64(&mut r, tokens as u64);
            r.append(" tokens");
            r.append(
                if plan.needs_prefill {
                    ", rebuilt from text"
                } else {
                    ""
                },
            );
            r.append(")\n");
        },
    }
    r
}

/// How long ago a session was used.
pub open spec fn age_text(now: u64, when: u64) -> Seq<char> {
    let age = (if when != 0 && now > when {
        now - when
    } else {
        0
    }) as nat;
    if age < 60 {
        text::decimal(age) + "s ago"@
    } else if age < 3600 {
        text::decimal(age / 60) + "m ago"@
    } else if age < 86400 {
        text::decimal(age / 3600) + "h ago"@
    } else {
        text::decimal(age / 86400) + "d ago"@
    }
}

fn format_age(now: u64, when: u64) -> (r: String)
    ensures
        r@ == age_text(now, when),
{
    let age: u64 = if when != 0 && now > when {
        now - when
    } else {
        0
    };
    let mut r = String::new();
    let (n, unit): (u64, &str) = if age < 60 {
        (age, "s ago")
    } else if age < 3600 {
        (age / 60, "m ago")
    } else if age < 86400 {
        (age / 3600, "h ago")
    } else {
        (age / 86400, "d ago")
    };
    push_u64(&mut r, n);
    assert(r@ =~= text::decimal(n as nat));
    r.append(unit);
    r
}

/// The step between numbers of the size of `n` that have 53 binary digits.
pub open spec fn binary_step(n: int, step: int) -> int
    decreases n - step,
{
    if step <= 0 || n < 0x20_0000_0000_0000 * step || step > n {
        step
    } else {
        binary_step(n, 2 * step)
    }
}

/// The number nearest to `n` that has 53 binary digits; of two, the even one.
pub open spec fn binary_nearest(n: int) -> int {
    let step = binary_step(n, 1);
    let q = n / step;
    let r = n % step;
    if 2 * r < step || (2 * r == step && q % 2 == 0) {
        q * step
    } else {
        (q + 1) * step
    }
}

/// The hundredths of a number of bytes in megabytes, rounded; halfway the even
/// one is taken.
pub open spec fn megabyte_hundredths(n: int) -> int {
    let scaled = 100 * binary_nearest(n);
    let q = scaled / 0x10_0000;
    let r = scaled % 0x10_0000;
    if r < 0x8_0000 || (r == 0x8_0000 && q % 2 == 0) {
        q
    } else {
        q + 1
    }
}

/// A number of bytes in megabytes, with two decimals.
pub open spec fn megabytes_text(n: int) -> Seq<char> {
    let h = megabyte_hundredths(n);
    text::decimal((h / 100) as nat) + "."@ + text::decimal((h / 10 % 10) as nat) + text::decimal(
        (h % 10) as nat,
    )
}

fn nearest(n: u64) -> (r: u128)
    ensures
        r == binary_nearest(n as int),
        r <= 0x2_0000_0000_0000_0000,
{
    let wide: u128 = n as u128;
    let mut step: u128 = 1;
    while wide >= 0x20_0000_0000_0000 * step && step <= wide
        invariant
            1 <= step <= 0x1000,
            wide == n,
            binary_step(n as int, 1) == binary_step(n as int, step as int),
        decreases 0x2000 - step,
    {
        assert(step <= 0x800) by (nonlinear_arith)
            requires
                wide >= 0x20_0000_0000_0000 * step,
                wide <= u64::MAX,
        ;
        step = 2 * step;
    }
    let q: u128 = wide / step;
    let r: u128 = wide % step;
    proof {
        assert(q * step + r == wide && r < step) by (nonlinear_arith)
            requires
                q == wide / step,
                r == wide % step,
                step > 0,
        ;
    }
    assert((q + 1) * step == q * step + step) by (nonlinear_arith);
    if 2 * r < step || (2 * r == step && q % 2 == 0) {
        q * step
    } else {
        (q + 1) * step
    }
}

fn megabytes(n: u64) -> (r: String)
    ensures
        r@ == megabytes_text(n as int),
{
    let scaled: u128 = 100 * nearest(n);
    let q: u128 = scaled / 0x10_0000;
    let rest: u128 = scaled % 0x10_0000;
    let h: u128 = if rest < 0x8_0000 || (rest == 0x8_0000 && q % 2 == 0) {
        q
    } else {
        q + 1
    };
    let mut r = String::new();
    push_u64(&mut r, (h / 100) as u64);
    assert(r@ =~= text::decimal((h / 100) as nat));
    r.append(".");
    push_u64(&mut r, (h / 10 % 10) as u64);
    push_u64(&mut r, (h % 10) as u64);
    r
}

/// A session in the list that is shown.
pub open spec fn session_text(s: catalog::Listed, now: u64) -> Seq<char> {
    short_sha(s.sha) + " > "@ + s.title + "\n         > "@ + age_text(now, catalog::recency(s))
        + ", "@ + text::decimal(s.tokens as nat) + " tokens, "@ + megabytes_text(
        s.file_size as int,
    ) + " MB"@ + (if s.stripped {
        ", stripped"@
    } else {
        ""@
    }) + "\n\n"@
}

/// The first `n` sessions in the list that is shown.
pub open spec fn sessions_text(s: Seq<catalog::Listed>, now: u64, n: nat) -> Seq<char>
    decreases n,
{
    if n == 0 || n > s.len() {
        ""@
    } else {
        sessions_text(s, now, (n - 1) as nat) + session_text(s[n - 1], now)
    }
}

/// The list that is shown.
pub open spec fn list_text(s: Seq<catalog::Listed>, now: u64) -> Seq<char> {
    if s.len() == 0 {
        "no saved sessions\n"@
    } else {
        sessions_text(s, now, s.len())
            + "Use /switch <id> to select a session, /del <id> to remove, /strip <id> to strip KV cache.\n"@
    }
}

fn session_line(s: &ListedSession, now: u64) -> (r: String)
    ensures
        r@ == session_text(s@, now),
{
    let when: u64 = if s.last_used != 0 {
        s.last_used
    } else {
        s.created_at
    };
    let age = format_age(now, when);
    let size = megabytes(s.file_size);
    let mut r = sha_short(s.sha.as_str());
    r.append(" > ");
    r.append(s.title.as_str());
    r.append("\n         > ");
    r.append(age.as_str());
    r.append(", ");
    push_u64(&mut r, s.tokens as u64);
    r.append(" tokens, ");
    r.append(size.as_str());
    r.append(" MB");
    r.append(
        if s.stripped {
            ", stripped"
        } else {
            ""
        },
    );
    r.append("\n\n");
    r
}

/// The list that is shown.
pub fn list_answer(sessions: &[ListedSession], now: u64) -> (r: String)
    ensures
        r@ == list_text(catalog::listed_views(sessions@), now),
{
    let n: usize = sessions.len();
    if n == 0 {
        return String::from_str("no saved sessions\n");
    }
    let ghost views = catalog::listed_views(sessions@);
    let mut r = String::from_str("");
    let mut i: usize = 0;
    while i < n
        invariant
            n == sessions@.len(),
            i <= n,
            views == catalog::listed_views(sessions@),
            r@ == sessions_text(views, now, i as nat),
        decreases n - i,
    {
        assert(views[i as int] == sessions@[i as int]@);
        let line = session_line(&sessions[i], now);
        r.append(line.as_str());
        i += 1;
    }
    r.append(
        "Use /switch <id> to select a session, /del <id> to remove, /strip <id> to strip KV cache.\n",
    );
    r
}

/// What is answered where there is no list.
pub fn list_failure(error: &str) -> (r: String)
    ensures
        r@ == "no sessions: "@ + error@ + "\n"@,
{
    let mut r = String::from_str("no sessions: ");
    r.append(error);
    r.append("\n");
    r
}

} // verus!
