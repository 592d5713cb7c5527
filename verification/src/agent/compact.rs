//! When a conversation is shortened, and how much of its end is kept.

use crate::text;
use crate::text::push_i64;
use vstd::prelude::*;
use vstd::string::*;

verus! {

pub const SOFT_PERCENT: i32 = 85;

pub const MIN_FREE_TOKENS: i32 = 8192;

pub const TAIL_DIVISOR: i32 = 10;

pub const TAIL_CAP_TOKENS: i32 = 50_000;

/// The tokens that stay free behind the result of a tool.
pub const TOOL_RESULT_RESERVE_TOKENS: i32 = 1024;

/// A conversation of `used` tokens is shortened in a context of `ctx`: it
/// fills 85 percent, or what it leaves free is both at most a quarter and at
/// most 8192 tokens.
pub open spec fn is_full(ctx: int, used: int) -> bool {
    &&& ctx > 0
    &&& used > 0
    &&& {
        ||| used >= ctx * SOFT_PERCENT / 100
        ||| ctx - used <= ctx / 4 && ctx - used <= MIN_FREE_TOKENS
    }
}

/// Whether a conversation of `used` tokens is shortened.
pub fn should_compact(ctx: i32, used: i32) -> (r: bool)
    requires
        ctx > 0 && used > 0 ==> ctx * SOFT_PERCENT <= i32::MAX,
    ensures
        r == is_full(ctx as int, used as int),
{
    if ctx <= 0 || used <= 0 {
        return false;
    }
    if used >= (ctx * SOFT_PERCENT) / 100 {
        return true;
    }
    let proportional: i32 = ctx / 4;
    let free_threshold: i32 = if MIN_FREE_TOKENS < proportional {
        MIN_FREE_TOKENS
    } else {
        proportional
    };
    ctx - used <= free_threshold
}

/// A fuller conversation is shortened where an emptier one is.
pub proof fn law_fuller_stays_full(ctx: int, used: int, more: int)
    requires
        is_full(ctx, used),
        used <= more,
    ensures
        is_full(ctx, more),
{
}

/// How many tokens of the end are kept: a tenth of the context, at least one
/// and at most 50000.
pub open spec fn tail_budget(ctx: int) -> int {
    if ctx < TAIL_DIVISOR {
        1
    } else if ctx / (TAIL_DIVISOR as int) > TAIL_CAP_TOKENS {
        TAIL_CAP_TOKENS as int
    } else {
        ctx / (TAIL_DIVISOR as int)
    }
}

/// Where the kept end begins at the earliest: not within the first `sys_len`
/// tokens.
pub open spec fn tail_target(ctx: int, bottom: int, sys_len: int) -> int {
    if bottom - tail_budget(ctx) < sys_len {
        sys_len
    } else {
        bottom - tail_budget(ctx)
    }
}

/// The first place in `from..to` that holds `id`.
pub open spec fn first_token(tokens: Seq<i32>, id: i32, from: int, to: int) -> Option<int>
    decreases to - from,
{
    if from < 0 || from >= to || from >= tokens.len() {
        None
    } else if tokens[from] == id {
        Some(from)
    } else {
        first_token(tokens, id, from + 1, to)
    }
}

/// Where the kept end begins: at the first turn of the user in it, if there is
/// one.
pub open spec fn tail_begins(
    ctx: int,
    bottom: int,
    sys_len: int,
    user_id: i32,
    tokens: Seq<i32>,
) -> int {
    let target = tail_target(ctx, bottom, sys_len);
    if user_id < 0 {
        target
    } else {
        match first_token(
            tokens,
            user_id,
            if target > 0 {
                target
            } else {
                0
            },
            bottom,
        ) {
            Some(i) => i,
            None => target,
        }
    }
}

/// Where the kept end of the first `bottom` tokens begins.
pub fn tail_start(ctx: i32, bottom: i32, sys_len: i32, user_id: i32, tokens: &[i32]) -> (r: i32)
    requires
        bottom - tail_budget(ctx as int) >= i32::MIN,
    ensures
        r == tail_begins(ctx as int, bottom as int, sys_len as int, user_id, tokens@),
{
    let budget: i32 = if ctx < TAIL_DIVISOR {
        1
    } else if ctx / TAIL_DIVISOR > TAIL_CAP_TOKENS {
        TAIL_CAP_TOKENS
    } else {
        ctx / TAIL_DIVISOR
    };
    let target: i32 = if bottom - budget < sys_len {
        sys_len
    } else {
        bottom - budget
    };
    if user_id < 0 {
        return target;
    }
    let start: i32 = if target > 0 {
        target
    } else {
        0
    };
    let mut i: i32 = start;
    while i < bottom && (i as usize) < tokens.len()
        invariant
            0 <= start <= i,
            user_id >= 0,
            target == tail_target(ctx as int, bottom as int, sys_len as int),
            start == if target > 0 {
                target as int
            } else {
                0
            },
            first_token(tokens@, user_id, start as int, bottom as int) == first_token(
                tokens@,
                user_id,
                i as int,
                bottom as int,
            ),
        decreases bottom - i,
    {
        if tokens[i as usize] == user_id {
            return i;
        }
        i += 1;
    }
    target
}

proof fn lemma_first_token(tokens: Seq<i32>, id: i32, from: int, to: int)
    ensures
        first_token(tokens, id, from, to) matches Some(i) ==> from <= i < to && i < tokens.len()
            && tokens[i] == id,
    decreases to - from,
{
    if 0 <= from < to && from < tokens.len() && tokens[from] != id {
        lemma_first_token(tokens, id, from + 1, to);
    }
}

/// The kept end begins behind the system's part and not behind the end, and no
/// more than the budget is kept.
pub proof fn law_tail_is_within(
    ctx: int,
    bottom: int,
    sys_len: int,
    user_id: i32,
    tokens: Seq<i32>,
)
    requires
        0 <= sys_len <= bottom,
    ensures
        ({
            let s = tail_begins(ctx, bottom, sys_len, user_id, tokens);
            sys_len <= s <= bottom && bottom - s <= tail_budget(ctx)
        }),
{
    lemma_first_token(tokens, user_id, tail_target(ctx, bottom, sys_len), bottom);
}

/// What is answered where the result of a tool does not fit even then.
pub fn overflow_error(projected: i32, ctx: i32) -> (r: String)
    ensures
        r@
            == "Tool error: tool result still does not fit after context compaction (projected_prompt="@
            + text::signed_decimal(projected as int) + " tokens, ctx="@ + text::signed_decimal(
            ctx as int,
        ) + ", reserve="@ + text::signed_decimal(TOOL_RESULT_RESERVE_TOKENS as int)
            + "). Retry with a smaller read/search/bash output.\n"@,
{
    let mut r = String::from_str(
        "Tool error: tool result still does not fit after context compaction (projected_prompt=",
    );
    push_i64(&mut r, projected as i64);
    r.append(" tokens, ctx=");
    push_i64(&mut r, ctx as i64);
    r.append(", reserve=");
    push_i64(&mut r, TOOL_RESULT_RESERVE_TOKENS as i64);
    r.append("). Retry with a smaller read/search/bash output.\n");
    r
}

/// A conversation is full from 85 percent of its context on, rounded down, and
/// where it leaves at most 8192 tokens and at most a quarter free.
pub proof fn law_when_full(ctx: int, used: int)
    ensures
        is_full(ctx, used) <==> ctx > 0 && used > 0 && (100 * used > 85 * ctx - 100 || ctx - used
            <= 8192 && 4 * (ctx - used) <= ctx),
{
}

proof fn lemma_first_token_is(tokens: Seq<i32>, id: i32, from: int, to: int, k: int)
    requires
        0 <= from <= k < to,
        k < tokens.len(),
        tokens[k] == id,
        forall|j: int| from <= j < k ==> #[trigger] tokens[j] != id,
    ensures
        first_token(tokens, id, from, to) == Some(k),
    decreases k - from,
{
    if from < k {
        lemma_first_token_is(tokens, id, from + 1, to, k);
    }
}

/// The kept end begins at the first token of the user among the last ones that
/// may be kept, and with the first of these where none is the user's. They are
/// a tenth of the context, at least one and at most 50000, none of them in the
/// system's part.
pub proof fn law_tail_begins_at_a_turn(
    ctx: int,
    bottom: int,
    sys_len: int,
    user_id: i32,
    tokens: Seq<i32>,
    target: int,
    k: int,
)
    requires
        0 <= sys_len <= bottom <= tokens.len(),
        ({
            let kept = if ctx < 10 {
                1
            } else if ctx < 500_010 {
                ctx / 10
            } else {
                50_000
            };
            target == if bottom - kept > sys_len {
                bottom - kept
            } else {
                sys_len
            }
        }),
        target <= k <= bottom,
        forall|j: int| target <= j < k ==> #[trigger] tokens[j] != user_id,
    ensures
        user_id >= 0 && k < bottom && tokens[k] == user_id ==> tail_begins(
            ctx,
            bottom,
            sys_len,
            user_id,
            tokens,
        ) == k,
        user_id < 0 || k == bottom ==> tail_begins(ctx, bottom, sys_len, user_id, tokens) == target,
{
    if user_id >= 0 {
        if k < bottom && tokens[k] == user_id {
            lemma_first_token_is(tokens, user_id, target, bottom, k);
        } else {
            lemma_first_token(tokens, user_id, target, bottom);
        }
    }
}

} // verus!
