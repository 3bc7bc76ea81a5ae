use vstd::prelude::*;

use crate::lexer::{is_blank, is_ws, split_from, tokens, trim_end, trim_start, trimmed};
use crate::shell::{is_background, listing, listing_line, push_bounded, step, Effect, MAX_HISTORY};

verus! {

/// The history after recording each line of `cmds` in turn, from `h`.
pub open spec fn record_all(h: Seq<Seq<char>>, cmds: Seq<Seq<char>>) -> Seq<Seq<char>>
    decreases cmds.len(),
{
    if cmds.len() == 0 {
        h
    } else {
        push_bounded(record_all(h, cmds.drop_last()), cmds.last())
    }
}

/// The number of the most recent lines that the history keeps out of `n`.
pub open spec fn kept(n: nat) -> nat {
    if n <= MAX_HISTORY {
        n
    } else {
        MAX_HISTORY as nat
    }
}

/// Recording the lines `cmds` in a fresh history leaves exactly the last
/// `MAX_HISTORY` of them (all of them if there are fewer), oldest first, and
/// the listing numbers them 1, 2, ... in that order.
pub proof fn lemma_history_keeps_latest(cmds: Seq<Seq<char>>)
    ensures
        record_all(seq![], cmds) == cmds.subrange(cmds.len() - kept(cmds.len()), cmds.len() as int),
        record_all(seq![], cmds).len() <= MAX_HISTORY,
        forall|i: int|
            0 <= i < kept(cmds.len()) ==> #[trigger] listing(record_all(seq![], cmds))[i]
                == listing_line(i, cmds[cmds.len() - kept(cmds.len()) + i]),
    decreases cmds.len(),
{
    let n = cmds.len();
    if n == 0 {
        assert(cmds.subrange(0, 0) =~= Seq::<Seq<char>>::empty());
    } else {
        lemma_history_keeps_latest(cmds.drop_last());
        let prev = record_all(seq![], cmds.drop_last());
        let k = kept((n - 1) as nat);
        assert(prev == cmds.subrange(n - 1 - k, n - 1));
        assert(push_bounded(prev, cmds.last()) =~= cmds.subrange(n - kept(n), n as int));
    }
}

proof fn lemma_blank_trims_to_nothing(s: Seq<char>)
    requires
        is_blank(s),
    ensures
        trim_start(s).len() == 0,
    decreases s.len(),
{
    if s.len() > 0 {
        assert(is_ws(s[0]));
        let rest = s.drop_first();
        assert forall|i: int| 0 <= i < rest.len() implies is_ws(#[trigger] rest[i]) by {
            assert(rest[i] == s[i + 1]);
        }
        lemma_blank_trims_to_nothing(rest);
    }
}

proof fn lemma_trim_start_of_nonblank(s: Seq<char>)
    requires
        !is_blank(s),
    ensures
        trim_start(s).len() > 0,
        !is_ws(trim_start(s)[0]),
    decreases s.len(),
{
    if s.len() > 0 && is_ws(s[0]) {
        let rest = s.drop_first();
        let j = choose|j: int| 0 <= j < s.len() && !is_ws(#[trigger] s[j]);
        assert(rest[j - 1] == s[j]);
        lemma_trim_start_of_nonblank(rest);
    }
}

proof fn lemma_trim_end_keeps_front(s: Seq<char>)
    requires
        s.len() > 0,
        !is_ws(s[0]),
    ensures
        trim_end(s).len() > 0,
        trim_end(s)[0] == s[0],
    decreases s.len(),
{
    if is_ws(s.last()) {
        lemma_trim_end_keeps_front(s.drop_last());
    }
}

proof fn lemma_open_token_stays(s: Seq<char>, cur: Seq<char>)
    requires
        cur.len() > 0,
    ensures
        split_from(s, cur).len() > 0,
    decreases s.len(),
{
    if s.len() > 0 && !is_ws(s[0]) {
        lemma_open_token_stays(s.drop_first(), cur.push(s[0]));
    }
}

/// A blank line (only whitespace, or nothing) leaves the history as it was
/// and asks for nothing; any other line is recorded, trimmed.
pub proof fn lemma_blank_line_ignored(h: Seq<Seq<char>>, line: Seq<char>)
    ensures
        is_blank(line) ==> step(h, line) == (h, Effect::Nothing),
        !is_blank(line) ==> step(h, line).0 == push_bounded(h, trimmed(line)),
{
    if is_blank(line) {
        lemma_blank_trims_to_nothing(line);
        assert(trimmed(line).len() == 0);
    } else {
        lemma_trim_start_of_nonblank(line);
        let s = trimmed(line);
        lemma_trim_end_keeps_front(trim_start(line));
        lemma_open_token_stays(s.drop_first(), seq![s[0]]);
        assert(seq![].push(s[0]) =~= seq![s[0]]);
        assert(tokens(s).len() > 0);
    }
}

/// A line whose last token is `&` and whose first names no built-in starts
/// that program with the tokens between as arguments, in the background; the
/// same line without the `&` starts it in the foreground.
pub proof fn lemma_trailing_ampersand_runs_in_background(h: Seq<Seq<char>>, line: Seq<char>)
    requires
        tokens(trimmed(line)).len() >= 1,
        tokens(trimmed(line))[0] != "cd"@,
        tokens(trimmed(line))[0] != "history"@,
        tokens(trimmed(line))[0] != "hello"@,
        tokens(trimmed(line))[0] != "add"@,
        tokens(trimmed(line))[0] != "subtract"@,
        tokens(trimmed(line))[0] != "quit"@,
        tokens(trimmed(line))[0] != "&"@,
    ensures
        ({
            let t = tokens(trimmed(line));
            if is_background(t) {
                step(h, line).1 == Effect::Run {
                    program: t[0],
                    args: t.subrange(1, t.len() - 1),
                    background: true,
                }
            } else {
                step(h, line).1 == Effect::Run {
                    program: t[0],
                    args: t.drop_first(),
                    background: false,
                }
            }
        }),
{
    let t = tokens(trimmed(line));
    if is_background(t) {
        assert(t.len() >= 2);
        assert(t.drop_last().drop_first() =~= t.subrange(1, t.len() - 1));
    }
}

} // verus!
