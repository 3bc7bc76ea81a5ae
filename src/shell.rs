use std::collections::VecDeque;
use vstd::prelude::*;

use crate::lexer::{same_text, tokenize, tokens, trim, trimmed, views};
use crate::number::{decimal, i32_value, int_to_string, parse_i32, push_decimal, signed_decimal};

verus! {

/// How many input lines the history keeps.
pub const MAX_HISTORY: usize = 10;

/// `h` after `line` is recorded: appended at the end, with the oldest entry
/// dropped first when the history is full.
pub open spec fn push_bounded(h: Seq<Seq<char>>, line: Seq<char>) -> Seq<Seq<char>> {
    if h.len() >= MAX_HISTORY {
        h.drop_first().push(line)
    } else {
        h.push(line)
    }
}

/// The history listing's line for the entry at (0-based) position `i`.
pub open spec fn listing_line(i: int, entry: Seq<char>) -> Seq<char> {
    seq!['['] + decimal((i + 1) as nat) + seq![']', ' '] + entry
}

/// The history listing: each entry with its 1-based position, oldest first.
pub open spec fn listing(h: Seq<Seq<char>>) -> Seq<Seq<char>> {
    Seq::new(h.len(), |i: int| listing_line(i, h[i]))
}

/// What a command asks the host to do, over plain values.
pub enum Effect {
    Nothing,
    Print(Seq<Seq<char>>),
    Warn(Seq<char>),
    ChangeDir(Seq<char>),
    Run { program: Seq<char>, args: Seq<Seq<char>>, background: bool },
    Quit(Seq<char>),
}

/// What one input line asks the host to do once the shell has handled it.
#[derive(Debug)]
pub enum Action {
    /// Nothing at all.
    Nothing,
    /// Write these lines to standard output.
    Print(Vec<String>),
    /// Write this line to standard error.
    Warn(String),
    /// Make this path the working directory; on failure, report
    /// `cd_failed_message` of the reason on standard error.
    ChangeDir(String),
    /// Start `program` with `args`. Wait for it to exit unless `background`,
    /// in which case report `background_message` of its process id instead.
    /// If it cannot be started, report `spawn_failed_message` of the reason.
    Run { program: String, args: Vec<String>, background: bool },
    /// Write this farewell to standard output and end the process with success.
    Quit(String),
}

impl View for Action {
    type V = Effect;

    open spec fn view(&self) -> Effect {
        match self {
            Action::Nothing => Effect::Nothing,
            Action::Print(lines) => Effect::Print(views(lines@)),
            Action::Warn(s) => Effect::Warn(s@),
            Action::ChangeDir(p) => Effect::ChangeDir(p@),
            Action::Run { program, args, background } => Effect::Run {
                program: program@,
                args: views(args@),
                background: *background,
            },
            Action::Quit(s) => Effect::Quit(s@),
        }
    }
}

/// What `hello` prints.
pub open spec fn greeting() -> Seq<char> {
    "Hello, welcome to my shell!"@
}

/// What `quit` prints before the shell ends.
pub open spec fn farewell() -> Seq<char> {
    "Thank you for using the shell...\nBye 😉"@
}

/// The warning for `cd` without a path.
pub open spec fn cd_usage() -> Seq<char> {
    "cd: expected argument"@
}

/// What `add` and `subtract` print for arguments that are not `i32` numerals.
pub open spec fn invalid_numbers() -> Seq<char> {
    "Invalid numbers"@
}

/// The line that the built-in `name` (one of `hello`, `add` and `subtract`)
/// prints for the arguments `args` (the command name first).
pub open spec fn builtin_output(args: Seq<Seq<char>>) -> Seq<char> {
    let name = args[0];
    if name == "hello"@ {
        greeting()
    } else if name == "add"@ || name == "subtract"@ {
        if args.len() > 2 {
            match (i32_value(args[1]), i32_value(args[2])) {
                (Some(a), Some(b)) => if name == "add"@ {
                    "Sum: "@ + signed_decimal(a + b)
                } else {
                    "Difference: "@ + signed_decimal(a - b)
                },
                _ => invalid_numbers(),
            }
        } else if name == "add"@ {
            "Usage: add <num1> <num2>"@
        } else {
            "Usage: subtract <num1> <num2>"@
        }
    } else {
        "Unknown command: "@ + name
    }
}

/// What `cd` with the arguments `args` (the command name first) asks for.
pub open spec fn cd_effect(args: Seq<Seq<char>>) -> Effect {
    if args.len() < 2 {
        Effect::Warn(cd_usage())
    } else {
        Effect::ChangeDir(args[1])
    }
}

/// What the command `args` (without a background marker) asks for, given the
/// history `h` that already records it.
pub open spec fn dispatch(args: Seq<Seq<char>>, background: bool, h: Seq<Seq<char>>) -> Effect {
    if args.len() == 0 {
        Effect::Nothing
    } else if args[0] == "cd"@ {
        cd_effect(args)
    } else if args[0] == "history"@ {
        Effect::Print(listing(h))
    } else if args[0] == "hello"@ || args[0] == "add"@ || args[0] == "subtract"@ {
        Effect::Print(seq![builtin_output(args)])
    } else if args[0] == "quit"@ {
        Effect::Quit(farewell())
    } else {
        Effect::Run { program: args[0], args: args.drop_first(), background }
    }
}

/// Whether the token sequence `t` ends with the background marker `&`.
pub open spec fn is_background(t: Seq<Seq<char>>) -> bool {
    t.len() > 0 && t.last() == "&"@
}

/// The history after `line` and what `line` asks for, from the history `h`.
/// A blank line changes nothing; any other is recorded, trimmed, before its
/// command (its tokens without a trailing `&`) is dispatched.
pub open spec fn step(h: Seq<Seq<char>>, line: Seq<char>) -> (Seq<Seq<char>>, Effect) {
    let t = tokens(trimmed(line));
    if t.len() == 0 {
        (h, Effect::Nothing)
    } else {
        let bg = is_background(t);
        let args = if bg {
            t.drop_last()
        } else {
            t
        };
        let h2 = push_bounded(h, trimmed(line));
        (h2, dispatch(args, bg, h2))
    }
}

/// The message for a working directory that could not be changed.
pub fn cd_failed_message(reason: &str) -> (r: String)
    ensures
        r@ == "cd failed: "@ + reason@,
{
    let mut s = String::from_str("cd failed: ");
    s.append(reason);
    s
}

/// The message for a program that could not be started.
pub fn spawn_failed_message(reason: &str) -> (r: String)
    ensures
        r@ == "Execution failed: "@ + reason@,
{
    let mut s = String::from_str("Execution failed: ");
    s.append(reason);
    s
}

/// The message for a program started in the background with process id `pid`.
pub fn background_message(pid: u32) -> (r: String)
    ensures
        r@ == "Process running in background with PID: "@ + decimal(pid as nat),
{
    let mut s = String::from_str("Process running in background with PID: ");
    push_decimal(pid as u64, &mut s);
    s
}

/// Copies of the entries of `v` from position `from` on.
fn copy_strings(v: &Vec<String>, from: usize) -> (r: Vec<String>)
    requires
        from <= v@.len(),
    ensures
        views(r@) == views(v@).skip(from as int),
{
    let mut out: Vec<String> = Vec::new();
    let mut i: usize = from;
    while i < v.len()
        invariant
            from <= i <= v@.len(),
            views(out@) == views(v@).subrange(from as int, i as int),
        decreases v@.len() - i,
    {
        let ghost before = views(out@);
        let c = v[i].clone();
        assert(c@ == views(v@)[i as int]);
        out.push(c);
        assert(views(out@) =~= before.push(c@));
        assert(views(out@) =~= views(v@).subrange(from as int, i + 1));
        i += 1;
    }
    assert(views(out@) =~= views(v@).skip(from as int));
    out
}

/// The shell's state: the most recent input lines, oldest first.
pub struct Shell {
    history: VecDeque<String>,
}

impl View for Shell {
    type V = Seq<Seq<char>>;

    closed spec fn view(&self) -> Seq<Seq<char>> {
        views(self.history@)
    }
}

impl Shell {
    /// The history holds at most `MAX_HISTORY` entries.
    pub open spec fn wf(&self) -> bool {
        self@.len() <= MAX_HISTORY
    }

    /// A shell with an empty history.
    pub fn new() -> (r: Shell)
        ensures
            r.wf(),
            r@ == Seq::<Seq<char>>::empty(),
    {
        let r = Shell { history: VecDeque::with_capacity(MAX_HISTORY) };
        assert(r@ =~= Seq::<Seq<char>>::empty());
        r
    }

    /// The number of entries in the history.
    pub fn history_len(&self) -> (r: usize)
        ensures
            r == self@.len(),
    {
        self.history.len()
    }

    /// Records `command` as the newest history entry, dropping the oldest
    /// when the history is full.
    pub fn add_to_history(&mut self, command: &str)
        requires
            old(self).wf(),
        ensures
            final(self).wf(),
            final(self)@ == push_bounded(old(self)@, command@),
    {
        let ghost h = self@;
        if self.history.len() == MAX_HISTORY {
            self.history.pop_front();
            assert(views(self.history@) =~= h.drop_first());
        }
        let ghost mid = views(self.history@);
        self.history.push_back(String::from_str(command));
        assert(views(self.history@) =~= mid.push(command@));
    }

    /// What `cd` asks for: a usage warning without a path argument, else a
    /// change to the path that follows the command name.
    pub fn handle_cd(&self, args: &Vec<String>) -> (r: Action)
        requires
            args@.len() >= 1,
        ensures
            r@ == cd_effect(views(args@)),
    {
        if args.len() < 2 {
            let msg = String::from_str("cd: expected argument");
            Action::Warn(msg)
        } else {
            Action::ChangeDir(args[1].clone())
        }
    }

    /// The line that the built-in named by `args[0]` prints: the greeting,
    /// a sum or difference of two `i32` arguments, a usage or invalid-number
    /// message, or `Unknown command: <name>` for any other name. The result of
    /// the arithmetic is exact: it is computed in a wider type, so it never
    /// wraps or overflows.
    pub fn built_in_programs(&self, args: &Vec<String>) -> (r: String)
        requires
            args@.len() >= 1,
        ensures
            r@ == builtin_output(views(args@)),
    {
        let name = args[0].as_str();
        let is_add = same_text(name, "add");
        if same_text(name, "hello") {
            String::from_str("Hello, welcome to my shell!")
        } else if is_add || same_text(name, "subtract") {
            if args.len() > 2 {
                let a = parse_i32(args[1].as_str());
                let b = parse_i32(args[2].as_str());
                match (a, b) {
                    (Some(x), Some(y)) => {
                        if is_add {
                            let mut msg = String::from_str("Sum: ");
                            let v = int_to_string(x as i64 + y as i64);
                            msg.append(v.as_str());
                            msg
                        } else {
                            let mut msg = String::from_str("Difference: ");
                            let v = int_to_string(x as i64 - y as i64);
                            msg.append(v.as_str());
                            msg
                        }
                    },
                    _ => String::from_str("Invalid numbers"),
                }
            } else if is_add {
                String::from_str("Usage: add <num1> <num2>")
            } else {
                String::from_str("Usage: subtract <num1> <num2>")
            }
        } else {
            let mut msg = String::from_str("Unknown command: ");
            msg.append(name);
            msg
        }
    }

    /// The request to start `args[0]` with the remaining arguments.
    pub fn execute_external(&self, args: &Vec<String>, is_background: bool) -> (r: Action)
        requires
            args@.len() >= 1,
        ensures
            r@ == (Effect::Run {
                program: views(args@)[0],
                args: views(args@).drop_first(),
                background: is_background,
            }),
    {
        let rest = copy_strings(args, 1);
        assert(views(args@).skip(1) =~= views(args@).drop_first());
        Action::Run { program: args[0].clone(), args: rest, background: is_background }
    }

    /// Handles one input line: a blank line changes nothing; any other is
    /// recorded in the history (trimmed, `&` included), and its command, the
    /// tokens without a trailing `&`, is dispatched to a built-in or to an
    /// external program, in the background when the `&` was there. A line
    /// that holds only `&` is recorded and asks for nothing.
    pub fn execute_command(&mut self, input: &str) -> (r: Action)
        requires
            old(self).wf(),
        ensures
            final(self).wf(),
            (final(self)@, r@) == step(old(self)@, input@),
    {
        let line = trim(input);
        let mut args = tokenize(line.as_str());
        if args.len() == 0 {
            return Action::Nothing;
        }
        let ghost t = views(args@);
        let last = args.len() - 1;
        let is_background = same_text(args[last].as_str(), "&");
        if is_background {
            args.pop();
            assert(views(args@) =~= t.drop_last());
        }
        self.add_to_history(line.as_str());
        if args.len() == 0 {
            return Action::Nothing;
        }
        let name = args[0].as_str();
        if same_text(name, "cd") {
            self.handle_cd(&args)
        } else if same_text(name, "history") {
            Action::Print(self.history_listing())
        } else if same_text(name, "hello") || same_text(name, "add") || same_text(name, "subtract") {
            let out = self.built_in_programs(&args);
            let ghost ov = out@;
            let mut lines: Vec<String> = Vec::new();
            lines.push(out);
            assert(views(lines@) =~= seq![ov]);
            Action::Print(lines)
        } else if same_text(name, "quit") {
            Action::Quit(String::from_str("Thank you for using the shell...\nBye 😉"))
        } else {
            self.execute_external(&args, is_background)
        }
    }

    /// The history listing, one line per entry: `[i] entry`, numbered from 1,
    /// oldest first.
    pub fn history_listing(&self) -> (r: Vec<String>)
        ensures
            views(r@) == listing(self@),
    {
        let mut out: Vec<String> = Vec::new();
        let mut i: usize = 0;
        let n = self.history.len();
        while i < n
            invariant
                n == self.history@.len(),
                i <= n,
                views(out@) == listing(self@).take(i as int),
            decreases n - i,
        {
            let mut line = String::from_str("[");
            push_decimal((i + 1) as u64, &mut line);
            line.append("] ");
            line.append(self.history[i].as_str());
            proof {
                reveal_strlit("[");
                reveal_strlit("] ");
            }
            assert(line@ =~= listing_line(i as int, self@[i as int]));
            let ghost before = views(out@);
            let ghost lv = line@;
            out.push(line);
            assert(views(out@) =~= before.push(lv));
            assert(views(out@) =~= listing(self@).take(i + 1));
            i += 1;
        }
        assert(listing(self@).take(n as int) =~= listing(self@));
        out
    }
}

} // verus!
