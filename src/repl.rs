use vstd::prelude::*;
use vstd::string::StringExecFns;
use crate::expr::{is_whitespace, is_ws};

verus! {

/// A command of the interactive loop.
#[derive(Clone, Copy, Debug, PartialEq, Eq, Structural)]
pub enum Command {
    Eval,
    Simplify,
    Clear,
    Help,
    Exit,
    Unknown,
}

/// The command that a keyword names; `Unknown` for any other word.
pub open spec fn command_of(s: Seq<char>) -> Command {
    if s == "eval"@ || s == "e"@ {
        Command::Eval
    } else if s == "simplify"@ || s == "s"@ {
        Command::Simplify
    } else if s == "clear"@ {
        Command::Clear
    } else if s == "help"@ {
        Command::Help
    } else if s == "exit"@ {
        Command::Exit
    } else {
        Command::Unknown
    }
}

/// The name under which a command is shown.
pub open spec fn command_name(c: Command) -> Seq<char> {
    match c {
        Command::Eval => "eval"@,
        Command::Simplify => "simplify"@,
        Command::Clear => "clear"@,
        Command::Help => "help"@,
        Command::Exit => "exit"@,
        Command::Unknown => "unknown"@,
    }
}

/// The help text that lists the commands.
pub open spec fn help_text() -> Seq<char> {
    "Commands\n- eval (e): Evaluate an expression\n- simplify (s): Simplify an expression\n- clear: Clear the screen\n- help: Display this help message\n- exit: Exit the program"@
}

/// Whether two strings hold the same characters.
pub fn str_eq(a: &str, b: &str) -> (r: bool)
    ensures
        r == (a@ == b@),
{
    let n = a.unicode_len();
    let m = b.unicode_len();
    if n != m {
        return false;
    }
    let mut i: usize = 0;
    while i < n
        invariant
            n == a@.len(),
            n == b@.len(),
            i <= n,
            a@.subrange(0, i as int) == b@.subrange(0, i as int),
        decreases n - i,
    {
        if a.get_char(i) != b.get_char(i) {
            return false;
        }
        proof {
            assert(a@.subrange(0, i + 1) =~= a@.subrange(0, i as int).push(a@[i as int]));
            assert(b@.subrange(0, i + 1) =~= b@.subrange(0, i as int).push(b@[i as int]));
        }
        i += 1;
    }
    proof {
        assert(a@ =~= a@.subrange(0, n as int));
        assert(b@ =~= b@.subrange(0, n as int));
    }
    true
}

impl Command {
    /// Reads a command from its keyword or alias.
    pub fn from_str(s: &str) -> (r: Command)
        ensures
            r == command_of(s@),
    {
        if str_eq(s, "eval") || str_eq(s, "e") {
            Command::Eval
        } else if str_eq(s, "simplify") || str_eq(s, "s") {
            Command::Simplify
        } else if str_eq(s, "clear") {
            Command::Clear
        } else if str_eq(s, "help") {
            Command::Help
        } else if str_eq(s, "exit") {
            Command::Exit
        } else {
            Command::Unknown
        }
    }

    /// The command's name.
    pub fn display(&self) -> (r: String)
        ensures
            r@ == command_name(*self),
    {
        match self {
            Command::Eval => String::from_str("eval"),
            Command::Simplify => String::from_str("simplify"),
            Command::Clear => String::from_str("clear"),
            Command::Help => String::from_str("help"),
            Command::Exit => String::from_str("exit"),
            Command::Unknown => String::from_str("unknown"),
        }
    }

    /// The help text that lists the commands.
    pub fn help() -> (r: String)
        ensures
            r@ == help_text(),
    {
        String::from_str(
            "Commands\n- eval (e): Evaluate an expression\n- simplify (s): Simplify an expression\n- clear: Clear the screen\n- help: Display this help message\n- exit: Exit the program",
        )
    }
}

/// Whether every character of `t` is whitespace.
pub open spec fn all_ws(t: Seq<char>) -> bool {
    forall|k: int| 0 <= k < t.len() ==> is_ws(#[trigger] t[k])
}

/// Whether `t[i..j]` is the first word of `t`: only whitespace before it,
/// no whitespace in it, and whitespace or the end right after it.
pub open spec fn first_word_at(t: Seq<char>, i: int, j: int) -> bool {
    &&& 0 <= i < j <= t.len()
    &&& all_ws(t.subrange(0, i))
    &&& forall|k: int| i <= k < j ==> !is_ws(#[trigger] t[k])
    &&& (j == t.len() || is_ws(t[j]))
}

/// Splits a line into its first word and the text after that word; `None`
/// where the line holds whitespace alone.
pub fn split_command(line: &str) -> (r: Option<(String, String)>)
    ensures
        r is None <==> all_ws(line@),
        r matches Some((w, rest)) ==> exists|i: int, j: int|
            {
                &&& #[trigger] first_word_at(line@, i, j)
                &&& w@ == line@.subrange(i, j)
                &&& rest@ == line@.subrange(j, line@.len() as int)
            },
{
    let n = line.unicode_len();
    let mut i: usize = 0;
    while i < n && is_whitespace(line.get_char(i))
        invariant
            n == line@.len(),
            i <= n,
            all_ws(line@.subrange(0, i as int)),
        decreases n - i,
    {
        proof {
            assert forall|k: int| 0 <= k < i + 1 implies is_ws(
                #[trigger] line@.subrange(0, i + 1)[k],
            ) by {
                if k < i {
                    assert(line@.subrange(0, i + 1)[k] == line@.subrange(0, i as int)[k]);
                }
            }
        }
        i += 1;
    }
    if i == n {
        proof {
            assert(line@.subrange(0, n as int) =~= line@);
        }
        return None;
    }
    let mut j: usize = i + 1;
    while j < n && !is_whitespace(line.get_char(j))
        invariant
            n == line@.len(),
            i < j <= n,
            !is_ws(line@[i as int]),
            forall|k: int| i <= k < j ==> !is_ws(#[trigger] line@[k]),
        decreases n - j,
    {
        j += 1;
    }
    let w = String::from_str(line.substring_char(i, j));
    let rest = String::from_str(line.substring_char(j, n));
    proof {
        assert(first_word_at(line@, i as int, j as int));
        assert(!all_ws(line@)) by {
            assert(!is_ws(line@[i as int]));
        }
    }
    Some((w, rest))
}

} // verus!
