//! The command language of the to-do list: what a line of user input means.

use vstd::prelude::*;

verus! {

use vstd::string::StrSliceExecFns;
use vstd::string::StringExecFns;
use crate::task::TaskId;
use crate::text;
use crate::text::spec_lower;
use crate::text::spec_parse_usize;
use crate::text::spec_trim;
use crate::text::spec_words;

/// The chosen action to perform.
#[derive(Debug)]
pub enum Command {
    List,
    Add(String),
    Do(TaskId),
    UnDo(TaskId),
    Delete(TaskId),
    Exit,
}

impl PartialEq for Command {
    fn eq(&self, other: &Self) -> (r: bool) {
        match (self, other) {
            (Command::List, Command::List) => true,
            (Command::Exit, Command::Exit) => true,
            (Command::Add(a), Command::Add(b)) => *a == *b,
            (Command::Do(a), Command::Do(b)) => *a == *b,
            (Command::UnDo(a), Command::UnDo(b)) => *a == *b,
            (Command::Delete(a), Command::Delete(b)) => *a == *b,
            _ => false,
        }
    }
}

impl vstd::std_specs::cmp::PartialEqSpecImpl for Command {
    open spec fn obeys_eq_spec() -> bool {
        true
    }

    open spec fn eq_spec(&self, other: &Self) -> bool {
        match (self, other) {
            (Command::List, Command::List) => true,
            (Command::Exit, Command::Exit) => true,
            (Command::Add(a), Command::Add(b)) => a@ == b@,
            (Command::Do(a), Command::Do(b)) => a == b,
            (Command::UnDo(a), Command::UnDo(b)) => a == b,
            (Command::Delete(a), Command::Delete(b)) => a == b,
            _ => false,
        }
    }
}

/// Any possible [`Command`] building error.
#[derive(Debug)]
pub enum BuildError {
    MissingCommandName,
    MissingArgument(String),
    UnknownCommand,
    NotUsizeTaskId,
}

impl PartialEq for BuildError {
    fn eq(&self, other: &Self) -> (r: bool) {
        match (self, other) {
            (BuildError::MissingCommandName, BuildError::MissingCommandName) => true,
            (BuildError::MissingArgument(a), BuildError::MissingArgument(b)) => *a == *b,
            (BuildError::UnknownCommand, BuildError::UnknownCommand) => true,
            (BuildError::NotUsizeTaskId, BuildError::NotUsizeTaskId) => true,
            _ => false,
        }
    }
}

impl vstd::std_specs::cmp::PartialEqSpecImpl for BuildError {
    open spec fn obeys_eq_spec() -> bool {
        true
    }

    open spec fn eq_spec(&self, other: &Self) -> bool {
        match (self, other) {
            (BuildError::MissingCommandName, BuildError::MissingCommandName) => true,
            (BuildError::MissingArgument(a), BuildError::MissingArgument(b)) => a@ == b@,
            (BuildError::UnknownCommand, BuildError::UnknownCommand) => true,
            (BuildError::NotUsizeTaskId, BuildError::NotUsizeTaskId) => true,
            _ => false,
        }
    }
}

impl BuildError {
    /// The message this error carries.
    pub open spec fn spec_val(&self) -> Seq<char> {
        match self {
            BuildError::MissingCommandName => "Missing command name"@,
            BuildError::MissingArgument(text) => "Missing argument: "@ + text@,
            BuildError::UnknownCommand => "Unknown command"@,
            BuildError::NotUsizeTaskId => "Given task id is not an usize"@,
        }
    }

    /// Renders the message this error carries.
    pub fn val(&self) -> (r: String)
        ensures
            r@ == self.spec_val(),
    {
        match self {
            BuildError::MissingCommandName => String::from_str("Missing command name"),
            BuildError::MissingArgument(text) => {
                let mut val = String::from_str("Missing argument: ");
                val.append(text.as_str());
                val
            },
            BuildError::UnknownCommand => String::from_str("Unknown command"),
            BuildError::NotUsizeTaskId => String::from_str("Given task id is not an usize"),
        }
    }
}

/// A single piece that both begins and ends with the same quote character
/// loses the two quotes; anything else is kept whole.
pub open spec fn strip_quotes(w: Seq<char>) -> Seq<char> {
    if w.len() >= 2 && ((w[0] == '"' && w.last() == '"') || (w[0] == '\'' && w.last()
        == '\'')) {
        w.subrange(1, w.len() - 1)
    } else {
        w
    }
}

/// The one argument shape on which the quote stripping is undefined: a
/// single piece that is nothing but one quote character.
pub open spec fn parse_arg_panics(input: Seq<Seq<char>>) -> bool {
    input.len() == 1 && input[0].len() == 1 && (input[0][0] == '"' || input[0][0] == '\'')
}

/// Gathering of a quoted argument from piece `i` on: `acc` is what stands
/// before, `d` the opening quote. Pieces are joined by single spaces until
/// one ends with the closing quote; with no closing quote the argument is
/// empty.
pub open spec fn spec_scan_quoted(input: Seq<Seq<char>>, i: int, acc: Seq<char>, d: char)
    -> Seq<char>
    decreases input.len() - i,
{
    if i < 0 || i >= input.len() {
        Seq::empty()
    } else {
        let p = spec_trim(input[i]);
        let joined = if acc.len() > 0 {
            acc + seq![' ']
        } else {
            acc
        };
        if p.len() > 0 && p.last() == d {
            joined + p.drop_last()
        } else {
            spec_scan_quoted(input, i + 1, joined + p, d)
        }
    }
}

/// The free-text argument carried by the given pieces: a lone piece with its
/// surrounding quotes stripped; otherwise the first piece alone unless it
/// opens a quote, in which case the pieces up to the closing quote joined by
/// spaces.
pub open spec fn spec_parse_text_arg(input: Seq<Seq<char>>) -> Seq<char> {
    if input.len() == 1 {
        strip_quotes(input[0])
    } else if input.len() == 0 {
        Seq::empty()
    } else {
        let t0 = spec_trim(input[0]);
        if t0.len() > 0 && (t0[0] == '"' || t0[0] == '\'') {
            spec_scan_quoted(input, 1, t0.drop_first(), t0[0])
        } else {
            t0
        }
    }
}

/// Extracts the free-text argument from the given pieces.
#[verifier::loop_isolation(false)]
pub fn parse_text_arg(input: Vec<String>) -> (r: String)
    requires
        !parse_arg_panics(input.deep_view()),
    ensures
        r@ == spec_parse_text_arg(input.deep_view()),
{
    let ghost dv = input.deep_view();
    let len = input.len();
    proof {
        assert(dv.len() == len);
        assert(forall|k: int| 0 <= k < len ==> dv[k] == #[trigger] input@[k]@);
    }
    if len == 1 {
        let w = input[0].as_str();
        let n = w.unicode_len();
        if n >= 2 {
            let first = w.get_char(0);
            let last = w.get_char(n - 1);
            if (first == '"' && last == '"') || (first == '\'' && last == '\'') {
                return w.substring_char(1, n - 1).to_owned();
            }
        }
        return w.to_owned();
    }
    if len == 0 {
        return String::new();
    }
    let t0 = text::trim(input[0].as_str());
    let n0 = t0.as_str().unicode_len();
    if n0 == 0 {
        return t0;
    }
    let d = t0.as_str().get_char(0);
    if d != '"' && d != '\'' {
        return t0;
    }
    let mut acc = t0.as_str().substring_char(1, n0).to_owned();
    proof {
        assert(acc@ =~= spec_trim(dv[0]).drop_first());
    }
    let mut i: usize = 1;
    while i < len
        invariant
            1 <= i <= len,
            spec_parse_text_arg(dv) == spec_scan_quoted(dv, i as int, acc@, d),
        decreases len - i,
    {
        let ghost acc0 = acc@;
        let ghost ps = spec_trim(dv[i as int]);
        let ghost joined = if acc0.len() > 0 { acc0 + seq![' '] } else { acc0 };
        let p = text::trim(input[i].as_str());
        let np = p.as_str().unicode_len();
        if acc.as_str().unicode_len() > 0 {
            text::push_char(&mut acc, ' ');
        }
        proof {
            assert(acc@ =~= joined);
        }
        if np > 0 && p.as_str().get_char(np - 1) == d {
            let closing = p.as_str().substring_char(0, np - 1);
            proof {
                assert(closing@ =~= ps.drop_last());
            }
            acc.append(closing);
            proof {
                assert(spec_scan_quoted(dv, i as int, acc0, d) == joined + ps.drop_last());
                assert(acc@ == joined + ps.drop_last());
            }
            return acc;
        }
        acc.append(p.as_str());
        proof {
            assert(acc@ =~= joined + ps);
            assert(spec_scan_quoted(dv, i as int, acc0, d)
                == spec_scan_quoted(dv, i + 1, joined + ps, d));
        }
        i = i + 1;
    }
    String::new()
}

/// What building a command from `input` must yield.
///
/// The first word of the input names the command, case-insensitively for
/// ASCII letters; `add` takes a free-text argument made of the remaining
/// words; `do`, `undo` and `delete` take a task number as the second word;
/// anything else is refused with the fitting error.
pub open spec fn spec_build_command(input: Seq<char>, r: Result<Command, BuildError>) -> bool {
    let words = spec_words(input);
    if words.len() == 0 {
        r == Err::<Command, BuildError>(BuildError::MissingCommandName)
    } else {
        let name = spec_lower(words[0]);
        if name == "list"@ {
            r == Ok::<Command, BuildError>(Command::List)
        } else if name == "exit"@ {
            r == Ok::<Command, BuildError>(Command::Exit)
        } else if name == "add"@ {
            let arg = spec_parse_text_arg(words.drop_first());
            if arg.len() == 0 {
                r matches Err(BuildError::MissingArgument(m)) && m@ == "add 'tast text'"@
            } else {
                r matches Ok(Command::Add(t)) && t@ == arg
            }
        } else if name == "do"@ || name == "undo"@ || name == "delete"@ {
            if words.len() == 1 {
                r matches Err(BuildError::MissingArgument(m)) && m@ == name + " TASK_ID"@
            } else {
                match spec_parse_usize(words[1]) {
                    Some(v) => {
                        if name == "do"@ {
                            r matches Ok(Command::Do(id)) && id.spec_val() == v
                        } else if name == "undo"@ {
                            r matches Ok(Command::UnDo(id)) && id.spec_val() == v
                        } else {
                            r matches Ok(Command::Delete(id)) && id.spec_val() == v
                        }
                    },
                    None => r == Err::<Command, BuildError>(BuildError::NotUsizeTaskId),
                }
            }
        } else {
            r == Err::<Command, BuildError>(BuildError::UnknownCommand)
        }
    }
}

/// The one input shape on which command building is undefined: an `add`
/// whose only argument piece is a single bare quote character.
pub open spec fn build_command_panics(input: Seq<char>) -> bool {
    let words = spec_words(input);
    words.len() >= 1 && spec_lower(words[0]) == "add"@ && parse_arg_panics(words.drop_first())
}

/// Builds a [`Command`] from one line of user input.
#[verifier::loop_isolation(false)]
pub fn build_command(input: &str) -> (r: Result<Command, BuildError>)
    requires
        !build_command_panics(input@),
    ensures
        spec_build_command(input@, r),
{
    let words = text::split_words(input);
    let ghost ws = spec_words(input@);
    if words.len() == 0 {
        return Err(BuildError::MissingCommandName);
    }
    let name = text::ascii_lower(words[0].as_str());
    if text::str_eq(name.as_str(), "list") {
        Ok(Command::List)
    } else if text::str_eq(name.as_str(), "exit") {
        Ok(Command::Exit)
    } else if text::str_eq(name.as_str(), "add") {
        let mut args: Vec<String> = Vec::new();
        let mut i: usize = 1;
        while i < words.len()
            invariant
                1 <= i <= words.len(),
                args.deep_view() == ws.subrange(1, i as int),
            decreases words.len() - i,
        {
            let piece = words[i].clone();
            args.push(piece);
            proof {
                assert(args.deep_view() =~= ws.subrange(1, i + 1));
            }
            i = i + 1;
        }
        proof {
            assert(args.deep_view() =~= ws.drop_first());
        }
        let parsed_arg = parse_text_arg(args);
        if parsed_arg.as_str().unicode_len() == 0 {
            Err(BuildError::MissingArgument(String::from_str("add 'tast text'")))
        } else {
            Ok(Command::Add(parsed_arg))
        }
    } else if text::str_eq(name.as_str(), "do") || text::str_eq(name.as_str(), "undo")
        || text::str_eq(name.as_str(), "delete") {
        if words.len() == 1 {
            let msg = name.concat(" TASK_ID");
            Err(BuildError::MissingArgument(msg))
        } else {
            match text::parse_usize(words[1].as_str()) {
                Some(v) => {
                    if text::str_eq(name.as_str(), "do") {
                        Ok(Command::Do(TaskId::new(v)))
                    } else if text::str_eq(name.as_str(), "undo") {
                        Ok(Command::UnDo(TaskId::new(v)))
                    } else {
                        Ok(Command::Delete(TaskId::new(v)))
                    }
                },
                None => Err(BuildError::NotUsizeTaskId),
            }
        }
    } else {
        Err(BuildError::UnknownCommand)
    }
}

} // verus!
