use vstd::prelude::*;
use crate::builtins::{self, builtin_of, Builtin};
use crate::path::{resolve, search_path, DirEntry};
use crate::builtins::type_report;
use crate::text::{
    copy_strings, is_ws, join_space, lemma_join_split, lemma_split_char_source,
    lemma_split_pieces_spaceless, lemma_split_space_nonempty, lemma_trim_no_ws, skip_ws_backward,
    skip_ws_forward, split_space, split_spaces, strings_view, trim, trimmed,
};

verus! {

/// What an external process left behind once it exited.
#[derive(Debug)]
pub struct ProcessOutput {
    /// Everything the process wrote to standard output.
    pub stdout: Vec<u8>,
    /// Everything the process wrote to standard error.
    pub stderr: Vec<u8>,
    /// The exit code, or `None` when a signal ended the process.
    pub status: Option<i32>,
}

/// The successful outcome of one command.
#[derive(Debug)]
pub enum CommandResultValue {
    /// The shell is to stop.
    Exit,
    /// The captured output of an external program.
    InPathOutput(ProcessOutput),
    /// A line of text for the user.
    Output(String),
}

/// Why a command failed, as the user is to read it.
#[derive(Debug)]
pub struct CommandError {
    pub reason: String,
}

pub type CommandResult = Result<Option<CommandResultValue>, CommandError>;

/// `r` is a text outcome holding `s`.
pub open spec fn is_text(r: CommandResult, s: Seq<char>) -> bool {
    r matches Ok(Some(CommandResultValue::Output(t))) && t@ == s
}

/// `r` is a failure whose reason is `s`.
pub open spec fn is_failure(r: CommandResult, s: Seq<char>) -> bool {
    r matches Err(e) && e.reason@ == s
}

/// How a command name is to be carried out.
#[derive(Debug)]
pub enum CommandType {
    /// By the shell itself.
    Builtin(Builtin),
    /// By the executable found on the search path: the name typed and the resolved path.
    InPath(String, String),
    /// Not at all: nothing of that name exists.
    Invalid(String),
}

/// `t` is the classification of `name` against the search path `dirs`: built-ins first,
/// then the search path, else unknown.
pub open spec fn classified(t: CommandType, name: Seq<char>, dirs: Seq<Vec<DirEntry>>) -> bool {
    match builtin_of(name) {
        Some(b) => t == CommandType::Builtin(b),
        None => match resolve(name, dirs) {
            Some(p) => t matches CommandType::InPath(n, q) && n@ == name && q@ == p,
            None => t matches CommandType::Invalid(n) && n@ == name,
        },
    }
}

impl CommandType {
    /// Classifies `command_name`; a built-in cannot be shadowed by a file on the search path.
    pub fn from_name(command_name: &String, search_path_dirs: &Vec<Vec<DirEntry>>) -> (r:
        CommandType)
        ensures
            classified(r, command_name@, search_path_dirs@),
    {
        match builtins::get_builtin(command_name.as_str()) {
            Some(builtin) => CommandType::Builtin(builtin),
            None => {
                if let Some(command_path) = search_path(command_name.as_str(), search_path_dirs) {
                    return CommandType::InPath(command_name.clone(), command_path);
                }
                CommandType::Invalid(command_name.clone())
            },
        }
    }
}

/// The tokens of an input line: the trimmed line cut at single spaces, each piece trimmed.
pub open spec fn tokens(line: Seq<char>) -> Seq<Seq<char>> {
    split_space(trim(line)).map_values(|t: Seq<char>| trim(t))
}

/// A command name with its arguments, as typed on one line.
#[derive(Debug)]
pub struct Command {
    pub name: String,
    pub args: Vec<String>,
}

/// What the shell does next for a command.
#[derive(Debug)]
pub enum Action {
    /// Nothing more to do: this is the outcome.
    Finished(CommandResult),
    /// Run the executable at `path` with `args`, handing it `name` as its own name.
    Spawn { name: String, path: String, args: Vec<String> },
}

impl Command {
    /// The arguments, as sequences of characters.
    pub open spec fn args_view(&self) -> Seq<Seq<char>> {
        strings_view(self.args@)
    }

    /// Tokenizes one input line. A line that is empty once trimmed gives no command.
    pub fn from_string(input: &String) -> (r: Option<Command>)
        ensures
            r is None <==> trim(input@).len() == 0,
            r matches Some(c) ==> c.name@ == tokens(input@)[0] && c.args_view() == tokens(
                input@,
            ).drop_first(),
    {
        let line = trimmed(input.as_str());
        if line.as_str().unicode_len() == 0 {
            return None;
        }
        let pieces = split_spaces(line.as_str());
        let ghost toks = tokens(input@);
        proof {
            lemma_split_space_nonempty(line@);
        }
        assert(toks.len() == pieces@.len());
        let mut name = String::new();
        let mut args: Vec<String> = Vec::new();
        let mut i: usize = 0;
        while i < pieces.len()
            invariant
                toks == tokens(input@),
                toks.len() == pieces@.len(),
                strings_view(pieces@) == split_space(line@),
                line@ == trim(input@),
                i <= pieces@.len(),
                i == 0 ==> args@.len() == 0,
                i > 0 ==> name@ == toks[0],
                i > 0 ==> strings_view(args@) == toks.subrange(1, i as int),
            decreases pieces@.len() - i,
        {
            let tk = trimmed(pieces[i].as_str());
            assert(tk@ == toks[i as int]);
            if i == 0 {
                name = tk;
                assert(strings_view(args@) =~= toks.subrange(1, 1));
            } else {
                args.push(tk);
                assert(strings_view(args@) =~= toks.subrange(1, i + 1));
            }
            i = i + 1;
        }
        assert(toks.drop_first() =~= toks.subrange(1, toks.len() as int));
        Some(Command { name, args })
    }

    /// Carries the command out as far as the shell itself can: a built-in or an unknown
    /// name gives the outcome, a name found on the search path gives the process to spawn.
    pub fn run(&self, search_path_dirs: &Vec<Vec<DirEntry>>) -> (r: Action)
        ensures
            match builtin_of(self.name@) {
                Some(Builtin::Exit) => r matches Action::Finished(
                    Ok(Some(CommandResultValue::Exit)),
                ),
                Some(Builtin::Echo) => r matches Action::Finished(res) && is_text(
                    res,
                    join_space(self.args_view()),
                ),
                Some(Builtin::Type) => r matches Action::Finished(res) && match type_report(
                    self.args_view(),
                    search_path_dirs@,
                ) {
                    Ok(s) => is_text(res, s),
                    Err(s) => is_failure(res, s),
                },
                None => match resolve(self.name@, search_path_dirs@) {
                    Some(p) => r matches Action::Spawn { name, path, args } && name@ == self.name@
                        && path@ == p && strings_view(args@) == self.args_view(),
                    None => r matches Action::Finished(res) && is_failure(
                        res,
                        self.name@ + ": command not found"@,
                    ),
                },
            },
    {
        match CommandType::from_name(&self.name, search_path_dirs) {
            CommandType::Builtin(Builtin::Exit) => Action::Finished(builtins::exit()),
            CommandType::Builtin(Builtin::Echo) => Action::Finished(builtins::echo(&self.args)),
            CommandType::Builtin(Builtin::Type) => Action::Finished(
                builtins::print_type(&self.args, search_path_dirs),
            ),
            CommandType::InPath(name, path) => Action::Spawn {
                name,
                path,
                args: copy_strings(&self.args),
            },
            CommandType::Invalid(name) => {
                let mut reason = name;
                reason.append(": command not found");
                Action::Finished(Err(CommandError { reason }))
            },
        }
    }

    /// The outcome of spawning an external program called `name`: its captured output, or
    /// the reason it could not be run.
    pub fn run_external_command(name: &str, spawned: Result<ProcessOutput, String>) -> (r:
        CommandResult)
        ensures
            spawned matches Ok(o) ==> r == Ok::<Option<CommandResultValue>, CommandError>(
                Some(CommandResultValue::InPathOutput(o)),
            ),
            spawned matches Err(e) ==> is_failure(r, name@ + " failed. "@ + e@),
    {
        match spawned {
            Ok(output) => Ok(Some(CommandResultValue::InPathOutput(output))),
            Err(err) => {
                let mut reason = String::from_str(name);
                reason.append(" failed. ");
                reason.append(err.as_str());
                Err(CommandError { reason })
            },
        }
    }
}

} // verus!

verus! {

/// A line whose only whitespace is single spaces between words: no leading or trailing
/// whitespace, and no two whitespace characters side by side.
pub open spec fn single_spaced(s: Seq<char>) -> bool {
    forall|i: int|
        0 <= i < s.len() && is_ws(#[trigger] s[i]) ==> s[i] == ' ' && 0 < i < s.len() - 1
            && !is_ws(s[i - 1]) && !is_ws(s[i + 1])
}

/// A single-spaced line comes back unchanged when its tokens are joined with single
/// spaces (a line with runs of spaces or outer whitespace in general does not).
pub proof fn lemma_single_spaced_round_trip(line: Seq<char>)
    requires
        single_spaced(line),
    ensures
        join_space(tokens(line)) == line,
{
    assert(trim(line) == line) by {
        if line.len() > 0 {
            assert(!is_ws(line[0]));
            assert(!is_ws(line[line.len() - 1]));
        }
        assert(skip_ws_forward(line, 0) == 0);
        assert(skip_ws_backward(line, 0, line.len() as int) == line.len());
        assert(line.subrange(0, line.len() as int) =~= line);
    }
    let pieces = split_space(line);
    lemma_join_split(line);
    lemma_split_pieces_spaceless(line);
    assert forall|k: int| 0 <= k < pieces.len() implies trim(#[trigger] pieces[k]) == pieces[k] by {
        assert forall|c: int| 0 <= c < pieces[k].len() implies !is_ws(#[trigger] pieces[k][c]) by {
            assert(pieces[k][c] != ' ');
            lemma_split_char_source(line, k, c);
            let i = choose|i: int| 0 <= i < line.len() && line[i] == pieces[k][c];
            assert(!is_ws(line[i]));
        }
        lemma_trim_no_ws(pieces[k]);
    }
    assert(tokens(line) =~= pieces);
}

/// The names of the built-ins are never shadowed: whatever the search path holds,
/// `exit`, `echo` and `type` classify as built-ins.
pub proof fn lemma_builtins_not_shadowed(
    name: Seq<char>,
    dirs: Seq<Vec<DirEntry>>,
    t: CommandType,
)
    requires
        name == "exit"@ || name == "echo"@ || name == "type"@,
        classified(t, name, dirs),
    ensures
        t is Builtin,
        name == "exit"@ ==> t == CommandType::Builtin(Builtin::Exit),
        name == "echo"@ ==> t == CommandType::Builtin(Builtin::Echo),
        name == "type"@ ==> t == CommandType::Builtin(Builtin::Type),
{
    reveal_strlit("exit");
    reveal_strlit("echo");
    reveal_strlit("type");
    assert("exit"@[1] != "echo"@[1]);
    assert("type"@[0] != "echo"@[0]);
    assert("type"@[0] != "exit"@[0]);
}

} // verus!
