use vstd::prelude::*;
use crate::command::{is_failure, is_text, CommandError, CommandResult, CommandResultValue};
use crate::path::{resolve, search_path, DirEntry};
use crate::text::{join_space, join_with_space, str_eq, strings_view};

verus! {

/// The commands that the shell carries out itself.
#[derive(PartialEq, Eq, Structural, Clone, Copy, Debug)]
pub enum Builtin {
    Echo,
    Exit,
    Type,
}

/// The built-in named `name`, if there is one.
pub open spec fn builtin_of(name: Seq<char>) -> Option<Builtin> {
    if name == "echo"@ {
        Some(Builtin::Echo)
    } else if name == "exit"@ {
        Some(Builtin::Exit)
    } else if name == "type"@ {
        Some(Builtin::Type)
    } else {
        None
    }
}

/// Looks `command_name` up in the table of built-ins (exact, case-sensitive match).
pub fn get_builtin(command_name: &str) -> (r: Option<Builtin>)
    ensures
        r == builtin_of(command_name@),
{
    if str_eq(command_name, "echo") {
        Some(Builtin::Echo)
    } else if str_eq(command_name, "exit") {
        Some(Builtin::Exit)
    } else if str_eq(command_name, "type") {
        Some(Builtin::Type)
    } else {
        None
    }
}

/// What `type` reports for `args`: `Ok` with the line to show, `Err` with the reason.
pub open spec fn type_report(args: Seq<Seq<char>>, dirs: Seq<Vec<DirEntry>>) -> Result<
    Seq<char>,
    Seq<char>,
> {
    if args.len() == 0 {
        Err("type: missing argument"@)
    } else if builtin_of(args[0]) is Some {
        Ok(args[0] + " is a shell builtin"@)
    } else {
        match resolve(args[0], dirs) {
            Some(p) => Ok(args[0] + " is "@ + p),
            None => Err(args[0] + ": not found"@),
        }
    }
}

/// `exit`: whatever the arguments, the shell is to stop.
pub fn exit() -> (r: CommandResult)
    ensures
        r matches Ok(Some(CommandResultValue::Exit)),
{
    Ok(Some(CommandResultValue::Exit))
}

/// `echo`: the arguments joined with single spaces.
pub fn echo(args: &Vec<String>) -> (r: CommandResult)
    ensures
        is_text(r, join_space(strings_view(args@))),
{
    Ok(Some(CommandResultValue::Output(join_with_space(args))))
}

/// `type`: tells how its first argument would be carried out, without running it.
pub fn print_type(args: &Vec<String>, search_path_dirs: &Vec<Vec<DirEntry>>) -> (r: CommandResult)
    ensures
        match type_report(strings_view(args@), search_path_dirs@) {
            Ok(s) => is_text(r, s),
            Err(s) => is_failure(r, s),
        },
{
    if args.len() == 0 {
        return Err(CommandError { reason: String::from_str("type: missing argument") });
    }
    let command_name = &args[0];
    assert(strings_view(args@)[0] == command_name@);
    let mut text = String::from_str(command_name.as_str());
    match get_builtin(command_name.as_str()) {
        Some(_) => {
            text.append(" is a shell builtin");
            Ok(Some(CommandResultValue::Output(text)))
        },
        None => match search_path(command_name.as_str(), search_path_dirs) {
            Some(path) => {
                text.append(" is ");
                text.append(path.as_str());
                Ok(Some(CommandResultValue::Output(text)))
            },
            None => {
                text.append(": not found");
                Err(CommandError { reason: text })
            },
        },
    }
}

} // verus!
