use vstd::prelude::*;
use crate::command::{tokens, Command, CommandResult, CommandResultValue};
use crate::text::trim;

verus! {

/// The interactive interpreter's own state: the sign it prompts with.
#[derive(Debug)]
pub struct Shell {
    pub prompt_sign: String,
}

impl Shell {
    /// A shell that prompts with `$`.
    pub fn new() -> (r: Shell)
        ensures
            r.prompt_sign@ == "$"@,
    {
        Shell { prompt_sign: String::from_str("$") }
    }

    /// The text shown before each line is read: the prompt sign and a space.
    pub fn prompt(&self) -> (r: String)
        ensures
            r@ == self.prompt_sign@ + " "@,
    {
        let mut r = self.prompt_sign.clone();
        r.append(" ");
        r
    }

    /// Turns a line read from the user into a command; `None` means prompt again.
    pub fn read(&self, input: &String) -> (r: Option<Command>)
        ensures
            r is None <==> trim(input@).len() == 0,
            r matches Some(c) ==> c.name@ == tokens(input@)[0] && c.args_view() == tokens(
                input@,
            ).drop_first(),
    {
        Command::from_string(input)
    }

    /// The line to show the user for an outcome: the text of a text outcome, the reason
    /// of a failure, nothing otherwise.
    pub fn print(&self, result: &CommandResult) -> (r: Option<String>)
        ensures
            result matches Ok(Some(CommandResultValue::Output(t))) ==> r matches Some(s) && s@
                == t@,
            result matches Err(e) ==> r matches Some(s) && s@ == e.reason@,
            result matches Ok(None) ==> r is None,
            result matches Ok(Some(CommandResultValue::Exit)) ==> r is None,
            result matches Ok(Some(CommandResultValue::InPathOutput(_))) ==> r is None,
    {
        match result {
            Ok(Some(CommandResultValue::Output(text))) => Some(text.clone()),
            Err(err) => Some(err.reason.clone()),
            _ => None,
        }
    }

    /// Whether the outcome ends the session.
    pub fn should_exit(&self, result: &CommandResult) -> (r: bool)
        ensures
            r <==> result matches Ok(Some(CommandResultValue::Exit)),
    {
        match result {
            Ok(Some(CommandResultValue::Exit)) => true,
            _ => false,
        }
    }
}

} // verus!
