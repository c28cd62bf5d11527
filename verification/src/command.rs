//! The commands that a line of input can name, the words that name them
//! and the texts that explain them.

use crate::text::same_text;
use vstd::prelude::*;
use vstd::std_specs::convert::{FromSpecImpl, TryFromSpecImpl};
use vstd::string::StringExecFns;

verus! {

#[derive(PartialEq, Eq, Debug, Clone, Copy, Structural)]
pub enum Command {
    Complete,
    Undo,
    Delete,
    Help,
}

/// The command that a word names, if it names one. The set of such words is
/// closed: no other word is a command, whatever it begins with.
pub open spec fn command_named(word: Seq<char>) -> Option<Command> {
    if word == "/help"@ {
        Some(Command::Help)
    } else if word == "/do"@ || word == "/complete"@ {
        Some(Command::Complete)
    } else if word == "/undo"@ {
        Some(Command::Undo)
    } else if word == "/delete"@ {
        Some(Command::Delete)
    } else {
        None
    }
}

/// The commands in the order in which the help text lists them.
pub open spec fn all_commands() -> Seq<Command> {
    seq![Command::Help, Command::Complete, Command::Delete, Command::Undo]
}

/// The help text for a sequence of commands: one line each.
pub open spec fn help_lines(commands: Seq<Command>) -> Seq<char>
    decreases commands.len(),
{
    if commands.len() == 0 {
        Seq::empty()
    } else {
        help_lines(commands.drop_last()) + commands.last().help_line()
    }
}

/// The whole help text: a line for each command, then the prompt to go on.
pub open spec fn help_text() -> Seq<char> {
    help_lines(all_commands()) + "Press enter to continue...\n"@
}

impl Command {
    /// The word under which the command is shown.
    pub open spec fn keyword_str(self) -> &'static str {
        match self {
            Command::Help => "/help",
            Command::Complete => "/complete",
            Command::Undo => "/undo",
            Command::Delete => "/delete",
        }
    }

    /// The characters of the word under which the command is shown.
    pub open spec fn keyword(self) -> Seq<char> {
        self.keyword_str()@
    }

    /// The sentence that explains the command.
    pub open spec fn description(self) -> Seq<char> {
        match self {
            Command::Help => "Lists all commands."@,
            Command::Complete => "Marks task as completed and moves it into completed tasks list."@,
            Command::Undo => "Moves task back from completed tasks list into todo list."@,
            Command::Delete => "Deletes the task."@,
        }
    }

    /// The line of the help text for the command.
    pub open spec fn help_line(self) -> Seq<char> {
        self.keyword() + " - "@ + self.description() + "\n"@
    }

    pub fn get_all() -> (commands: Vec<Command>)
        ensures
            commands@ == all_commands(),
    {
        let commands = vec![Command::Help, Command::Complete, Command::Delete, Command::Undo];
        assert(commands@ =~= all_commands());
        commands
    }

    pub fn get_description(&self) -> (text: &str)
        ensures
            text@ == self.description(),
    {
        match self {
            Command::Help => "Lists all commands.",
            Command::Complete => "Marks task as completed and moves it into completed tasks list.",
            Command::Undo => "Moves task back from completed tasks list into todo list.",
            Command::Delete => "Deletes the task.",
        }
    }

    /// The word under which the command is shown.
    pub fn as_str(&self) -> (word: &'static str)
        ensures
            word == self.keyword_str(),
    {
        match self {
            Command::Help => "/help",
            Command::Complete => "/complete",
            Command::Undo => "/undo",
            Command::Delete => "/delete",
        }
    }

    /// The help text: for each command its word and what it does, then the
    /// prompt to go on.
    pub fn help() -> (text: String)
        ensures
            text@ == help_text(),
    {
        let commands = Command::get_all();
        let mut text = String::new();
        let mut index: usize = 0;
        assert(commands@.take(0) =~= Seq::empty());
        while index < commands.len()
            invariant
                index <= commands.len(),
                text@ == help_lines(commands@.take(index as int)),
            decreases commands.len() - index,
        {
            let command = commands[index];
            text.append(command.as_str());
            text.append(" - ");
            text.append(command.get_description());
            text.append("\n");
            proof {
                let next = commands@.take(index + 1);
                assert(next.drop_last() =~= commands@.take(index as int));
                assert(text@ =~= help_lines(next.drop_last()) + next.last().help_line());
            }
            index += 1;
        }
        assert(commands@.take(index as int) =~= commands@);
        text.append("Press enter to continue...\n");
        text
    }
}

impl<'a> TryFrom<&'a str> for Command {
    type Error = &'static str;

    /// The command that `value` names; an error if it names none.
    fn try_from(value: &'a str) -> (named: Result<Command, &'static str>)
        ensures
            match named {
                Ok(command) => command_named(value@) == Some(command),
                Err(message) => command_named(value@) is None && message@ == "Unknown command"@,
            },
    {
        if same_text(value, "/help") {
            Ok(Command::Help)
        } else if same_text(value, "/do") || same_text(value, "/complete") {
            Ok(Command::Complete)
        } else if same_text(value, "/undo") {
            Ok(Command::Undo)
        } else if same_text(value, "/delete") {
            Ok(Command::Delete)
        } else {
            Err("Unknown command")
        }
    }
}

impl<'a> TryFromSpecImpl<&'a str> for Command {
    open spec fn obeys_try_from_spec() -> bool {
        true
    }

    open spec fn try_from_spec(value: &'a str) -> Result<Command, &'static str> {
        match command_named(value@) {
            Some(command) => Ok(command),
            None => Err("Unknown command"),
        }
    }
}

impl From<Command> for &'static str {
    fn from(command: Command) -> (word: &'static str) {
        command.as_str()
    }
}

impl FromSpecImpl<Command> for &'static str {
    open spec fn obeys_from_spec() -> bool {
        true
    }

    open spec fn from_spec(command: Command) -> &'static str {
        command.keyword_str()
    }
}

/// Every word under which a command is shown names that command.
pub proof fn lemma_keyword_names_command(command: Command)
    ensures
        command_named(command.keyword()) == Some(command),
{
    reveal_strlit("/help");
    reveal_strlit("/do");
    reveal_strlit("/complete");
    reveal_strlit("/undo");
    reveal_strlit("/delete");
    // The words differ in length, but for these two.
    assert("/help"@.len() == 5 && "/undo"@.len() == 5);
    assert("/do"@.len() == 3 && "/complete"@.len() == 9 && "/delete"@.len() == 7);
    assert("/help"@[1] == 'h' && "/undo"@[1] == 'u');
}

} // verus!
