//! From key presses to a line of input, and from a line of input to a
//! change of the task list.

use crate::command::{command_named, Command};
use crate::decimal::{parse_decimal, parse_decimal_range};
use crate::model::{has_id, TaskListView};
use crate::task_list::TaskList;
use crate::text::{
    chars_of, find_token_end, find_token_start, first_token, is_blank, pop_char, push_char,
    second_token, trim, trim_bounds,
};
use vstd::prelude::*;
use vstd::string::{StrSliceExecFns, StringExecFns};

verus! {

/// What the caller is to do after a key press.
#[derive(PartialEq, Eq, Debug, Clone, Copy, Structural)]
pub enum Action {
    ProcessInput,
    Exit,
}

/// A key press, as far as the line editor tells keys apart.
#[derive(PartialEq, Eq, Debug, Clone, Copy)]
pub enum Key {
    /// A key that types a character.
    Char(char),
    Backspace,
    Enter,
    Esc,
    /// Any other key.
    Other,
}

/// What a line of input asks for.
#[derive(PartialEq, Eq, Debug)]
pub enum Instruction {
    /// Make a task with this description.
    CreateTask(String),
    /// Carry out this command on the task with this id.
    RunCommand(Command, usize),
}

/// What a line of input asks for, as a mathematical value.
pub enum InstructionView {
    CreateTask(Seq<char>),
    RunCommand(Command, nat),
}

impl View for Instruction {
    type V = InstructionView;

    open spec fn view(&self) -> InstructionView {
        match self {
            Instruction::CreateTask(description) => InstructionView::CreateTask(description@),
            Instruction::RunCommand(command, id) => InstructionView::RunCommand(
                *command,
                *id as nat,
            ),
        }
    }
}

/// What carrying out an instruction came to.
#[derive(PartialEq, Eq, Debug, Clone, Copy)]
pub enum Outcome {
    /// The id of the task that was made, or 0 if none was.
    Created(usize),
    /// A task was to be completed, moved back or deleted; the flag says
    /// whether there was a task with that id in the right place.
    Ran(Command, bool),
    /// The help text is to be shown.
    Help,
}

/// The line after a key press.
pub open spec fn line_after(line: Seq<char>, key: Key) -> Seq<char> {
    match key {
        Key::Char(c) => line.push(c),
        Key::Backspace => if line.len() > 0 {
            line.drop_last()
        } else {
            line
        },
        _ => line,
    }
}

/// What the caller is to do after a key press.
pub open spec fn action_after(key: Key) -> Option<Action> {
    match key {
        Key::Enter => Some(Action::ProcessInput),
        Key::Esc => Some(Action::Exit),
        _ => None,
    }
}

/// The command that a line names with its first word, if it names one.
pub open spec fn command_of(line: Seq<char>) -> Option<Command> {
    command_named(first_token(line))
}

/// The argument of a line: its second word where the line is a command,
/// else the whole line without the whitespace around it.
pub open spec fn argument_of(line: Seq<char>, is_command: bool) -> Seq<char> {
    if is_command {
        second_token(line)
    } else {
        trim(line)
    }
}

/// The task id that the argument of a command denotes: the number written
/// there, or 0 where it is not the decimal form of a number that fits.
pub open spec fn target_of(argument: Seq<char>) -> nat {
    match parse_decimal(argument) {
        Some(id) => id as nat,
        None => 0,
    }
}

/// What a line of input asks for.
pub open spec fn parse_line(line: Seq<char>) -> InstructionView {
    match command_of(line) {
        Some(command) => InstructionView::RunCommand(command, target_of(argument_of(line, true))),
        None => InstructionView::CreateTask(argument_of(line, false)),
    }
}

/// Whether carrying out the instruction takes a new id.
pub open spec fn takes_id(instruction: InstructionView) -> bool {
    instruction matches InstructionView::CreateTask(description) && !is_blank(description)
}

/// The task list after an instruction was carried out.
pub open spec fn list_after(list: TaskListView, instruction: InstructionView) -> TaskListView {
    match instruction {
        InstructionView::CreateTask(description) => list.create(description),
        InstructionView::RunCommand(Command::Complete, id) => list.complete(id),
        InstructionView::RunCommand(Command::Undo, id) => list.undo(id),
        InstructionView::RunCommand(Command::Delete, id) => list.delete(id),
        InstructionView::RunCommand(Command::Help, _) => list,
    }
}

/// What carrying out an instruction comes to.
pub open spec fn outcome_of(list: TaskListView, instruction: InstructionView) -> Outcome {
    match instruction {
        InstructionView::CreateTask(description) => Outcome::Created(
            list.created_id(description) as usize,
        ),
        InstructionView::RunCommand(Command::Complete, id) => Outcome::Ran(
            Command::Complete,
            has_id(list.pending, id),
        ),
        InstructionView::RunCommand(Command::Undo, id) => Outcome::Ran(
            Command::Undo,
            has_id(list.completed, id),
        ),
        InstructionView::RunCommand(Command::Delete, id) => Outcome::Ran(
            Command::Delete,
            has_id(list.pending, id) || has_id(list.completed, id),
        ),
        InstructionView::RunCommand(Command::Help, _) => Outcome::Help,
    }
}

/// Takes one key press into the line being typed: a character is added at
/// the end, backspace takes the last one off, and enter and escape tell the
/// caller what to do next.
pub fn handle_key(input: &mut String, key: Key) -> (action: Option<Action>)
    ensures
        final(input)@ == line_after(old(input)@, key),
        action == action_after(key),
{
    match key {
        Key::Esc => Some(Action::Exit),
        Key::Char(c) => {
            push_char(input, c);
            None
        },
        Key::Backspace => {
            let _ = pop_char(input);
            None
        },
        Key::Enter => Some(Action::ProcessInput),
        Key::Other => None,
    }
}

/// The command that the line names with its first word, if it names one.
pub fn get_command(input: &str) -> (command: Option<Command>)
    ensures
        command == command_of(input@),
{
    let chars = chars_of(input);
    let start = find_token_start(&chars, 0);
    let end = find_token_end(&chars, start);
    let word = input.substring_char(start, end);
    match Command::try_from(word) {
        Ok(command) => Some(command),
        Err(_) => None,
    }
}

/// The argument of the line: its second word where the line is a command,
/// else the whole line without the whitespace around it.
pub fn get_argument(input: &str, is_command: bool) -> (argument: &str)
    ensures
        argument@ == argument_of(input@, is_command),
{
    let chars = chars_of(input);
    if is_command {
        let first_start = find_token_start(&chars, 0);
        let first_end = find_token_end(&chars, first_start);
        let start = find_token_start(&chars, first_end);
        let end = find_token_end(&chars, start);
        input.substring_char(start, end)
    } else {
        let (start, end) = trim_bounds(&chars);
        input.substring_char(start, end)
    }
}

/// The task id that the argument of a command denotes, 0 where it denotes none.
pub fn get_target(argument: &str) -> (id: usize)
    ensures
        id == target_of(argument@),
{
    let chars = chars_of(argument);
    assert(chars@.subrange(0, chars@.len() as int) =~= chars@);
    match parse_decimal_range(&chars, 0, chars.len()) {
        Some(id) => id,
        None => 0,
    }
}

/// Reads a line of input.
pub fn parse_input(input: &str) -> (instruction: Instruction)
    ensures
        instruction@ == parse_line(input@),
{
    match get_command(input) {
        Some(command) => Instruction::RunCommand(command, get_target(get_argument(input, true))),
        None => Instruction::CreateTask(String::from_str(get_argument(input, false))),
    }
}

/// Carries out an instruction on the task list.
pub fn run_instruction(instruction: &Instruction, task_list: &mut TaskList) -> (outcome: Outcome)
    requires
        old(task_list).wf(),
        takes_id(instruction@) ==> old(task_list)@.next_id < usize::MAX,
    ensures
        final(task_list)@ == list_after(old(task_list)@, instruction@),
        outcome == outcome_of(old(task_list)@, instruction@),
        final(task_list).wf(),
{
    match instruction {
        Instruction::CreateTask(description) => Outcome::Created(
            task_list.create_task(description.as_str()),
        ),
        Instruction::RunCommand(command, id) => match command {
            Command::Help => Outcome::Help,
            Command::Complete => Outcome::Ran(Command::Complete, task_list.complete_task(*id)),
            Command::Undo => Outcome::Ran(Command::Undo, task_list.undo_task(*id)),
            Command::Delete => Outcome::Ran(Command::Delete, task_list.delete_task(*id)),
        },
    }
}

/// Reads a line of input and carries out what it asks for.
pub fn process_input(input: &str, task_list: &mut TaskList) -> (outcome: Outcome)
    requires
        old(task_list).wf(),
        takes_id(parse_line(input@)) ==> old(task_list)@.next_id < usize::MAX,
    ensures
        final(task_list)@ == list_after(old(task_list)@, parse_line(input@)),
        outcome == outcome_of(old(task_list)@, parse_line(input@)),
        final(task_list).wf(),
{
    let instruction = parse_input(input);
    run_instruction(&instruction, task_list)
}

} // verus!
