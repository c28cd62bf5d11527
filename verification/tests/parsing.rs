use to_do_cli::command::Command;
use to_do_cli::decimal::{parse_decimal_range, parse_digits_range, push_decimal};
use to_do_cli::input::{
    get_argument, get_command, get_target, parse_input, process_input, run_instruction,
    Instruction, Outcome,
};
use to_do_cli::task_list::TaskList;
use to_do_cli::text::{
    char_is_whitespace, chars_of, find_token_end, find_token_start, find_trimmed_end,
    is_blank_text, same_text, trim_bounds,
};

fn sample_lines() -> Vec<String> {
    let mut lines: Vec<String> = Vec::new();
    for line in [
        "",
        " ",
        "   ",
        "a",
        " a",
        "a ",
        "  buy milk  ",
        "/do 3",
        "/do  3  4",
        "\t/undo\t12\n",
        "/delete",
        "/help me",
        "/unknown 3",
        "one two three",
        "\u{a0}x\u{2003}y\u{3000}",
        "\u{85}/complete\u{1680}7",
        "é è",
        "tab\there",
        "zero\u{200b}width",
    ] {
        lines.push(line.to_string());
    }
    lines
}

#[test]
fn whitespace_is_what_the_standard_library_says() {
    for code in 0..=0x10FFFFu32 {
        if let Some(c) = char::from_u32(code) {
            assert_eq!(char_is_whitespace(c), c.is_whitespace(), "U+{:04X}", code);
        }
    }
}

#[test]
fn chars_of_gives_the_characters_in_order() {
    assert_eq!(chars_of("aé 1"), vec!['a', 'é', ' ', '1']);
    assert_eq!(chars_of(""), Vec::<char>::new());
}

#[test]
fn same_text_compares_whole_texts() {
    assert!(same_text("", ""));
    assert!(same_text("/undo", "/undo"));
    assert!(!same_text("/undo", "/help"));
    assert!(!same_text("/do", "/do "));
    assert!(!same_text("a", ""));
}

#[test]
fn blank_texts_are_those_that_trim_to_nothing() {
    for line in sample_lines() {
        assert_eq!(is_blank_text(&line), line.trim().is_empty(), "{:?}", line);
    }
    assert!(is_blank_text(""));
    assert!(is_blank_text(" \t\r\n"));
    assert!(!is_blank_text(" . "));
}

#[test]
fn token_bounds_on_a_command_line() {
    let chars = chars_of("  /do   42 ");
    let start: usize = find_token_start(&chars, 0);
    assert_eq!(start, 2);
    let end: usize = find_token_end(&chars, start);
    assert_eq!(end, 5);
    let second: usize = find_token_start(&chars, end);
    assert_eq!(second, 8);
    assert_eq!(find_token_end(&chars, second), 10);
    assert_eq!(find_token_start(&chars, 10), 11);
    assert_eq!(find_token_end(&chars, 11), 11);
    assert_eq!(find_trimmed_end(&chars), 10);
}

#[test]
fn trim_bounds_match_the_standard_trim() {
    for line in sample_lines() {
        let chars = chars_of(&line);
        let (start, end) = trim_bounds(&chars);
        let trimmed: String = chars[start..end].iter().collect();
        assert_eq!(trimmed, line.trim(), "{:?}", line);
    }
    assert_eq!(trim_bounds(&chars_of("   ")), (0, 0));
    assert_eq!(trim_bounds(&chars_of(" ab c ")), (1, 5));
}

#[test]
fn argument_of_a_command_is_the_second_word() {
    for line in sample_lines() {
        assert_eq!(
            get_argument(&line, true),
            line.split_whitespace().nth(1).unwrap_or(""),
            "{:?}",
            line
        );
    }
    assert_eq!(get_argument("/do 3", true), "3");
    assert_eq!(get_argument("/do", true), "");
}

#[test]
fn argument_of_a_description_is_the_trimmed_line() {
    for line in sample_lines() {
        assert_eq!(get_argument(&line, false), line.trim(), "{:?}", line);
    }
    assert_eq!(get_argument("  buy  milk ", false), "buy  milk");
}

#[test]
fn command_is_named_by_the_first_word() {
    assert_eq!(get_command("/do 3"), Some(Command::Complete));
    assert_eq!(get_command("/complete 3"), Some(Command::Complete));
    assert_eq!(get_command("  /undo 3"), Some(Command::Undo));
    assert_eq!(get_command("/delete"), Some(Command::Delete));
    assert_eq!(get_command("\t/help\t"), Some(Command::Help));
    assert_eq!(get_command("/unknown 3"), None);
    assert_eq!(get_command("do 3"), None);
    assert_eq!(get_command("/Do 3"), None);
    assert_eq!(get_command("/do3"), None);
    assert_eq!(get_command("x /do 3"), None);
    assert_eq!(get_command(""), None);
    assert_eq!(get_command("   "), None);
}

#[test]
fn target_is_read_as_the_standard_library_reads_it() {
    let mut samples: Vec<String> = Vec::new();
    for text in [
        "", "0", "3", "42", "007", "+3", "+", "-3", "-0", "++3", "3a", "a3", "3 ", " 3", "1_000",
        "٣", "１２", "1.5", "0x10", "99999999999999999999999999", "+0000000000000000000000012",
    ] {
        samples.push(text.to_string());
    }
    samples.push(format!("{}", usize::MAX));
    samples.push(format!("{}0", usize::MAX));
    samples.push(format!("{}", usize::MAX as u128 + 1));
    samples.push(format!("{}", usize::MAX - 1));
    for text in samples {
        assert_eq!(
            get_target(&text),
            text.parse::<usize>().unwrap_or(0),
            "{:?}",
            text
        );
    }
}

#[test]
fn target_examples() {
    assert_eq!(get_target("3"), 3);
    assert_eq!(get_target("120"), 120);
    assert_eq!(get_target("+7"), 7);
    assert_eq!(get_target("abc"), 0);
    assert_eq!(get_target(""), 0);
    assert_eq!(get_target("-1"), 0);
    assert_eq!(get_target(&format!("{}", usize::MAX)), usize::MAX);
    assert_eq!(get_target(&format!("{}1", usize::MAX)), 0);
}

#[test]
fn digits_and_decimal_ranges() {
    let chars = chars_of("x+15y");
    assert_eq!(parse_decimal_range(&chars, 1, 4), Some(15));
    assert_eq!(parse_digits_range(&chars, 1, 4), None);
    assert_eq!(parse_digits_range(&chars, 2, 4), Some(15));
    assert_eq!(parse_digits_range(&chars, 2, 3), Some(1));
    assert_eq!(parse_digits_range(&chars, 2, 2), None);
    assert_eq!(parse_decimal_range(&chars, 1, 2), None);
    assert_eq!(parse_decimal_range(&chars, 0, 5), None);
    assert_eq!(parse_decimal_range(&chars, 2, 5), None);
}

#[test]
fn decimal_is_written_as_the_standard_library_writes_it() {
    for n in [0usize, 1, 9, 10, 11, 99, 100, 101, 12345, 1000000, usize::MAX - 1, usize::MAX] {
        let mut out = String::from("#");
        push_decimal(&mut out, n);
        assert_eq!(out, format!("#{}", n));
    }
}

#[test]
fn written_number_is_read_back() {
    for n in [0usize, 5, 10, 409, 65536, usize::MAX] {
        let mut out = String::new();
        push_decimal(&mut out, n);
        assert_eq!(get_target(&out), n);
    }
}

#[test]
fn parse_do_three() {
    assert_eq!(
        parse_input("/do 3"),
        Instruction::RunCommand(Command::Complete, 3)
    );
}

#[test]
fn parse_unknown_command_is_a_description() {
    assert_eq!(
        parse_input("/unknown 3"),
        Instruction::CreateTask("/unknown 3".to_string())
    );
}

#[test]
fn parse_blank_line_is_an_empty_description() {
    assert_eq!(parse_input("  "), Instruction::CreateTask(String::new()));
    assert_eq!(parse_input(""), Instruction::CreateTask(String::new()));
    let mut list = TaskList::new();
    assert_eq!(process_input("  ", &mut list), Outcome::Created(0));
    assert!(list.pending().is_empty());
    assert!(list.completed().is_empty());
    assert_eq!(list.next_id(), 1);
}

#[test]
fn parse_commands_with_and_without_target() {
    assert_eq!(
        parse_input("/complete 12"),
        Instruction::RunCommand(Command::Complete, 12)
    );
    assert_eq!(
        parse_input("  /undo   4   rest"),
        Instruction::RunCommand(Command::Undo, 4)
    );
    assert_eq!(
        parse_input("/delete"),
        Instruction::RunCommand(Command::Delete, 0)
    );
    assert_eq!(
        parse_input("/delete x"),
        Instruction::RunCommand(Command::Delete, 0)
    );
    assert_eq!(
        parse_input("/delete -2"),
        Instruction::RunCommand(Command::Delete, 0)
    );
    assert_eq!(
        parse_input("/help"),
        Instruction::RunCommand(Command::Help, 0)
    );
    assert_eq!(
        parse_input("/help 5"),
        Instruction::RunCommand(Command::Help, 5)
    );
}

#[test]
fn parse_description_is_trimmed() {
    assert_eq!(
        parse_input("  buy  milk \n"),
        Instruction::CreateTask("buy  milk".to_string())
    );
    assert_eq!(
        parse_input("do /do 3"),
        Instruction::CreateTask("do /do 3".to_string())
    );
}

#[test]
fn process_input_creates_tasks() {
    let mut list = TaskList::new();
    assert_eq!(process_input("buy milk", &mut list), Outcome::Created(1));
    assert_eq!(process_input("  walk dog ", &mut list), Outcome::Created(2));
    assert_eq!(process_input("/unknown 3", &mut list), Outcome::Created(3));
    assert_eq!(
        list.render(),
        "1. buy milk\n2. walk dog\n3. /unknown 3\n----------------------------------\n"
    );
}

#[test]
fn process_input_runs_commands() {
    let mut list = TaskList::new();
    process_input("a", &mut list);
    process_input("b", &mut list);
    process_input("c", &mut list);
    assert_eq!(
        process_input("/do 2", &mut list),
        Outcome::Ran(Command::Complete, true)
    );
    assert_eq!(
        process_input("/do 2", &mut list),
        Outcome::Ran(Command::Complete, false)
    );
    assert_eq!(
        process_input("/complete 3", &mut list),
        Outcome::Ran(Command::Complete, true)
    );
    assert_eq!(
        process_input("/undo 2", &mut list),
        Outcome::Ran(Command::Undo, true)
    );
    assert_eq!(
        process_input("/undo 1", &mut list),
        Outcome::Ran(Command::Undo, false)
    );
    assert_eq!(
        process_input("/delete 3", &mut list),
        Outcome::Ran(Command::Delete, true)
    );
    assert_eq!(
        process_input("/delete 3", &mut list),
        Outcome::Ran(Command::Delete, false)
    );
    assert_eq!(
        list.render(),
        "1. a\n2. b\n----------------------------------\n"
    );
}

#[test]
fn process_input_with_bad_target_changes_nothing() {
    let mut list = TaskList::new();
    process_input("a", &mut list);
    let before = list.render();
    assert_eq!(
        process_input("/do", &mut list),
        Outcome::Ran(Command::Complete, false)
    );
    assert_eq!(
        process_input("/delete one", &mut list),
        Outcome::Ran(Command::Delete, false)
    );
    assert_eq!(
        process_input("/undo 0", &mut list),
        Outcome::Ran(Command::Undo, false)
    );
    assert_eq!(list.render(), before);
}

#[test]
fn process_input_help_changes_nothing() {
    let mut list = TaskList::new();
    process_input("a", &mut list);
    let before = list.render();
    assert_eq!(process_input("/help", &mut list), Outcome::Help);
    assert_eq!(process_input("/help 1", &mut list), Outcome::Help);
    assert_eq!(list.render(), before);
    assert_eq!(list.next_id(), 2);
}

#[test]
fn run_instruction_carries_out_each_kind() {
    let mut list = TaskList::new();
    assert_eq!(
        run_instruction(&Instruction::CreateTask("a".to_string()), &mut list),
        Outcome::Created(1)
    );
    assert_eq!(
        run_instruction(&Instruction::CreateTask(" ".to_string()), &mut list),
        Outcome::Created(0)
    );
    assert_eq!(
        run_instruction(&Instruction::RunCommand(Command::Complete, 1), &mut list),
        Outcome::Ran(Command::Complete, true)
    );
    assert_eq!(
        run_instruction(&Instruction::RunCommand(Command::Undo, 1), &mut list),
        Outcome::Ran(Command::Undo, true)
    );
    assert_eq!(
        run_instruction(&Instruction::RunCommand(Command::Help, 1), &mut list),
        Outcome::Help
    );
    assert_eq!(
        run_instruction(&Instruction::RunCommand(Command::Delete, 1), &mut list),
        Outcome::Ran(Command::Delete, true)
    );
    assert!(list.pending().is_empty());
}
