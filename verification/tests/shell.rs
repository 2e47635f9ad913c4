use ferric::shell::{parse_command, Command};

fn line(s: &str) -> Vec<char> {
    s.chars().collect()
}

#[test]
fn empty_and_blank_lines_parse_to_empty() {
    assert_eq!(parse_command(&[]), Command::Empty);
    assert_eq!(parse_command(&line("   ")), Command::Empty);
    assert_eq!(parse_command(&line("\t ")), Command::Empty);
}

#[test]
fn names_are_case_insensitive() {
    for name in ["HELP", "Help", "hElP", "help"] {
        assert_eq!(parse_command(&line(name)), Command::Help);
    }
    assert_eq!(parse_command(&line("HALT")), Command::Halt);
    assert_eq!(parse_command(&line("UPTIME")), Command::Uptime);
    assert_eq!(parse_command(&line("ECHO")), Command::Echo(&[]));
}

#[test]
fn keyword_commands_ignore_trailing_arguments() {
    assert_eq!(parse_command(&line("help me")), Command::Help);
    assert_eq!(parse_command(&line("clear all")), Command::Clear);
    assert_eq!(parse_command(&line("halt now")), Command::Halt);
}

#[test]
fn echo_carries_the_trimmed_remainder() {
    assert_eq!(parse_command(&line("echo hi")), Command::Echo(&['h', 'i']));
    assert_eq!(
        parse_command(&line("  echo   hello world  ")),
        Command::Echo(&['h', 'e', 'l', 'l', 'o', ' ', 'w', 'o', 'r', 'l', 'd'])
    );
    assert_eq!(parse_command(&line("echo")), Command::Echo(&[]));
}

#[test]
fn unknown_commands_carry_the_name_without_arguments() {
    assert_eq!(parse_command(&line("xyz")), Command::Unknown(&['x', 'y', 'z']));
    assert_eq!(
        parse_command(&line("echoo hi")),
        Command::Unknown(&['e', 'c', 'h', 'o', 'o'])
    );
}

#[test]
fn arch_and_panic_keywords_parse() {
    assert_eq!(parse_command(&line(" Arch ")), Command::Arch);
    assert_eq!(parse_command(&line("PANIC now")), Command::Panic);
    assert_eq!(parse_command(&line("\tuptime\t")), Command::Uptime);
}
