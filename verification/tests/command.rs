use sila::command::Command;
use sila::tokenizer::{quotes_are_closed, EmptyInputError};

#[test]
fn parse_one_word_command() {
    let input = "git".to_string();

    assert_eq!(
        Command::from_input(input),
        Ok(Command {
            name: "git".to_string(),
            args: Vec::new()
        })
    )
}

#[test]
fn command_parse_command_with_arguments() {
    let input = "git describe".to_string();
    assert_eq!(
        Command::from_input(input),
        Ok(Command {
            name: "git".to_string(),
            args: vec!["describe".to_string()]
        })
    )
}

#[test]
fn parse_commands_with_single_slashes() {
    let input = "git tag -a -m 'Some test'".to_string();
    assert_eq!(
        Command::from_input(input),
        Ok(Command {
            name: "git".to_string(),
            args: vec![
                "tag".to_string(),
                "-a".to_string(),
                "-m".to_string(),
                "'Some test'".to_string()
            ]
        })
    )
}

#[test]
fn parse_commands_with_single_slashes_multiple_arguments() {
    let input = "git tag -a -m 'Some test' --dry_run".to_string();
    assert_eq!(
        Command::from_input(input),
        Ok(Command {
            name: "git".to_string(),
            args: vec![
                "tag".to_string(),
                "-a".to_string(),
                "-m".to_string(),
                "'Some test'".to_string(),
                "--dry_run".to_string()
            ]
        })
    );
}

#[test]
fn parse_commands_with_double_slashes_multiple_arguments() {
    let input = r#"git tag -a -m "Some test" --dry_run"#.to_string();
    assert_eq!(
        Command::from_input(input),
        Ok(Command {
            name: "git".to_string(),
            args: vec![
                "tag".to_string(),
                "-a".to_string(),
                "-m".to_string(),
                r#""Some test""#.to_string(),
                "--dry_run".to_string()
            ]
        })
    );
}

#[test]
fn parse_commands_with_mixed_slashes_multiple_arguments() {
    let input = r#"git tag -a -m "Some test 'appears here'" --dry_run"#.to_string();
    assert_eq!(
        Command::from_input(input),
        Ok(Command {
            name: "git".to_string(),
            args: vec![
                "tag".to_string(),
                "-a".to_string(),
                "-m".to_string(),
                r#""Some test 'appears here'""#.to_string(),
                "--dry_run".to_string()
            ]
        })
    );
}

#[test]
fn command_check_should_continue_to_add() {
    let scenarios = vec![
        ("Some test '".chars().collect::<Vec<_>>(), false),
        ("Some test 'test'".chars().collect::<Vec<_>>(), true),
        (r#"Some test "test""#.chars().collect::<Vec<_>>(), true),
    ];

    for (buffer, expected) in scenarios {
        assert_eq!(quotes_are_closed(&buffer), expected);
    }
}

#[test]
fn command_from_blank_line_is_an_error() {
    assert_eq!(Command::from_input("".to_string()), Err(EmptyInputError));
    assert_eq!(Command::from_input("   ".to_string()), Err(EmptyInputError));
    assert_eq!(Command::from_input(" \t\r\n".to_string()), Err(EmptyInputError));
}

#[test]
fn command_from_padded_line() {
    assert_eq!(
        Command::from_input("  ls -l \n".to_string()),
        Ok(Command {
            name: "ls".to_string(),
            args: vec!["-l".to_string()]
        })
    );
}
