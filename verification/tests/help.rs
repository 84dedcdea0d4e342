use sila::help::{pad, Help};

#[test]
fn test_display_command_exists() {
    assert!(Help::display().contains("one or multiple"));
}

#[test]
fn display_is_the_head_and_the_table() {
    let expected = [
        "sila@0.3.2\n",
        "A command line multiplexer.\n",
        "created by Alexandru Olaru <alxolr@gmail.com>\n",
        "\nCOMMANDS:\n",
        "pin     <term1> <term2>   Pin one or multiple terminals separated by space. Following commands will run on top of pinned ones only.\n",
        "unpin   [term1]           Unpin all terminals if no argument is provided or the specific ones.\n",
        "ban     <term1> <term2>   Ban one or multiple terminals separated by space. The following commands will not run in banned terminals\n",
        "unban   [term2]           Unban the specificed terminals or all if no arguments provided.\n",
        "list                      List the active terminal names.\n",
        "help                      Displays help information.\n",
        "exit                      Close the application.\n",
    ]
    .concat();
    assert_eq!(Help::display(), expected);
}

#[test]
fn display_lines_match_std_formatting() {
    let text = Help::display();
    let line = format!(
        "{0: <7} {1: <17} {2: <10}\n",
        "unban", "[term2]", "Unban the specificed terminals or all if no arguments provided."
    );
    assert!(text.contains(&line));
}

#[test]
fn pad_fills_up_with_spaces() {
    assert_eq!(pad("pin", 7), "pin    ");
    assert_eq!(pad("", 3), "   ");
    assert_eq!(pad("abc", 3), "abc");
    assert_eq!(pad("abcdef", 3), "abcdef");
    assert_eq!(pad("é", 3), format!("{: <3}", "é"));
}
