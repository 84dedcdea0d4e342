use sila::ports::HelperCommand;

#[test]
fn test_to_enum_returns_good_part() {
    let scenarios = vec!["pin", "unpin", "ban", "unban", "list", "help", "exit"];

    for scenario in scenarios {
        assert!(HelperCommand::to_enum(scenario).is_some())
    }

    assert_eq!(HelperCommand::to_enum("test"), None);
}

#[test]
fn to_enum_names_each_command() {
    assert_eq!(HelperCommand::to_enum("pin"), Some(HelperCommand::Pin));
    assert_eq!(HelperCommand::to_enum("unpin"), Some(HelperCommand::Unpin));
    assert_eq!(HelperCommand::to_enum("ban"), Some(HelperCommand::Ban));
    assert_eq!(HelperCommand::to_enum("unban"), Some(HelperCommand::Unban));
    assert_eq!(HelperCommand::to_enum("list"), Some(HelperCommand::List));
    assert_eq!(HelperCommand::to_enum("help"), Some(HelperCommand::Help));
    assert_eq!(HelperCommand::to_enum("exit"), Some(HelperCommand::Exit));
}

#[test]
fn to_enum_is_exact_about_case_and_space() {
    assert_eq!(HelperCommand::to_enum("Pin"), None);
    assert_eq!(HelperCommand::to_enum("pin "), None);
    assert_eq!(HelperCommand::to_enum(""), None);
}

#[test]
fn all_lists_the_commands_in_order() {
    assert_eq!(
        HelperCommand::all(),
        vec![
            HelperCommand::Pin,
            HelperCommand::Unpin,
            HelperCommand::Ban,
            HelperCommand::Unban,
            HelperCommand::List,
            HelperCommand::Help,
            HelperCommand::Exit,
        ]
    );
}

#[test]
fn name_and_to_enum_agree() {
    for command in HelperCommand::all() {
        assert_eq!(HelperCommand::to_enum(command.name()), Some(command));
    }
}
