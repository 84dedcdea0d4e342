use sila::input_line::InputLine;
use sila::ports::{Banable, Pinable};
use sila::runner::{HelperOutcome, Runner, Turn};
use sila::terminal::{Terminal, TerminalSet};
use sila::tokenizer::EmptyInputError;

fn get_terminals() -> Vec<Terminal> {
    vec![
        Terminal {
            name: "T1".to_string(),
            path: "/path/t1".to_string(),
        },
        Terminal {
            name: "T2".to_string(),
            path: "/path/t2".to_string(),
        },
        Terminal {
            name: "T3".to_string(),
            path: "/path/t3".to_string(),
        },
    ]
}

fn terminal(str: &str) -> Terminal {
    Terminal {
        name: str.to_string(),
        path: format!("/path/{}", str.to_lowercase()).to_string(),
    }
}

fn to_set(vector: Vec<Terminal>) -> TerminalSet {
    let mut set = TerminalSet::new();
    for item in vector {
        set.insert(item);
    }
    set
}

fn names(list: &[&str]) -> Vec<String> {
    list.iter().map(|name| name.to_string()).collect()
}

fn helper(name: &str, args: &[&str]) -> InputLine {
    InputLine {
        name: name.to_string(),
        args: names(args),
    }
}

#[test]
fn runner_test_pinned_terminals_works_as_expected() {
    let terminals_to_pin = vec![terminal("T1")];
    let sila = Runner {
        all_terminals: get_terminals().clone(),
        pinned_terminals: to_set(terminals_to_pin.clone()),
        banned_terminals: TerminalSet::new(),
    };

    assert_eq!(sila.active_terminals(), terminals_to_pin);
}

#[test]
fn runner_test_banned_terminals_works_as_expected() {
    let banned_terminals = to_set(vec![terminal("T3")]);

    let sila = Runner {
        all_terminals: get_terminals().clone(),
        pinned_terminals: TerminalSet::new(),
        banned_terminals,
    };

    assert_eq!(
        sila.active_terminals(),
        // expects the first two terminals to be available
        get_terminals().into_iter().take(2).collect::<Vec<_>>()
    );
}

#[test]
fn runner_test_pin_command_invalid_name() {
    let mut sila = Runner {
        all_terminals: get_terminals().clone(),
        pinned_terminals: TerminalSet::new(),
        banned_terminals: TerminalSet::new(),
    };

    sila.pin(vec!["T4".to_string()]);
    assert_eq!(sila.pinned_terminals, TerminalSet::new())
}

#[test]
fn runner_test_pin_command_valid_name() {
    let mut sila = Runner {
        all_terminals: get_terminals().clone(),
        pinned_terminals: TerminalSet::new(),
        banned_terminals: TerminalSet::new(),
    };

    let terminal = terminal("T3");

    sila.pin(vec!["T3".to_string()]);
    let mut expected_set = TerminalSet::new();

    expected_set.insert(terminal);
    assert_eq!(sila.pinned_terminals, expected_set);
}

#[test]
fn runner_test_unpin_no_arguments() {
    let mut sila = Runner {
        all_terminals: get_terminals().clone(),
        pinned_terminals: TerminalSet::new(),
        banned_terminals: TerminalSet::new(),
    };
    sila.unpin(vec!["T3".to_string()]);

    assert_eq!(sila.pinned_terminals, TerminalSet::new());
}

#[test]
fn runner_test_unpin_with_arguments() {
    let mut sila = Runner {
        all_terminals: get_terminals().clone(),
        pinned_terminals: to_set(get_terminals().clone()),
        banned_terminals: TerminalSet::new(),
    };

    sila.unpin(vec!["T3".to_string()]);
    let expected_set = to_set(get_terminals().into_iter().take(2).collect::<Vec<Terminal>>());

    assert_eq!(sila.pinned_terminals, expected_set);
}

#[test]
fn runner_test_ban_one_terminal() {
    let mut sila = Runner {
        all_terminals: get_terminals().clone(),
        pinned_terminals: TerminalSet::new(),
        banned_terminals: TerminalSet::new(),
    };

    sila.ban(vec!["T3".to_string()]);

    assert_eq!(
        sila.active_terminals(),
        get_terminals()
            .clone()
            .into_iter()
            .take(2)
            .collect::<Vec<Terminal>>()
    );
}

#[test]
fn runner_test_unban_no_arguments() {
    let mut sila = Runner {
        all_terminals: get_terminals().clone(),
        pinned_terminals: TerminalSet::new(),
        banned_terminals: TerminalSet::new(),
    };

    sila.ban(vec!["T3".to_string()]);
    sila.unban(vec!["T3".to_string()]);

    assert_eq!(sila.active_terminals(), get_terminals().clone());
}

#[test]
fn new_runner_has_every_terminal_active() {
    let runner = Runner::new(get_terminals());
    assert!(runner.pinned_terminals.is_empty());
    assert!(runner.banned_terminals.is_empty());
    assert_eq!(runner.all_terminals, get_terminals());
    assert_eq!(runner.active_terminals(), get_terminals());
}

#[test]
fn pin_wins_over_ban_when_disjoint() {
    let mut runner = Runner::new(get_terminals());
    runner.pin(names(&["T1"]));
    runner.ban(names(&["T2"]));
    assert_eq!(runner.active_terminals(), vec![terminal("T1")]);
}

#[test]
fn pin_wins_over_ban_when_overlapping() {
    let mut runner = Runner::new(get_terminals());
    runner.pin(names(&["T1"]));
    runner.ban(names(&["T1"]));
    assert_eq!(runner.active_terminals(), vec![terminal("T1")]);
    assert!(runner.banned_terminals.contains(&terminal("T1")));
}

#[test]
fn ban_only_leaves_the_others_in_order() {
    let mut runner = Runner::new(get_terminals());
    runner.ban(names(&["T3"]));
    assert_eq!(runner.active_terminals(), vec![terminal("T1"), terminal("T2")]);
    runner.ban(names(&["T1"]));
    assert_eq!(runner.active_terminals(), vec![terminal("T2")]);
}

#[test]
fn unpin_without_names_clears_the_pinned_set() {
    let mut runner = Runner::new(get_terminals());
    runner.pin(names(&["T1", "T2"]));
    assert_eq!(runner.pinned_terminals.len(), 2);
    runner.unpin(Vec::new());
    assert!(runner.pinned_terminals.is_empty());
    assert_eq!(runner.active_terminals(), get_terminals());
}

#[test]
fn unpin_without_names_reverts_to_the_banned_filter() {
    let mut runner = Runner::new(get_terminals());
    runner.ban(names(&["T2"]));
    runner.pin(names(&["T1", "T2"]));
    runner.unpin(Vec::new());
    assert_eq!(runner.active_terminals(), vec![terminal("T1"), terminal("T3")]);
}

#[test]
fn unban_without_names_clears_the_banned_set() {
    let mut runner = Runner::new(get_terminals());
    runner.ban(names(&["T1", "T3"]));
    assert_eq!(runner.banned_terminals.len(), 2);
    runner.unban(Vec::new());
    assert!(runner.banned_terminals.is_empty());
    assert_eq!(runner.active_terminals(), get_terminals());
}

#[test]
fn pin_twice_is_pin_once() {
    let mut runner = Runner::new(get_terminals());
    runner.pin(names(&["T1"]));
    runner.pin(names(&["T1"]));
    assert_eq!(runner.pinned_terminals.len(), 1);
    assert_eq!(runner.pinned_terminals, to_set(vec![terminal("T1")]));
}

#[test]
fn pin_of_an_unknown_name_changes_nothing() {
    let mut runner = Runner::new(get_terminals());
    runner.pin(names(&["T2"]));
    runner.pin(names(&["DoesNotExist"]));
    assert_eq!(runner.pinned_terminals, to_set(vec![terminal("T2")]));
    runner.ban(names(&["DoesNotExist"]));
    assert!(runner.banned_terminals.is_empty());
}

#[test]
fn pin_takes_the_first_terminal_of_a_name() {
    let mut terminals = get_terminals();
    terminals.push(Terminal {
        name: "T1".to_string(),
        path: "/elsewhere".to_string(),
    });
    let mut runner = Runner::new(terminals);
    runner.pin(names(&["T1"]));
    assert_eq!(runner.active_terminals(), vec![terminal("T1")]);
}

#[test]
fn unpin_removes_only_the_names_given() {
    let mut runner = Runner::new(get_terminals());
    runner.pin(names(&["T1", "T2", "T3"]));
    runner.unpin(names(&["T1", "T3", "T9"]));
    assert_eq!(runner.pinned_terminals, to_set(vec![terminal("T2")]));
    assert_eq!(runner.banned_terminals, TerminalSet::new());
}

#[test]
fn helper_pin_and_unpin() {
    let mut runner = Runner::new(get_terminals());
    assert!(matches!(
        runner.execute_helper_cmd(helper("pin", &["T1", "T2"])),
        HelperOutcome::Updated
    ));
    assert_eq!(runner.pinned_terminals, to_set(vec![terminal("T1"), terminal("T2")]));
    assert!(matches!(
        runner.execute_helper_cmd(helper("pin", &[])),
        HelperOutcome::Updated
    ));
    assert_eq!(runner.pinned_terminals.len(), 2);
    runner.execute_helper_cmd(helper("unpin", &["T1"]));
    assert_eq!(runner.pinned_terminals, to_set(vec![terminal("T2")]));
    runner.execute_helper_cmd(helper("unpin", &[]));
    assert!(runner.pinned_terminals.is_empty());
}

#[test]
fn helper_ban_and_unban() {
    let mut runner = Runner::new(get_terminals());
    runner.execute_helper_cmd(helper("ban", &["T1", "T2"]));
    assert_eq!(runner.banned_terminals, to_set(vec![terminal("T1"), terminal("T2")]));
    runner.execute_helper_cmd(helper("unban", &["T2"]));
    assert_eq!(runner.banned_terminals, to_set(vec![terminal("T1")]));
    assert!(runner.pinned_terminals.is_empty());
    runner.execute_helper_cmd(helper("unban", &[]));
    assert!(runner.banned_terminals.is_empty());
}

#[test]
fn helper_list_names_the_active_terminals() {
    let mut runner = Runner::new(get_terminals());
    runner.ban(names(&["T2"]));
    match runner.execute_helper_cmd(helper("list", &[])) {
        HelperOutcome::Names(listed) => assert_eq!(listed, names(&["T1", "T3"])),
        other => panic!("unexpected outcome {:?}", other),
    }
}

#[test]
fn helper_help_and_exit() {
    let mut runner = Runner::new(get_terminals());
    match runner.execute_helper_cmd(helper("help", &[])) {
        HelperOutcome::Show(text) => assert!(text.starts_with("sila@0.3.2\n")),
        other => panic!("unexpected outcome {:?}", other),
    }
    assert!(matches!(
        runner.execute_helper_cmd(helper("exit", &[])),
        HelperOutcome::Exit
    ));
    assert_eq!(runner.active_terminals(), get_terminals());
}

#[test]
fn helper_of_another_name_changes_nothing() {
    let mut runner = Runner::new(get_terminals());
    runner.pin(names(&["T1"]));
    assert!(matches!(
        runner.execute_helper_cmd(helper("echo", &["T2"])),
        HelperOutcome::Updated
    ));
    assert_eq!(runner.pinned_terminals, to_set(vec![terminal("T1")]));
    assert!(runner.banned_terminals.is_empty());
}

#[test]
fn interpret_rejects_a_blank_line() {
    let mut runner = Runner::new(get_terminals());
    assert!(matches!(runner.interpret(""), Turn::Rejected(EmptyInputError)));
    assert!(matches!(runner.interpret("  \n"), Turn::Rejected(EmptyInputError)));
    assert!(matches!(runner.interpret("ls | | wc"), Turn::Rejected(EmptyInputError)));
}

#[test]
fn interpret_carries_out_a_helper_command() {
    let mut runner = Runner::new(get_terminals());
    assert!(matches!(
        runner.interpret("pin T1 T3\n"),
        Turn::Helper(HelperOutcome::Updated)
    ));
    assert_eq!(runner.pinned_terminals, to_set(vec![terminal("T1"), terminal("T3")]));
    assert!(matches!(
        runner.interpret("exit"),
        Turn::Helper(HelperOutcome::Exit)
    ));
}

#[test]
fn interpret_hands_back_a_pipeline_and_its_targets() {
    let mut runner = Runner::new(get_terminals());
    runner.ban(names(&["T1"]));
    match runner.interpret("echo hi | wc -c\n") {
        Turn::Run { pipeline, targets } => {
            assert_eq!(pipeline.len(), 2);
            assert_eq!(pipeline.label(), "echo hi | wc -c");
            assert_eq!(targets, vec![terminal("T2"), terminal("T3")]);
        }
        other => panic!("unexpected turn {:?}", other),
    }
}
