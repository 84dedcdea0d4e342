use sila::input_line::InputLine;
use sila::pipeline::{command_label, parse_pipeline, Pipeline};
use sila::tokenizer::EmptyInputError;

fn stage(name: &str, args: &[&str]) -> InputLine {
    InputLine {
        name: name.to_string(),
        args: args.iter().map(|arg| arg.to_string()).collect(),
    }
}

fn stages_of(pipeline: &Pipeline) -> Vec<InputLine> {
    (0..pipeline.len()).map(|i| pipeline.stage(i).duplicate()).collect()
}

#[test]
fn a_line_without_a_pipe_is_one_stage() {
    let pipeline = parse_pipeline("echo hi").unwrap();
    assert_eq!(pipeline.len(), 1);
    assert_eq!(stages_of(&pipeline), vec![stage("echo", &["hi"])]);
}

#[test]
fn a_line_is_split_at_each_pipe() {
    let pipeline = parse_pipeline("cat a.txt | grep -i 'some text' |wc -l\n").unwrap();
    assert_eq!(
        stages_of(&pipeline),
        vec![
            stage("cat", &["a.txt"]),
            stage("grep", &["-i", "'some text'"]),
            stage("wc", &["-l"]),
        ]
    );
}

#[test]
fn a_pipe_inside_quotes_splits_too() {
    let pipeline = parse_pipeline("echo 'a|b'").unwrap();
    assert_eq!(
        stages_of(&pipeline),
        vec![stage("echo", &["'a"]), stage("b'", &[])]
    );
}

#[test]
fn a_piece_without_a_word_is_an_error() {
    assert_eq!(parse_pipeline("").err(), Some(EmptyInputError));
    assert_eq!(parse_pipeline("   ").err(), Some(EmptyInputError));
    assert_eq!(parse_pipeline("ls |").err(), Some(EmptyInputError));
    assert_eq!(parse_pipeline("| ls").err(), Some(EmptyInputError));
    assert_eq!(parse_pipeline("ls | | wc").err(), Some(EmptyInputError));
    assert_eq!(parse_pipeline("|").err(), Some(EmptyInputError));
}

#[test]
fn the_label_joins_the_stages() {
    let pipeline = parse_pipeline("cat a.txt | grep -i 'some text' | wc -l").unwrap();
    assert_eq!(pipeline.label(), "cat a.txt | grep -i 'some text' | wc -l");
}

#[test]
fn the_label_of_a_stage_without_arguments_ends_in_a_space() {
    let pipeline = parse_pipeline("ls").unwrap();
    assert_eq!(pipeline.label(), "ls ");
    let pipeline = parse_pipeline("ls|wc").unwrap();
    assert_eq!(pipeline.label(), "ls  | wc ");
}

#[test]
fn command_label_of_given_stages() {
    let stages = vec![stage("name", &["arg1", "arg2"]), stage("name2", &["arg1"])];
    assert_eq!(command_label(&stages), "name arg1 arg2 | name2 arg1");
    assert_eq!(command_label(&Vec::new()), "");
}

#[test]
fn a_pipeline_has_a_stage() {
    assert!(Pipeline::new(Vec::new()).is_none());
    let pipeline = Pipeline::new(vec![stage("ls", &["-l"])]).unwrap();
    assert_eq!(pipeline.len(), 1);
    assert_eq!(pipeline.stage(0), &stage("ls", &["-l"]));
}
