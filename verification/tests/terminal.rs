use sila::selection::{add_to_set, find_by_name, remove_from_set, resolve_active};
use sila::terminal::{Terminal, TerminalSet};

fn term(name: &str, path: &str) -> Terminal {
    Terminal {
        name: name.to_string(),
        path: path.to_string(),
    }
}

fn set_of(items: Vec<Terminal>) -> TerminalSet {
    let mut set = TerminalSet::new();
    for item in items {
        set.insert(item);
    }
    set
}

#[test]
fn a_terminal_is_its_name_and_path() {
    assert!(term("a", "/x").same_as(&term("a", "/x")));
    assert!(!term("a", "/x").same_as(&term("a", "/y")));
    assert!(!term("a", "/x").same_as(&term("b", "/x")));
    assert_eq!(term("a", "/x").duplicate(), term("a", "/x"));
}

#[test]
fn insert_is_idempotent() {
    let mut set = TerminalSet::new();
    assert!(set.is_empty());
    assert!(set.insert(term("a", "/x")));
    assert!(!set.insert(term("a", "/x")));
    assert_eq!(set.len(), 1);
    assert!(set.insert(term("a", "/y")));
    assert_eq!(set.len(), 2);
    assert!(set.contains(&term("a", "/x")));
    assert!(set.contains(&term("a", "/y")));
    assert!(!set.contains(&term("b", "/x")));
}

#[test]
fn remove_of_what_is_absent_changes_nothing() {
    let mut set = set_of(vec![term("a", "/x"), term("b", "/y")]);
    assert!(!set.remove(&term("c", "/z")));
    assert_eq!(set.len(), 2);
    assert!(set.remove(&term("a", "/x")));
    assert!(!set.remove(&term("a", "/x")));
    assert_eq!(set, set_of(vec![term("b", "/y")]));
}

#[test]
fn remove_named_takes_one_member_out() {
    let mut set = set_of(vec![term("a", "/x"), term("b", "/y"), term("a", "/z")]);
    assert!(set.remove_named(&"a".to_string()));
    assert_eq!(set.len(), 2);
    assert!(set.contains(&term("b", "/y")));
    assert!(set.remove_named(&"a".to_string()));
    assert!(!set.remove_named(&"a".to_string()));
    assert_eq!(set, set_of(vec![term("b", "/y")]));
}

#[test]
fn sets_are_equal_whatever_the_order() {
    let one = set_of(vec![term("a", "/x"), term("b", "/y")]);
    let other = set_of(vec![term("b", "/y"), term("a", "/x"), term("b", "/y")]);
    assert_eq!(one, other);
    assert_ne!(one, set_of(vec![term("a", "/x")]));
    assert_ne!(set_of(vec![term("a", "/x")]), one);
    assert!(set_of(vec![term("a", "/x")]).is_subset(&one));
    assert!(!one.is_subset(&set_of(vec![term("a", "/x")])));
}

#[test]
fn clear_and_to_vec() {
    let mut set = set_of(vec![term("a", "/x"), term("b", "/y")]);
    let mut listed = set.to_vec();
    listed.sort_by(|l, r| l.name.cmp(&r.name));
    assert_eq!(listed, vec![term("a", "/x"), term("b", "/y")]);
    set.clear();
    assert!(set.is_empty());
    assert_eq!(set.len(), 0);
    assert!(set.to_vec().is_empty());
}

#[test]
fn find_by_name_finds_the_first() {
    let all = vec![term("a", "/x"), term("b", "/y"), term("a", "/z")];
    assert_eq!(find_by_name(&all, &"a".to_string()), Some(0));
    assert_eq!(find_by_name(&all, &"b".to_string()), Some(1));
    assert_eq!(find_by_name(&all, &"c".to_string()), None);
    assert_eq!(find_by_name(&Vec::new(), &"a".to_string()), None);
}

#[test]
fn add_to_set_passes_over_unknown_names() {
    let all = vec![term("a", "/x"), term("b", "/y"), term("a", "/z")];
    let mut set = TerminalSet::new();
    add_to_set(
        &all,
        &mut set,
        &vec!["a".to_string(), "zz".to_string(), "a".to_string()],
    );
    assert_eq!(set, set_of(vec![term("a", "/x")]));
    add_to_set(&all, &mut set, &Vec::new());
    assert_eq!(set.len(), 1);
}

#[test]
fn remove_from_set_without_names_empties_the_set() {
    let mut set = set_of(vec![term("a", "/x"), term("b", "/y")]);
    remove_from_set(&mut set, &vec!["zz".to_string()]);
    assert_eq!(set.len(), 2);
    remove_from_set(&mut set, &vec!["b".to_string(), "b".to_string()]);
    assert_eq!(set, set_of(vec![term("a", "/x")]));
    remove_from_set(&mut set, &Vec::new());
    assert!(set.is_empty());
}

#[test]
fn resolve_active_follows_the_order_of_precedence() {
    let all = vec![term("a", "/x"), term("b", "/y"), term("c", "/z")];
    let none = TerminalSet::new();
    assert_eq!(resolve_active(&all, &none, &none), all);
    let banned = set_of(vec![term("b", "/y"), term("q", "/q")]);
    assert_eq!(
        resolve_active(&all, &none, &banned),
        vec![term("a", "/x"), term("c", "/z")]
    );
    let pinned = set_of(vec![term("b", "/y")]);
    assert_eq!(resolve_active(&all, &pinned, &banned), vec![term("b", "/y")]);
    let outside = set_of(vec![term("q", "/q")]);
    assert_eq!(resolve_active(&all, &outside, &none), vec![term("q", "/q")]);
}
