use branch_picker::names::{insert_name, name_less};
use branch_picker::repo::collect_branch_names;
use branch_picker::session::StartupError;

fn entry(name: &str) -> Result<Option<String>, git2::Error> {
    Ok(Some(name.to_string()))
}

#[test]
fn names_order_by_bytes() {
    assert!(name_less("a", "b"));
    assert!(!name_less("b", "a"));
    assert!(name_less("a", "ab"));
    assert!(!name_less("ab", "a"));
    assert!(!name_less("main", "main"));
    assert!(name_less("Zeta", "alpha"));
    assert!(name_less("z", "é"));
    assert!(name_less("", "a"));
    assert!(!name_less("", ""));
    assert!(name_less("release/1.0", "release/1.1"));
}

#[test]
fn insert_keeps_order_and_skips_duplicates() {
    let mut list: Vec<String> = Vec::new();
    insert_name(&mut list, "main".to_string());
    insert_name(&mut list, "feature/x".to_string());
    insert_name(&mut list, "release/1.0".to_string());
    insert_name(&mut list, "main".to_string());
    assert_eq!(list, vec!["feature/x", "main", "release/1.0"]);
}

#[test]
fn branch_list_is_sorted_without_duplicates() {
    let entries = vec![
        entry("release/1.0"),
        entry("main"),
        Ok(None),
        entry("feature/x"),
        entry("main"),
    ];
    let list = collect_branch_names(entries).unwrap();
    assert_eq!(list, vec!["feature/x", "main", "release/1.0"]);
}

#[test]
fn branch_list_of_nothing_is_empty() {
    let list = collect_branch_names(Vec::new()).unwrap();
    assert!(list.is_empty());
}

#[test]
fn failed_entry_fails_the_list() {
    let entries = vec![entry("main"), Err(git2::Error::from_str("corrupt ref")), entry("dev")];
    let r = collect_branch_names(entries);
    assert_eq!(r, Err(StartupError::BranchEnumerationError("corrupt ref".to_string())));
}
