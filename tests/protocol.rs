use branch_picker::repo::{branch_of_head, conclude_checkout};
use branch_picker::session::CheckoutError;

#[test]
fn tree_failure_is_a_conflict() {
    let r = conclude_checkout(Err("local changes would be overwritten".to_string()));
    assert_eq!(
        r,
        Err(CheckoutError::WorkingTreeConflict("local changes would be overwritten".to_string()))
    );
}

#[test]
fn both_steps_succeeding_switch_the_head() {
    assert_eq!(conclude_checkout(Ok(Ok(()))), Ok(()));
}

#[test]
fn head_failure_after_tree_success_is_reported() {
    let r = conclude_checkout(Ok(Err("HEAD.lock exists".to_string())));
    assert_eq!(r, Err(CheckoutError::HeadUpdateFailed("HEAD.lock exists".to_string())));
}

#[test]
fn head_on_a_branch_names_it() {
    assert_eq!(branch_of_head(Ok((true, Some("main".to_string())))), Some("main".to_string()));
}

#[test]
fn detached_head_names_no_branch() {
    assert_eq!(branch_of_head(Ok((false, Some("HEAD".to_string())))), None);
}

#[test]
fn unreadable_head_names_no_branch() {
    assert_eq!(branch_of_head(Err("reference 'refs/heads/main' not found".to_string())), None);
    assert_eq!(branch_of_head(Ok((true, None))), None);
}
