use piper::command::Capture;
use piper::inspect::{
    can_login_to_host, does_dataset_exist_on_target, first_line, get_child_datasets,
    is_dataset_encrypted, login_diagnostics, no_lines,
};
use piper::select::{get_last_replicated_snapshot, get_most_recent_snapshot};

fn printed(text: &str) -> Option<Capture> {
    Some(Capture { success: true, stdout: Some(String::from(text)), stderr: Some(String::new()) })
}

fn failed(stdout: &str, stderr: &str) -> Option<Capture> {
    Some(Capture {
        success: false,
        stdout: Some(String::from(stdout)),
        stderr: Some(String::from(stderr)),
    })
}

fn unreadable(success: bool) -> Option<Capture> {
    Some(Capture { success, stdout: None, stderr: None })
}

#[test]
fn first_line_of_text() {
    assert_eq!(first_line("off\n"), "off");
    assert_eq!(first_line("a\nb\n"), "a");
    assert_eq!(first_line(""), "");
    assert_eq!(first_line("\nb"), "");
    assert_eq!(no_lines(), Vec::<String>::new());
}

#[test]
fn login_needs_a_clean_exit() {
    assert!(can_login_to_host(&printed("")));
    assert!(!can_login_to_host(&failed("", "Permission denied\n")));
    assert!(!can_login_to_host(&None));
    assert!(!can_login_to_host(&unreadable(true)));
}

#[test]
fn login_diagnostics_are_the_lines_of_a_failed_login() {
    assert_eq!(
        login_diagnostics(&failed("", "ssh: connect to host x port 22\nConnection refused\n")),
        vec!["ssh: connect to host x port 22", "Connection refused"]
    );
    assert_eq!(login_diagnostics(&printed("")), Vec::<String>::new());
    assert_eq!(login_diagnostics(&None), Vec::<String>::new());
    assert_eq!(login_diagnostics(&unreadable(false)), Vec::<String>::new());
}

#[test]
fn encryption_off_means_unencrypted() {
    assert!(!is_dataset_encrypted(&printed("off\n")));
    assert!(!is_dataset_encrypted(&printed("off")));
    assert!(!is_dataset_encrypted(&failed("off\n", "")));
}

#[test]
fn anything_but_off_means_encrypted() {
    assert!(is_dataset_encrypted(&printed("aes-256-gcm\n")));
    assert!(is_dataset_encrypted(&printed("on\n")));
    assert!(is_dataset_encrypted(&printed("OFF\n")));
    assert!(is_dataset_encrypted(&printed("off \n")));
    assert!(is_dataset_encrypted(&printed("")));
    assert!(is_dataset_encrypted(&printed("aes-256-gcm\noff\n")));
}

#[test]
fn failed_encryption_query_means_unencrypted() {
    assert!(!is_dataset_encrypted(&None));
    assert!(!is_dataset_encrypted(&unreadable(true)));
    assert!(!is_dataset_encrypted(&unreadable(false)));
}

#[test]
fn children_leave_out_the_listed_dataset() {
    assert_eq!(
        get_child_datasets(&printed("tank/data\ntank/data/a\ntank/data/b\n")),
        vec!["tank/data/a", "tank/data/b"]
    );
    assert_eq!(get_child_datasets(&printed("tank/data\n")), Vec::<String>::new());
    assert_eq!(get_child_datasets(&printed("")), Vec::<String>::new());
}

#[test]
fn children_keep_the_order_of_the_listing() {
    assert_eq!(
        get_child_datasets(&printed("p\np/z\np/a\np/m\n")),
        vec!["p/z", "p/a", "p/m"]
    );
}

#[test]
fn children_of_a_failed_listing() {
    assert_eq!(get_child_datasets(&None), Vec::<String>::new());
    assert_eq!(get_child_datasets(&unreadable(true)), Vec::<String>::new());
    assert_eq!(get_child_datasets(&failed("p\np/a\n", "")), vec!["p/a"]);
}

#[test]
fn existence_is_the_exit_status() {
    assert!(does_dataset_exist_on_target(&printed("vault/data\n")));
    assert!(does_dataset_exist_on_target(&unreadable(true)));
    assert!(!does_dataset_exist_on_target(&failed("", "dataset does not exist\n")));
    assert!(!does_dataset_exist_on_target(&None));
}

#[test]
fn most_recent_without_prefix_is_the_first_listed() {
    assert_eq!(get_most_recent_snapshot(&printed("tank/data@B\ntank/data@A\n"), ""), "B");
    assert_eq!(get_most_recent_snapshot(&printed("tank/data@only\n"), ""), "only");
}

#[test]
fn most_recent_with_prefix_skips_what_does_not_match() {
    let listing = printed("tank/data@C\ntank/data@HOURLY__B\ntank/data@HOURLY__A\n");
    assert_eq!(get_most_recent_snapshot(&listing, "HOURLY__"), "HOURLY__B");
    assert_eq!(get_most_recent_snapshot(&listing, "C"), "C");
    assert_eq!(get_most_recent_snapshot(&listing, "HOURLY__A"), "HOURLY__A");
}

#[test]
fn most_recent_is_empty_where_nothing_matches() {
    let listing = printed("tank/data@C\ntank/data@B\n");
    assert_eq!(get_most_recent_snapshot(&listing, "DAILY__"), "");
    assert_eq!(get_most_recent_snapshot(&printed(""), ""), "");
    assert_eq!(get_most_recent_snapshot(&printed(""), "x"), "");
}

#[test]
fn most_recent_of_a_failed_listing_is_empty() {
    assert_eq!(get_most_recent_snapshot(&None, ""), "");
    assert_eq!(get_most_recent_snapshot(&None, "HOURLY__"), "");
    assert_eq!(get_most_recent_snapshot(&unreadable(true), ""), "");
    assert_eq!(get_most_recent_snapshot(&failed("tank/data@B\n", ""), ""), "B");
}

#[test]
fn most_recent_of_a_line_without_tag_is_empty() {
    assert_eq!(get_most_recent_snapshot(&printed("tank/data\ntank/data@A\n"), ""), "");
    assert_eq!(get_most_recent_snapshot(&printed("tank/data\ntank/data@A\n"), "A"), "A");
}

#[test]
fn last_replicated_is_the_tag_of_the_first_line() {
    assert_eq!(get_last_replicated_snapshot(&printed("vault/data@B\nvault/data@A\n")), "B");
    assert_eq!(get_last_replicated_snapshot(&printed("vault/data@A\n")), "A");
}

#[test]
fn last_replicated_is_empty_where_nothing_was_replicated() {
    assert_eq!(get_last_replicated_snapshot(&printed("")), "");
    assert_eq!(get_last_replicated_snapshot(&failed("", "dataset does not exist\n")), "");
    assert_eq!(get_last_replicated_snapshot(&failed("vault/data@B\n", "")), "");
    assert_eq!(get_last_replicated_snapshot(&None), "");
    assert_eq!(get_last_replicated_snapshot(&unreadable(true)), "");
}
