use liblogger::rotation::{backup_file_name, next_backup_index, split_file_name};

fn names(xs: &[&str]) -> Vec<String> {
    xs.iter().map(|s| s.to_string()).collect()
}

#[test]
fn first_rotation_gets_one() {
    assert_eq!(next_backup_index(&names(&[]), "app", "log"), 1);
    assert_eq!(next_backup_index(&names(&["app.log"]), "app", "log"), 1);
}

#[test]
fn rotation_after_two_backups_gets_three() {
    let listing = names(&["app.log", "app.log.1", "app.log.2"]);
    assert_eq!(next_backup_index(&listing, "app", "log"), 3);
}

#[test]
fn rotation_ignores_unrelated_names() {
    let listing = names(&[
        "app.log",
        "app.log.5",
        "app.log.old",
        "other.log.9",
        "app.txt.8",
        "app.log.",
        "app.log.2x",
    ]);
    assert_eq!(next_backup_index(&listing, "app", "log"), 6);
}

#[test]
fn rotation_takes_maximum_not_count() {
    let listing = names(&["app.log.10", "app.log.2"]);
    assert_eq!(next_backup_index(&listing, "app", "log"), 11);
}

#[test]
fn rotation_reads_leading_zeros() {
    let listing = names(&["app.log.007"]);
    assert_eq!(next_backup_index(&listing, "app", "log"), 8);
}

#[test]
fn rotation_ignores_numbers_too_large_for_u32() {
    let listing = names(&["app.log.99999999999", "app.log.3"]);
    assert_eq!(next_backup_index(&listing, "app", "log"), 4);
}

#[test]
fn backup_name_layout() {
    assert_eq!(backup_file_name("app", "log", 3), "app.log.3");
    assert_eq!(backup_file_name("server", "txt", 12), "server.txt.12");
}

#[test]
fn file_names_split_at_the_last_dot() {
    assert_eq!(split_file_name("app.log"), ("app", "log"));
    assert_eq!(split_file_name("archive.tar.gz"), ("archive.tar", "gz"));
    assert_eq!(split_file_name("plain"), ("plain", ""));
    assert_eq!(split_file_name("trailing."), ("trailing", ""));
    assert_eq!(split_file_name(".hidden"), (".hidden", ""));
    assert_eq!(split_file_name(""), ("", ""));
}
