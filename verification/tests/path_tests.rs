use todo_list::path::{default_path, path_from, resolve_path};

#[test]
fn the_default_file_lies_in_the_home_directory() {
    assert_eq!(default_path("/home/ada"), "/home/ada/.todo");
    assert_eq!(default_path(""), "/.todo");
}

#[test]
fn a_given_path_wins() {
    assert_eq!(
        path_from(Some("/tmp/list".to_string()), Some("/home/ada".to_string())),
        Some("/tmp/list".to_string())
    );
    assert_eq!(path_from(Some("/tmp/list".to_string()), None), Some("/tmp/list".to_string()));
}

#[test]
fn without_a_given_path_the_home_directory_decides() {
    assert_eq!(path_from(None, Some("/home/ada".to_string())), Some("/home/ada/.todo".to_string()));
    assert_eq!(path_from(None, None), None);
}

#[test]
fn resolving_a_given_path_keeps_it() {
    assert_eq!(resolve_path(Some("relative/list".to_string())), Some("relative/list".to_string()));
}

#[test]
fn resolving_without_a_path_looks_up_the_home_directory() {
    let expected = dirs::home_dir().map(|home| format!("{}/.todo", home.display()));
    assert_eq!(resolve_path(None), expected);
}
