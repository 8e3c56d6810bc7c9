use tmux_layout::cwd::{path_adjoin, path_is_absolute, path_relative_to, Cwd};

#[test]
fn empty_string_is_no_directory() {
    assert_eq!(Cwd::from_string(String::new()), Cwd::new(None));
    assert_eq!(Cwd::from_string("a".to_string()).to_path(), Some("a"));
    assert_eq!(Cwd::from_option(None), Cwd::none());
    assert_eq!(Cwd::from_option(Some(String::new())), Cwd::none());
    assert_eq!(Cwd::from_option(Some("x".to_string())).to_path(), Some("x"));
    assert_eq!(Cwd::default(), Cwd::none());
}

#[test]
fn is_empty_for_missing_and_empty_paths() {
    assert!(Cwd::none().is_empty());
    assert!(Cwd::from_path("").is_empty());
    assert!(!Cwd::from_path(".").is_empty());
    assert!(!Cwd::from_path("/").is_empty());
}

#[test]
fn joined_keeps_an_absolute_child() {
    let parent = Cwd::from_path("/home/u");
    assert_eq!(parent.joined(&Cwd::from_path("/tmp")).to_path(), Some("/tmp"));
}

#[test]
fn joined_puts_a_relative_child_behind_the_parent() {
    let parent = Cwd::from_path("/home/u");
    assert_eq!(parent.joined(&Cwd::from_path("proj")).to_path(), Some("/home/u/proj"));
    let with_slash = Cwd::from_path("/home/u/");
    assert_eq!(with_slash.joined(&Cwd::from_path("proj")).to_path(), Some("/home/u/proj"));
    let root = Cwd::from_path("/");
    assert_eq!(root.joined(&Cwd::from_path("etc")).to_path(), Some("/etc"));
    let empty = Cwd::from_path("");
    assert_eq!(empty.joined(&Cwd::from_path("etc")).to_path(), Some("etc"));
}

#[test]
fn joined_with_a_missing_side() {
    let parent = Cwd::from_path("/home/u");
    assert_eq!(parent.joined(&Cwd::none()).to_path(), Some("/home/u"));
    assert_eq!(Cwd::none().joined(&Cwd::from_path("proj")).to_path(), Some("proj"));
    assert_eq!(Cwd::none().joined(&Cwd::none()), Cwd::none());
}

#[test]
fn shallow_clone_is_equal() {
    let cwd = Cwd::from_path("/a/b");
    assert_eq!(cwd.shallow_clone(), cwd);
    assert_eq!(Cwd::none().shallow_clone(), Cwd::none());
}

#[test]
fn absolute_paths_start_at_the_root() {
    assert!(path_is_absolute("/"));
    assert!(path_is_absolute("/a"));
    assert!(!path_is_absolute("a/b"));
    assert!(!path_is_absolute(""));
    assert_eq!(path_adjoin("a", "b"), "a/b");
    assert_eq!(path_adjoin("a/", "b"), "a/b");
}

#[test]
fn relative_paths_inside_a_directory() {
    assert_eq!(path_relative_to("/home/u/proj/src", "/home/u/proj"), Some("src".to_string()));
    assert_eq!(path_relative_to("/home/u/proj/src", "/home/u/proj/"), Some("src".to_string()));
    assert_eq!(path_relative_to("/home/u/proj", "/home/u/proj"), Some(String::new()));
    assert_eq!(path_relative_to("/home/u/proj//src/x", "/home/u/proj"), Some("src/x".to_string()));
    assert_eq!(path_relative_to("/tmp", "/"), Some("tmp".to_string()));
}

#[test]
fn relative_paths_outside_a_directory() {
    assert_eq!(path_relative_to("/tmp", "/home/u/proj"), None);
    assert_eq!(path_relative_to("/home/u/project", "/home/u/proj"), None);
    assert_eq!(path_relative_to("/home", "/home/u"), None);
    assert_eq!(path_relative_to("/tmp", ""), None);
}

#[test]
fn expansion_results_become_directories() {
    assert_eq!(Cwd::from_expansion(None), Ok(Cwd::none()));
    assert_eq!(Cwd::from_expansion(Some(Ok(String::new()))), Ok(Cwd::none()));
    assert_eq!(
        Cwd::from_expansion(Some(Ok("/home/u".to_string()))).unwrap().to_path(),
        Some("/home/u")
    );
    assert_eq!(
        Cwd::from_expansion(Some(Err("unknown variable".to_string()))),
        Err("unknown variable".to_string())
    );
}

#[test]
fn expanded_leaves_plain_paths_alone() {
    assert_eq!(Cwd::expanded(None), Ok(Cwd::none()));
    assert_eq!(Cwd::expanded(Some("projects/x".to_string())).unwrap().to_path(), Some("projects/x"));
    assert_eq!(Cwd::expanded(Some(String::new())), Ok(Cwd::none()));
}

#[test]
fn expanded_fails_on_a_variable_that_is_not_set() {
    assert!(Cwd::expanded(Some("$TMUX_LAYOUT_TEST_VARIABLE_THAT_IS_NOT_SET/x".to_string())).is_err());
}

#[test]
fn expanded_keeps_what_follows_the_home_directory() {
    let cwd = Cwd::expanded(Some("~/tmux-layout-test/x".to_string())).unwrap();
    assert!(cwd.to_path().unwrap().ends_with("/tmux-layout-test/x"));
}

#[test]
fn expanded_takes_text_without_dollar_or_leading_tilde_as_it_is() {
    for text in ["/abs/path", "a/~/b", "with space", "brace{x}", "a~"] {
        assert_eq!(Cwd::expanded(Some(text.to_string())).unwrap().to_path(), Some(text));
    }
}
