use minishell::prompt::{format_path, formatted_pwd, prompt, prompt_with};

#[test]
fn path_under_home_is_abbreviated() {
    assert_eq!(format_path("/home/alice/src/app", Some("/home/alice")), "~/src/app");
}

#[test]
fn home_itself_is_the_marker() {
    assert_eq!(format_path("/home/alice", Some("/home/alice")), "~");
}

#[test]
fn only_the_leading_home_is_replaced() {
    assert_eq!(
        format_path("/home/alice/home/alice", Some("/home/alice")),
        "~/home/alice"
    );
    assert_eq!(format_path("/a/a/a", Some("/a")), "~/a/a");
}

#[test]
fn path_outside_home_is_unchanged() {
    assert_eq!(format_path("/etc/ssh", Some("/home/alice")), "/etc/ssh");
    assert_eq!(format_path("/", Some("/home/alice")), "/");
    assert_eq!(format_path("/home/alic", Some("/home/alice")), "/home/alic");
}

#[test]
fn home_later_in_the_path_is_unchanged() {
    assert_eq!(
        format_path("/mnt/home/alice/x", Some("/home/alice")),
        "/mnt/home/alice/x"
    );
}

#[test]
fn prefix_is_literal_not_by_component() {
    assert_eq!(format_path("/home/alicex/y", Some("/home/alice")), "~x/y");
}

#[test]
fn unknown_home_leaves_the_path() {
    assert_eq!(format_path("/home/alice/src", None), "/home/alice/src");
    assert_eq!(format_path("", None), "");
}

#[test]
fn empty_home_is_a_prefix_of_every_path() {
    assert_eq!(format_path("/usr", Some("")), "~/usr");
    assert_eq!(format_path("", Some("")), "~");
}

#[test]
fn paths_are_compared_by_character() {
    assert_eq!(
        format_path("/home/zo\u{00EB}/\u{4E16}\u{754C}", Some("/home/zo\u{00EB}")),
        "~/\u{4E16}\u{754C}"
    );
    assert_eq!(
        format_path("/home/zoe/x", Some("/home/zo\u{00EB}")),
        "/home/zoe/x"
    );
}

#[test]
fn prompt_shows_directory_then_marker() {
    assert_eq!(prompt_with(Some("/tmp"), Some("/home/alice")), "/tmp $ ");
    assert_eq!(prompt_with(Some("/home/alice/x"), Some("/home/alice")), "~/x $ ");
    assert_eq!(prompt_with(Some("/home/alice"), None), "/home/alice $ ");
}

#[test]
fn prompt_without_directory_is_the_bare_marker() {
    assert_eq!(prompt_with(None, Some("/home/alice")), "$ ");
    assert_eq!(prompt_with(None, None), "$ ");
    assert_eq!(prompt(None), "$ ");
}

#[test]
fn formatted_pwd_uses_the_home_of_this_user() {
    let home = dirs::home_dir().map(|p| p.to_string_lossy().into_owned());
    let inside = match &home {
        Some(h) => format!("{}/some/where", h),
        None => String::from("/some/where"),
    };
    assert_eq!(formatted_pwd(&inside), format_path(&inside, home.as_deref()));
    if home.is_some() {
        assert_eq!(formatted_pwd(&inside), "~/some/where");
    } else {
        assert_eq!(formatted_pwd(&inside), inside);
    }
}

#[test]
fn formatted_pwd_is_the_path_or_marker_and_tail() {
    for path in ["/", "/definitely/not/under/home-xyz", "relative/dir", ""] {
        let shown = formatted_pwd(path);
        let tail_of_path = shown
            .strip_prefix('~')
            .map(|tail| path.ends_with(tail))
            .unwrap_or(false);
        assert!(shown == path || tail_of_path);
    }
}

#[test]
fn prompt_uses_the_home_of_this_user() {
    let home = dirs::home_dir().map(|p| p.to_string_lossy().into_owned());
    let inside = match &home {
        Some(h) => format!("{}/work", h),
        None => String::from("/work"),
    };
    assert_eq!(prompt(Some(&inside)), prompt_with(Some(&inside), home.as_deref()));
    assert!(prompt(Some(&inside)).ends_with(" $ "));
}
