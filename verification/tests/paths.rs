use wyag::{create_dir, join_path, parent_of, repo_path, Query};

#[test]
fn repo_path_appends_the_segments() {
    assert_eq!(repo_path("r/.git", &[]), "r/.git");
    assert_eq!(repo_path("r/.git", &["objects"]), "r/.git/objects");
    assert_eq!(repo_path("r/.git", &["refs", "tags"]), "r/.git/refs/tags");
    assert_eq!(repo_path("/", &["a", "b", "c"]), "/a/b/c");
    assert_eq!(repo_path("", &["a", "b"]), "a/b");
    assert_eq!(repo_path("r/", &["x"]), "r/x");
    assert_eq!(
        repo_path("g", &["objects", "3f", "fe1398195ef384e2edbfd29d05516a33299e43"]),
        "g/objects/3f/fe1398195ef384e2edbfd29d05516a33299e43"
    );
}

#[test]
fn repo_path_agrees_with_the_standard_library() {
    let roots = ["", "/", "a", "a/", "/a/b", "r\u{e9}po/.git", "a//"];
    let segments = ["x", ".git", "refs", "/abs", "", "y/z", "\u{fc}"];
    for root in roots {
        for first in segments {
            for second in segments {
                let mut expected = std::path::PathBuf::from(root);
                expected.push(first);
                expected.push(second);
                assert_eq!(
                    repo_path(root, &[first, second]),
                    expected.to_str().unwrap(),
                    "{:?} + {:?} + {:?}",
                    root,
                    first,
                    second
                );
            }
        }
    }
}

#[test]
fn join_path_puts_one_separator_between() {
    assert_eq!(join_path("a", "b"), "a/b");
    assert_eq!(join_path("a/", "b"), "a/b");
    assert_eq!(join_path("", "b"), "b");
    assert_eq!(join_path("/", "b"), "/b");
    assert_eq!(join_path("a", ""), "a/");
    assert_eq!(join_path("", ""), "");
}

#[test]
fn join_path_lets_an_absolute_segment_replace_the_base() {
    assert_eq!(join_path("a/b", "/c"), "/c");
    assert_eq!(join_path("", "/"), "/");
}

#[test]
fn parent_of_strips_the_last_component() {
    assert_eq!(parent_of("/a/b/c"), Some("/a/b".to_string()));
    assert_eq!(parent_of("/a/b"), Some("/a".to_string()));
    assert_eq!(parent_of("/a"), Some("/".to_string()));
    assert_eq!(parent_of("a/b/c"), Some("a/b".to_string()));
    assert_eq!(parent_of("a"), Some(String::new()));
    assert_eq!(parent_of("a/b/"), Some("a".to_string()));
    assert_eq!(parent_of("a//b"), Some("a".to_string()));
    assert_eq!(parent_of("//a"), Some("/".to_string()));
    assert_eq!(parent_of("/a///"), Some("/".to_string()));
    assert_eq!(parent_of("d\u{e9}p\u{f4}t/sous"), Some("d\u{e9}p\u{f4}t".to_string()));
    assert_eq!(parent_of("a/.."), Some("a".to_string()));
}

#[test]
fn parent_of_passes_over_dot_segments() {
    assert_eq!(parent_of("a/./b"), Some("a".to_string()));
    assert_eq!(parent_of("a/b/."), Some("a".to_string()));
    assert_eq!(parent_of("a/."), Some(String::new()));
    assert_eq!(parent_of("/a/."), Some("/".to_string()));
    assert_eq!(parent_of("/."), None);
    assert_eq!(parent_of("."), Some(String::new()));
    assert_eq!(parent_of("./a"), Some(".".to_string()));
    assert_eq!(parent_of("./."), Some(String::new()));
    assert_eq!(parent_of(".a/b"), Some(".a".to_string()));
    assert_eq!(parent_of("a/./././b"), Some("a".to_string()));
}

#[test]
fn parent_of_gives_none_for_the_root_and_the_empty_path() {
    assert_eq!(parent_of(""), None);
    assert_eq!(parent_of("/"), None);
    assert_eq!(parent_of("///"), None);
}

#[test]
fn parent_of_agrees_with_the_standard_library() {
    let paths = [
        "/a/b/c", "/a", "/", "", "a", "a/b", "a/b/", "a//b", "/a///", "x/y/z/w", "a/..", "a/./b",
        "a/b/.", "/.", ".", "./", "./a", "./a/b", ".//a", "./.", "..", "../a", "a/.", "/a/.",
        "/./a", "/a/./", "a/././b/./", ".a", "a/.b", "a/b.", "...", "a/...", "//", "//a//b//",
        "/..", "a/./.", "./..", ".git", "r\u{e9}/./s\u{fc}",
    ];
    for path in paths {
        let expected = std::path::Path::new(path).parent().map(|p| p.to_str().unwrap().to_string());
        assert_eq!(parent_of(path), expected, "{:?}", path);
    }
}

#[test]
fn walking_upward_ends() {
    let mut path = "/one/two/three/four//five/".to_string();
    let mut steps = 0;
    while let Some(above) = parent_of(&path) {
        assert!(above.chars().count() < path.chars().count());
        path = above;
        steps += 1;
    }
    assert_eq!(steps, 5);
    assert_eq!(path, "/");
}

#[test]
fn create_dir_asks_for_the_joined_path() {
    let (query, context) = create_dir("r/.git", &["refs", "heads"]);
    assert_eq!(query, Query::CreateDir { path: "r/.git/refs/heads".to_string() });
    assert_eq!(context, "Error while creating directory");
}
