use diagram_model::path::normalize_path;

#[test]
fn repeated_and_trailing_separators_do_not_count() {
    assert_eq!(normalize_path("a//b.h"), "a/b.h");
    assert_eq!(normalize_path("/ws/inc//a.h/"), "/ws/inc/a.h");
    assert_eq!(normalize_path("//ws/a.h"), "/ws/a.h");
}

#[test]
fn dot_segments_after_the_first_do_not_count() {
    assert_eq!(normalize_path("a/./b.h"), "a/b.h");
    assert_eq!(normalize_path("/x/."), "/x");
    assert_eq!(normalize_path("/."), "/");
}

#[test]
fn leading_dot_and_parent_segments_are_kept() {
    assert_eq!(normalize_path("./a.h"), "./a.h");
    assert_eq!(normalize_path("."), ".");
    assert_eq!(normalize_path(".//a/../b.h"), "./a/../b.h");
}

#[test]
fn plain_paths_are_unchanged() {
    assert_eq!(normalize_path("src/service.cpp"), "src/service.cpp");
    assert_eq!(normalize_path("/usr/include/c++/v1/vector"), "/usr/include/c++/v1/vector");
    assert_eq!(normalize_path(""), "");
    assert_eq!(normalize_path("/"), "/");
}

#[test]
fn normal_form_agrees_with_std_path_equality() {
    let pairs = [
        ("a//b.h", "a/b.h"),
        ("a/./b.h", "a/b.h/"),
        ("/x/.", "/x"),
        ("./a", "./a/"),
        ("./a", "a"),
        ("/a", "a"),
        ("a/../b", "b"),
    ];
    for (x, y) in pairs {
        let same_path = std::path::Path::new(x) == std::path::Path::new(y);
        assert_eq!(normalize_path(x) == normalize_path(y), same_path, "{x} vs {y}");
    }
}
