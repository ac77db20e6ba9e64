use unzip_tool::path::{is_contained, resolve_output_path};

#[test]
fn relative_name_goes_below_the_output_directory() {
    assert_eq!(resolve_output_path("out", "docs/readme.txt"), "out/docs/readme.txt");
    assert_eq!(resolve_output_path("/tmp/out", "a"), "/tmp/out/a");
}

#[test]
fn no_second_separator_after_a_trailing_one() {
    assert_eq!(resolve_output_path("out/", "a.txt"), "out/a.txt");
    assert_eq!(resolve_output_path("/", "a.txt"), "/a.txt");
}

#[test]
fn empty_output_directory_adds_nothing() {
    assert_eq!(resolve_output_path("", "a.txt"), "a.txt");
}

#[test]
fn empty_name_leaves_the_directory_with_a_separator() {
    assert_eq!(resolve_output_path("out", ""), "out/");
    assert_eq!(resolve_output_path("out/", ""), "out/");
}

#[test]
fn absolute_name_replaces_the_output_directory() {
    assert_eq!(resolve_output_path("out", "/etc/passwd"), "/etc/passwd");
}

#[test]
fn climbing_segments_are_kept_as_they_are() {
    assert_eq!(resolve_output_path("out", "../evil.txt"), "out/../evil.txt");
    assert_eq!(resolve_output_path("out", "a/../../b"), "out/a/../../b");
}

#[test]
fn directory_names_keep_their_separator() {
    assert_eq!(resolve_output_path("out", "docs/"), "out/docs/");
}

#[test]
fn names_outside_ascii_are_joined() {
    assert_eq!(resolve_output_path("输出", "文件/说明.txt"), "输出/文件/说明.txt");
}

#[test]
fn plain_names_stay_inside() {
    assert!(is_contained("a.txt"));
    assert!(is_contained("docs/readme.txt"));
    assert!(is_contained("docs/"));
    assert!(is_contained(""));
    assert!(is_contained("..."));
    assert!(is_contained("..a/b"));
    assert!(is_contained("a..b"));
    assert!(is_contained("文件/说明.txt"));
}

#[test]
fn names_that_climb_no_higher_than_they_went_down_stay_inside() {
    assert!(is_contained("a/../b"));
    assert!(is_contained("a/.."));
    assert!(is_contained("a/b/../../c"));
    assert!(is_contained("./a"));
    assert!(is_contained("a/./b"));
    assert!(is_contained("a//b"));
    assert!(is_contained("."));
}

#[test]
fn names_that_climb_out_do_not_stay_inside() {
    assert!(!is_contained(".."));
    assert!(!is_contained("../evil.txt"));
    assert!(!is_contained("a/../../evil.txt"));
    assert!(!is_contained("a/../.."));
    assert!(!is_contained("./../x"));
    assert!(!is_contained("a/b/../../../x/y/z"));
    assert!(!is_contained("../a/b/c"));
    assert!(!is_contained(".//.."));
}

#[test]
fn absolute_names_do_not_stay_inside() {
    assert!(!is_contained("/"));
    assert!(!is_contained("/etc/passwd"));
    assert!(!is_contained("//a"));
}
