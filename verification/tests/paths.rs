use hyperlight_sandbox::error::{mount_point_text, unclassified_text};
use hyperlight_sandbox::guest_path::{
    GuestRelativePath, MAX_GUEST_PATH_BYTES, MAX_GUEST_PATH_COMPONENTS,
};
use hyperlight_sandbox::text::{
    append_within, byte_len, chars_of, concat2, concat3, contains_char, contains_text,
    decimal_text, join_from, join_texts, replace_text, same_text, signed_decimal_text,
    split_once_text, split_text, starts_with_text, strip_prefix_text, trim_start_text, width_of,
};
use hyperlight_sandbox::FsError;

fn path(text: &str) -> GuestRelativePath {
    GuestRelativePath::parse(text).unwrap()
}

#[test]
fn the_bounds_on_paths_are_exact() {
    let longest = "a".repeat(MAX_GUEST_PATH_BYTES);
    assert_eq!(path(&longest).as_path(), longest);
    // Two bytes for each of these characters.
    let wide = "é".repeat(MAX_GUEST_PATH_BYTES / 2);
    assert_eq!(path(&wide).as_path(), wide);
    assert_eq!(
        GuestRelativePath::parse(&("é".repeat(MAX_GUEST_PATH_BYTES / 2) + "a")),
        Err(FsError::InvalidPath)
    );

    let deepest = vec!["a"; MAX_GUEST_PATH_COMPONENTS].join("/");
    assert_eq!(path(&deepest).as_path(), deepest);
    // Components that name nothing do not count.
    let padded = vec!["a/."; MAX_GUEST_PATH_COMPONENTS].join("//");
    assert_eq!(path(&padded).as_path(), deepest);
}

#[test]
fn drive_prefixes_are_rejected_only_at_the_front() {
    assert_eq!(GuestRelativePath::parse("c:"), Err(FsError::InvalidPath));
    assert_eq!(
        GuestRelativePath::parse("./Z:file"),
        Err(FsError::InvalidPath)
    );
    assert_eq!(path("dir/c:").as_path(), "dir/c:");
    assert_eq!(path("1:file").as_path(), "1:file");
    assert!(GuestRelativePath::has_windows_drive_prefix("C:x"));
    assert!(!GuestRelativePath::has_windows_drive_prefix("C"));
    assert!(!GuestRelativePath::has_windows_drive_prefix("é:"));
}

#[test]
fn dots_that_are_no_parent_components_are_accepted() {
    assert_eq!(path("...").as_path(), "...");
    assert_eq!(path("a..b/..c").as_path(), "a..b/..c");
    assert_eq!(GuestRelativePath::parse("a/.."), Err(FsError::InvalidPath));
}

#[test]
fn a_path_that_ends_in_a_slash_or_a_dot_names_a_directory() {
    assert!(path("a/").requires_directory());
    assert!(path("a//").requires_directory());
    assert!(path("a/./").requires_directory());
    assert!(path("a/.").requires_directory());
    assert!(!path("./a").requires_directory());
    assert!(!path("a/b").requires_directory());
}

#[test]
fn absolute_paths_are_rejected() {
    for text in ["/", "//", "/a", "/./a", "/a/"] {
        assert_eq!(GuestRelativePath::parse(text), Err(FsError::InvalidPath));
    }
}

#[test]
fn normalization_is_idempotent() {
    for text in ["./a//b/.", "a", "a/b/c/", ".hidden/./x"] {
        let once = path(text);
        let twice = path(once.as_path());
        assert_eq!(twice.as_path(), once.as_path());
        assert!(!twice.requires_directory());
    }
}

#[test]
fn joining_leads_below_the_parent() {
    let parent = path("a/b");
    let child = path("./c//d/");
    let joined = parent.join(&child).unwrap();
    assert_eq!(joined.as_path(), "a/b/c/d");
    assert!(joined.requires_directory());
    assert!(joined.is_within(&parent));
    assert!(!parent.is_within(&joined));
    assert!(joined.is_named("d"));
    assert!(!joined.is_named("c/d"));

    // From the root of a mount a path is what it is.
    assert_eq!(
        GuestRelativePath::root().join(&child).unwrap(),
        child
    );
    // However it is put together, the path is the same.
    let tail = path("e");
    assert_eq!(
        parent.join(&child).unwrap().join(&tail).unwrap(),
        parent.join(&child.join(&tail).unwrap()).unwrap()
    );
}

#[test]
fn joining_keeps_the_bounds() {
    let half = path(&vec!["a"; 128].join("/"));
    assert!(half.join(&half).is_ok());
    assert_eq!(
        half.join(&path(&vec!["a"; 129].join("/"))),
        Err(FsError::InvalidPath)
    );
    let long = path(&"a".repeat(2048));
    assert_eq!(long.join(&long), Err(FsError::InvalidPath));
    assert!(long.join(&path(&"a".repeat(2047))).is_ok());
}

#[test]
fn lying_within_goes_by_components() {
    assert!(path("src/lib.rs").is_within(&path("src")));
    assert!(path("src").is_within(&path("src/")));
    assert!(!path("src2/lib.rs").is_within(&path("src")));
    assert!(path("a/b/c").is_within(&GuestRelativePath::root()));
    assert!(path("a/b/c").is_within(&path("a/b")) && path("a/b").is_within(&path("a")));
    assert!(path("a/b/c").is_within(&path("a")));
    assert!(path("a/b").same_components(&path("./a//b/")));
    assert!(!path("a/b").same_components(&path("a")));
    assert!(!path("a/b").same_components(&path("a/c")));
}

#[test]
fn mount_points_are_first_components() {
    assert_eq!(mount_point_text("/input/data.txt"), "/input");
    assert_eq!(mount_point_text("/input/a/b"), "/input");
    assert_eq!(mount_point_text("/input"), "/");
    assert_eq!(mount_point_text("//x"), "/");
}

#[test]
fn text_is_split_and_joined() {
    assert_eq!(split_text("a,b,,c", ','), vec!["a", "b", "", "c"]);
    assert_eq!(split_text("", ','), vec![""]);
    assert_eq!(split_text(",", ','), vec!["", ""]);
    let parts = split_text("x y z", ' ');
    assert_eq!(join_texts(&parts, "-"), "x-y-z");
    assert_eq!(join_from(&parts, 1, " "), "y z");
    assert_eq!(join_from(&parts, 3, " "), "");
    assert_eq!(
        split_once_text("key=a=b", '='),
        Some(("key".to_string(), "a=b".to_string()))
    );
    assert_eq!(split_once_text("none", '='), None);
    assert_eq!(concat2("ab", "c"), "abc");
    assert_eq!(concat3("a", "b", "c"), "abc");
    assert_eq!(chars_of("aé"), vec!['a', 'é']);
}

#[test]
fn text_is_searched_and_replaced() {
    assert!(starts_with_text("/work", "/"));
    assert!(!starts_with_text("", "/"));
    assert_eq!(
        strip_prefix_text("/output/x", "/output/"),
        Some("x".to_string())
    );
    assert_eq!(strip_prefix_text("/outpu", "/output/"), None);
    assert_eq!(trim_start_text("///a/b", '/'), "a/b");
    assert!(contains_text("a..b", ".."));
    assert!(contains_text("..", ".."));
    assert!(!contains_text("a.b.c", ".."));
    assert!(contains_char("a\\b", '\\'));
    assert!(!contains_char("ab", '\\'));
    assert_eq!(replace_text("$? and $?", "$?", "12"), "12 and 12");
    assert_eq!(replace_text("aaa", "aa", "b"), "ba");
    assert_eq!(replace_text("none", "$?", "0"), "none");
    assert!(same_text("a", "a"));
    assert!(!same_text("a", "A"));
}

#[test]
fn numbers_are_written_in_decimal() {
    assert_eq!(decimal_text(0), "0");
    assert_eq!(decimal_text(10), "10");
    assert_eq!(decimal_text(u64::MAX), "18446744073709551615");
    assert_eq!(signed_decimal_text(127), "127");
    assert_eq!(signed_decimal_text(-1), "-1");
    assert_eq!(signed_decimal_text(i32::MIN), "-2147483648");
}

#[test]
fn widths_are_those_of_utf8() {
    for c in ['a', '\u{7f}', '\u{80}', '\u{7ff}', '\u{800}', '\u{ffff}', '\u{10000}', '\u{10ffff}']
    {
        assert_eq!(width_of(c), c.len_utf8());
    }
    assert_eq!(byte_len("aé€😀"), 10);
}

#[test]
fn text_is_cut_at_whole_characters() {
    let mut text = "ab".to_string();
    append_within(&mut text, "cdef", 4);
    assert_eq!(text, "abcd");
    append_within(&mut text, "x", 4);
    assert_eq!(text, "abcd");

    let mut text = "ab".to_string();
    append_within(&mut text, "é€", 6);
    assert_eq!(text, "abé");
    let mut text = "ab".to_string();
    append_within(&mut text, "é€", 7);
    assert_eq!(text, "abé€");
}

#[test]
fn unclassified_failures_are_shown_with_their_text() {
    assert_eq!(unclassified_text("\"x\""), "Io(\"x\")");
    assert_eq!(
        FsError::Io("a \"b\"\n".to_string()).debug_text(),
        "Io(\"a \\\"b\\\"\\n\")"
    );
}
