use gitui::text::{remove_last_char, str_has_substring, trim_ends, trim_leading};

#[test]
fn remove_last_char_shortens_by_one() {
    assert_eq!(remove_last_char("fe"), "f");
    assert_eq!(remove_last_char("f"), "");
    assert_eq!(remove_last_char(""), "");
}

#[test]
fn substring_search_finds_inner_runs() {
    assert!(str_has_substring("hello", "ell"));
    assert!(str_has_substring("hello", "hello"));
    assert!(str_has_substring("hello", "h"));
    assert!(str_has_substring("hello", "o"));
    assert!(!str_has_substring("hello", "lo!"));
    assert!(!str_has_substring("a", "ab"));
}

#[test]
fn empty_query_is_always_found() {
    assert!(str_has_substring("", ""));
    assert!(str_has_substring("abc", ""));
}

#[test]
fn failure_marker_detection() {
    assert!(str_has_substring("error: cannot switch", "error:"));
    assert!(str_has_substring("fatal\nerror: oops\n", "error:"));
    assert!(!str_has_substring("Switched to branch 'dev'", "error:"));
}

#[test]
fn trimming() {
    assert_eq!(trim_leading("  main"), "main");
    assert_eq!(trim_leading("main  "), "main  ");
    assert_eq!(trim_leading("\t dev"), "dev");
    assert_eq!(trim_ends("  main \r\n"), "main");
    assert_eq!(trim_ends("main"), "main");
    assert_eq!(trim_ends("   "), "");
}
