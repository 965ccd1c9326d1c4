use skills_tui::components::summary::{summary_lines, words_of, wrap_two};
use skills_tui::markdown::{TextLine, TextSpan, TextStyle};
use skills_tui::measure::{fit, middle_ellipsis, pad};
use skills_tui::text::{
    cat3, chars_of, comes_before, contains, decimal, ends_with, head_before, head_before_last,
    insert_sorted, join, list_before, parse_number, repeat, same_text, slice_of, split, split_once,
    split_words, starts_with, strip_prefix, tail_after, trim, trim_start, widen, word,
};
use unicode_width::UnicodeWidthStr;

#[test]
fn header_paths_keep_the_tail_with_unicode_safe_middle_ellipsis() {
    let path = "/temporary/long-parent-directory/project/skills";
    let shortened = middle_ellipsis(path, 16);
    assert!(shortened.starts_with("/tempor"));
    assert!(shortened.ends_with("/skills"));
    assert!(shortened.contains('…'));
    for max in 0..50 {
        assert!(middle_ellipsis("/文件系统/打印机/skills", max).width() <= max);
    }
    assert_eq!(middle_ellipsis("/skills", 30), "/skills");
}

#[test]
fn paths_are_cut_in_their_middle() {
    assert_eq!(middle_ellipsis("/home/user/projects/skills", 20), "/home/use…cts/skills");
    assert_eq!(middle_ellipsis("anything", 0), "");
    assert_eq!(middle_ellipsis("anything", 1), "…");
}

#[test]
fn texts_are_cut_between_clusters() {
    assert_eq!(fit("calendar", 8), "calendar");
    assert_eq!(fit("calendar", 5), "cale…");
    assert_eq!(fit("calendar", 1), "…");
    assert_eq!(fit("calendar", 0), "");
    assert_eq!(fit("中文名称", 5), "中文…");
    assert_eq!(fit("a👩‍💻bcd", 4), "a👩‍💻…");
    assert_eq!(pad("ab", 4), "ab  ");
    assert_eq!(pad("calendar", 4), "cal…");
}

#[test]
fn summaries_wrap_at_words() {
    assert_eq!(
        summary_lines("**Read** these calendar notes and more", 20),
        ("Read these calendar".to_string(), "notes and more".to_string())
    );
    assert_eq!(summary_lines("short", 20), ("short".to_string(), String::new()));
    assert_eq!(summary_lines("short", 0), (String::new(), String::new()));
    let (first, second) = summary_lines("中文中文中文中文中文中文", 10);
    assert_eq!(first, "中文中文中");
    assert_eq!(second, "文中文中…");
}

#[test]
fn summaries_never_break_a_cluster() {
    let family = "👨\u{200d}👩\u{200d}👧";
    let text = format!("{family}{family}\u{1b}{family}{family}");
    let (first, second) = wrap_two(&text, 6);
    assert_eq!(first, format!("{family}{family}\u{1b}{family}"));
    assert_eq!(second, family);
    assert_eq!(wrap_two("a\u{1b}b", 2), ("a\u{1b}b".to_string(), String::new()));
}

#[test]
fn a_blank_too_early_does_not_end_the_line() {
    assert_eq!(
        wrap_two("a verylongunbrokentoken", 12),
        ("a verylongun".to_string(), "brokentoken".to_string())
    );
    assert_eq!(
        wrap_two("one two three four five six", 8),
        ("one two".to_string(), "three f…".to_string())
    );
}

#[test]
fn lines_become_words() {
    let span = |content: &str| TextSpan { content: content.to_string(), style: TextStyle::plain() };
    let line = |spans: Vec<TextSpan>| TextLine { spans, style: TextStyle::plain(), alignment: None };
    let lines = vec![
        line(vec![span("one\r\n"), span(" two")]),
        line(vec![]),
        line(vec![span("  three\tfour\n")]),
    ];
    assert_eq!(words_of(&lines), "one two three four");
}

#[test]
fn numbers_are_read_and_told() {
    assert_eq!(decimal(0), "0");
    assert_eq!(decimal(1203), "1203");
    assert_eq!(parse_number("1203"), Some(1203));
    assert_eq!(parse_number("+7"), Some(7));
    assert_eq!(parse_number(""), None);
    assert_eq!(parse_number("12a"), None);
    assert_eq!(parse_number("99999999999999999999999"), None);
}

#[test]
fn parts_of_texts() {
    assert_eq!(trim("  a b\t"), "a b");
    assert_eq!(trim_start("  a b "), "a b ");
    assert_eq!(word("  first second"), Some("first".to_string()));
    assert_eq!(word("   "), None);
    assert_eq!(split_words(" a  b\tc "), ["a", "b", "c"]);
    assert_eq!(split("a,b,,c", ","), ["a", "b", "", "c"]);
    assert_eq!(split_once("key=value=x", "="), Some(("key".to_string(), "value=x".to_string())));
    assert_eq!(split_once("key", "="), None);
    assert_eq!(strip_prefix("repos/alias", "repos/"), Some("alias".to_string()));
    assert_eq!(strip_prefix("skills", "repos/"), None);
    assert!(starts_with("calendar", "cal") && !starts_with("cal", "calendar"));
    assert!(ends_with("calendar", "dar") && !ends_with("calendar", "cal"));
    assert!(contains("calendar", "lend") && contains("x", "") && !contains("x", "y"));
    assert_eq!(tail_after("a/b/c", '/'), "c");
    assert_eq!(tail_after("abc", '/'), "abc");
    assert_eq!(head_before("a/b/c", '/'), "a");
    assert_eq!(head_before_last("a/b/c", '/'), "a/b");
    assert_eq!(slice_of(&chars_of("中文名称"), 1, 3), "文名");
    assert_eq!(join(&vec!["a".to_string(), "b".to_string()], ", "), "a, b");
    assert_eq!(cat3("a", "b", "c"), "abc");
    assert_eq!(repeat('-', 3), "---");
    assert_eq!(widen("ab", 4), "ab  ");
    assert!(same_text("é", "é") && !same_text("e", "é"));
}

#[test]
fn texts_are_ordered_by_their_characters() {
    assert!(comes_before("a", "b"));
    assert!(comes_before("a", "ab"));
    assert!(!comes_before("a", "a"));
    assert!(comes_before("Z", "a"));
    let list = |items: &[&str]| items.iter().map(|s| s.to_string()).collect::<Vec<_>>();
    assert!(list_before(&list(&["a", "b"]), &list(&["a", "c"])));
    assert!(!list_before(&list(&["b"]), &list(&["a", "c"])));
    let mut sorted = list(&["a", "c"]);
    insert_sorted(&mut sorted, "b".to_string());
    assert_eq!(sorted, ["a", "b", "c"]);
}
