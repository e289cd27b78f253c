//! Text operations.

use mxc_containment::escape::{json_escape, python_escape};
use mxc_containment::output::{cgroup_values, du_field, stdout_preview, vm_rss_fields};
use mxc_containment::scan::{clip, lines, split_once, split_whitespace, strip_prefix, trim};
use mxc_containment::text::{lower_ascii, replace_char, same_text};

#[test]
fn lines_end_in_a_newline_with_or_without_a_carriage_return() {
    for s in ["", "\n", "a", "a\n", "a\r\nb\n\nc\r", "\r", "\r\n\r", "a\rb\n", "\n\n"] {
        assert_eq!(lines(s), s.lines().collect::<Vec<_>>(), "{s:?}");
    }
}

#[test]
fn fields_are_separated_by_whitespace() {
    for s in ["", "  ", "a", " a b ", "a\tb\u{a0}c\u{3000}\u{2003}d", "\u{200b}x \u{85}y"] {
        assert_eq!(split_whitespace(s), s.split_whitespace().collect::<Vec<_>>(), "{s:?}");
    }
}

#[test]
fn whitespace_is_what_unicode_says() {
    for n in 0..0x11_0000u32 {
        if let Some(c) = char::from_u32(n) {
            assert_eq!(mxc_containment::scan::char_is_space(c), c.is_whitespace(), "{n:x}");
        }
    }
}

#[test]
fn trim_takes_whitespace_off_both_ends() {
    for s in ["", " ", " a ", "\u{a0}a b\n", "ab"] {
        assert_eq!(trim(s), s.trim(), "{s:?}");
    }
}

#[test]
fn prefixes_are_stripped_once() {
    assert_eq!(strip_prefix("aab", "a"), Some("ab".to_string()));
    assert_eq!(strip_prefix("aab", ""), Some("aab".to_string()));
    assert_eq!(strip_prefix("aab", "aab"), Some(String::new()));
    assert_eq!(strip_prefix("aab", "aabc"), None);
    assert_eq!(strip_prefix("aab", "b"), None);
}

#[test]
fn split_once_splits_at_the_first_separator() {
    assert_eq!(split_once("a:b:c", ':'), Some(("a", "b:c")));
    assert_eq!(split_once(":", ':'), Some(("", "")));
    assert_eq!(split_once("\u{e9}:\u{2014}", ':'), Some(("\u{e9}", "\u{2014}")));
    assert_eq!(split_once("abc", ':'), None);
}

#[test]
fn clip_counts_characters() {
    assert_eq!(clip("\u{e9}\u{e8}a", 2), "\u{e9}\u{e8}");
    assert_eq!(clip("ab", 2), "ab");
    assert_eq!(clip("ab", 9), "ab");
    assert_eq!(clip("ab", 0), "");
}

#[test]
fn replacing_a_character_replaces_all_of_it() {
    assert_eq!(replace_char("a b c", ' ', "--"), "a--b--c");
    assert_eq!(replace_char("aaa", 'a', ""), "");
    assert_eq!(replace_char("xyz", 'a', "b"), "xyz");
    assert_eq!(lower_ascii("NanVix\u{c9}"), "nanvix\u{c9}");
    assert!(same_text("abc", "abc"));
    assert!(!same_text("abc", "abd"));
    assert!(!same_text("abc", "ab"));
}

#[test]
fn json_escape_handles_quotes_backslashes_and_control_characters() {
    assert_eq!(json_escape("a\\\"\n\r\tb/"), "a\\\\\\\"\\n\\r\\tb/");
    assert_eq!(json_escape(""), "");
    assert_eq!(json_escape("\\n"), "\\\\n");
}

#[test]
fn json_escape_reads_back() {
    for s in ["", "plain", "a\\\"\n\r\tb/", "\\\\n\"\"", "\u{e9}\u{1f600}"] {
        let literal = format!("\"{}\"", json_escape(s));
        let value: String = serde_json::from_str(&literal).unwrap();
        assert_eq!(value, s);
    }
}

#[test]
fn python_escape_handles_quotes_backslashes_and_newlines() {
    assert_eq!(python_escape("print('a\\n')\nx"), "print(\\'a\\\\n\\')\\nx");
    assert_eq!(python_escape("\"\t"), "\"\t");
}

#[test]
fn preview_is_the_start_of_the_first_line() {
    assert_eq!(stdout_preview(""), "");
    assert_eq!(stdout_preview("\nsecond"), "");
    assert_eq!(stdout_preview("first\r\nsecond"), "first");
    assert_eq!(stdout_preview(&"x".repeat(80)), "x".repeat(80));
    assert_eq!(stdout_preview(&"\u{e9}".repeat(81)), "\u{e9}".repeat(80));
}

#[test]
fn resident_memory_is_the_second_field() {
    let status = "Name:\tbench\nVmRSS:\t   5120 kB\nVmRSS:\nVmRSS: x y\n";
    assert_eq!(vm_rss_fields(status), vec!["5120", "x"]);
    assert_eq!(vm_rss_fields(" VmRSS: 1"), Vec::<String>::new());
}

#[test]
fn container_memory_follows_the_mark() {
    let out = "hello\n__CGROUP_MEM__= 12345 \nx__CGROUP_MEM__=9\n__CGROUP_MEM__=\n";
    assert_eq!(cgroup_values(out), vec!["12345", ""]);
    assert!(cgroup_values("").is_empty());
}

#[test]
fn image_size_is_the_first_field_of_the_first_line() {
    assert_eq!(du_field("51234\t/\n9 x"), Some("51234".to_string()));
    assert_eq!(du_field(" \n9"), None);
    assert_eq!(du_field(""), None);
}

fn read_python_literal(s: &str) -> String {
    let mut out = String::new();
    let mut chars = s.chars();
    while let Some(c) = chars.next() {
        assert!(c != '\'' && c != '\n');
        out.push(if c != '\\' {
            c
        } else {
            match chars.next().unwrap() {
                'n' => '\n',
                other => other,
            }
        });
    }
    out
}

#[test]
fn python_escape_reads_back() {
    for s in ["", "plain", "print('a\\n')\nx = \"y\"\n", "\\\\n'\\'", "\u{e9}\t"] {
        assert_eq!(read_python_literal(&python_escape(s)), s);
    }
}
