use dirgrep::config::{default_ignore_list, Config};
use dirgrep::filter::{check_if_ignore, check_if_include, is_hidden, str_ends_with};
use dirgrep::lines::split_lines;
use dirgrep::numfmt::usize_to_string;
use dirgrep::output::{format_record, format_results};
use dirgrep::path::get_file_name;
use dirgrep::pattern::Pattern;
use dirgrep::preview::{give_half_or, with_quotes, TOTAL_LEN};
use dirgrep::results::{MatchRecord, ResultSet};

fn strings(items: &[&str]) -> Vec<String> {
    items.iter().map(|s| s.to_string()).collect()
}

#[test]
fn ends_with_basic() {
    assert!(str_ends_with("main.rs", "rs"));
    assert!(str_ends_with("main.rs", ".rs"));
    assert!(str_ends_with("main.rs", "main.rs"));
    assert!(!str_ends_with("main.rs", "toml"));
    assert!(!str_ends_with("rs", "main.rs"));
    assert!(str_ends_with("anything", ""));
}

#[test]
fn ignore_list_suffix_match() {
    let list = strings(&["zip", "log"]);
    assert!(check_if_ignore("archive.zip", &list));
    assert!(check_if_ignore("build.log", &list));
    // A suffix match needs no preceding dot.
    assert!(check_if_ignore("catalog", &list));
    assert!(!check_if_ignore("notes.txt", &list));
}

#[test]
fn ignore_list_empty_entry_is_inert() {
    let list = strings(&[""]);
    assert!(!check_if_ignore("anything", &list));
}

#[test]
fn include_list_matches_suffix() {
    let list = strings(&["txt", "rs"]);
    assert!(check_if_include("a.txt", &list));
    assert!(check_if_include("lib.rs", &list));
    assert!(!check_if_include("a.log", &list));
}

#[test]
fn include_list_empty_matches_nothing() {
    let list: Vec<String> = Vec::new();
    assert!(!check_if_include("a.txt", &list));
}

#[test]
fn hidden_names() {
    assert!(is_hidden(".gitignore"));
    assert!(is_hidden("."));
    assert!(!is_hidden("visible.txt"));
    assert!(!is_hidden(""));
}

#[test]
fn preview_short_line_unchanged() {
    let line = "hello world".to_string();
    assert_eq!(give_half_or(&line, TOTAL_LEN), "hello world");
}

#[test]
fn preview_exactly_at_cap_unchanged() {
    let line: String = "x".repeat(90);
    assert_eq!(give_half_or(&line, TOTAL_LEN), line);
}

#[test]
fn preview_long_line_truncated_with_ellipsis() {
    let line: String = "a".repeat(100);
    let shown = give_half_or(&line, TOTAL_LEN);
    assert_eq!(shown.chars().count(), 93);
    let expected = format!("{}...", "a".repeat(90));
    assert_eq!(shown, expected);
}

#[test]
fn quoting() {
    assert_eq!(with_quotes(&"abc".to_string()), "\"abc\"");
    assert_eq!(with_quotes(&String::new()), "\"\"");
}

#[test]
fn split_lines_no_terminator() {
    assert_eq!(split_lines("one"), vec!["one".to_string()]);
}

#[test]
fn split_lines_newlines() {
    assert_eq!(split_lines("a\nb"), strings(&["a", "b"]));
    assert_eq!(split_lines("a\nb\n"), strings(&["a", "b"]));
    assert_eq!(split_lines("\n\n"), strings(&["", ""]));
}

#[test]
fn split_lines_carriage_returns() {
    assert_eq!(split_lines("a\r\nb\r\n"), strings(&["a", "b"]));
    assert_eq!(split_lines("a\r"), strings(&["a\r"]));
}

#[test]
fn split_lines_empty() {
    assert_eq!(split_lines(""), Vec::<String>::new());
}

#[test]
fn decimal_rendering() {
    assert_eq!(usize_to_string(0), "0");
    assert_eq!(usize_to_string(7), "7");
    assert_eq!(usize_to_string(90), "90");
    assert_eq!(usize_to_string(12345), "12345");
}

#[test]
fn record_block_exact_text() {
    let rec = MatchRecord {
        path: "a.txt".to_string(),
        line_number: 3,
        preview: "hello".to_string(),
    };
    let expected = "\nFile: \"a.txt\"\n                \rAt line: 3\n                \rContent: \"hello\"\n                \r---------------------------------------";
    assert_eq!(format_record(&rec), expected);
}

#[test]
fn results_text_concatenates_in_order() {
    let a = MatchRecord {
        path: "a".to_string(),
        line_number: 1,
        preview: "p".to_string(),
    };
    let b = MatchRecord {
        path: "b".to_string(),
        line_number: 2,
        preview: "q".to_string(),
    };
    let both = format_results(&vec![a, b]);
    assert!(both.starts_with("\nFile: \"a\""));
    assert!(both.contains("\nFile: \"b\""));
    let a2 = MatchRecord {
        path: "a".to_string(),
        line_number: 1,
        preview: "p".to_string(),
    };
    let only_a = format_record(&a2);
    assert!(both.starts_with(only_a.as_str()));
}

#[test]
fn result_set_insert_overwrites_by_path() {
    let mut rs = ResultSet::new();
    rs.insert(MatchRecord {
        path: "f".to_string(),
        line_number: 1,
        preview: "first".to_string(),
    });
    rs.insert(MatchRecord {
        path: "f".to_string(),
        line_number: 9,
        preview: "last".to_string(),
    });
    rs.insert(MatchRecord {
        path: "g".to_string(),
        line_number: 2,
        preview: "other".to_string(),
    });
    assert_eq!(rs.len(), 2);
    let recs = rs.into_records();
    assert_eq!(recs[0].path, "f");
    assert_eq!(recs[0].line_number, 9);
    assert_eq!(recs[0].preview, "last");
    assert_eq!(recs[1].path, "g");
}

#[test]
fn pattern_compile_and_match() {
    let p = Pattern::compile("hel+o").unwrap();
    assert_eq!(p.source().as_str(), "hel+o");
    assert!(p.is_match("say helllo there"));
    assert!(!p.is_match("goodbye"));
}

#[test]
fn pattern_compile_rejects_invalid() {
    assert!(Pattern::compile("foo(bar").is_none());
}

#[test]
fn base_name_extraction() {
    assert_eq!(get_file_name(&"a/b/c.txt".to_string()), "c.txt");
    assert_eq!(get_file_name(&"a\\b\\c.txt".to_string()), "c.txt");
    assert_eq!(get_file_name(&"plain".to_string()), "plain");
    assert_eq!(get_file_name(&"dir/".to_string()), "");
}

#[test]
fn default_ignore_list_contents() {
    let list = default_ignore_list();
    assert_eq!(list.len(), 35);
    assert!(list.contains(&"zip".to_string()));
    assert!(list.contains(&"png".to_string()));
    assert!(list.contains(&"blend1".to_string()));
    assert!(check_if_ignore("photo.png", &list));
    assert!(!check_if_ignore("notes.txt", &list));
}

#[test]
fn config_holds_its_parts() {
    let conf = Config::new(
        "root".to_string(),
        Pattern::compile("x").unwrap(),
        true,
        false,
        strings(&["zip"]),
        strings(&["txt"]),
        true,
    );
    assert_eq!(conf.directory, "root");
    assert!(conf.recursive);
    assert!(!conf.debug);
    assert!(conf.check_extra);
    assert_eq!(conf.files_to_ignore, strings(&["zip"]));
    assert_eq!(conf.files_to_search, strings(&["txt"]));
}
