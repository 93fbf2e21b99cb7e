use dirgrep::config::{default_ignore_list, Config};
use dirgrep::pattern::Pattern;
use dirgrep::results::ResultSet;
use dirgrep::scanner::{scan_file, search_files, FileText};
use dirgrep::traverse::{walk_entries_flat, walk_entries_recursive, FsEntry};
use dirgrep::walk::{flat_file_wanted, recursive_entry_retained, recursive_file_wanted};

fn strings(items: &[&str]) -> Vec<String> {
    items.iter().map(|s| s.to_string()).collect()
}

fn flat_config(pattern: &str, ignore: Vec<String>, search: Vec<String>, check_extra: bool) -> Config {
    Config::new(
        "root".to_string(),
        Pattern::compile(pattern).unwrap(),
        false,
        false,
        ignore,
        search,
        check_extra,
    )
}

#[test]
fn no_matching_line_leaves_no_record() {
    let conf = flat_config("hello", default_ignore_list(), Vec::new(), false);
    let mut rs = ResultSet::new();
    scan_file(&conf, &mut rs, &"a.txt".to_string(), "nothing here\nnor here");
    assert_eq!(rs.len(), 0);
}

#[test]
fn last_matching_line_wins() {
    let conf = flat_config("hello", default_ignore_list(), Vec::new(), false);
    let mut rs = ResultSet::new();
    scan_file(
        &conf,
        &mut rs,
        &"a.txt".to_string(),
        "hello first\nnothing\nhello last\ntrailer",
    );
    let recs = rs.into_records();
    assert_eq!(recs.len(), 1);
    assert_eq!(recs[0].path, "a.txt");
    assert_eq!(recs[0].line_number, 3);
    assert_eq!(recs[0].preview, "hello last");
}

#[test]
fn matching_line_preview_is_truncated() {
    let conf = flat_config("hello", default_ignore_list(), Vec::new(), false);
    let mut rs = ResultSet::new();
    let long_line = format!("hello {}", "z".repeat(120));
    scan_file(&conf, &mut rs, &"a.txt".to_string(), &long_line);
    let recs = rs.into_records();
    assert_eq!(recs.len(), 1);
    assert_eq!(recs[0].line_number, 1);
    assert_eq!(recs[0].preview.chars().count(), 93);
    assert!(recs[0].preview.ends_with("..."));
    assert_eq!(&recs[0].preview[..90], &long_line[..90]);
}

#[test]
fn flat_walk_with_defaults_keeps_hidden_files() {
    // Root holds a.txt ("hello world"), b.log ("hello"), .hidden.txt
    // ("hello"); flat mode applies no hidden filtering, and neither txt
    // nor log is on the default ignore list.
    let conf = flat_config("hello", default_ignore_list(), Vec::new(), false);
    let walked = [
        ("root/a.txt", "hello world"),
        ("root/b.log", "hello"),
        ("root/.hidden.txt", "hello"),
    ];
    let mut files: Vec<FileText> = Vec::new();
    for (path, content) in walked.iter() {
        assert!(flat_file_wanted(&conf, path));
        files.push(FileText {
            path: path.to_string(),
            content: content.to_string(),
        });
    }
    let recs = search_files(&conf, &files).into_records();
    assert_eq!(recs.len(), 3);
    assert_eq!(recs[0].path, "root/a.txt");
    assert_eq!(recs[0].line_number, 1);
    assert_eq!(recs[0].preview, "hello world");
    assert_eq!(recs[1].path, "root/b.log");
    assert_eq!(recs[1].line_number, 1);
    assert_eq!(recs[2].path, "root/.hidden.txt");
}

#[test]
fn recursive_walk_prunes_hidden_entries() {
    let conf = Config::new(
        "root".to_string(),
        Pattern::compile("hello").unwrap(),
        true,
        false,
        default_ignore_list(),
        Vec::new(),
        false,
    );
    assert!(!recursive_entry_retained(&conf, ".hidden.txt"));
    assert!(!recursive_entry_retained(&conf, ".git"));
    assert!(recursive_entry_retained(&conf, "a.txt"));
    assert!(recursive_entry_retained(&conf, "src"));
}

#[test]
fn only_listed_suffixes_are_scanned() {
    // `--only txt` with a.txt and a.log both containing the pattern:
    // only a.txt is scanned, so only it appears in the results.
    let conf = flat_config("hello", default_ignore_list(), strings(&["txt"]), true);
    let walked = [("root/a.txt", "hello"), ("root/a.log", "hello")];
    let mut files: Vec<FileText> = Vec::new();
    for (path, content) in walked.iter() {
        if flat_file_wanted(&conf, path) {
            files.push(FileText {
                path: path.to_string(),
                content: content.to_string(),
            });
        }
    }
    let recs = search_files(&conf, &files).into_records();
    assert_eq!(recs.len(), 1);
    assert_eq!(recs[0].path, "root/a.txt");
}

#[test]
fn only_gate_applies_in_recursive_mode_too() {
    let conf = Config::new(
        "root".to_string(),
        Pattern::compile("hello").unwrap(),
        true,
        false,
        default_ignore_list(),
        strings(&["txt"]),
        true,
    );
    assert!(recursive_file_wanted(&conf, "root/a.txt"));
    assert!(!recursive_file_wanted(&conf, "root/a.log"));
}

#[test]
fn ignored_suffixes_are_never_scanned() {
    // `--ignore log` with a.txt and a.log both containing the pattern:
    // only a.txt appears in the results.
    let mut ignore = default_ignore_list();
    ignore.push("log".to_string());
    let conf = flat_config("hello", ignore, Vec::new(), false);
    let walked = [("root/a.txt", "hello"), ("root/a.log", "hello")];
    let mut files: Vec<FileText> = Vec::new();
    for (path, content) in walked.iter() {
        if flat_file_wanted(&conf, path) {
            files.push(FileText {
                path: path.to_string(),
                content: content.to_string(),
            });
        }
    }
    let recs = search_files(&conf, &files).into_records();
    assert_eq!(recs.len(), 1);
    assert_eq!(recs[0].path, "root/a.txt");
}

#[test]
fn search_files_scans_every_file() {
    let conf = flat_config("mark", default_ignore_list(), Vec::new(), false);
    let files = vec![
        FileText {
            path: "one".to_string(),
            content: "mark here\nand mark again".to_string(),
        },
        FileText {
            path: "two".to_string(),
            content: "nothing".to_string(),
        },
        FileText {
            path: "three".to_string(),
            content: "\n\nmark".to_string(),
        },
    ];
    let recs = search_files(&conf, &files).into_records();
    assert_eq!(recs.len(), 2);
    assert_eq!(recs[0].path, "one");
    assert_eq!(recs[0].line_number, 2);
    assert_eq!(recs[1].path, "three");
    assert_eq!(recs[1].line_number, 3);
}

fn entry(components: &[&str], is_file: bool, content: &str) -> FsEntry {
    FsEntry {
        components: strings(components),
        is_file,
        content: content.to_string(),
    }
}

fn nested_fixture() -> Vec<FsEntry> {
    vec![
        entry(&["top.txt"], true, "hello top"),
        entry(&["sub"], false, ""),
        entry(&["sub", "inner.txt"], true, "hello inner"),
        entry(&[".secrets"], false, ""),
        entry(&[".secrets", "token.txt"], true, "hello token"),
        entry(&[".hidden.txt"], true, "hello hidden"),
    ]
}

#[test]
fn flat_walk_never_leaves_the_top_level() {
    let conf = flat_config("hello", default_ignore_list(), Vec::new(), false);
    let files = walk_entries_flat(&conf, &nested_fixture());
    let paths: Vec<&str> = files.iter().map(|f| f.path.as_str()).collect();
    // Only immediate file children; flat mode keeps hidden names.
    assert_eq!(paths, vec!["root/top.txt", "root/.hidden.txt"]);
}

#[test]
fn recursive_walk_reaches_subdirectories_and_prunes_hidden_ones() {
    let conf = Config::new(
        "root".to_string(),
        Pattern::compile("hello").unwrap(),
        true,
        false,
        default_ignore_list(),
        Vec::new(),
        false,
    );
    let files = walk_entries_recursive(&conf, &nested_fixture());
    let paths: Vec<&str> = files.iter().map(|f| f.path.as_str()).collect();
    // The nested file is found; everything hidden, or below a hidden
    // directory, is pruned.
    assert_eq!(paths, vec!["root/top.txt", "root/sub/inner.txt"]);
}

#[test]
fn walked_fixture_scans_end_to_end() {
    let conf = Config::new(
        "root".to_string(),
        Pattern::compile("hello").unwrap(),
        true,
        false,
        default_ignore_list(),
        Vec::new(),
        false,
    );
    let files = walk_entries_recursive(&conf, &nested_fixture());
    let recs = search_files(&conf, &files).into_records();
    assert_eq!(recs.len(), 2);
    assert_eq!(recs[0].path, "root/top.txt");
    assert_eq!(recs[0].preview, "hello top");
    assert_eq!(recs[1].path, "root/sub/inner.txt");
    assert_eq!(recs[1].line_number, 1);
}

#[test]
fn regex_patterns_reach_the_matcher() {
    let conf = flat_config("^fn [a-z_]+", default_ignore_list(), Vec::new(), false);
    let mut rs = ResultSet::new();
    scan_file(
        &conf,
        &mut rs,
        &"lib.rs".to_string(),
        "struct S;\nfn run_it() {}\n",
    );
    let recs = rs.into_records();
    assert_eq!(recs.len(), 1);
    assert_eq!(recs[0].line_number, 2);
}
