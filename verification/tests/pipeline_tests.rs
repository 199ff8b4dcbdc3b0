use fif::collect_results;
use fif::make_fif_pattern;
use fif::Configuration;
use fif::EntryInfo;
use fif::Match;
use fif::Pattern;
use fif::ResultSet;
use fif::Walker;

#[test]
fn walker_starts_with_the_root() {
    let mut walker = Walker::new("root".to_string());
    assert_eq!(walker.pending_count(), 1);
    assert_eq!(walker.next_directory(), Some("root".to_string()));
    assert_eq!(walker.next_directory(), None);
}

#[test]
fn walker_splits_files_from_directories() {
    let mut walker = Walker::new("top".to_string());
    assert_eq!(walker.next_directory(), Some("top".to_string()));
    let entries = vec![
        EntryInfo {
            path: "top/a.txt".to_string(),
            is_dir: false,
        },
        EntryInfo {
            path: "top/sub".to_string(),
            is_dir: true,
        },
        EntryInfo {
            path: "top/b.txt".to_string(),
            is_dir: false,
        },
    ];
    let files = walker.record_entries(entries);
    assert_eq!(files, vec!["top/a.txt".to_string(), "top/b.txt".to_string()]);
    assert_eq!(walker.pending_count(), 1);
    assert_eq!(walker.next_directory(), Some("top/sub".to_string()));
    assert_eq!(walker.next_directory(), None);
}

#[test]
fn abandoned_directory_spares_its_siblings() {
    let mut walker = Walker::new("top".to_string());
    assert_eq!(walker.next_directory(), Some("top".to_string()));
    let entries = vec![
        EntryInfo {
            path: "top/locked".to_string(),
            is_dir: true,
        },
        EntryInfo {
            path: "top/open".to_string(),
            is_dir: true,
        },
    ];
    let files = walker.record_entries(entries);
    assert!(files.is_empty());

    // The listing of this directory fails; it is simply not recorded.
    let unreadable = walker.next_directory();
    assert_eq!(unreadable, Some("top/open".to_string()));

    // Its sibling is still pending and the walk goes on.
    assert_eq!(walker.next_directory(), Some("top/locked".to_string()));
    assert_eq!(walker.next_directory(), None);
}

#[test]
fn deep_nesting_is_walked_with_a_work_list() {
    let mut walker = Walker::new("d0".to_string());
    let depth = 10000;
    for level in 0..depth {
        let dir = walker.next_directory().unwrap();
        assert_eq!(dir, format!("d{}", level));
        let entries = vec![EntryInfo {
            path: format!("d{}", level + 1),
            is_dir: true,
        }];
        let files = walker.record_entries(entries);
        assert!(files.is_empty());
    }
    assert_eq!(walker.next_directory(), Some(format!("d{}", depth)));
}

fn item(file: &str, row: usize, line: &str) -> (String, Match) {
    (
        file.to_string(),
        Match {
            row,
            line: line.to_string(),
        },
    )
}

fn triples_sorted(rs: ResultSet) -> Vec<(String, usize, String)> {
    let mut out: Vec<(String, usize, String)> = Vec::new();
    for (file, matches) in rs.into_entries() {
        for m in matches {
            out.push((file.clone(), m.row, m.line));
        }
    }
    out.sort();
    out
}

#[test]
fn results_keep_per_file_order() {
    let items = vec![
        item("a.txt", 1, "one"),
        item("b.txt", 2, "two"),
        item("a.txt", 5, "five"),
    ];
    let rs = collect_results(items);
    let entries = rs.into_entries();
    assert_eq!(entries.len(), 2);
    assert_eq!(entries[0].0, "a.txt");
    let rows: Vec<usize> = entries[0].1.iter().map(|m| m.row).collect();
    assert_eq!(rows, vec![1, 5]);
    assert_eq!(entries[1].0, "b.txt");
    assert_eq!(entries[1].1.len(), 1);
    assert_eq!(entries[1].1[0].row, 2);
    assert_eq!(entries[1].1[0].line, "two");
}

#[test]
fn delivery_order_does_not_change_the_result_multiset() {
    let forward = vec![
        item("a.txt", 1, "one"),
        item("b.txt", 2, "two"),
        item("a.txt", 5, "five"),
    ];
    let shuffled = vec![
        item("a.txt", 5, "five"),
        item("a.txt", 1, "one"),
        item("b.txt", 2, "two"),
    ];
    let first = triples_sorted(collect_results(forward));
    let second = triples_sorted(collect_results(shuffled));
    assert_eq!(first, second);
}

#[test]
fn result_set_add_appends_to_its_file() {
    let mut rs = ResultSet::new();
    assert_eq!(rs.file_count(), 0);
    rs.add(
        "x".to_string(),
        Match {
            row: 3,
            line: "third".to_string(),
        },
    );
    rs.add(
        "x".to_string(),
        Match {
            row: 7,
            line: "seventh".to_string(),
        },
    );
    assert_eq!(rs.file_count(), 1);
    let entries = rs.into_entries();
    assert_eq!(entries[0].0, "x");
    let rows: Vec<usize> = entries[0].1.iter().map(|m| m.row).collect();
    assert_eq!(rows, vec![3, 7]);
}

#[test]
fn pattern_constructors_pick_the_variant() {
    assert!(matches!(Pattern::text_from_string("abc"), Pattern::Text(t) if t == "abc"));
    assert!(matches!(Pattern::regex_from_string("a+"), Pattern::Regex(s) if s == "a+"));
    assert!(matches!(make_fif_pattern("p", false), Pattern::Text(t) if t == "p"));
    assert!(matches!(make_fif_pattern("p", true), Pattern::Regex(s) if s == "p"));
    assert!(matches!(Pattern::default(), Pattern::Text(t) if t.is_empty()));
}

#[test]
fn configuration_defaults_and_clone_pattern() {
    let config = Configuration::default();
    assert!(!config.case_insensitive);
    assert!(matches!(&config.pattern, Pattern::Text(t) if t.is_empty()));

    let config = Configuration::default_from_pattern("needle");
    assert!(!config.case_insensitive);
    assert!(matches!(config.clone_pattern(), Pattern::Text(t) if t == "needle"));

    let cloned = config.clone();
    assert!(!cloned.case_insensitive);
    assert!(matches!(&cloned.pattern, Pattern::Text(t) if t == "needle"));
}

#[test]
fn compiled_pattern_matches_lines_directly() {
    let predicate = Pattern::text_from_string("abc")
        .into_matching_function(false)
        .unwrap();
    assert!(predicate.line_matches("xxabcxx"));
    assert!(!predicate.line_matches("xxAbCxx"));

    let folded = Pattern::text_from_string("AbC")
        .into_matching_function(true)
        .unwrap();
    assert!(folded.line_matches("xxabcxx"));
    assert!(!folded.line_matches("xyz"));

    let searcher = Pattern::regex_from_string("c.t")
        .into_matching_function(false)
        .unwrap();
    assert!(searcher.line_matches("a cat sat"));
    assert!(!searcher.line_matches("a dog sat"));
}
