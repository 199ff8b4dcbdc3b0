use fif::find_in_lines;
use fif::ConfigError;
use fif::Configuration;
use fif::Match;
use fif::Pattern;

fn lines_of(content: &str) -> Vec<String> {
    content.split("\n").map(|s| s.to_string()).collect()
}

fn rows_of(matches: &Vec<Match>) -> Vec<usize> {
    matches.iter().map(|m| m.row).collect()
}

#[test]
fn test_find_matching_string() {
    let config = Configuration {
        pattern: Pattern::Text("the".to_owned()),
        ..Default::default()
    };
    let content = "The quick brown fox
        jumps over the lazy dog";
    let matches = find_in_lines(&lines_of(content), &config).unwrap();
    assert!(matches.len() == 1);
}

#[test]
fn test_find_matching_string_case_insensitive() {
    let config = Configuration {
        case_insensitive: true,
        pattern: Pattern::Text("the".to_owned()),
    };
    let content = "The quick brown fox
        jumps over the lazy dog";
    let matches = find_in_lines(&lines_of(content), &config).unwrap();
    assert!(matches.len() == 2);
}

#[test]
fn test_line_number_is_correct() {
    let config = Configuration {
        case_insensitive: true,
        pattern: Pattern::Text("int".to_owned()),
    };
    let content = "#include <stdio.h>
        int main() {
           // printf() displays the string inside quotation
           printf(\"Hello, World!\");
           return 0;
        }";
    let matches = find_in_lines(&lines_of(content), &config).unwrap();
    let mut matches = matches.into_iter();

    assert_eq!(matches.next().unwrap().row, 2);
    assert_eq!(matches.next().unwrap().row, 3);
    assert_eq!(matches.next().unwrap().row, 4);
    assert!(matches.next().is_none());
}

#[test]
fn test_find_matching_with_regex() {
    let config = Configuration {
        case_insensitive: false,
        pattern: Pattern::Regex(r".?the.?".to_owned()),
    };
    let content = "The quick brown
            fox jumps over
            the lazy dog";
    let matches = find_in_lines(&lines_of(content), &config).unwrap();
    assert_eq!(matches.len(), 1);
}

#[test]
fn test_find_matching_with_regex_case_insensitive() {
    let config = Configuration {
        case_insensitive: true,
        pattern: Pattern::Regex(r".?the.?".to_owned()),
    };
    let content = "The quick brown
            fox jumps over the lazy dog";
    let matches = find_in_lines(&lines_of(content), &config).unwrap();
    assert_eq!(matches.len(), 2);
}

#[test]
fn scenario_case_insensitive_rows_exact() {
    let config = Configuration {
        case_insensitive: true,
        pattern: Pattern::Text("int".to_owned()),
    };
    let content = "#include <stdio.h>
int main() {
   // printf() displays the string
   printf(\"Hello, World!\");
   return 0;
}";
    let matches = find_in_lines(&lines_of(content), &config).unwrap();
    assert_eq!(rows_of(&matches), vec![2, 3, 4]);
}

#[test]
fn scenario_case_sensitivity_changes_rows() {
    let content = "The quick brown fox\njumps over the lazy dog";

    let sensitive = Configuration {
        case_insensitive: false,
        pattern: Pattern::Text("the".to_owned()),
    };
    let matches = find_in_lines(&lines_of(content), &sensitive).unwrap();
    assert_eq!(rows_of(&matches), vec![2]);

    let insensitive = Configuration {
        case_insensitive: true,
        pattern: Pattern::Text("the".to_owned()),
    };
    let matches = find_in_lines(&lines_of(content), &insensitive).unwrap();
    assert_eq!(rows_of(&matches), vec![1, 2]);
}

#[test]
fn blank_lines_keep_their_row_numbers() {
    let config = Configuration::default_from_pattern("dog");
    let content = "cat\n\n\ndog and cat\n\ndog";
    let matches = find_in_lines(&lines_of(content), &config).unwrap();
    assert_eq!(rows_of(&matches), vec![4, 6]);
    assert_eq!(matches[0].line, "dog and cat");
    assert_eq!(matches[1].line, "dog");
}

#[test]
fn empty_pattern_selects_every_line() {
    let config = Configuration::default_from_pattern("");
    let content = "a\n\nb";
    let matches = find_in_lines(&lines_of(content), &config).unwrap();
    assert_eq!(rows_of(&matches), vec![1, 2, 3]);
}

#[test]
fn matched_line_text_is_reported_verbatim() {
    let config = Configuration::default_from_pattern("quick");
    let content = "The quick brown fox\njumps over the lazy dog";
    let matches = find_in_lines(&lines_of(content), &config).unwrap();
    assert_eq!(matches.len(), 1);
    assert_eq!(matches[0].row, 1);
    assert_eq!(matches[0].line, "The quick brown fox");
}

#[test]
fn uppercase_pattern_folds_before_lookup() {
    let config = Configuration {
        case_insensitive: true,
        pattern: Pattern::Text("THE".to_owned()),
    };
    let content = "the cat\nno match here";
    let matches = find_in_lines(&lines_of(content), &config).unwrap();
    assert_eq!(rows_of(&matches), vec![1]);
}

#[test]
fn regex_is_searched_not_anchored() {
    let config = Configuration {
        case_insensitive: false,
        pattern: Pattern::Regex("a+b".to_owned()),
    };
    let content = "xxaabyy\nabba\nnothing";
    let matches = find_in_lines(&lines_of(content), &config).unwrap();
    assert_eq!(rows_of(&matches), vec![1, 2]);
}

#[test]
fn regex_anchor_distinguishes_rows() {
    let config = Configuration {
        case_insensitive: false,
        pattern: Pattern::Regex("^jumps".to_owned()),
    };
    let content = "he jumps high\njumps over";
    let matches = find_in_lines(&lines_of(content), &config).unwrap();
    assert_eq!(rows_of(&matches), vec![2]);
}

#[test]
fn invalid_regex_is_a_configuration_error() {
    let config = Configuration {
        case_insensitive: false,
        pattern: Pattern::Regex("foo(".to_owned()),
    };
    let content = "foo";
    let result = find_in_lines(&lines_of(content), &config);
    assert!(matches!(result, Err(ConfigError::InvalidRegex)));
}

#[test]
fn validate_rejects_invalid_regex_up_front() {
    let bad = Configuration {
        case_insensitive: false,
        pattern: Pattern::Regex("(unclosed".to_owned()),
    };
    assert!(matches!(bad.validate(), Err(ConfigError::InvalidRegex)));
    assert_eq!(
        bad.validate().unwrap_err().message(),
        "invalid regular expression"
    );

    let good = Configuration {
        case_insensitive: false,
        pattern: Pattern::Regex("a+b".to_owned()),
    };
    assert!(good.validate().is_ok());
}

#[test]
fn same_scan_twice_gives_equal_matches() {
    let config = Configuration {
        case_insensitive: true,
        pattern: Pattern::Text("the".to_owned()),
    };
    let content = "The quick brown fox\njumps over the lazy dog";
    let first = find_in_lines(&lines_of(content), &config).unwrap();
    let second = find_in_lines(&lines_of(content), &config).unwrap();
    assert_eq!(rows_of(&first), rows_of(&second));
    let first_lines: Vec<String> = first.iter().map(|m| m.line.clone()).collect();
    let second_lines: Vec<String> = second.iter().map(|m| m.line.clone()).collect();
    assert_eq!(first_lines, second_lines);
}
