use count_locs::command::{parse_command, Command};
use count_locs::engine::{count_locs, total_lines, PatternMatches};
use count_locs::report::render_report;

fn file(text: &str) -> Option<Vec<u8>> {
    Some(text.as_bytes().to_vec())
}

fn matches(pattern: &str, files: Vec<Option<Vec<u8>>>) -> PatternMatches {
    PatternMatches { pattern: pattern.to_string(), files }
}

fn run_count(ms: Vec<PatternMatches>) -> String {
    let results = count_locs(&ms);
    let total = total_lines(&results).unwrap();
    render_report(&results, total)
}

#[test]
fn it_calculates_total_loc_for_single_glob() {
    let out = run_count(vec![matches(
        "**/*.rs",
        vec![file("fn main() {}\n"), file("fn test() {}\nfn another() {}\n")],
    )]);
    assert!(out.contains("3 lines of code"));
}

#[test]
fn it_displays_breakdown_for_multiple_globs() {
    let out = run_count(vec![
        matches("**/*.ts", vec![file("let x = 42;\n")]),
        matches("**/*.tsx", vec![file("const y = () => {}\nconsole.log(y);\n")]),
        matches("**/*.rs", vec![file("fn main() {}\nfn helper() {}\n")]),
    ]);
    assert!(out.contains("Breakdown of Lines of Code by Glob:"));
    assert!(out.contains("**/*.ts: 1"));
    assert!(out.contains("**/*.tsx: 2"));
    assert!(out.contains("**/*.rs: 2"));
    assert!(out.contains("5 lines of code"));
}

#[test]
fn it_handles_no_matching_files() {
    let ms = vec![matches("**/*.java", vec![])];
    let results = count_locs(&ms);
    assert_eq!(results, vec![("**/*.java".to_string(), 0)]);
    let out = run_count(ms);
    assert!(out.contains("0 lines of code"));
}

#[test]
fn it_errors_with_invalid_usage() {
    let args = vec!["count_locs".to_string()];
    match parse_command(&args) {
        Err(e) => assert!(e.contains("Usage:")),
        Ok(_) => panic!("a lone program name must be refused"),
    }
}

#[test]
fn it_ignores_whitespace_lines() {
    let out = run_count(vec![matches("**/*.rs", vec![file("\n\nfn main() {}\n\n")])]);
    assert!(out.contains("1 lines of code"));
}

#[test]
fn it_handles_mixed_line_endings() {
    let out = run_count(vec![matches(
        "**/*.rs",
        vec![file("fn main() {}\r\nfn another() {}\n")],
    )]);
    assert!(out.contains("2 lines of code"));
}

#[test]
fn parse_command_recognises_flags() {
    for flag in ["--help", "-h"] {
        let args = vec!["count_locs".to_string(), flag.to_string()];
        assert!(matches!(parse_command(&args), Ok(Command::Help)));
    }
    for flag in ["--version", "-v"] {
        let args = vec!["count_locs".to_string(), flag.to_string()];
        assert!(matches!(parse_command(&args), Ok(Command::Version)));
    }
}

#[test]
fn parse_command_reads_directory_and_patterns() {
    let args: Vec<String> = ["count_locs", "./src", "**/*.rs", "**/*.ts"]
        .iter()
        .map(|s| s.to_string())
        .collect();
    match parse_command(&args) {
        Ok(Command::Count { dir, patterns }) => {
            assert_eq!(dir, "./src");
            assert_eq!(patterns, vec!["**/*.rs".to_string(), "**/*.ts".to_string()]);
        }
        _ => panic!("expected a count command"),
    }
}

#[test]
fn parse_command_refuses_directory_without_patterns() {
    let args = vec!["count_locs".to_string(), "./src".to_string()];
    match parse_command(&args) {
        Err(e) => assert_eq!(e, "Usage: count_locs <directory> <glob-patterns>..."),
        Ok(_) => panic!("a directory without patterns must be refused"),
    }
}

#[test]
fn parse_command_refuses_empty_arguments() {
    match parse_command(&[]) {
        Err(e) => assert_eq!(e, "Invalid arguments. Use --help for usage information."),
        Ok(_) => panic!("no arguments must be refused"),
    }
}
