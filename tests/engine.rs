use count_locs::engine::{count_files, count_locs, file_lines, total_lines, PatternMatches};
use count_locs::report::{decimal_string, render_report};

fn file(text: &str) -> Option<Vec<u8>> {
    Some(text.as_bytes().to_vec())
}

#[test]
fn unreadable_file_contributes_zero() {
    assert_eq!(file_lines(&None), 0);
    assert_eq!(count_files(&vec![None, file("a\nb\n"), None]), 2);
}

#[test]
fn many_files_are_summed() {
    let files: Vec<Option<Vec<u8>>> = (0..100).map(|_| file("x\n\ny\n")).collect();
    assert_eq!(count_files(&files), 200);
    assert_eq!(count_files(&vec![]), 0);
}

#[test]
fn file_matched_by_two_patterns_counts_for_both() {
    let shared = file("a\nb\nc\n");
    let ms = vec![
        PatternMatches { pattern: "**/*.rs".to_string(), files: vec![shared.clone()] },
        PatternMatches { pattern: "**/*".to_string(), files: vec![shared, file("d\n")] },
    ];
    let results = count_locs(&ms);
    assert_eq!(results, vec![("**/*.rs".to_string(), 3), ("**/*".to_string(), 4)]);
    assert_eq!(total_lines(&results), Some(7));
}

#[test]
fn counting_twice_gives_the_same_result() {
    let a = vec![PatternMatches {
        pattern: "*.txt".to_string(),
        files: vec![file("a\n"), file("b\nc\n"), None],
    }];
    let b = vec![PatternMatches {
        pattern: "*.txt".to_string(),
        files: vec![None, file("b\nc\n"), file("a\n")],
    }];
    assert_eq!(count_locs(&a), count_locs(&a));
    assert_eq!(count_locs(&a), count_locs(&b));
}

#[test]
fn total_overflow_is_reported() {
    let results = vec![("a".to_string(), usize::MAX), ("b".to_string(), 1)];
    assert_eq!(total_lines(&results), None);
    assert_eq!(total_lines(&vec![]), Some(0));
}

#[test]
fn single_pattern_report_has_no_breakdown() {
    let out = render_report(&vec![("*.rs".to_string(), 12)], 12);
    assert_eq!(out, "Total:\t12 lines of code\n");
}

#[test]
fn breakdown_report_layout() {
    let results = vec![("*.rs".to_string(), 1), ("*.ts".to_string(), 20)];
    let out = render_report(&results, 21);
    assert_eq!(
        out,
        "Breakdown of Lines of Code by Glob:\n\n  *.rs: 1\n  *.ts: 20\n\nTotal:\t21 lines of code\n"
    );
}

#[test]
fn decimal_text() {
    assert_eq!(decimal_string(0), "0");
    assert_eq!(decimal_string(1234), "1234");
    assert_eq!(decimal_string(usize::MAX), usize::MAX.to_string());
}

#[test]
fn repeated_pattern_is_reported_each_time() {
    let ms = vec![
        PatternMatches { pattern: "*.c".to_string(), files: vec![file("int x;\n")] },
        PatternMatches { pattern: "*.c".to_string(), files: vec![file("int x;\n")] },
    ];
    let results = count_locs(&ms);
    assert_eq!(results, vec![("*.c".to_string(), 1), ("*.c".to_string(), 1)]);
    assert_eq!(total_lines(&results), Some(2));
}
