use gbf_core::stats::{push_error_lines, DecompStats};

#[test]
fn stats_count_scripts_functions_and_successes() {
    let mut stats = DecompStats::new();
    stats.add_script(3);
    stats.add_script(4);
    stats.add_success();
    assert_eq!(stats.total_scripts(), 2);
    assert_eq!(stats.total_functions(), 7);
    assert_eq!(stats.successful_functions(), 1);
}

#[test]
fn top_errors_come_most_frequent_first() {
    let mut stats = DecompStats::new();
    stats.add_error("a".to_string());
    stats.add_error("b".to_string());
    stats.add_error("b".to_string());
    stats.add_error("c".to_string());
    stats.add_error("b".to_string());
    stats.add_error("c".to_string());
    let top = stats.top_errors(10);
    assert_eq!(
        top,
        vec![("b".to_string(), 3), ("c".to_string(), 2), ("a".to_string(), 1)]
    );
    let top = stats.top_errors(1);
    assert_eq!(top, vec![("b".to_string(), 3)]);
    let mut lines = String::new();
    push_error_lines(&mut lines, &stats.top_errors(2));
    assert_eq!(lines, "\n1. b (3)\n2. c (2)");
}

#[test]
fn no_errors_gives_no_lines() {
    let stats = DecompStats::new();
    assert!(stats.top_errors(10).is_empty());
    let mut lines = String::new();
    push_error_lines(&mut lines, &stats.top_errors(10));
    assert_eq!(lines, "");
}
