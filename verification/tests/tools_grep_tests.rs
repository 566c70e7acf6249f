use jean::grep::{glob_matches, glob_new, regex_is_match, regex_new, render_grep_report,
    scan_file_lines};
use jean::tools::{default_context_lines, plan_tool_execution, ToolPlan};

#[test]
fn default_context_is_two() {
    assert_eq!(default_context_lines(), 2);
}

#[test]
fn plan_read_file_accepts_whitespace_and_order() {
    match plan_tool_execution("read_file", " { \"filename\" : \"a.txt\" } ") {
        ToolPlan::ReadFile(args) => assert_eq!(args.filename, "a.txt"),
        _ => panic!("expected a read plan"),
    }
}

#[test]
fn plan_grep_defaults_and_field_order() {
    match plan_tool_execution("grep", "{\"filter\":\"*.rs\",\"search_term\":\"fn main\"}") {
        ToolPlan::Grep(args) => {
            assert_eq!(args.search_term, "fn main");
            assert_eq!(args.filter, "*.rs");
            assert_eq!(args.context_lines, 2);
        },
        _ => panic!("expected a grep plan"),
    }
    match plan_tool_execution(
        "grep",
        "{\"search_term\":\"x\",\"filter\":\"*.txt\",\"context_lines\": 0}",
    ) {
        ToolPlan::Grep(args) => assert_eq!(args.context_lines, 0),
        _ => panic!("expected a grep plan"),
    }
}

#[test]
fn plan_rejects_bad_blobs() {
    match plan_tool_execution("read_file", "{\"filename\":42}") {
        ToolPlan::Reply(text) => assert!(text.starts_with("Error parsing read_file arguments")),
        _ => panic!("expected a diagnostic"),
    }
    match plan_tool_execution("grep", "{\"search_term\":\"x\"}") {
        ToolPlan::Reply(text) => assert!(text.starts_with("Error parsing grep arguments")),
        _ => panic!("expected a diagnostic"),
    }
    // a repeated field is refused
    match plan_tool_execution(
        "grep",
        "{\"search_term\":\"x\",\"search_term\":\"y\",\"filter\":\"*\"}",
    ) {
        ToolPlan::Reply(_) => {},
        _ => panic!("expected a diagnostic"),
    }
    // a fractional count is refused
    match plan_tool_execution(
        "grep",
        "{\"search_term\":\"x\",\"filter\":\"*\",\"context_lines\":1.5}",
    ) {
        ToolPlan::Reply(_) => {},
        _ => panic!("expected a diagnostic"),
    }
}

#[test]
fn plan_unknown_tool() {
    match plan_tool_execution("paint", "{}") {
        ToolPlan::Reply(text) => assert_eq!(text, "Unknown tool: paint"),
        _ => panic!("expected a diagnostic"),
    }
}

#[test]
fn regex_wrapper_compiles_and_matches() {
    assert!(regex_new("[").is_err());
    let re = regex_new("ma.ch").expect("pattern compiles");
    assert!(regex_is_match(&re, "a match here"));
    assert!(!regex_is_match(&re, "nothing"));
}

#[test]
fn glob_wrapper_compiles_and_matches() {
    assert!(glob_new("[").is_err());
    let p = glob_new("src/*.rs").expect("pattern compiles");
    assert!(glob_matches(&p, "src/main.rs"));
    assert!(!glob_matches(&p, "src/main.txt"));
}

#[test]
fn scan_marks_match_and_context() {
    let re = regex_new("needle").unwrap();
    let lines: Vec<String> = ["one", "two", "needle here", "four", "five", "six"]
        .iter()
        .map(|s| s.to_string())
        .collect();
    let blocks = scan_file_lines(&re, "a.txt", &lines, 2);
    assert_eq!(blocks.len(), 1);
    assert_eq!(
        blocks[0],
        "=== a.txt ===\n1:  one\n2:  two\n3:> needle here\n4:  four\n5:  five"
    );
}

#[test]
fn scan_skips_lines_shown_as_after_context() {
    let re = regex_new("hit").unwrap();
    let lines: Vec<String> = ["hit one", "hit two", "quiet", "hit three"]
        .iter()
        .map(|s| s.to_string())
        .collect();
    // with one context line, "hit two" is consumed as after-context of the
    // first match and is not itself tested; the scan resumes at "quiet"
    let blocks = scan_file_lines(&re, "f", &lines, 1);
    assert_eq!(blocks.len(), 2);
    assert_eq!(blocks[0], "=== f ===\n1:> hit one\n2:  hit two");
    assert_eq!(blocks[1], "=== f ===\n3:  quiet\n4:> hit three");
}

#[test]
fn report_counts_and_joins() {
    let blocks = vec!["block one".to_string(), "block two".to_string()];
    assert_eq!(
        render_grep_report("x", "*.rs", &blocks),
        "Found 2 matches:\n\nblock one\n\nblock two"
    );
    let empty: Vec<String> = Vec::new();
    assert_eq!(
        render_grep_report("x", "*.rs", &empty),
        "No matches found for 'x' in files matching '*.rs'"
    );
}

#[test]
fn plan_skips_unknown_members() {
    match plan_tool_execution("read_file", "{\"filename\":\"a.txt\",\"note\":123}") {
        ToolPlan::ReadFile(args) => assert_eq!(args.filename, "a.txt"),
        _ => panic!("expected a read plan"),
    }
    match plan_tool_execution(
        "grep",
        "{\"extra\":{\"deep\":[1,\"s\",null,true]},\"search_term\":\"x\",\"filter\":\"*.rs\"}",
    ) {
        ToolPlan::Grep(args) => {
            assert_eq!(args.search_term, "x");
            assert_eq!(args.filter, "*.rs");
            assert_eq!(args.context_lines, 2);
        },
        _ => panic!("expected a grep plan"),
    }
}
