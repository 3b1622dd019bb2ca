use file2book_launcher::extract_final_path;
use file2book_launcher::interpret_tool_output;
use file2book_launcher::split_lines;
use file2book_launcher::trim_str;

#[test]
fn success_takes_last_nonblank_line_trimmed() {
    let r = interpret_tool_output(true, "log line 1\nlog line 2\n/out/book.pdf\n", "");
    assert_eq!(r, Ok("/out/book.pdf".to_string()));
}

#[test]
fn success_trims_surrounding_whitespace() {
    let r = interpret_tool_output(true, "working...\n  /out/book.pdf  \n\n   \n", "");
    assert_eq!(r, Ok("/out/book.pdf".to_string()));
}

#[test]
fn blank_output_on_success_is_a_contract_violation() {
    let expected = Err("File2Book succeeded but did not report an output path.".to_string());
    assert_eq!(interpret_tool_output(true, "", ""), expected);
    assert_eq!(interpret_tool_output(true, "\n  \n\t\n", ""), expected);
}

#[test]
fn failure_reports_stderr_behind_prefix() {
    let r = interpret_tool_output(false, "ignored stdout\n/somewhere\n", "bad page size\n");
    let message = r.unwrap_err();
    assert_eq!(message, "File2Book failed: bad page size");
    assert!(message.contains("bad page size"));
}

#[test]
fn failure_with_empty_stderr_is_the_prefix_alone() {
    let r = interpret_tool_output(false, "", "");
    assert_eq!(r, Err("File2Book failed: ".to_string()));
}

#[test]
fn extraction_scans_from_the_end() {
    assert_eq!(
        extract_final_path("a\nb\nc\n"),
        Some("c".to_string())
    );
    assert_eq!(extract_final_path("only"), Some("only".to_string()));
    assert_eq!(extract_final_path("tail\n \n\t\n"), Some("tail".to_string()));
    assert_eq!(extract_final_path(""), None);
    assert_eq!(extract_final_path(" \n \n"), None);
}

#[test]
fn line_splitting_follows_newlines() {
    assert_eq!(split_lines(""), Vec::<String>::new());
    assert_eq!(split_lines("a"), vec!["a".to_string()]);
    assert_eq!(split_lines("a\nb"), vec!["a".to_string(), "b".to_string()]);
    assert_eq!(split_lines("a\nb\n"), vec!["a".to_string(), "b".to_string()]);
    assert_eq!(
        split_lines("a\n\nb"),
        vec!["a".to_string(), "".to_string(), "b".to_string()]
    );
}

#[test]
fn unicode_whitespace_counts_as_blank() {
    // A line of nothing but a non-breaking space is blank, as str::trim
    // would judge it.
    let expected = Err("File2Book succeeded but did not report an output path.".to_string());
    assert_eq!(interpret_tool_output(true, "\u{a0}", ""), expected);
    assert_eq!(interpret_tool_output(true, "a\n\u{a0}\n", ""), Ok("a".to_string()));
    assert_eq!(
        trim_str("\u{a0}\u{2028}/out/book.pdf\u{3000} "),
        "/out/book.pdf"
    );
    assert_eq!(
        interpret_tool_output(false, "", "\u{a0}\u{2009}"),
        Err("File2Book failed: ".to_string())
    );
}

#[test]
fn trimming_removes_surrounding_whitespace_only() {
    assert_eq!(trim_str("  x  "), "x");
    assert_eq!(trim_str("\t a b \r\n"), "a b");
    assert_eq!(trim_str(" \t\r\n"), "");
    assert_eq!(trim_str(""), "");
    assert_eq!(trim_str("no-op"), "no-op");
}
