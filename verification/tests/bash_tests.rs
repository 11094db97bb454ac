use udo::bash::{spawn_failure, to_json, tool_result, truncate, ToolResult, MAX_OUTPUT};

#[test]
fn short_output_is_kept() {
    assert_eq!(truncate("hello\n".to_string()), "hello\n");
    let exact = "x".repeat(MAX_OUTPUT);
    assert_eq!(truncate(exact.clone()), exact);
}

#[test]
fn long_output_is_cut_at_the_limit() {
    let long = "y".repeat(MAX_OUTPUT + 10);
    let kept = truncate(long.clone());
    assert_eq!(kept, format!("{}\n...[truncated]", "y".repeat(MAX_OUTPUT)));
    assert_eq!(kept.len(), MAX_OUTPUT + 15);
}

#[test]
fn multibyte_output_cut_on_a_boundary() {
    // 4096 two-byte characters are exactly the limit.
    let s = "é".repeat(MAX_OUTPUT / 2 + 3);
    let kept = truncate(s);
    assert_eq!(kept, format!("{}\n...[truncated]", "é".repeat(MAX_OUTPUT / 2)));
}

#[test]
fn cut_inside_a_character_steps_back_to_its_start() {
    // Byte 8192 falls inside the last 'é': the cut keeps 8191 bytes.
    let s = format!("a{}", "é".repeat(MAX_OUTPUT / 2));
    assert_eq!(s.len(), MAX_OUTPUT + 1);
    let kept = truncate(s);
    assert_eq!(kept, format!("a{}\n...[truncated]", "é".repeat(MAX_OUTPUT / 2 - 1)));
    assert_eq!(kept.len(), MAX_OUTPUT - 1 + 15);
}

#[test]
fn cut_before_a_four_byte_character() {
    // 8190 ASCII bytes, then a four-byte character over the limit.
    let s = format!("{}\u{1F600}tail", "z".repeat(MAX_OUTPUT - 2));
    let kept = truncate(s);
    assert_eq!(kept, format!("{}\n...[truncated]", "z".repeat(MAX_OUTPUT - 2)));
}

#[test]
fn tool_result_decodes_and_keeps() {
    let r = tool_result(b"out\n", b"", Some(3));
    assert_eq!(r.stdout, "out\n");
    assert_eq!(r.stderr, "");
    assert_eq!(r.exit_code, 3);
}

#[test]
fn tool_result_without_code_is_minus_one() {
    let r = tool_result(b"", b"killed", None);
    assert_eq!(r.exit_code, -1);
    assert_eq!(r.stderr, "killed");
}

#[test]
fn tool_result_replaces_invalid_utf8() {
    let r = tool_result(&[b'a', 0xff, b'b'], &[], Some(0));
    assert_eq!(r.stdout, "a\u{fffd}b");
}

#[test]
fn tool_result_cuts_before_a_split_character() {
    let mut bytes = vec![b'a'];
    bytes.extend("é".repeat(MAX_OUTPUT / 2 + 3).as_bytes());
    let r = tool_result(&bytes, b"", Some(0));
    assert_eq!(r.stdout, format!("a{}\n...[truncated]", "é".repeat(MAX_OUTPUT / 2 - 1)));
    assert_eq!(r.exit_code, 0);
}

#[test]
fn spawn_failure_result() {
    let r = spawn_failure("No such file or directory (os error 2)");
    assert_eq!(r.stdout, "");
    assert_eq!(r.stderr, "failed to spawn bash: No such file or directory (os error 2)");
    assert_eq!(r.exit_code, -1);
}

#[test]
fn json_of_tool_result() {
    let r = ToolResult { stdout: "a \"b\"\n".to_string(), stderr: "\\\t\u{1}".to_string(), exit_code: -2 };
    assert_eq!(to_json(&r), "{\"stdout\":\"a \\\"b\\\"\\n\",\"stderr\":\"\\\\\\t\\u0001\",\"exit_code\":-2}");
    let plain = ToolResult { stdout: "é".to_string(), stderr: String::new(), exit_code: 0 };
    assert_eq!(to_json(&plain), "{\"stdout\":\"é\",\"stderr\":\"\",\"exit_code\":0}");
}
