use speedtest_exporter::runner::{interpret_output, last_line, OoklaCliRunner, SpeedtestError};

#[test]
fn speedtest_error_display() {
    let e = SpeedtestError::ExecutionFailed("timeout".into());
    assert!(e.to_string().contains("timeout"));

    let e = SpeedtestError::ParseFailed("bad json".into());
    assert!(e.to_string().contains("bad json"));

    let e = SpeedtestError::EmptyOutput;
    assert!(e.to_string().contains("empty"));
}

#[test]
fn speedtest_error_messages_exact() {
    assert_eq!(
        SpeedtestError::ExecutionFailed("timeout".into()).to_string(),
        "speedtest execution failed: timeout"
    );
    assert_eq!(
        SpeedtestError::ParseFailed("bad json".into()).to_string(),
        "failed to parse speedtest output: bad json"
    );
    assert_eq!(
        SpeedtestError::EmptyOutput.to_string(),
        "speedtest produced empty output"
    );
}

#[test]
fn command_line_without_server() {
    let runner = OoklaCliRunner::new(None);
    assert_eq!(
        runner.command_line(),
        vec!["speedtest", "--accept-license", "--format=json"]
    );
}

#[test]
fn command_line_with_pinned_server() {
    let runner = OoklaCliRunner::new(Some("1234".to_string()));
    assert_eq!(
        runner.command_line(),
        vec!["speedtest", "--accept-license", "--format=json", "--server-id", "1234"]
    );
}

#[test]
fn last_line_agrees_with_std() {
    for s in [
        "", "a", "\n", "\n\n", "a\n", "a\nb", "a\nb\n", "a\r\n", "a\r", "a\nb\r\n", "\r\n",
        "x\r\ny\r", "é\nü\r\n", "line1\n\nline3",
    ] {
        assert_eq!(
            last_line(s),
            s.lines().last().map(|l| l.to_string()),
            "input {:?}",
            s
        );
    }
}

#[test]
fn parses_jsonl_last_line() {
    let compact_result = r#"{"download":{"bandwidth":90918594},"upload":{"bandwidth":152648751},"ping":{"latency":6.582,"jitter":1.221},"packetLoss":0,"server":{"name":"TestServer","country":"TestCountry"},"isp":"TestISP"}"#;
    let jsonl = format!("{{\"type\":\"progress\"}}\n{}", compact_result);
    let line = interpret_output(true, jsonl.as_bytes(), b"").unwrap();
    assert_eq!(line, compact_result);
}

#[test]
fn failure_status_reports_stderr() {
    match interpret_output(false, b"ignored", b"license not accepted") {
        Err(SpeedtestError::ExecutionFailed(m)) => assert_eq!(m, "license not accepted"),
        other => panic!("unexpected {:?}", other),
    }
}

#[test]
fn failure_status_replaces_invalid_utf8() {
    match interpret_output(false, b"", b"bad \xff byte") {
        Err(SpeedtestError::ExecutionFailed(m)) => assert_eq!(m, "bad \u{FFFD} byte"),
        other => panic!("unexpected {:?}", other),
    }
}

#[test]
fn empty_output_is_reported() {
    assert!(matches!(
        interpret_output(true, b"", b"warning"),
        Err(SpeedtestError::EmptyOutput)
    ));
}

#[test]
fn output_lines_are_decoded_lossily() {
    let line = interpret_output(true, b"first\n{\"x\":\"\xc3\"}\r\n", b"").unwrap();
    assert_eq!(line, "{\"x\":\"\u{FFFD}\"}");
}

#[test]
fn trailing_newline_only_output_gives_empty_line() {
    assert_eq!(interpret_output(true, b"\n", b"").unwrap(), "");
}
