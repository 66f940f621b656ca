use agent_cli_rust::stream::{parse_sse_line, CallDelta, Delta, LineBuffer, SseLine, StreamState};

fn text(s: &str) -> Delta {
    Delta { content: Some(s.to_string()), tool_calls: Vec::new() }
}

fn piece(index: u64, id: Option<&str>, name: Option<&str>, args: &str) -> CallDelta {
    CallDelta {
        index: Some(index),
        id: id.map(|s| s.to_string()),
        name: name.map(|s| s.to_string()),
        arguments: Some(args.to_string()),
    }
}

#[test]
fn bytes_are_cut_into_lines() {
    let mut b = LineBuffer::new();
    let first = b.push(b"data: a\nda");
    assert_eq!(first, vec![b"data: a".to_vec()]);
    assert_eq!(b.pending(), &b"da".to_vec());
    let second = b.push(b"ta: b\n\n");
    assert_eq!(second, vec![b"data: b".to_vec(), Vec::new()]);
    assert!(b.pending().is_empty());
}

#[test]
fn pieces_give_the_lines_of_the_whole() {
    let whole = b"x\nyy\n\nzzz";
    let mut at_once = LineBuffer::new();
    let all = at_once.push(whole);
    let mut in_pieces = LineBuffer::new();
    let mut got = Vec::new();
    for chunk in whole.chunks(3) {
        got.extend(in_pieces.push(chunk));
    }
    assert_eq!(all, got);
    assert_eq!(at_once.pending(), in_pieces.pending());
    assert_eq!(all, vec![b"x".to_vec(), b"yy".to_vec(), Vec::new()]);
    assert_eq!(at_once.pending(), &b"zzz".to_vec());
}

#[test]
fn event_lines_are_read() {
    assert!(matches!(parse_sse_line("data: {\"a\":1}"), SseLine::Data(p) if p == "{\"a\":1}"));
    assert!(matches!(parse_sse_line("data:{\"a\":1}\r"), SseLine::Data(p) if p == "{\"a\":1}"));
    assert!(matches!(parse_sse_line("data:  two"), SseLine::Data(p) if p == " two"));
    assert!(matches!(parse_sse_line("data: [DONE]"), SseLine::Done));
    assert!(matches!(parse_sse_line("data: [DONE]\r"), SseLine::Done));
    assert!(matches!(parse_sse_line(""), SseLine::Other));
    assert!(matches!(parse_sse_line(": keep-alive"), SseLine::Other));
    assert!(matches!(parse_sse_line("event: message"), SseLine::Other));
    assert!(matches!(parse_sse_line("data"), SseLine::Other));
    assert!(matches!(parse_sse_line("data:"), SseLine::Data(p) if p.is_empty()));
}

#[test]
fn streamed_text_is_put_together() {
    let mut s = StreamState::new();
    s.apply(text("北京"));
    s.apply(text("今天晴"));
    s.apply(Delta { content: None, tool_calls: Vec::new() });
    assert_eq!(s.content(), "北京今天晴");
    let r = s.into_reply();
    assert_eq!(r.content.as_deref(), Some("北京今天晴"));
    assert!(r.tool_calls.is_none());
}

#[test]
fn no_text_means_no_content() {
    let s = StreamState::new();
    let r = s.into_reply();
    assert!(r.content.is_none());
    assert!(r.tool_calls.is_none());
}

#[test]
fn streamed_calls_are_put_together_by_index() {
    let mut s = StreamState::new();
    s.apply(Delta {
        content: None,
        tool_calls: vec![piece(0, Some("call_a"), Some("get_weather"), "")],
    });
    s.apply(Delta { content: None, tool_calls: vec![piece(0, None, None, "{\"city\":")] });
    s.apply(Delta {
        content: None,
        tool_calls: vec![piece(1, Some("call_b"), Some("get_time"), ""), piece(0, None, None, "\"北京\"}")],
    });
    let r = s.into_reply();
    let calls = r.tool_calls.unwrap();
    assert_eq!(calls.len(), 2);
    assert_eq!(calls[0].id, "call_a");
    assert_eq!(calls[0].name, "get_weather");
    assert_eq!(calls[0].arguments, "{\"city\":\"北京\"}");
    assert_eq!(calls[1].id, "call_b");
    assert_eq!(calls[1].arguments, "{}");
}

#[test]
fn a_missing_index_counts_as_zero() {
    let mut s = StreamState::new();
    s.apply(Delta {
        content: None,
        tool_calls: vec![CallDelta { index: None, id: Some("x".into()), name: Some("read_file".into()), arguments: None }],
    });
    s.apply(Delta { content: None, tool_calls: vec![piece(0, Some(""), None, "{}")] });
    let calls = s.into_reply().tool_calls.unwrap();
    assert_eq!(calls.len(), 1);
    assert_eq!(calls[0].id, "x");
    assert_eq!(calls[0].arguments, "{}");
}
