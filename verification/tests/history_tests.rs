use agent_cli_rust::history::{trim_history, Message, ToolCall, MAX_HISTORY};

fn user(t: &str) -> Message {
    Message::User { content: t.to_string() }
}

fn assistant(t: &str) -> Message {
    Message::Assistant { content: t.to_string() }
}

fn system() -> Message {
    Message::System { content: "sys".to_string() }
}

fn content(m: &Message) -> String {
    match m {
        Message::System { content }
        | Message::User { content }
        | Message::Assistant { content }
        | Message::ToolResult { content, .. } => content.clone(),
        Message::ToolCalls { content, .. } => content.clone().unwrap_or_default(),
    }
}

/// A history of `rounds` rounds, each a question and its answer.
fn rounds(n: usize) -> Vec<Message> {
    let mut h = vec![system()];
    for i in 0..n {
        h.push(user(&format!("q{}", i)));
        h.push(assistant(&format!("a{}", i)));
    }
    h
}

#[test]
fn short_history_is_left_alone() {
    let mut h = rounds(20);
    let before: Vec<String> = h.iter().map(content).collect();
    trim_history(&mut h);
    let after: Vec<String> = h.iter().map(content).collect();
    assert_eq!(before, after);
    assert_eq!(h.len(), 41);
}

#[test]
fn long_history_keeps_system_prompt_and_recent_rounds() {
    // 1 + 30 * 2 = 61 messages; the earliest round start that fits is the one at index 13.
    let mut h = rounds(30);
    trim_history(&mut h);
    assert!(h.len() <= MAX_HISTORY);
    assert_eq!(h.len(), 49);
    assert_eq!(content(&h[0]), "sys");
    assert!(matches!(h[1], Message::User { .. }));
    assert_eq!(content(&h[1]), "q6");
    assert_eq!(content(&h[h.len() - 1]), "a29");
}

#[test]
fn trimming_twice_changes_nothing() {
    let mut h = rounds(40);
    trim_history(&mut h);
    let once: Vec<String> = h.iter().map(content).collect();
    trim_history(&mut h);
    let twice: Vec<String> = h.iter().map(content).collect();
    assert_eq!(once, twice);
}

#[test]
fn a_long_current_round_is_kept_whole() {
    // One old round, then a round of 60 tool results: no boundary fits, so the cut is at
    // the latest question and the whole current round stays.
    let mut h = rounds(1);
    h.push(user("big"));
    let calls: Vec<ToolCall> = (0..60)
        .map(|i| ToolCall { id: format!("c{}", i), name: "get_time".into(), arguments: "{}".into() })
        .collect();
    h.push(Message::ToolCalls { content: None, calls });
    for i in 0..60 {
        h.push(Message::ToolResult { call_id: format!("c{}", i), content: "t".into() });
    }
    let n = h.len();
    trim_history(&mut h);
    assert_eq!(h.len(), n - 2);
    assert_eq!(content(&h[1]), "big");
    assert!(matches!(h[2], Message::ToolCalls { .. }));
}

#[test]
fn no_round_boundary_means_no_cut() {
    let mut h = vec![system()];
    for i in 0..60 {
        h.push(assistant(&format!("a{}", i)));
    }
    trim_history(&mut h);
    assert_eq!(h.len(), 61);
}

#[test]
fn trimming_keeps_tool_results_with_their_calls() {
    let mut h = vec![system()];
    for i in 0..20 {
        h.push(user(&format!("q{}", i)));
        h.push(Message::ToolCalls {
            content: None,
            calls: vec![ToolCall { id: format!("c{}", i), name: "get_time".into(), arguments: "{}".into() }],
        });
        h.push(Message::ToolResult { call_id: format!("c{}", i), content: "t".into() });
    }
    trim_history(&mut h);
    assert!(h.len() <= MAX_HISTORY);
    for (j, m) in h.iter().enumerate() {
        if let Message::ToolResult { call_id, .. } = m {
            match &h[j - 1] {
                Message::ToolCalls { calls, .. } => assert_eq!(&calls[0].id, call_id),
                _ => panic!("a result lost its call"),
            }
        }
    }
    assert!(matches!(h[1], Message::User { .. }));
}
