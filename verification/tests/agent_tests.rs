use agent_cli_rust::agent::{Action, AgentLoop, Event, LlmReply, MAX_TURNS};
use agent_cli_rust::history::{Message, ToolCall};
use agent_cli_rust::tools::ToolOutcome;

fn question() -> Vec<Message> {
    vec![
        Message::System { content: "sys".into() },
        Message::User { content: "hi".into() },
    ]
}

fn call(id: &str, name: &str) -> ToolCall {
    ToolCall { id: id.into(), name: name.into(), arguments: "{}".into() }
}

fn calls_reply(calls: Vec<ToolCall>) -> Event {
    Event::Reply(LlmReply { content: None, tool_calls: Some(calls) })
}

fn text_reply(t: &str) -> Event {
    Event::Reply(LlmReply { content: Some(t.into()), tool_calls: None })
}

fn done(text: &str, failed: bool) -> Event {
    Event::ToolDone(ToolOutcome { text: text.into(), failed })
}

fn step(s: &mut AgentLoop, e: Event) -> Action {
    assert!(s.accepts(&e));
    s.step(e)
}

#[test]
fn starts_by_sending_a_request() {
    let (s, a) = AgentLoop::start(question());
    assert!(matches!(a, Action::Send));
    assert_eq!(s.turns(), 1);
}

#[test]
fn a_text_reply_ends_the_loop() {
    let (mut s, _) = AgentLoop::start(question());
    match step(&mut s, text_reply("你好")) {
        Action::Finish(Ok(t)) => assert_eq!(t, "你好"),
        _ => panic!("expected the reply"),
    }
    assert!(s.is_finished());
    let h = s.into_history();
    assert_eq!(h.len(), 3);
    assert!(matches!(&h[2], Message::Assistant { content } if content == "你好"));
}

#[test]
fn an_empty_reply_is_an_error() {
    let (mut s, _) = AgentLoop::start(question());
    match step(&mut s, Event::Reply(LlmReply { content: None, tool_calls: None })) {
        Action::Finish(Err(e)) => assert_eq!(e, "LLM 未返回内容"),
        _ => panic!("expected an error"),
    }
    assert_eq!(s.history().len(), 2);
}

#[test]
fn request_errors_are_reported() {
    let (mut s, _) = AgentLoop::start(question());
    match step(&mut s, Event::SendFailed("timeout".into())) {
        Action::Finish(Err(e)) => assert_eq!(e, "请求失败: timeout"),
        _ => panic!(),
    }
    let (mut s, _) = AgentLoop::start(question());
    match step(&mut s, Event::BadStatus { status: "401 Unauthorized".into(), body: "no".into() }) {
        Action::Finish(Err(e)) => assert_eq!(e, "API 返回 401 Unauthorized: no"),
        _ => panic!(),
    }
    let (mut s, _) = AgentLoop::start(question());
    match step(&mut s, Event::Unparsable("eof".into())) {
        Action::Finish(Err(e)) => assert_eq!(e, "解析响应失败: eof"),
        _ => panic!(),
    }
}

#[test]
fn tool_calls_run_in_order_and_are_answered() {
    let (mut s, _) = AgentLoop::start(question());
    match step(&mut s, calls_reply(vec![call("a", "get_time"), call("b", "calculator")])) {
        Action::Run(c) => assert_eq!(c.id, "a"),
        _ => panic!(),
    }
    match step(&mut s, done("t1", false)) {
        Action::Run(c) => assert_eq!(c.id, "b"),
        _ => panic!(),
    }
    assert!(matches!(step(&mut s, done("t2", false)), Action::Send));
    assert_eq!(s.turns(), 2);
    let h = s.history();
    assert_eq!(h.len(), 5);
    assert!(matches!(&h[3], Message::ToolResult { call_id, content } if call_id == "a" && content == "t1"));
    assert!(matches!(&h[4], Message::ToolResult { call_id, content } if call_id == "b" && content == "t2"));
}

#[test]
fn an_empty_list_of_calls_asks_again() {
    let (mut s, _) = AgentLoop::start(question());
    assert!(matches!(step(&mut s, calls_reply(vec![])), Action::Send));
    assert_eq!(s.history().len(), 3);
}

#[test]
fn a_dangerous_tool_waits_for_confirmation() {
    let (mut s, _) = AgentLoop::start(question());
    match step(&mut s, calls_reply(vec![call("w", "write_file")])) {
        Action::Confirm(c) => assert_eq!(c.name, "write_file"),
        _ => panic!("a dangerous tool must be confirmed"),
    }
    assert!(!s.accepts(&done("x", false)));
    match step(&mut s, Event::Confirmed(true)) {
        Action::Run(c) => assert_eq!(c.id, "w"),
        _ => panic!(),
    }
}

#[test]
fn a_refused_tool_is_answered_with_the_refusal() {
    let (mut s, _) = AgentLoop::start(question());
    step(&mut s, calls_reply(vec![call("r", "run_shell")]));
    assert!(matches!(step(&mut s, Event::Confirmed(false)), Action::Send));
    let h = s.history();
    assert!(matches!(&h[3], Message::ToolResult { call_id, content }
        if call_id == "r" && content == "[用户拒绝了 run_shell 的执行]"));
}

#[test]
fn three_failures_in_a_row_stop_the_loop() {
    let (mut s, _) = AgentLoop::start(question());
    step(&mut s, calls_reply(vec![call("1", "read_file"), call("2", "read_file")]));
    step(&mut s, done("读取文件失败: x", true));
    assert!(matches!(step(&mut s, done("读取文件失败: y", true)), Action::Send));
    step(&mut s, calls_reply(vec![call("3", "read_file")]));
    match step(&mut s, done("读取文件失败: z", true)) {
        Action::Finish(Err(e)) => assert_eq!(e, "连续 3 次工具调用失败，已强制停止"),
        _ => panic!("the breaker must trip"),
    }
    // The last result is still recorded, so the history stays answerable.
    assert_eq!(s.history().len(), 7);
}

#[test]
fn a_success_resets_the_failure_count() {
    let (mut s, _) = AgentLoop::start(question());
    step(&mut s, calls_reply(vec![call("1", "read_file"), call("2", "read_file"), call("3", "get_time")]));
    step(&mut s, done("e", true));
    step(&mut s, done("e", true));
    assert!(matches!(step(&mut s, done("ok", false)), Action::Send));
    step(&mut s, calls_reply(vec![call("4", "read_file")]));
    assert!(matches!(step(&mut s, done("e", true)), Action::Send));
}

#[test]
fn the_turn_limit_stops_the_loop() {
    let (mut s, _) = AgentLoop::start(question());
    let mut sends = 1;
    loop {
        match step(&mut s, calls_reply(vec![])) {
            Action::Send => sends += 1,
            Action::Finish(Err(e)) => {
                assert_eq!(e, "达到最大循环次数限制");
                break;
            }
            _ => panic!(),
        }
    }
    assert_eq!(sends, MAX_TURNS);
    assert_eq!(s.turns(), MAX_TURNS);
}

#[test]
fn a_finished_loop_takes_no_event() {
    let (mut s, _) = AgentLoop::start(question());
    step(&mut s, text_reply("done"));
    assert!(!s.accepts(&text_reply("again")));
    assert!(!s.accepts(&Event::Confirmed(true)));
}

#[test]
fn a_long_conversation_is_trimmed_before_the_request() {
    let mut h = vec![Message::System { content: "sys".into() }];
    for i in 0..30 {
        h.push(Message::User { content: format!("q{}", i) });
        h.push(Message::Assistant { content: format!("a{}", i) });
    }
    h.push(Message::User { content: "now".into() });
    let (s, a) = AgentLoop::start(h);
    assert!(matches!(a, Action::Send));
    assert!(s.history().len() <= 50);
    assert!(matches!(&s.history()[0], Message::System { .. }));
    assert!(matches!(s.history().last(), Some(Message::User { content }) if content == "now"));
}

#[test]
fn the_breaker_stops_within_a_reply() {
    let (mut s, _) = AgentLoop::start(question());
    step(
        &mut s,
        calls_reply(vec![call("1", "read_file"), call("2", "read_file"), call("3", "read_file"), call("4", "get_time")]),
    );
    step(&mut s, done("e1", true));
    step(&mut s, done("e2", true));
    match step(&mut s, done("e3", true)) {
        Action::Finish(Err(e)) => assert_eq!(e, "连续 3 次工具调用失败，已强制停止"),
        _ => panic!("the breaker must trip at the third failure"),
    }
    assert!(!s.accepts(&done("late", false)));
    let h = s.into_history();
    assert_eq!(h.len(), 7);
    assert!(matches!(&h[6], Message::ToolResult { call_id, content }
        if call_id == "4" && content == "[未执行: 连续 3 次工具调用失败，已强制停止]"));
}

#[test]
fn the_history_handed_back_is_trimmed() {
    let mut h = vec![Message::System { content: "sys".into() }];
    for i in 0..24 {
        h.push(Message::User { content: format!("q{}", i) });
        h.push(Message::Assistant { content: format!("a{}", i) });
    }
    h.push(Message::User { content: "now".into() });
    // 50 messages go out with the request; the reply makes 51.
    let (mut s, _) = AgentLoop::start(h);
    assert_eq!(s.history().len(), 50);
    step(&mut s, text_reply("答"));
    let back = s.into_history();
    assert!(back.len() <= 50);
    assert!(matches!(&back[0], Message::System { .. }));
    assert!(matches!(&back[1], Message::User { .. }));
    assert!(matches!(back.last(), Some(Message::Assistant { content }) if content == "答"));
}
