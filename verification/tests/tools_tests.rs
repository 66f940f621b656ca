use agent_cli_rust::history::Message;
use agent_cli_rust::tools::{
    calculator_reply, current_time, delegate_reply, fetch_reply, get_tool_definitions,
    is_dangerous, plan_tool, read_file_reply, shell_output_text, shell_reply, time_report,
    tool_kind, weather_reply, write_file_reply, ChatOutcome, HttpOutcome, ShellOutput,
    ToolArgs, ToolKind, ToolRequest,
};

fn args(pairs: &[(&str, &str)]) -> ToolArgs {
    ToolArgs { fields: pairs.iter().map(|(k, v)| (k.to_string(), v.to_string())).collect() }
}

#[test]
fn the_catalog_offers_eight_tools() {
    let defs = get_tool_definitions();
    let names: Vec<&str> = defs.iter().map(|d| d.name.as_str()).collect();
    assert_eq!(
        names,
        vec!["get_weather", "calculator", "get_time", "read_file", "write_file", "run_shell", "fetch_webpage", "delegate"]
    );
    assert_eq!(defs[2].params.len(), 0);
    assert_eq!(defs[4].params.len(), 2);
    assert!(defs[4].params.iter().all(|p| p.required));
    assert_eq!(defs[7].params[1].name, "context");
    assert!(!defs[7].params[1].required);
    for d in &defs {
        assert!(tool_kind(&d.name).is_some());
    }
}

#[test]
fn only_writing_and_shell_are_dangerous() {
    assert!(is_dangerous("write_file"));
    assert!(is_dangerous("run_shell"));
    assert!(!is_dangerous("read_file"));
    assert!(!is_dangerous("delegate"));
    assert!(!is_dangerous("Write_file"));
}

#[test]
fn names_dispatch_to_tools() {
    assert!(matches!(tool_kind("get_weather"), Some(ToolKind::Weather)));
    assert!(matches!(tool_kind("fetch_webpage"), Some(ToolKind::FetchWebpage)));
    assert!(tool_kind("launch_rockets").is_none());
}

#[test]
fn weather_defaults_to_beijing() {
    match plan_tool("get_weather", &args(&[])) {
        ToolRequest::Weather { url } => assert_eq!(url, "https://wttr.in/北京?format=3&lang=zh"),
        _ => panic!(),
    }
    match plan_tool("get_weather", &args(&[("city", "Tokyo")])) {
        ToolRequest::Weather { url } => assert_eq!(url, "https://wttr.in/Tokyo?format=3&lang=zh"),
        _ => panic!(),
    }
}

#[test]
fn missing_arguments_are_empty() {
    match plan_tool("read_file", &args(&[])) {
        ToolRequest::ReadFile { path } => assert_eq!(path, ""),
        _ => panic!(),
    }
    match plan_tool("write_file", &args(&[("path", "a.txt"), ("content", "x")])) {
        ToolRequest::WriteFile { path, content } => {
            assert_eq!(path, "a.txt");
            assert_eq!(content, "x");
        }
        _ => panic!(),
    }
    assert!(matches!(plan_tool("get_time", &args(&[])), ToolRequest::Time));
}

#[test]
fn an_unknown_tool_is_answered_at_once() {
    match plan_tool("fly", &args(&[])) {
        ToolRequest::Answered(o) => {
            assert_eq!(o.text, "未知工具: fly");
            assert!(o.failed);
        }
        _ => panic!(),
    }
}

#[test]
fn delegation_needs_a_task() {
    match plan_tool("delegate", &args(&[("context", "c")])) {
        ToolRequest::Answered(o) => {
            assert_eq!(o.text, "[委派失败: 未提供任务描述]");
            assert!(o.failed);
        }
        _ => panic!(),
    }
}

#[test]
fn delegation_builds_its_own_conversation() {
    match plan_tool("delegate", &args(&[("task", "总结"), ("context", "背景")])) {
        ToolRequest::Delegate { task, messages } => {
            assert_eq!(task, "总结");
            assert_eq!(messages.len(), 2);
            match &messages[0] {
                Message::System { content } => assert_eq!(
                    content,
                    "你是一个专注执行任务的子 Agent。请简洁、准确地完成指定任务，直接输出结果。\n\n背景信息：\n背景"
                ),
                _ => panic!(),
            }
            assert!(matches!(&messages[1], Message::User { content } if content == "总结"));
        }
        _ => panic!(),
    }
    match plan_tool("delegate", &args(&[("task", "t")])) {
        ToolRequest::Delegate { messages, .. } => assert!(matches!(&messages[0],
            Message::System { content } if content == "你是一个专注执行任务的子 Agent。请简洁、准确地完成指定任务，直接输出结果。")),
        _ => panic!(),
    }
}

#[test]
fn weather_report_is_trimmed() {
    let o = weather_reply(HttpOutcome::Body { status: "200 OK".into(), text: "  北京: ☀️ +28°C \n".into() });
    assert_eq!(o.text, "北京: ☀️ +28°C");
    assert!(!o.failed);
    let e = weather_reply(HttpOutcome::RequestFailed("dns".into()));
    assert_eq!(e.text, "天气请求失败: dns");
    assert!(e.failed);
    let b = weather_reply(HttpOutcome::BodyFailed("reset".into()));
    assert_eq!(b.text, "读取天气响应失败: reset");
}

#[test]
fn pages_are_cut_after_8000_bytes() {
    let short = fetch_reply(HttpOutcome::Body { status: "200 OK".into(), text: "<p>hi</p>".into() });
    assert_eq!(short.text, "[HTTP 200 OK]\n<p>hi</p>");
    let long = fetch_reply(HttpOutcome::Body { status: "200 OK".into(), text: "a".repeat(9000) });
    assert_eq!(
        long.text,
        format!("[HTTP 200 OK]\n{}...\n\n[网页内容过长，仅显示前 8000 字符]", "a".repeat(8000))
    );
    let exact = fetch_reply(HttpOutcome::Body { status: "404 Not Found".into(), text: "b".repeat(8000) });
    assert_eq!(exact.text, format!("[HTTP 404 Not Found]\n{}", "b".repeat(8000)));
    assert_eq!(fetch_reply(HttpOutcome::RequestFailed("x".into())).text, "网页请求失败: x");
    assert_eq!(fetch_reply(HttpOutcome::BodyFailed("y".into())).text, "读取网页内容失败: y");
}

#[test]
fn calculator_shows_the_expression() {
    let o = calculator_reply("2^10 + sqrt(144)", Ok("1036".into()));
    assert_eq!(o.text, "2^10 + sqrt(144) = 1036");
    assert!(!o.failed);
    let e = calculator_reply("2+", Err("Parse error".into()));
    assert_eq!(e.text, "计算错误: Parse error");
    assert!(e.failed);
}

#[test]
fn files_are_cut_after_10000_bytes() {
    assert_eq!(read_file_reply(Ok("hello".into())).text, "hello");
    // Two-byte characters: byte 10000 falls after the 5000th.
    let text = "é".repeat(6000);
    let o = read_file_reply(Ok(text));
    assert_eq!(o.text, format!("{}...\n\n[文件过长，仅显示前 10000 字符]", "é".repeat(5000)));
    let e = read_file_reply(Err("No such file".into()));
    assert_eq!(e.text, "读取文件失败: No such file");
    assert!(e.failed);
}

#[test]
fn writing_reports_the_bytes() {
    let o = write_file_reply("AGENTS.md", "记住", Ok(()));
    assert_eq!(o.text, "成功写入 AGENTS.md (6 字节)");
    assert!(!o.failed);
    let e = write_file_reply("/x", "", Err("denied".into()));
    assert_eq!(e.text, "写入文件失败: denied");
    assert!(e.failed);
}

#[test]
fn shell_output_joins_stdout_and_stderr() {
    let both = ShellOutput { stdout: "out".into(), stderr: "err".into(), code: Some(1) };
    assert_eq!(shell_output_text(&both), "out\n[stderr]\nerr");
    let only_err = ShellOutput { stdout: String::new(), stderr: "err".into(), code: Some(2) };
    assert_eq!(shell_output_text(&only_err), "\n[stderr]\nerr");
    let silent = ShellOutput { stdout: String::new(), stderr: String::new(), code: Some(0) };
    assert_eq!(shell_reply(Ok(silent)).text, "[命令执行完成，退出码: 0]");
    let killed = ShellOutput { stdout: String::new(), stderr: String::new(), code: None };
    assert_eq!(shell_reply(Ok(killed)).text, "[命令执行完成，退出码: -1]");
    let failing = ShellOutput { stdout: String::new(), stderr: String::new(), code: Some(-3) };
    assert_eq!(shell_reply(Ok(failing)).text, "[命令执行完成，退出码: -3]");
    let long = ShellOutput { stdout: "x".repeat(10001), stderr: String::new(), code: Some(0) };
    assert_eq!(shell_reply(Ok(long)).text, format!("{}...\n\n[输出过长，已截断]", "x".repeat(10000)));
    let e = shell_reply(Err("no sh".into()));
    assert_eq!(e.text, "执行命令失败: no sh");
    assert!(e.failed);
}

#[test]
fn delegation_results_are_bracketed() {
    assert_eq!(delegate_reply(ChatOutcome::Reply(Some("答".into()))).text, "[子 Agent 结果]\n答");
    let empty = delegate_reply(ChatOutcome::Reply(None));
    assert_eq!(empty.text, "[子 Agent 未返回内容]");
    assert!(empty.failed);
    assert_eq!(delegate_reply(ChatOutcome::Reply(Some(String::new()))).text, "[子 Agent 未返回内容]");
    assert_eq!(delegate_reply(ChatOutcome::SendFailed("t".into())).text, "[子 Agent 请求失败: t]");
    assert_eq!(
        delegate_reply(ChatOutcome::BadStatus { status: "500 Internal Server Error".into(), body: "b".into() }).text,
        "[子 Agent API 错误 500 Internal Server Error: b]"
    );
    assert_eq!(delegate_reply(ChatOutcome::Unparsable("p".into())).text, "[子 Agent 解析响应失败: p]");
}

#[test]
fn time_report_has_its_form() {
    assert_eq!(
        time_report("2024-01-02 03:04:05 +08:00", 1704135845),
        "当前时间: 2024-01-02 03:04:05 +08:00\nUnix 时间戳: 1704135845"
    );
    assert_eq!(time_report("t", -5), "当前时间: t\nUnix 时间戳: -5");
    assert_eq!(time_report("t", i64::MIN), format!("当前时间: t\nUnix 时间戳: {}", i64::MIN));
    let now = current_time();
    assert!(now.text.starts_with("当前时间: "));
    assert!(now.text.contains("\nUnix 时间戳: "));
    assert!(!now.failed);
}
