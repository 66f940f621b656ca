use agent_cli_rust::history::Message;
use agent_cli_rust::session::{
    add_question, classify_input, command_from, initial_history, is_affirmative,
    is_confirmation, reset_history, system_prompt, InputCommand,
};

#[test]
fn lines_are_classified() {
    assert!(matches!(classify_input("   "), InputCommand::Skip));
    assert!(matches!(classify_input(""), InputCommand::Skip));
    assert!(matches!(classify_input("quit"), InputCommand::Quit));
    assert!(matches!(classify_input("  EXIT \t"), InputCommand::Quit));
    assert!(matches!(classify_input("Reset"), InputCommand::Reset));
    match classify_input("  北京今天天气怎么样？ \n") {
        InputCommand::Ask(t) => assert_eq!(t, "北京今天天气怎么样？"),
        _ => panic!(),
    }
    match classify_input("quit now") {
        InputCommand::Ask(t) => assert_eq!(t, "quit now"),
        _ => panic!(),
    }
}

#[test]
fn commands_from_lowered_text() {
    assert!(matches!(command_from("QUIT", "quit"), InputCommand::Quit));
    assert!(matches!(command_from("", ""), InputCommand::Skip));
    match command_from("Hello", "hello") {
        InputCommand::Ask(t) => assert_eq!(t, "Hello"),
        _ => panic!(),
    }
}

#[test]
fn confirmation_answers() {
    assert!(is_confirmation("y\n"));
    assert!(is_confirmation("  YES "));
    assert!(is_confirmation("Yes"));
    assert!(!is_confirmation("\n"));
    assert!(!is_confirmation("no"));
    assert!(!is_confirmation("yeah"));
    assert!(is_affirmative("y"));
    assert!(!is_affirmative("Y"));
}

#[test]
fn system_prompt_includes_memory() {
    let plain = system_prompt("");
    assert!(plain.ends_with("每次会话启动时，AGENTS.md 的内容会自动加载到你的记忆中。"));
    let with = system_prompt("用户叫小明");
    assert!(with.ends_with("=== 你的跨会话记忆（AGENTS.md）===\n用户叫小明\n=== 记忆结束 ==="));
    assert!(with.starts_with("你是一个有用的 AI 助手。用中文简洁、友好地回复用户。\n\n你有一个持久记忆文件"));
}

#[test]
fn reset_keeps_only_the_system_prompt() {
    let mut h = initial_history("");
    add_question(&mut h, "q".into());
    h.push(Message::Assistant { content: "a".into() });
    assert_eq!(h.len(), 3);
    reset_history(&mut h);
    assert_eq!(h.len(), 1);
    assert!(matches!(&h[0], Message::System { .. }));
}
