//! The chat session around the agent loop: the system prompt, what a typed line asks
//! for, the confirmation prompt's answer, and resetting the conversation.

use vstd::prelude::*;
use vstd::string::StringExecFns;
use crate::history::{history_view, lemma_push_plain, well_formed, Message, MessageView};
use crate::text::{cat3, spec_to_lowercase, str_eq, to_lowercase, trim_str, trimmed};

verus! {

/// What a typed line asks for.
pub enum InputCommand {
    /// Nothing: the line is blank.
    Skip,
    /// End the session (`quit` or `exit`, in any case).
    Quit,
    /// Forget the conversation but for the system prompt (`reset`, in any case).
    Reset,
    /// Ask the agent this question.
    Ask(String),
}

/// The view of a command.
pub enum InputView {
    Skip,
    Quit,
    Reset,
    Ask { text: Seq<char> },
}

impl View for InputCommand {
    type V = InputView;

    open spec fn view(&self) -> InputView {
        match self {
            InputCommand::Skip => InputView::Skip,
            InputCommand::Quit => InputView::Quit,
            InputCommand::Reset => InputView::Reset,
            InputCommand::Ask(t) => InputView::Ask { text: t@ },
        }
    }
}

/// What a line asks for, given the line without surrounding white space and that text
/// in lower case.
pub open spec fn command_spec(text: Seq<char>, lowered: Seq<char>) -> InputView {
    if text.len() == 0 {
        InputView::Skip
    } else if lowered == "quit"@ || lowered == "exit"@ {
        InputView::Quit
    } else if lowered == "reset"@ {
        InputView::Reset
    } else {
        InputView::Ask { text }
    }
}

/// What a line asks for, given the line without surrounding white space and that text
/// in lower case.
pub fn command_from(text: &str, lowered: &str) -> (c: InputCommand)
    ensures
        c@ == command_spec(text@, lowered@),
{
    if text.is_empty() {
        InputCommand::Skip
    } else if str_eq(lowered, "quit") || str_eq(lowered, "exit") {
        InputCommand::Quit
    } else if str_eq(lowered, "reset") {
        InputCommand::Reset
    } else {
        InputCommand::Ask(text.to_owned())
    }
}

/// What a typed line asks for.
pub open spec fn classify_spec(line: Seq<char>) -> InputView {
    command_spec(trimmed(line), spec_to_lowercase(trimmed(line)))
}

/// What a typed line asks for: its text is taken without surrounding white space, and
/// the commands are recognized in any case.
pub fn classify_input(line: &str) -> (c: InputCommand)
    ensures
        c@ == classify_spec(line@),
{
    let text = trim_str(line);
    let lowered = to_lowercase(text);
    command_from(text, lowered.as_str())
}

/// A question goes to the agent as it was typed, only without the white space around it:
/// case is looked at only to recognize the commands.
pub proof fn law_question_as_typed(line: Seq<char>)
    ensures
        classify_spec(line) is Ask ==> classify_spec(line)->Ask_text == trimmed(line),
        (classify_spec(line) is Skip) == (trimmed(line).len() == 0),
{
}

/// An answer in lower case that allows the call.
pub open spec fn affirmative(lowered: Seq<char>) -> bool {
    lowered == "y"@ || lowered == "yes"@
}

/// Only `y` and `yes` allow a call: every other answer, `n` and `no` among them, refuses.
pub proof fn law_only_yes_confirms(lowered: Seq<char>)
    ensures
        affirmative(lowered) ==> lowered == "y"@ || lowered == "yes"@,
        affirmative(lowered) ==> lowered.len() >= 1 && lowered[0] == 'y',
        affirmative("y"@),
        affirmative("yes"@),
        !affirmative("n"@),
        !affirmative("no"@),
{
    broadcast use vstd::string::group_string_axioms;

    reveal_strlit("y");
    reveal_strlit("yes");
    reveal_strlit("n");
    reveal_strlit("no");
    assert("n"@[0] != "y"@[0]);
    assert("no"@[0] != "y"@[0]);
    assert("n"@.len() != "yes"@.len());
    assert("no"@.len() != "yes"@.len());
}

/// Whether an answer in lower case allows the call.
pub fn is_affirmative(lowered: &str) -> (r: bool)
    ensures
        r == affirmative(lowered@),
{
    str_eq(lowered, "y") || str_eq(lowered, "yes")
}

/// Whether the answer typed at the confirmation prompt allows the call: `y` or `yes`,
/// in any case, with white space around it; anything else refuses.
pub fn is_confirmation(answer: &str) -> (r: bool)
    ensures
        r == affirmative(spec_to_lowercase(trimmed(answer@))),
{
    let lowered = to_lowercase(trim_str(answer));
    is_affirmative(lowered.as_str())
}

/// The system prompt, with the remembered notes when there are any.
pub open spec fn system_prompt_spec(memory: Seq<char>) -> Seq<char> {
    if memory.len() == 0 {
        "你是一个有用的 AI 助手。用中文简洁、友好地回复用户。\n\n你有一个持久记忆文件 AGENTS.md（位于项目根目录）。当用户要求你记住某些信息时，使用 write_file 工具将内容追加写入 AGENTS.md。每次会话启动时，AGENTS.md 的内容会自动加载到你的记忆中。"@
    } else {
        "你是一个有用的 AI 助手。用中文简洁、友好地回复用户。\n\n你有一个持久记忆文件 AGENTS.md（位于项目根目录）。当用户要求你记住某些信息时，使用 write_file 工具将内容追加写入 AGENTS.md。\n\n=== 你的跨会话记忆（AGENTS.md）===\n"@
            + memory + "\n=== 记忆结束 ==="@
    }
}

/// The system prompt, with the notes kept in AGENTS.md when there are any.
pub fn system_prompt(memory: &str) -> (r: String)
    ensures
        r@ == system_prompt_spec(memory@),
{
    if memory.is_empty() {
        "你是一个有用的 AI 助手。用中文简洁、友好地回复用户。\n\n你有一个持久记忆文件 AGENTS.md（位于项目根目录）。当用户要求你记住某些信息时，使用 write_file 工具将内容追加写入 AGENTS.md。每次会话启动时，AGENTS.md 的内容会自动加载到你的记忆中。".to_owned()
    } else {
        cat3(
            "你是一个有用的 AI 助手。用中文简洁、友好地回复用户。\n\n你有一个持久记忆文件 AGENTS.md（位于项目根目录）。当用户要求你记住某些信息时，使用 write_file 工具将内容追加写入 AGENTS.md。\n\n=== 你的跨会话记忆（AGENTS.md）===\n",
            memory,
            "\n=== 记忆结束 ===",
        )
    }
}

/// The conversation at the start of a session: the system prompt alone.
pub fn initial_history(memory: &str) -> (h: Vec<Message>)
    ensures
        history_view(h@) == seq![MessageView::System { content: system_prompt_spec(memory@) }],
        well_formed(history_view(h@)),
{
    let mut h = Vec::new();
    h.push(Message::System { content: system_prompt(memory) });
    assert(history_view(h@) =~= seq![MessageView::System { content: system_prompt_spec(memory@) }]);
    h
}

/// Adds the user's question to the conversation.
pub fn add_question(h: &mut Vec<Message>, text: String)
    ensures
        history_view(final(h)@) == history_view(old(h)@).push(MessageView::User { content: text@ }),
{
    let ghost t = text@;
    h.push(Message::User { content: text });
    assert(history_view(h@) =~= history_view(old(h)@).push(MessageView::User { content: t }));
}

/// Forgets the conversation but for its first message, the system prompt.
pub fn reset_history(h: &mut Vec<Message>)
    ensures
        history_view(final(h)@) == if old(h)@.len() == 0 {
            Seq::empty()
        } else {
            seq![history_view(old(h)@)[0]]
        },
{
    let ghost before = h@;
    h.truncate(1);
    proof {
        if before.len() == 0 {
            assert(history_view(h@) =~= Seq::empty());
        } else {
            assert(history_view(h@) =~= seq![history_view(before)[0]]);
        }
    }
}

/// A reset leaves the system prompt alone, in a well-formed conversation.
pub proof fn law_reset_keeps_system_prompt(h: Seq<MessageView>)
    requires
        well_formed(h),
    ensures
        well_formed(seq![h[0]]),
        seq![h[0]][0] is System,
{
    let g = seq![h[0]];
    assert(g[0] == h[0]);
}

/// A question keeps a well-formed conversation well formed.
pub proof fn law_question_keeps_shape(h: Seq<MessageView>, text: Seq<char>)
    requires
        well_formed(h),
    ensures
        well_formed(h.push(MessageView::User { content: text })),
{
    lemma_push_plain(h, MessageView::User { content: text });
}

} // verus!
