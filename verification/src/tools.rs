//! The tools that the model may call: their catalog, how a call is dispatched, and the
//! text that each tool hands back to the model.

use vstd::prelude::*;
use vstd::string::StringExecFns;
use crate::history::{history_view, Message, MessageView};
use crate::text::{
    byte_len, clip, clip_allowed, clipped, cat2, cat3, decimal, decimal_string,
    signed_decimal, signed_decimal_string, str_eq, trim_str, trimmed, utf8_len,
};

verus! {

/// One parameter of a tool.
pub struct ToolParam {
    pub name: String,
    pub description: String,
    pub required: bool,
}

/// The view of a parameter.
pub struct ToolParamView {
    pub name: Seq<char>,
    pub description: Seq<char>,
    pub required: bool,
}

impl View for ToolParam {
    type V = ToolParamView;

    open spec fn view(&self) -> ToolParamView {
        ToolParamView { name: self.name@, description: self.description@, required: self.required }
    }
}

/// A tool as it is offered to the model (the function-calling schema: a name, a
/// description, and string parameters).
pub struct ToolDefinition {
    pub name: String,
    pub description: String,
    pub params: Vec<ToolParam>,
}

/// The view of a tool definition.
pub struct ToolDefinitionView {
    pub name: Seq<char>,
    pub description: Seq<char>,
    pub params: Seq<ToolParamView>,
}

impl View for ToolDefinition {
    type V = ToolDefinitionView;

    open spec fn view(&self) -> ToolDefinitionView {
        ToolDefinitionView {
            name: self.name@,
            description: self.description@,
            params: self.params@.map_values(|p: ToolParam| p@),
        }
    }
}

/// The views of a sequence of tool definitions.
pub open spec fn definitions_view(d: Seq<ToolDefinition>) -> Seq<ToolDefinitionView> {
    d.map_values(|t: ToolDefinition| t@)
}

/// A parameter of the catalog.
pub open spec fn param_spec(name: Seq<char>, description: Seq<char>, required: bool) -> ToolParamView {
    ToolParamView { name, description, required }
}

/// A tool of the catalog.
pub open spec fn tool_spec(
    name: Seq<char>,
    description: Seq<char>,
    params: Seq<ToolParamView>,
) -> ToolDefinitionView {
    ToolDefinitionView { name, description, params }
}

/// The eight tools offered to the model, in this order.
pub open spec fn tool_catalog() -> Seq<ToolDefinitionView> {
    seq![
        tool_spec(
            "get_weather"@,
            "查询指定城市的当前天气"@,
            seq![param_spec("city"@, "城市名称，如：北京、上海、Tokyo"@, true)],
        ),
        tool_spec(
            "calculator"@,
            "计算数学表达式，支持加减乘除、幂、开方等"@,
            seq![param_spec("expression"@, "数学表达式，如：2+3*4、sqrt(16)、2^10"@, true)],
        ),
        tool_spec("get_time"@, "获取当前日期和时间"@, seq![]),
        tool_spec("read_file"@, "读取指定路径的文件内容"@, seq![param_spec("path"@, "文件路径"@, true)]),
        tool_spec(
            "write_file"@,
            "将内容写入指定路径的文件"@,
            seq![
                param_spec("path"@, "文件路径"@, true),
                param_spec("content"@, "要写入的内容"@, true),
            ],
        ),
        tool_spec(
            "run_shell"@,
            "执行 shell 命令并返回输出"@,
            seq![param_spec("command"@, "要执行的 shell 命令"@, true)],
        ),
        tool_spec(
            "fetch_webpage"@,
            "抓取网页内容（返回 HTML 文本）"@,
            seq![param_spec("url"@, "要抓取的网页 URL"@, true)],
        ),
        tool_spec(
            "delegate"@,
            "委派一个子 Agent 执行独立任务。子 Agent 拥有独立上下文，不会影响主对话记忆。适合委派独立的分析、总结、代码生成等任务。"@,
            seq![
                param_spec("task"@, "委派给子 Agent 的任务描述"@, true),
                param_spec("context"@, "提供给子 Agent 的背景信息（可选）"@, false),
            ],
        ),
    ]
}

fn param(name: &str, description: &str, required: bool) -> (p: ToolParam)
    ensures
        p@ == param_spec(name@, description@, required),
{
    ToolParam { name: name.to_owned(), description: description.to_owned(), required }
}

fn tool(name: &str, description: &str, params: Vec<ToolParam>) -> (t: ToolDefinition)
    ensures
        t@ == tool_spec(name@, description@, params@.map_values(|p: ToolParam| p@)),
{
    ToolDefinition { name: name.to_owned(), description: description.to_owned(), params }
}

/// The definitions of all tools, to be offered to the model with each request.
pub fn get_tool_definitions() -> (defs: Vec<ToolDefinition>)
    ensures
        definitions_view(defs@) == tool_catalog(),
{
    let mut defs: Vec<ToolDefinition> = Vec::new();

    let mut p = Vec::new();
    p.push(param("city", "城市名称，如：北京、上海、Tokyo", true));
    assert(p@.map_values(|q: ToolParam| q@) =~= tool_catalog()[0].params);
    let t0 = tool("get_weather", "查询指定城市的当前天气", p);
    assert(t0@ == tool_catalog()[0]);
    defs.push(t0);

    let mut p = Vec::new();
    p.push(param("expression", "数学表达式，如：2+3*4、sqrt(16)、2^10", true));
    assert(p@.map_values(|q: ToolParam| q@) =~= tool_catalog()[1].params);
    let t1 = tool("calculator", "计算数学表达式，支持加减乘除、幂、开方等", p);
    assert(t1@ == tool_catalog()[1]);
    defs.push(t1);

    let p: Vec<ToolParam> = Vec::new();
    assert(p@.map_values(|q: ToolParam| q@) =~= tool_catalog()[2].params);
    let t2 = tool("get_time", "获取当前日期和时间", p);
    assert(t2@ == tool_catalog()[2]);
    defs.push(t2);

    let mut p = Vec::new();
    p.push(param("path", "文件路径", true));
    assert(p@.map_values(|q: ToolParam| q@) =~= tool_catalog()[3].params);
    let t3 = tool("read_file", "读取指定路径的文件内容", p);
    assert(t3@ == tool_catalog()[3]);
    defs.push(t3);

    let mut p = Vec::new();
    p.push(param("path", "文件路径", true));
    p.push(param("content", "要写入的内容", true));
    assert(p@.map_values(|q: ToolParam| q@) =~= tool_catalog()[4].params);
    let t4 = tool("write_file", "将内容写入指定路径的文件", p);
    assert(t4@ == tool_catalog()[4]);
    defs.push(t4);

    let mut p = Vec::new();
    p.push(param("command", "要执行的 shell 命令", true));
    assert(p@.map_values(|q: ToolParam| q@) =~= tool_catalog()[5].params);
    let t5 = tool("run_shell", "执行 shell 命令并返回输出", p);
    assert(t5@ == tool_catalog()[5]);
    defs.push(t5);

    let mut p = Vec::new();
    p.push(param("url", "要抓取的网页 URL", true));
    assert(p@.map_values(|q: ToolParam| q@) =~= tool_catalog()[6].params);
    let t6 = tool("fetch_webpage", "抓取网页内容（返回 HTML 文本）", p);
    assert(t6@ == tool_catalog()[6]);
    defs.push(t6);

    let mut p = Vec::new();
    p.push(param("task", "委派给子 Agent 的任务描述", true));
    p.push(param("context", "提供给子 Agent 的背景信息（可选）", false));
    assert(p@.map_values(|q: ToolParam| q@) =~= tool_catalog()[7].params);
    let t7 = tool(
        "delegate",
        "委派一个子 Agent 执行独立任务。子 Agent 拥有独立上下文，不会影响主对话记忆。适合委派独立的分析、总结、代码生成等任务。",
        p,
    );
    assert(t7@ == tool_catalog()[7]);
    defs.push(t7);

    assert(definitions_view(defs@) =~= tool_catalog());
    defs
}

/// The kinds of tools there are.
#[derive(PartialEq, Eq, Structural, Clone, Copy)]
pub enum ToolKind {
    Weather,
    Calculator,
    Time,
    ReadFile,
    WriteFile,
    Shell,
    FetchWebpage,
    Delegate,
}

/// The name under which the model calls a tool.
pub open spec fn kind_name(k: ToolKind) -> Seq<char> {
    match k {
        ToolKind::Weather => "get_weather"@,
        ToolKind::Calculator => "calculator"@,
        ToolKind::Time => "get_time"@,
        ToolKind::ReadFile => "read_file"@,
        ToolKind::WriteFile => "write_file"@,
        ToolKind::Shell => "run_shell"@,
        ToolKind::FetchWebpage => "fetch_webpage"@,
        ToolKind::Delegate => "delegate"@,
    }
}

/// The tool that a name calls, if any.
pub open spec fn kind_of(name: Seq<char>) -> Option<ToolKind> {
    if name == "get_weather"@ {
        Some(ToolKind::Weather)
    } else if name == "calculator"@ {
        Some(ToolKind::Calculator)
    } else if name == "get_time"@ {
        Some(ToolKind::Time)
    } else if name == "read_file"@ {
        Some(ToolKind::ReadFile)
    } else if name == "write_file"@ {
        Some(ToolKind::WriteFile)
    } else if name == "run_shell"@ {
        Some(ToolKind::Shell)
    } else if name == "fetch_webpage"@ {
        Some(ToolKind::FetchWebpage)
    } else if name == "delegate"@ {
        Some(ToolKind::Delegate)
    } else {
        None
    }
}

/// The tool that a name calls, if any.
pub fn tool_kind(name: &str) -> (r: Option<ToolKind>)
    ensures
        r == kind_of(name@),
{
    if str_eq(name, "get_weather") {
        Some(ToolKind::Weather)
    } else if str_eq(name, "calculator") {
        Some(ToolKind::Calculator)
    } else if str_eq(name, "get_time") {
        Some(ToolKind::Time)
    } else if str_eq(name, "read_file") {
        Some(ToolKind::ReadFile)
    } else if str_eq(name, "write_file") {
        Some(ToolKind::WriteFile)
    } else if str_eq(name, "run_shell") {
        Some(ToolKind::Shell)
    } else if str_eq(name, "fetch_webpage") {
        Some(ToolKind::FetchWebpage)
    } else if str_eq(name, "delegate") {
        Some(ToolKind::Delegate)
    } else {
        None
    }
}

/// The catalog offers each kind of tool under the name that dispatch knows it by, and
/// every name of the catalog reaches a tool.
pub proof fn law_catalog_matches_dispatch(k: ToolKind, i: int)
    ensures
        kind_of(kind_name(k)) == Some(k),
        exists|j: int| 0 <= j < tool_catalog().len() && (#[trigger] tool_catalog()[j]).name == kind_name(k),
        0 <= i < tool_catalog().len() ==> kind_of(tool_catalog()[i].name) is Some,
{
    broadcast use vstd::string::group_string_axioms;

    reveal_strlit("get_weather");
    reveal_strlit("calculator");
    reveal_strlit("get_time");
    reveal_strlit("read_file");
    reveal_strlit("write_file");
    reveal_strlit("run_shell");
    reveal_strlit("fetch_webpage");
    reveal_strlit("delegate");
    let j = match k {
        ToolKind::Weather => 0int,
        ToolKind::Calculator => 1int,
        ToolKind::Time => 2int,
        ToolKind::ReadFile => 3int,
        ToolKind::WriteFile => 4int,
        ToolKind::Shell => 5int,
        ToolKind::FetchWebpage => 6int,
        ToolKind::Delegate => 7int,
    };
    assert(tool_catalog()[j].name == kind_name(k));
    // The names of equal length differ at these characters.
    assert("calculator"@[0] != "write_file"@[0]);
    assert("get_time"@[0] != "delegate"@[0]);
    assert("read_file"@[1] != "run_shell"@[1]);
}

/// The string arguments of a call: the top-level string fields of its JSON arguments.
pub struct ToolArgs {
    pub fields: Vec<(String, String)>,
}

/// The view of the argument fields.
pub open spec fn fields_view(f: Seq<(String, String)>) -> Seq<(Seq<char>, Seq<char>)> {
    f.map_values(|p: (String, String)| (p.0@, p.1@))
}

/// The value of the first field with this key.
pub open spec fn lookup(fields: Seq<(Seq<char>, Seq<char>)>, key: Seq<char>) -> Option<Seq<char>>
    decreases fields.len(),
{
    if fields.len() == 0 {
        None
    } else if fields[0].0 == key {
        Some(fields[0].1)
    } else {
        lookup(fields.drop_first(), key)
    }
}

/// The value of a field, or the default when the field is missing.
pub open spec fn arg_or(fields: Seq<(Seq<char>, Seq<char>)>, key: Seq<char>, default: Seq<char>) -> Seq<char> {
    match lookup(fields, key) {
        Some(v) => v,
        None => default,
    }
}

impl ToolArgs {
    /// The value of a field, or the default when the field is missing.
    pub fn get_or(&self, key: &str, default: &str) -> (r: String)
        ensures
            r@ == arg_or(fields_view(self.fields@), key@, default@),
    {
        let ghost all = fields_view(self.fields@);
        let mut i: usize = 0;
        assert(all.skip(0) =~= all);
        while i < self.fields.len()
            invariant
                all == fields_view(self.fields@),
                i <= self.fields@.len(),
                lookup(all, key@) == lookup(all.skip(i as int), key@),
            decreases self.fields@.len() - i,
        {
            assert(all.skip(i as int).drop_first() =~= all.skip(i + 1));
            if str_eq(self.fields[i].0.as_str(), key) {
                return self.fields[i].1.clone();
            }
            i = i + 1;
        }
        default.to_owned()
    }
}

/// What a tool run gave back.
pub struct ToolOutcome {
    /// The text handed to the model.
    pub text: String,
    /// Whether the tool failed.
    pub failed: bool,
}

/// The view of a tool outcome: its text and whether it failed.
pub struct OutcomeView {
    pub text: Seq<char>,
    pub failed: bool,
}

impl View for ToolOutcome {
    type V = OutcomeView;

    open spec fn view(&self) -> OutcomeView {
        OutcomeView { text: self.text@, failed: self.failed }
    }
}

/// An outcome.
pub open spec fn outcome(text: Seq<char>, failed: bool) -> OutcomeView {
    OutcomeView { text, failed }
}

/// The outside work that a call needs.
pub enum ToolRequest {
    /// Fetch the weather report at this address.
    Weather { url: String },
    /// Evaluate the expression.
    Calculate { expression: String },
    /// Report the local time.
    Time,
    /// Read the file.
    ReadFile { path: String },
    /// Write the content to the file.
    WriteFile { path: String, content: String },
    /// Run the command with `sh -c`.
    Shell { command: String },
    /// Fetch the page.
    Fetch { url: String },
    /// Ask a sub-agent, in a conversation of its own.
    Delegate { task: String, messages: Vec<Message> },
    /// Nothing to do: this is the result.
    Answered(ToolOutcome),
}

/// The view of a request.
pub enum RequestView {
    Weather { url: Seq<char> },
    Calculate { expression: Seq<char> },
    Time,
    ReadFile { path: Seq<char> },
    WriteFile { path: Seq<char>, content: Seq<char> },
    Shell { command: Seq<char> },
    Fetch { url: Seq<char> },
    Delegate { task: Seq<char>, messages: Seq<MessageView> },
    Answered { outcome: OutcomeView },
}

impl View for ToolRequest {
    type V = RequestView;

    open spec fn view(&self) -> RequestView {
        match self {
            ToolRequest::Weather { url } => RequestView::Weather { url: url@ },
            ToolRequest::Calculate { expression } => RequestView::Calculate { expression: expression@ },
            ToolRequest::Time => RequestView::Time,
            ToolRequest::ReadFile { path } => RequestView::ReadFile { path: path@ },
            ToolRequest::WriteFile { path, content } => RequestView::WriteFile {
                path: path@,
                content: content@,
            },
            ToolRequest::Shell { command } => RequestView::Shell { command: command@ },
            ToolRequest::Fetch { url } => RequestView::Fetch { url: url@ },
            ToolRequest::Delegate { task, messages } => RequestView::Delegate {
                task: task@,
                messages: history_view(messages@),
            },
            ToolRequest::Answered(o) => RequestView::Answered { outcome: o@ },
        }
    }
}

/// The system prompt of a sub-agent, with the background it was given.
pub open spec fn delegate_prompt(context: Seq<char>) -> Seq<char> {
    if context.len() == 0 {
        "你是一个专注执行任务的子 Agent。请简洁、准确地完成指定任务，直接输出结果。"@
    } else {
        "你是一个专注执行任务的子 Agent。请简洁、准确地完成指定任务，直接输出结果。\n\n背景信息：\n"@
            + context
    }
}

/// What a call with this name and these arguments amounts to. A missing city is 北京;
/// other missing strings are empty. An unknown tool, and a delegation without a task,
/// are answered at once, as failures.
pub open spec fn plan_spec(name: Seq<char>, f: Seq<(Seq<char>, Seq<char>)>) -> RequestView {
    let none = Seq::<char>::empty();
    match kind_of(name) {
        Some(ToolKind::Weather) => RequestView::Weather {
            url: "https://wttr.in/"@ + arg_or(f, "city"@, "北京"@) + "?format=3&lang=zh"@,
        },
        Some(ToolKind::Calculator) => RequestView::Calculate {
            expression: arg_or(f, "expression"@, none),
        },
        Some(ToolKind::Time) => RequestView::Time,
        Some(ToolKind::ReadFile) => RequestView::ReadFile { path: arg_or(f, "path"@, none) },
        Some(ToolKind::WriteFile) => RequestView::WriteFile {
            path: arg_or(f, "path"@, none),
            content: arg_or(f, "content"@, none),
        },
        Some(ToolKind::Shell) => RequestView::Shell { command: arg_or(f, "command"@, none) },
        Some(ToolKind::FetchWebpage) => RequestView::Fetch { url: arg_or(f, "url"@, none) },
        Some(ToolKind::Delegate) => {
            let task = arg_or(f, "task"@, none);
            if task.len() == 0 {
                RequestView::Answered { outcome: outcome("[委派失败: 未提供任务描述]"@, true) }
            } else {
                RequestView::Delegate {
                    task,
                    messages: seq![
                        MessageView::System { content: delegate_prompt(arg_or(f, "context"@, none)) },
                        MessageView::User { content: task },
                    ],
                }
            }
        },
        None => RequestView::Answered { outcome: outcome("未知工具: "@ + name, true) },
    }
}

/// Says what a call with this name and these arguments amounts to.
pub fn plan_tool(name: &str, args: &ToolArgs) -> (r: ToolRequest)
    ensures
        r@ == plan_spec(name@, fields_view(args.fields@)),
{
    proof {
        broadcast use vstd::string::group_string_axioms;
        reveal_strlit("");
        assert(""@ =~= Seq::<char>::empty());
    }
    match tool_kind(name) {
        Some(ToolKind::Weather) => {
            let city = args.get_or("city", "北京");
            let r = ToolRequest::Weather {
                url: cat3("https://wttr.in/", city.as_str(), "?format=3&lang=zh"),
            };
            assert(r@ == plan_spec(name@, fields_view(args.fields@)));
            r
        },
        Some(ToolKind::Calculator) => ToolRequest::Calculate {
            expression: args.get_or("expression", ""),
        },
        Some(ToolKind::Time) => ToolRequest::Time,
        Some(ToolKind::ReadFile) => ToolRequest::ReadFile { path: args.get_or("path", "") },
        Some(ToolKind::WriteFile) => ToolRequest::WriteFile {
            path: args.get_or("path", ""),
            content: args.get_or("content", ""),
        },
        Some(ToolKind::Shell) => ToolRequest::Shell { command: args.get_or("command", "") },
        Some(ToolKind::FetchWebpage) => ToolRequest::Fetch { url: args.get_or("url", "") },
        Some(ToolKind::Delegate) => {
            let task = args.get_or("task", "");
            if task.as_str().is_empty() {
                ToolRequest::Answered(
                    ToolOutcome { text: "[委派失败: 未提供任务描述]".to_owned(), failed: true },
                )
            } else {
                let context = args.get_or("context", "");
                let prompt = if context.as_str().is_empty() {
                    "你是一个专注执行任务的子 Agent。请简洁、准确地完成指定任务，直接输出结果。".to_owned()
                } else {
                    cat2(
                        "你是一个专注执行任务的子 Agent。请简洁、准确地完成指定任务，直接输出结果。\n\n背景信息：\n",
                        context.as_str(),
                    )
                };
                let mut messages = Vec::new();
                messages.push(Message::System { content: prompt });
                messages.push(Message::User { content: task.clone() });
                assert(history_view(messages@) =~= seq![
                    MessageView::System { content: delegate_prompt(context@) },
                    MessageView::User { content: task@ },
                ]);
                let r = ToolRequest::Delegate { task, messages };
                assert(r@ == plan_spec(name@, fields_view(args.fields@)));
                r
            }
        },
        None => ToolRequest::Answered(
            ToolOutcome { text: cat2("未知工具: ", name), failed: true },
        ),
    }
}

/// What came of an HTTP GET.
pub enum HttpOutcome {
    /// The request could not be sent.
    RequestFailed(String),
    /// The body could not be read.
    BodyFailed(String),
    /// The status line (such as `200 OK`) and the body.
    Body { status: String, text: String },
}

/// The view of an HTTP outcome.
pub enum HttpView {
    RequestFailed { error: Seq<char> },
    BodyFailed { error: Seq<char> },
    Body { status: Seq<char>, text: Seq<char> },
}

impl View for HttpOutcome {
    type V = HttpView;

    open spec fn view(&self) -> HttpView {
        match self {
            HttpOutcome::RequestFailed(e) => HttpView::RequestFailed { error: e@ },
            HttpOutcome::BodyFailed(e) => HttpView::BodyFailed { error: e@ },
            HttpOutcome::Body { status, text } => HttpView::Body { status: status@, text: text@ },
        }
    }
}

/// The weather tool's result: the report without surrounding white space.
pub open spec fn weather_text(o: HttpView) -> OutcomeView {
    match o {
        HttpView::RequestFailed { error } => outcome("天气请求失败: "@ + error, true),
        HttpView::BodyFailed { error } => outcome("读取天气响应失败: "@ + error, true),
        HttpView::Body { status, text } => outcome(trimmed(text), false),
    }
}

/// The weather tool's result.
pub fn weather_reply(o: HttpOutcome) -> (r: ToolOutcome)
    ensures
        r@ == weather_text(o@),
{
    match o {
        HttpOutcome::RequestFailed(e) => ToolOutcome {
            text: cat2("天气请求失败: ", e.as_str()),
            failed: true,
        },
        HttpOutcome::BodyFailed(e) => ToolOutcome {
            text: cat2("读取天气响应失败: ", e.as_str()),
            failed: true,
        },
        HttpOutcome::Body { status: _, text } => ToolOutcome {
            text: trim_str(text.as_str()).to_owned(),
            failed: false,
        },
    }
}

/// The note after a page cut short.
pub open spec fn page_note() -> Seq<char> {
    "...\n\n[网页内容过长，仅显示前 8000 字符]"@
}

/// The page tool's result: the status line and the body, cut after 8000 bytes.
pub open spec fn fetch_text(o: HttpView) -> OutcomeView {
    match o {
        HttpView::RequestFailed { error } => outcome("网页请求失败: "@ + error, true),
        HttpView::BodyFailed { error } => outcome("读取网页内容失败: "@ + error, true),
        HttpView::Body { status, text } => outcome(
            "[HTTP "@ + status + "]\n"@ + clipped(text, 8000, page_note()),
            false,
        ),
    }
}

/// A body longer than 8000 bytes has a character boundary there.
pub open spec fn fetch_allowed(o: HttpView) -> bool {
    o matches HttpView::Body { text, .. } ==> clip_allowed(text, 8000)
}

/// The page tool's result.
pub fn fetch_reply(o: HttpOutcome) -> (r: ToolOutcome)
    requires
        fetch_allowed(o@),
    ensures
        r@ == fetch_text(o@),
{
    match o {
        HttpOutcome::RequestFailed(e) => ToolOutcome {
            text: cat2("网页请求失败: ", e.as_str()),
            failed: true,
        },
        HttpOutcome::BodyFailed(e) => ToolOutcome {
            text: cat2("读取网页内容失败: ", e.as_str()),
            failed: true,
        },
        HttpOutcome::Body { status, text } => {
            let body = clip(text, 8000, "...\n\n[网页内容过长，仅显示前 8000 字符]");
            ToolOutcome { text: cat3("[HTTP ", status.as_str(), "]\n").concat(body.as_str()), failed: false }
        },
    }
}

/// The views of a result of strings.
pub open spec fn result_view(r: Result<String, String>) -> Result<Seq<char>, Seq<char>> {
    match r {
        Ok(v) => Ok(v@),
        Err(e) => Err(e@),
    }
}

/// The calculator's result: the expression and its value, or the evaluation error.
pub open spec fn calculator_text(expression: Seq<char>, value: Result<Seq<char>, Seq<char>>) -> OutcomeView {
    match value {
        Ok(v) => outcome(expression + " = "@ + v, false),
        Err(e) => outcome("计算错误: "@ + e, true),
    }
}

/// The calculator's result, given the rendered value or the error of the evaluation.
pub fn calculator_reply(expression: &str, value: Result<String, String>) -> (r: ToolOutcome)
    ensures
        r@ == calculator_text(expression@, result_view(value)),
{
    match value {
        Ok(v) => ToolOutcome { text: cat3(expression, " = ", v.as_str()), failed: false },
        Err(e) => ToolOutcome { text: cat2("计算错误: ", e.as_str()), failed: true },
    }
}

/// The note after a file cut short.
pub open spec fn file_note() -> Seq<char> {
    "...\n\n[文件过长，仅显示前 10000 字符]"@
}

/// The file reader's result: the content, cut after 10000 bytes, or the error.
pub open spec fn read_file_text(content: Result<Seq<char>, Seq<char>>) -> OutcomeView {
    match content {
        Ok(c) => outcome(clipped(c, 10000, file_note()), false),
        Err(e) => outcome("读取文件失败: "@ + e, true),
    }
}

/// The file reader's result.
pub fn read_file_reply(content: Result<String, String>) -> (r: ToolOutcome)
    requires
        content matches Ok(c) ==> clip_allowed(c@, 10000),
    ensures
        r@ == read_file_text(result_view(content)),
{
    match content {
        Ok(c) => ToolOutcome {
            text: clip(c, 10000, "...\n\n[文件过长，仅显示前 10000 字符]"),
            failed: false,
        },
        Err(e) => ToolOutcome { text: cat2("读取文件失败: ", e.as_str()), failed: true },
    }
}

/// The file writer's result: the path and the number of bytes written, or the error.
pub open spec fn write_file_text(path: Seq<char>, content: Seq<char>, done: Result<(), Seq<char>>) -> OutcomeView {
    match done {
        Ok(_) => outcome(
            "成功写入 "@ + path + " ("@ + decimal(utf8_len(content)) + " 字节)"@,
            false,
        ),
        Err(e) => outcome("写入文件失败: "@ + e, true),
    }
}

/// The file writer's result.
pub fn write_file_reply(path: &str, content: &str, done: Result<(), String>) -> (r: ToolOutcome)
    ensures
        r@ == write_file_text(
            path@,
            content@,
            match done {
                Ok(u) => Ok(u),
                Err(e) => Err(e@),
            },
        ),
{
    match done {
        Ok(_) => {
            let n = byte_len(content);
            let mut t = cat3("成功写入 ", path, " (");
            t.append(decimal_string(n as u64).as_str());
            t.append(" 字节)");
            ToolOutcome { text: t, failed: false }
        },
        Err(e) => ToolOutcome { text: cat2("写入文件失败: ", e.as_str()), failed: true },
    }
}

/// What a finished command printed, and its exit code (none when a signal ended it).
pub struct ShellOutput {
    pub stdout: String,
    pub stderr: String,
    pub code: Option<i32>,
}

/// The text of a finished command: its output, then its error output under a
/// `[stderr]` line; when both are empty, a line with the exit code (-1 without one).
pub open spec fn shell_raw(stdout: Seq<char>, stderr: Seq<char>, code: Option<i32>) -> Seq<char> {
    let out = if stdout.len() > 0 {
        stdout
    } else {
        Seq::empty()
    };
    let err = if stderr.len() > 0 {
        "\n[stderr]\n"@ + stderr
    } else {
        Seq::empty()
    };
    let r = out + err;
    if r.len() == 0 {
        let c: int = match code {
            Some(c) => c as int,
            None => -1,
        };
        "[命令执行完成，退出码: "@ + signed_decimal(c) + "]"@
    } else {
        r
    }
}

/// A command's text is its output as printed: output alone when nothing went to the
/// error stream, the `[stderr]` section only when something did, and the exit-code
/// line only when the command printed nothing at all.
pub proof fn law_shell_text_parts(stdout: Seq<char>, stderr: Seq<char>, code: Option<i32>)
    ensures
        stderr.len() == 0 && stdout.len() > 0 ==> shell_raw(stdout, stderr, code) == stdout,
        stderr.len() > 0 ==> shell_raw(stdout, stderr, code) == stdout + "\n[stderr]\n"@
            + stderr,
        stdout.len() == 0 && stderr.len() == 0 ==> shell_raw(stdout, stderr, code) == "[命令执行完成，退出码: "@
            + signed_decimal(
            match code {
                Some(c) => c as int,
                None => -1,
            },
        ) + "]"@,
{
    if stderr.len() == 0 && stdout.len() > 0 {
        assert(stdout + Seq::<char>::empty() =~= stdout);
    }
    if stderr.len() > 0 && stdout.len() == 0 {
        assert(Seq::<char>::empty() + ("\n[stderr]\n"@ + stderr) =~= stdout + "\n[stderr]\n"@ + stderr);
        assert(("\n[stderr]\n"@ + stderr).len() > 0);
    }
    if stderr.len() > 0 && stdout.len() > 0 {
        assert(stdout + ("\n[stderr]\n"@ + stderr) =~= stdout + "\n[stderr]\n"@ + stderr);
    }
    if stdout.len() == 0 && stderr.len() == 0 {
        assert(Seq::<char>::empty() + Seq::<char>::empty() =~= Seq::<char>::empty());
    }
}

/// The text of a finished command, before it is cut.
pub fn shell_output_text(o: &ShellOutput) -> (r: String)
    ensures
        r@ == shell_raw(o.stdout@, o.stderr@, o.code),
{
    let mut r = String::new();
    if !o.stdout.as_str().is_empty() {
        r.append(o.stdout.as_str());
    }
    if !o.stderr.as_str().is_empty() {
        r.append("\n[stderr]\n");
        r.append(o.stderr.as_str());
    }
    if r.as_str().is_empty() {
        let c: i64 = match o.code {
            Some(c) => c as i64,
            None => -1,
        };
        let mut t = "[命令执行完成，退出码: ".to_owned();
        t.append(signed_decimal_string(c).as_str());
        t.append("]");
        t
    } else {
        r
    }
}

/// The note after command output cut short.
pub open spec fn output_note() -> Seq<char> {
    "...\n\n[输出过长，已截断]"@
}

/// The shell tool's result: the command's text, cut after 10000 bytes, or the error.
pub open spec fn shell_text(o: Result<(Seq<char>, Seq<char>, Option<i32>), Seq<char>>) -> OutcomeView {
    match o {
        Ok((out, err, code)) => outcome(clipped(shell_raw(out, err, code), 10000, output_note()), false),
        Err(e) => outcome("执行命令失败: "@ + e, true),
    }
}

/// The view of a command's run.
pub open spec fn shell_view(o: Result<ShellOutput, String>) -> Result<(Seq<char>, Seq<char>, Option<i32>), Seq<char>> {
    match o {
        Ok(out) => Ok((out.stdout@, out.stderr@, out.code)),
        Err(e) => Err(e@),
    }
}

/// The shell tool's result.
pub fn shell_reply(o: Result<ShellOutput, String>) -> (r: ToolOutcome)
    requires
        o matches Ok(out) ==> clip_allowed(shell_raw(out.stdout@, out.stderr@, out.code), 10000),
    ensures
        r@ == shell_text(shell_view(o)),
{
    match o {
        Ok(out) => {
            let raw = shell_output_text(&out);
            ToolOutcome { text: clip(raw, 10000, "...\n\n[输出过长，已截断]"), failed: false }
        },
        Err(e) => ToolOutcome { text: cat2("执行命令失败: ", e.as_str()), failed: true },
    }
}

/// What came of a request to the model.
pub enum ChatOutcome {
    /// The request could not be sent.
    SendFailed(String),
    /// The API answered with a status other than success.
    BadStatus { status: String, body: String },
    /// The reply could not be parsed.
    Unparsable(String),
    /// The reply's text content, when it is a string.
    Reply(Option<String>),
}

/// The view of a request's outcome.
pub enum ChatView {
    SendFailed { error: Seq<char> },
    BadStatus { status: Seq<char>, body: Seq<char> },
    Unparsable { error: Seq<char> },
    Reply { content: Option<Seq<char>> },
}

impl View for ChatOutcome {
    type V = ChatView;

    open spec fn view(&self) -> ChatView {
        match self {
            ChatOutcome::SendFailed(e) => ChatView::SendFailed { error: e@ },
            ChatOutcome::BadStatus { status, body } => ChatView::BadStatus {
                status: status@,
                body: body@,
            },
            ChatOutcome::Unparsable(e) => ChatView::Unparsable { error: e@ },
            ChatOutcome::Reply(c) => ChatView::Reply {
                content: match c {
                    Some(t) => Some(t@),
                    None => None,
                },
            },
        }
    }
}

/// The sub-agent's result: its reply, or what went wrong, in brackets.
pub open spec fn delegate_text(o: ChatView) -> OutcomeView {
    match o {
        ChatView::SendFailed { error } => outcome("[子 Agent 请求失败: "@ + error + "]"@, true),
        ChatView::BadStatus { status, body } => outcome(
            "[子 Agent API 错误 "@ + status + ": "@ + body + "]"@,
            true,
        ),
        ChatView::Unparsable { error } => outcome("[子 Agent 解析响应失败: "@ + error + "]"@, true),
        ChatView::Reply { content } => {
            let t = match content {
                Some(t) => t,
                None => Seq::empty(),
            };
            if t.len() == 0 {
                outcome("[子 Agent 未返回内容]"@, true)
            } else {
                outcome("[子 Agent 结果]\n"@ + t, false)
            }
        },
    }
}

/// The sub-agent's result.
pub fn delegate_reply(o: ChatOutcome) -> (r: ToolOutcome)
    ensures
        r@ == delegate_text(o@),
{
    match o {
        ChatOutcome::SendFailed(e) => ToolOutcome {
            text: cat3("[子 Agent 请求失败: ", e.as_str(), "]"),
            failed: true,
        },
        ChatOutcome::BadStatus { status, body } => {
            let mut t = cat3("[子 Agent API 错误 ", status.as_str(), ": ");
            t.append(body.as_str());
            t.append("]");
            ToolOutcome { text: t, failed: true }
        },
        ChatOutcome::Unparsable(e) => ToolOutcome {
            text: cat3("[子 Agent 解析响应失败: ", e.as_str(), "]"),
            failed: true,
        },
        ChatOutcome::Reply(c) => {
            let t = match c {
                Some(t) => t,
                None => String::new(),
            };
            if t.as_str().is_empty() {
                ToolOutcome { text: "[子 Agent 未返回内容]".to_owned(), failed: true }
            } else {
                ToolOutcome { text: cat2("[子 Agent 结果]\n", t.as_str()), failed: false }
            }
        },
    }
}

/// The time tool's text for a formatted local time and a Unix timestamp.
pub open spec fn time_text(formatted: Seq<char>, timestamp: int) -> Seq<char> {
    "当前时间: "@ + formatted + "\nUnix 时间戳: "@ + signed_decimal(timestamp)
}

/// The time tool's text.
pub fn time_report(formatted: &str, timestamp: i64) -> (r: String)
    ensures
        r@ == time_text(formatted@, timestamp as int),
{
    let mut r = cat3("当前时间: ", formatted, "\nUnix 时间戳: ");
    r.append(signed_decimal_string(timestamp).as_str());
    r
}

/// What `DateTime::format` with `%Y-%m-%d %H:%M:%S %Z` renders for the instant with this
/// Unix timestamp (whole seconds), seen at this offset from UTC (in seconds): the local
/// date and time, then the offset.
pub uninterp spec fn spec_local_time_text(timestamp: i64, offset: i32) -> Seq<char>;

/// `chrono::Local::now`, handed out as plain values: the time formatted by
/// `DateTime::format` with `%Y-%m-%d %H:%M:%S %Z`, `DateTime::timestamp` (the seconds
/// since the Unix epoch) and the offset's `FixedOffset::local_minus_utc`. The clock and
/// the machine's time zone decide the timestamp and the offset, so nothing is claimed of
/// them; the text is the one that the timestamp and the offset give.
#[verifier::external_body]
fn local_time_now() -> (r: (String, i64, i32))
    ensures
        r.0@ == spec_local_time_text(r.1, r.2),
{
    let now = chrono::Local::now();
    (now.format("%Y-%m-%d %H:%M:%S %Z").to_string(), now.timestamp(), now.offset().local_minus_utc())
}

/// The time tool: the local time now and its Unix timestamp. The clock decides the
/// instant and the time zone its offset; the text shows that instant at that offset.
pub fn current_time() -> (r: ToolOutcome)
    ensures
        exists|t: i64, off: i32|
            r@ == outcome(time_text(spec_local_time_text(t, off), t as int), false),
{
    let (formatted, ts, off) = local_time_now();
    let r = ToolOutcome { text: time_report(formatted.as_str(), ts), failed: false };
    assert(r@ == outcome(time_text(spec_local_time_text(ts, off), ts as int), false));
    r
}

/// Tools that run only after the user confirmed them.
pub open spec fn is_dangerous_name(name: Seq<char>) -> bool {
    name == "write_file"@ || name == "run_shell"@
}

/// Whether a tool needs the user's confirmation before it runs.
pub fn is_dangerous(name: &str) -> (r: bool)
    ensures
        r == is_dangerous_name(name@),
{
    str_eq(name, "write_file") || str_eq(name, "run_shell")
}

} // verus!
