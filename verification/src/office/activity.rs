//! How the events of an agent's thread become entries of its activity log.
use crate::ids::{thread_text, ThreadId};
use crate::office::runtime::{
    recorded, ActivityDraft, AgentRuntimeRecord, EventModel, OfficeActivityKind,
    OfficeRuntimeStore, RuntimeModel,
};
use crate::protocol::{AgentNames, AgentStatus};
use crate::text::{
    after_prefix, begins, blank, chars_of, decimal_of_i64, is_blank, is_space, join, joined, lines, lines_of,
    opt_text, signed_decimal, strip_end, strip_end_chars, strip_start, strip_start_chars, text_of,
    texts, trim, trim_end, trim_start, trimmed,
};
use crate::time::Timestamp;
use crate::tools::handlers::read_agent_status::{lifecycle_text, shown_status};
use crate::tools::handlers::wait::WaitTargetEvent;
use vstd::prelude::*;

verus! {

/// The owner of an agent of which nothing is recorded.
pub const UNKNOWN_OWNER: &'static str = "unknown_owner";

/// The number of lines at the head of a message in which its correlation is
/// looked for.
pub const REPLY_HEADER_LINES: usize = 12;

#[derive(Clone, Copy, Debug, Eq, PartialEq, Structural)]
pub enum StepStatus {
    Pending,
    InProgress,
    Completed,
}

/// A step of a plan.
#[derive(Clone, Debug, Eq, PartialEq)]
pub struct PlanStep {
    pub step: String,
    pub status: StepStatus,
}

/// How a command, or the application of a patch, ended.
#[derive(Clone, Copy, Debug, Eq, PartialEq, Structural)]
pub enum CommandStatus {
    Completed,
    Failed,
    Declined,
}

#[derive(Clone, Debug, Eq, PartialEq)]
pub enum WebSearchAction {
    Search { query: Option<String>, queries: Option<Vec<String>> },
    OpenPage { url: Option<String> },
    FindInPage { url: Option<String>, pattern: Option<String> },
    Other,
}

/// A part of a turn.
#[derive(Clone, Debug, Eq, PartialEq)]
pub enum TurnItem {
    Plan { text: String },
    Reasoning { summary_text: Vec<String> },
    AgentMessage { content: Vec<String> },
    WebSearch { action: WebSearchAction },
    Other,
}

/// What a thread reports while it runs. The arguments and the result of an MCP
/// call are carried as they are shown.
#[derive(Debug)]
pub enum RuntimeEvent {
    TurnStarted { turn_id: String },
    AgentReasoning { text: String },
    AgentReasoningDelta { delta: String },
    PlanUpdate { explanation: Option<String>, plan: Vec<PlanStep> },
    ItemCompleted { thread_id: ThreadId, item: TurnItem },
    ExecCommandBegin { command: Vec<String>, cwd: String },
    ExecCommandEnd {
        command: Vec<String>,
        status: CommandStatus,
        exit_code: i32,
        aggregated_output: String,
        stdout: String,
        stderr: String,
    },
    PatchApplyBegin,
    PatchApplyEnd { status: CommandStatus, stdout: String, stderr: String },
    McpToolCallBegin { server: String, tool: String, arguments: Option<String> },
    McpToolCallEnd { server: String, tool: String, success: bool, result: String },
    WebSearchBegin,
    WebSearchEnd { action: WebSearchAction },
    CollabAgentSpawnEnd {
        sender_thread_id: ThreadId,
        call_id: String,
        new_thread_id: Option<ThreadId>,
        status: AgentStatus,
        prompt: String,
    },
    CollabAgentInteractionEnd {
        sender_thread_id: ThreadId,
        call_id: String,
        receiver_thread_id: ThreadId,
        status: AgentStatus,
        prompt: String,
    },
    CollabWaitingBegin { sender_thread_id: ThreadId, targets: Vec<WaitTargetEvent> },
    CollabWaitingEnd {
        sender_thread_id: ThreadId,
        timed_out: bool,
        targets: Vec<WaitTargetEvent>,
    },
    CollabResumeBegin { sender_thread_id: ThreadId, receiver_thread_id: ThreadId },
    CollabResumeEnd {
        sender_thread_id: ThreadId,
        receiver_thread_id: ThreadId,
        status: AgentStatus,
    },
    AgentWorkSummary { thread_id: ThreadId, summary: String },
    Warning { message: String },
    Error { message: String },
    ShutdownComplete,
    Other,
}

/// An entry for the log, and the thread it belongs to where the event says so.
#[derive(Debug)]
pub struct RuntimeActivity {
    pub thread_id: Option<ThreadId>,
    pub draft: ActivityDraft,
}

// ---------------------------------------------------------------------------
// What the texts are
// ---------------------------------------------------------------------------

/// The first `max` characters of a text without the white space around it, and
/// three dots where there are more; nothing for a blank text.
pub open spec fn preview(value: Seq<char>, max: int) -> Option<Seq<char>> {
    let t = trim(value);
    if t.len() == 0 {
        None
    } else if t.len() > max {
        Some(t.take(max) + "..."@)
    } else {
        Some(t)
    }
}

pub open spec fn preview_or(value: Seq<char>, max: int, other: Seq<char>) -> Seq<char> {
    match preview(value, max) {
        Some(p) => p,
        None => other,
    }
}

pub open spec fn command_text(command: Seq<Seq<char>>) -> Seq<char> {
    if command.len() == 0 {
        "empty command"@
    } else {
        preview_or(joined(command, " "@), 240, "command"@)
    }
}

/// The parts of what a tool gave out that are shown: all of it, or else its
/// standard output; and its standard error.
pub open spec fn output_parts(all: Seq<char>, stdout: Seq<char>, stderr: Seq<char>) -> Seq<
    Seq<char>,
> {
    let first = match preview(all, 4000) {
        Some(p) => seq![p],
        None => match preview(stdout, 3000) {
            Some(p) => seq!["stdout:\n"@ + p],
            None => Seq::empty(),
        },
    };
    match preview(stderr, 2000) {
        Some(p) => first.push("stderr:\n"@ + p),
        None => first,
    }
}

pub open spec fn output_text(all: Seq<char>, stdout: Seq<char>, stderr: Seq<char>) -> Seq<char> {
    let parts = output_parts(all, stdout, stderr);
    if parts.len() == 0 {
        "no output"@
    } else {
        joined(parts, "\n\n"@)
    }
}

pub open spec fn search_text(action: WebSearchAction) -> Seq<char> {
    match action {
        WebSearchAction::Search { query: Some(q), .. } => "search: "@ + q@,
        WebSearchAction::Search { query: None, queries: Some(v) } => "search: "@ + joined(
            texts(v@),
            ", "@,
        ),
        WebSearchAction::Search { query: None, queries: None } => "search completed"@,
        WebSearchAction::OpenPage { url: Some(u) } => "open: "@ + u@,
        WebSearchAction::OpenPage { url: None } => "page opened"@,
        WebSearchAction::FindInPage { url, pattern } => "find `"@ + (match pattern {
            Some(p) => p@,
            None => ""@,
        }) + "` in "@ + (match url {
            Some(u) => u@,
            None => "page"@,
        }),
        WebSearchAction::Other => "web action completed"@,
    }
}

/// What a target of a wait is called: its agent's name, or else its thread.
pub open spec fn target_text(target: WaitTargetEvent) -> Seq<char> {
    if blank(target.receiver_agent_name@) {
        thread_text(target.receiver_thread_id)
    } else {
        target.receiver_agent_name@
    }
}

pub open spec fn targets_text(targets: Seq<WaitTargetEvent>) -> Seq<char> {
    if targets.len() == 0 {
        "next inbox message"@
    } else {
        joined(targets.map_values(|t: WaitTargetEvent| target_text(t)), ", "@)
    }
}

pub open spec fn target_state_text(target: WaitTargetEvent) -> Seq<char> {
    target_text(target) + ": "@ + (if target.completed {
        "Completed"@
    } else {
        "Running"@
    })
}

pub open spec fn targets_state_text(targets: Seq<WaitTargetEvent>) -> Seq<char> {
    if targets.len() == 0 {
        "targets: any inbox message"@
    } else {
        joined(targets.map_values(|t: WaitTargetEvent| target_state_text(t)), "\n"@)
    }
}

pub open spec fn step_status_text(status: StepStatus) -> Seq<char> {
    match status {
        StepStatus::Pending => "Pending"@,
        StepStatus::InProgress => "InProgress"@,
        StepStatus::Completed => "Completed"@,
    }
}

pub open spec fn command_status_text(status: CommandStatus) -> Seq<char> {
    match status {
        CommandStatus::Completed => "completed"@,
        CommandStatus::Failed => "failed"@,
        CommandStatus::Declined => "declined"@,
    }
}

pub open spec fn step_text(step: PlanStep) -> Seq<char> {
    "- "@ + step_status_text(step.status) + ": "@ + trim(step.step@)
}

/// The lines of a plan: what explains it, where there is such a text, and its
/// steps.
pub open spec fn plan_lines(explanation: Option<String>, plan: Seq<PlanStep>) -> Seq<Seq<char>> {
    let head = match explanation {
        Some(e) => if blank(e@) {
            Seq::empty()
        } else {
            seq![trim(e@)]
        },
        None => Seq::empty(),
    };
    head + plan.map_values(|s: PlanStep| step_text(s))
}

/// A value behind a key, without the white space and back quotes around it.
pub open spec fn bare_value(value: Seq<char>) -> Seq<char> {
    trim(strip_end(strip_start(trim(value), "`"@), "`"@))
}

/// The value that a line gives behind `key`, where it begins with that key and
/// the value is not blank.
pub open spec fn value_behind(line: Seq<char>, key: Seq<char>) -> Option<Seq<char>> {
    if begins(line, key) && bare_value(line.skip(key.len() as int)).len() > 0 {
        Some(bare_value(line.skip(key.len() as int)))
    } else {
        None
    }
}

/// The message that a line says it replies to.
pub open spec fn line_reply(line: Seq<char>) -> Option<Seq<char>> {
    match value_behind(trim(line), "- `reply_to`:"@) {
        Some(v) => Some(v),
        None => value_behind(trim(line), "reply_to:"@),
    }
}

/// The first of the lines' replies.
pub open spec fn first_reply(s: Seq<Seq<char>>) -> Option<Seq<char>>
    decreases s.len(),
{
    if s.len() == 0 {
        None
    } else if line_reply(s[0]) is Some {
        line_reply(s[0])
    } else {
        first_reply(s.skip(1))
    }
}

/// The lines of a message in which its correlation is looked for.
pub open spec fn header_lines(message: Seq<char>) -> Seq<Seq<char>> {
    let s = lines(message);
    if s.len() > REPLY_HEADER_LINES {
        s.take(REPLY_HEADER_LINES as int)
    } else {
        s
    }
}

/// The message that a message says it replies to.
pub open spec fn reply_target(message: Seq<char>) -> Option<Seq<char>> {
    first_reply(header_lines(message))
}

pub open spec fn entry(
    kind: OfficeActivityKind,
    source: Seq<char>,
    title: Seq<char>,
    summary: Seq<char>,
    detail: Option<Seq<char>>,
    message_id: Option<Seq<char>>,
    tool_name: Option<Seq<char>>,
) -> EventModel {
    EventModel { kind, source, title, summary, detail, message_id, tool_name }
}

/// The entry for a text: its preview, and below it the text itself, cut at
/// `max`; no entry for a blank text.
pub open spec fn text_entry(
    kind: OfficeActivityKind,
    source: Seq<char>,
    title: Seq<char>,
    text: Seq<char>,
    max: int,
    other: Seq<char>,
) -> Option<EventModel> {
    match preview(text, max) {
        Some(t) => Some(
            entry(kind, source, title, preview_or(t, 160, other), Some(t), None, None),
        ),
        None => None,
    }
}

pub open spec fn search_entry(action: WebSearchAction) -> EventModel {
    entry(
        OfficeActivityKind::RuntimeToolFinished,
        "web_search"@,
        "网页搜索完成"@,
        search_text(action),
        Some(search_text(action)),
        None,
        Some("web_search"@),
    )
}

pub open spec fn of_thread(thread: Option<ThreadId>, e: Option<EventModel>) -> Option<
    (Option<ThreadId>, EventModel),
> {
    match e {
        Some(e) => Some((thread, e)),
        None => None,
    }
}

/// The entry for a part of a turn.
pub open spec fn item_entry(item: TurnItem) -> Option<EventModel> {
    match item {
        TurnItem::Plan { text } => text_entry(
            OfficeActivityKind::RuntimePlan,
            "plan_item"@,
            "计划"@,
            text@,
            2000,
            "Agent 生成了计划"@,
        ),
        TurnItem::Reasoning { summary_text } => text_entry(
            OfficeActivityKind::RuntimeReasoning,
            "reasoning_summary"@,
            "思考摘要"@,
            joined(texts(summary_text@), "\n"@),
            2000,
            "Agent 生成了思考摘要"@,
        ),
        TurnItem::AgentMessage { content } => match preview(joined(texts(content@), "\n"@), 4000) {
            Some(t) => Some(
                entry(
                    OfficeActivityKind::RuntimeAgentMessage,
                    "assistant_message"@,
                    "Agent 输出"@,
                    preview_or(t, 160, "Agent 输出了消息"@),
                    Some(t),
                    reply_target(t),
                    None,
                ),
            ),
            None => None,
        },
        TurnItem::WebSearch { action } => Some(search_entry(action)),
        TurnItem::Other => None,
    }
}

/// The entry for the start or the end of a tool's work.
pub open spec fn tool_entry(event: RuntimeEvent) -> Option<EventModel> {
    match event {
        RuntimeEvent::ExecCommandBegin { command, cwd } => Some(
            entry(
                OfficeActivityKind::RuntimeToolStarted,
                "exec"@,
                "执行命令"@,
                command_text(texts(command@)),
                Some("cwd: "@ + cwd@ + "\ncommand: "@ + command_text(texts(command@))),
                None,
                Some("exec"@),
            ),
        ),
        RuntimeEvent::ExecCommandEnd {
            command,
            status,
            exit_code,
            aggregated_output,
            stdout,
            stderr,
        } => Some(
            entry(
                OfficeActivityKind::RuntimeToolFinished,
                "exec"@,
                "命令结束"@,
                command_text(texts(command@)) + " ("@ + command_status_text(status) + ", exit "@
                    + signed_decimal(exit_code as int) + ")"@,
                Some(output_text(aggregated_output@, stdout@, stderr@)),
                None,
                Some("exec"@),
            ),
        ),
        RuntimeEvent::PatchApplyBegin => Some(
            entry(
                OfficeActivityKind::RuntimeToolStarted,
                "apply_patch"@,
                "准备应用代码改动"@,
                "Agent 正在应用代码改动"@,
                None,
                None,
                Some("apply_patch"@),
            ),
        ),
        RuntimeEvent::PatchApplyEnd { status, stdout, stderr } => Some(
            entry(
                OfficeActivityKind::RuntimeToolFinished,
                "apply_patch"@,
                "代码改动结束"@,
                "apply_patch "@ + command_status_text(status),
                Some(output_text(""@, stdout@, stderr@)),
                None,
                Some("apply_patch"@),
            ),
        ),
        RuntimeEvent::McpToolCallBegin { server, tool, arguments } => Some(
            entry(
                OfficeActivityKind::RuntimeToolStarted,
                "mcp"@,
                "调用 MCP 工具"@,
                server@ + "."@ + tool@,
                opt_text(arguments),
                None,
                Some(server@ + "."@ + tool@),
            ),
        ),
        RuntimeEvent::McpToolCallEnd { server, tool, success, result } => Some(
            entry(
                OfficeActivityKind::RuntimeToolFinished,
                "mcp"@,
                "MCP 工具结束"@,
                server@ + "."@ + tool@ + (if success {
                    " completed"@
                } else {
                    " failed"@
                }),
                Some(result@),
                None,
                Some(server@ + "."@ + tool@),
            ),
        ),
        RuntimeEvent::WebSearchBegin => Some(
            entry(
                OfficeActivityKind::RuntimeToolStarted,
                "web_search"@,
                "开始网页搜索"@,
                "Agent 正在进行网页搜索"@,
                None,
                None,
                Some("web_search"@),
            ),
        ),
        RuntimeEvent::WebSearchEnd { action } => Some(search_entry(action)),
        _ => None,
    }
}

/// The entry for what passes between agents, under the thread it starts from.
pub open spec fn collab_entry(event: RuntimeEvent) -> Option<(Option<ThreadId>, EventModel)> {
    match event {
        RuntimeEvent::CollabAgentSpawnEnd {
            sender_thread_id,
            call_id,
            new_thread_id,
            status,
            prompt,
        } => Some(
            (
                Some(sender_thread_id),
                entry(
                    OfficeActivityKind::RuntimeCollab,
                    "collab"@,
                    "创建协作 Agent"@,
                    "spawn `"@ + call_id@ + "` -> "@ + (match new_thread_id {
                        Some(id) => thread_text(id),
                        None => "not created"@,
                    }),
                    Some(
                        "status: "@ + shown_status(status) + "\nprompt: "@ + preview_or(
                            prompt@,
                            1000,
                            ""@,
                        ),
                    ),
                    None,
                    Some("spawn_agent"@),
                ),
            ),
        ),
        RuntimeEvent::CollabAgentInteractionEnd {
            sender_thread_id,
            call_id,
            receiver_thread_id,
            status,
            prompt,
        } => Some(
            (
                Some(sender_thread_id),
                entry(
                    OfficeActivityKind::RuntimeCollab,
                    "collab"@,
                    "发送给协作 Agent"@,
                    "sent `"@ + call_id@ + "` to "@ + thread_text(receiver_thread_id),
                    Some(
                        "receiver: "@ + thread_text(receiver_thread_id) + "\nstatus: "@
                            + shown_status(status) + "\nprompt: "@ + preview_or(
                            prompt@,
                            1000,
                            ""@,
                        ),
                    ),
                    None,
                    Some("call"@),
                ),
            ),
        ),
        RuntimeEvent::CollabWaitingBegin { sender_thread_id, targets } => Some(
            (
                Some(sender_thread_id),
                entry(
                    OfficeActivityKind::RuntimeWait,
                    "collab_wait"@,
                    "等待协作 Agent"@,
                    "waiting for "@ + targets_text(targets@),
                    None,
                    None,
                    Some("wait"@),
                ),
            ),
        ),
        RuntimeEvent::CollabWaitingEnd { sender_thread_id, timed_out, targets } => Some(
            (
                Some(sender_thread_id),
                entry(
                    OfficeActivityKind::RuntimeCollab,
                    "collab_wait"@,
                    "等待结束"@,
                    (if timed_out {
                        "timed out"@
                    } else {
                        "completed"@
                    }) + " for "@ + targets_text(targets@),
                    Some(targets_state_text(targets@)),
                    None,
                    Some("wait"@),
                ),
            ),
        ),
        RuntimeEvent::CollabResumeBegin { sender_thread_id, receiver_thread_id } => Some(
            (
                Some(sender_thread_id),
                entry(
                    OfficeActivityKind::RuntimeCollab,
                    "collab"@,
                    "恢复协作 Agent"@,
                    "resuming "@ + thread_text(receiver_thread_id),
                    None,
                    None,
                    Some("resume_agent"@),
                ),
            ),
        ),
        RuntimeEvent::CollabResumeEnd { sender_thread_id, receiver_thread_id, status } => Some(
            (
                Some(sender_thread_id),
                entry(
                    OfficeActivityKind::RuntimeCollab,
                    "collab"@,
                    "协作 Agent 已恢复"@,
                    thread_text(receiver_thread_id) + " status "@ + shown_status(status),
                    None,
                    None,
                    Some("resume_agent"@),
                ),
            ),
        ),
        _ => None,
    }
}

/// The entry for an event, and the thread it belongs to where the event says
/// so. Blank texts and the other events leave no entry.
pub open spec fn event_entry(event: RuntimeEvent) -> Option<(Option<ThreadId>, EventModel)> {
    match event {
        RuntimeEvent::TurnStarted { turn_id } => Some(
            (
                None,
                entry(
                    OfficeActivityKind::RuntimeTurnStarted,
                    "runtime_event"@,
                    "Agent 开始处理"@,
                    "turn `"@ + turn_id@ + "` started"@,
                    None,
                    None,
                    None,
                ),
            ),
        ),
        RuntimeEvent::AgentReasoning { text } => of_thread(
            None,
            text_entry(
                OfficeActivityKind::RuntimeReasoning,
                "reasoning_summary"@,
                "思考摘要"@,
                text@,
                1000,
                "Agent 更新了思考摘要"@,
            ),
        ),
        RuntimeEvent::AgentReasoningDelta { delta } => of_thread(
            None,
            text_entry(
                OfficeActivityKind::RuntimeReasoning,
                "reasoning_summary"@,
                "思考摘要更新"@,
                delta@,
                1000,
                "Agent 更新了思考摘要"@,
            ),
        ),
        RuntimeEvent::PlanUpdate { explanation, plan } => of_thread(
            None,
            text_entry(
                OfficeActivityKind::RuntimePlan,
                "plan_update"@,
                "计划更新"@,
                joined(plan_lines(explanation, plan@), "\n"@),
                2000,
                "Agent 更新了计划"@,
            ),
        ),
        RuntimeEvent::ItemCompleted { thread_id, item } => of_thread(
            Some(thread_id),
            item_entry(item),
        ),
        RuntimeEvent::AgentWorkSummary { thread_id, summary } => Some(
            (
                Some(thread_id),
                entry(
                    OfficeActivityKind::RuntimeAgentMessage,
                    "work_summary"@,
                    "工作摘要"@,
                    preview_or(summary@, 160, "Agent 更新了工作摘要"@),
                    Some(summary@),
                    None,
                    None,
                ),
            ),
        ),
        RuntimeEvent::Warning { message } => Some(
            (
                None,
                entry(
                    OfficeActivityKind::RuntimeError,
                    "warning"@,
                    "运行警告"@,
                    message@,
                    Some(message@),
                    None,
                    None,
                ),
            ),
        ),
        RuntimeEvent::Error { message } => Some(
            (
                None,
                entry(
                    OfficeActivityKind::RuntimeError,
                    "error"@,
                    "运行错误"@,
                    message@,
                    Some(message@),
                    None,
                    None,
                ),
            ),
        ),
        _ => match tool_entry(event) {
            Some(e) => Some((None, e)),
            None => collab_entry(event),
        },
    }
}

// ---------------------------------------------------------------------------
// Functions
// ---------------------------------------------------------------------------

/// The first characters of a text without the white space around it.
pub fn trimmed_preview(value: &str, max_chars: usize) -> (r: Option<String>)
    ensures
        opt_text(r) == preview(value@, max_chars as int),
{
    let t = trimmed(value);
    let chars = chars_of(t);
    if chars.len() == 0 {
        return None;
    }
    if chars.len() > max_chars {
        let mut out = text_of(&chars, 0, max_chars);
        assert(t@.subrange(0, max_chars as int) =~= t@.take(max_chars as int));
        out.append("...");
        Some(out)
    } else {
        Some(t.to_string())
    }
}

fn trimmed_preview_or(value: &str, max_chars: usize, other: &str) -> (r: String)
    ensures
        r@ == preview_or(value@, max_chars as int, other@),
{
    match trimmed_preview(value, max_chars) {
        Some(p) => p,
        None => other.to_string(),
    }
}

/// What is shown of a command.
pub fn command_summary(command: &Vec<String>) -> (r: String)
    ensures
        r@ == command_text(texts(command@)),
{
    if command.len() == 0 {
        return "empty command".to_string();
    }
    trimmed_preview_or(join(command, " ").as_str(), 240, "command")
}

/// What is shown of what a tool gave out.
pub fn trim_tool_output(aggregated: &str, stdout: &str, stderr: &str) -> (r: String)
    ensures
        r@ == output_text(aggregated@, stdout@, stderr@),
{
    let mut parts: Vec<String> = Vec::new();
    match trimmed_preview(aggregated, 4000) {
        Some(value) => {
            parts.push(value);
        },
        None => {
            if let Some(value) = trimmed_preview(stdout, 3000) {
                let mut part = "stdout:\n".to_string();
                part.append(value.as_str());
                parts.push(part);
            }
        },
    }
    let ghost first = texts(parts@);
    if let Some(value) = trimmed_preview(stderr, 2000) {
        let mut part = "stderr:\n".to_string();
        part.append(value.as_str());
        parts.push(part);
        assert(texts(parts@) =~= first.push(part@));
    }
    assert(texts(parts@) =~= output_parts(aggregated@, stdout@, stderr@));
    if parts.len() == 0 {
        "no output".to_string()
    } else {
        join(&parts, "\n\n")
    }
}

/// What is shown of a search.
pub fn web_search_summary(action: &WebSearchAction) -> (r: String)
    ensures
        r@ == search_text(*action),
{
    match action {
        WebSearchAction::Search { query, queries } => match query {
            Some(q) => {
                let mut out = "search: ".to_string();
                out.append(q.as_str());
                out
            },
            None => match queries {
                Some(v) => {
                    let mut out = "search: ".to_string();
                    out.append(join(v, ", ").as_str());
                    out
                },
                None => "search completed".to_string(),
            },
        },
        WebSearchAction::OpenPage { url } => match url {
            Some(u) => {
                let mut out = "open: ".to_string();
                out.append(u.as_str());
                out
            },
            None => "page opened".to_string(),
        },
        WebSearchAction::FindInPage { url, pattern } => {
            let mut out = "find `".to_string();
            match pattern {
                Some(p) => {
                    out.append(p.as_str());
                },
                None => {
                    out.append("");
                },
            }
            out.append("` in ");
            match url {
                Some(u) => {
                    out.append(u.as_str());
                },
                None => {
                    out.append("page");
                },
            }
            out
        },
        WebSearchAction::Other => "web action completed".to_string(),
    }
}

fn target_label(target: &WaitTargetEvent) -> (r: String)
    ensures
        r@ == target_text(*target),
{
    if is_blank(target.receiver_agent_name.as_str()) {
        target.receiver_thread_id.to_text()
    } else {
        target.receiver_agent_name.clone()
    }
}

/// What a wait waits for.
pub fn wait_targets_label(targets: &Vec<WaitTargetEvent>) -> (r: String)
    ensures
        r@ == targets_text(targets@),
{
    if targets.len() == 0 {
        return "next inbox message".to_string();
    }
    let mut parts: Vec<String> = Vec::new();
    let ghost all = targets@.map_values(|t: WaitTargetEvent| target_text(t));
    let mut i: usize = 0;
    while i < targets.len()
        invariant
            i <= targets@.len(),
            all == targets@.map_values(|t: WaitTargetEvent| target_text(t)),
            texts(parts@) == all.take(i as int),
        decreases targets@.len() - i,
    {
        let ghost before = texts(parts@);
        let part = target_label(&targets[i]);
        parts.push(part);
        i = i + 1;
        assert(texts(parts@) =~= before.push(part@));
        assert(all.take(i as int) =~= all.take(i - 1).push(all[i - 1]));
    }
    assert(all.take(i as int) =~= all);
    join(&parts, ", ")
}

/// How the targets of a wait stand.
pub fn wait_targets_detail(targets: &Vec<WaitTargetEvent>) -> (r: String)
    ensures
        r@ == targets_state_text(targets@),
{
    if targets.len() == 0 {
        return "targets: any inbox message".to_string();
    }
    let mut parts: Vec<String> = Vec::new();
    let ghost all = targets@.map_values(|t: WaitTargetEvent| target_state_text(t));
    let mut i: usize = 0;
    while i < targets.len()
        invariant
            i <= targets@.len(),
            all == targets@.map_values(|t: WaitTargetEvent| target_state_text(t)),
            texts(parts@) == all.take(i as int),
        decreases targets@.len() - i,
    {
        let ghost before = texts(parts@);
        let mut part = target_label(&targets[i]);
        part.append(": ");
        if targets[i].completed {
            part.append("Completed");
        } else {
            part.append("Running");
        }
        parts.push(part);
        i = i + 1;
        assert(texts(parts@) =~= before.push(part@));
        assert(all.take(i as int) =~= all.take(i - 1).push(all[i - 1]));
    }
    assert(all.take(i as int) =~= all);
    join(&parts, "\n")
}

fn value_of(line: &str, key: &str) -> (r: Option<String>)
    ensures
        opt_text(r) == value_behind(line@, key@),
{
    match after_prefix(line, key) {
        Some(rest) => {
            let value = trimmed(strip_end_chars(strip_start_chars(trimmed(rest), "`"), "`"));
            if chars_of(value).len() > 0 {
                Some(value.to_string())
            } else {
                None
            }
        },
        None => None,
    }
}

/// The message that a message says it replies to, in one of its first lines.
pub fn extract_reply_to_message_id(message: &str) -> (r: Option<String>)
    ensures
        opt_text(r) == reply_target(message@),
{
    let all = lines_of(message);
    let n: usize = if all.len() > REPLY_HEADER_LINES {
        REPLY_HEADER_LINES
    } else {
        all.len()
    };
    let ghost head = header_lines(message@);
    assert(head.len() == n);
    assert(head.skip(0) =~= head);
    let mut i: usize = 0;
    while i < n
        invariant
            n <= all@.len(),
            i <= n,
            n == head.len(),
            head == header_lines(message@),
            texts(all@) == lines(message@),
            first_reply(head) == first_reply(head.skip(i as int)),
        decreases n - i,
    {
        let line = trimmed(all[i].as_str());
        proof {
            assert(texts(all@)[i as int] == all@[i as int]@);
            assert(head.skip(i as int)[0] == all@[i as int]@);
            assert(head.skip(i as int).skip(1) =~= head.skip(i + 1));
        }
        match value_of(line, "- `reply_to`:") {
            Some(v) => {
                return Some(v);
            },
            None => {},
        }
        match value_of(line, "reply_to:") {
            Some(v) => {
                return Some(v);
            },
            None => {},
        }
        i = i + 1;
    }
    None
}

/// The text of what an agent said.
pub fn agent_message_text(content: &Vec<String>) -> (r: Option<String>)
    ensures
        opt_text(r) == preview(joined(texts(content@), "\n"@), 4000),
{
    trimmed_preview(join(content, "\n").as_str(), 4000)
}

fn plan_text(explanation: &Option<String>, plan: &Vec<PlanStep>) -> (r: String)
    ensures
        r@ == joined(plan_lines(*explanation, plan@), "\n"@),
{
    let mut parts: Vec<String> = Vec::new();
    if let Some(e) = explanation {
        if !is_blank(e.as_str()) {
            parts.push(trimmed(e.as_str()).to_string());
        }
    }
    let ghost head = texts(parts@);
    let ghost steps = plan@.map_values(|s: PlanStep| step_text(s));
    assert(head + steps =~= plan_lines(*explanation, plan@));
    assert(head + steps.take(0) =~= head);
    let mut i: usize = 0;
    while i < plan.len()
        invariant
            i <= plan@.len(),
            steps == plan@.map_values(|s: PlanStep| step_text(s)),
            texts(parts@) == head + steps.take(i as int),
        decreases plan@.len() - i,
    {
        let ghost before = texts(parts@);
        let mut part = "- ".to_string();
        match plan[i].status {
            StepStatus::Pending => {
                part.append("Pending");
            },
            StepStatus::InProgress => {
                part.append("InProgress");
            },
            StepStatus::Completed => {
                part.append("Completed");
            },
        }
        part.append(": ");
        part.append(trimmed(plan[i].step.as_str()));
        assert(part@ == step_text(plan@[i as int]));
        parts.push(part);
        i = i + 1;
        assert(texts(parts@) =~= before.push(part@));
        assert(head + steps.take(i as int) =~= (head + steps.take(i - 1)).push(steps[i - 1]));
    }
    assert(steps.take(i as int) =~= steps);
    join(&parts, "\n")
}

fn status_word(status: CommandStatus) -> (r: &'static str)
    ensures
        r@ == command_status_text(status),
{
    match status {
        CommandStatus::Completed => "completed",
        CommandStatus::Failed => "failed",
        CommandStatus::Declined => "declined",
    }
}

fn draft(
    kind: OfficeActivityKind,
    source: &str,
    title: &str,
    summary: String,
    detail: Option<String>,
    message_id: Option<String>,
    tool_name: Option<String>,
) -> (r: ActivityDraft)
    ensures
        r@ == entry(
            kind,
            source@,
            title@,
            summary@,
            opt_text(detail),
            opt_text(message_id),
            opt_text(tool_name),
        ),
{
    ActivityDraft {
        kind,
        source: source.to_string(),
        title: title.to_string(),
        summary,
        detail,
        message_id,
        tool_name,
    }
}

/// What an activity stands for.
pub open spec fn activity_model(a: Option<RuntimeActivity>) -> Option<
    (Option<ThreadId>, EventModel),
> {
    match a {
        Some(a) => Some((a.thread_id, a.draft@)),
        None => None,
    }
}

fn text_draft(
    kind: OfficeActivityKind,
    source: &str,
    title: &str,
    text: &str,
    max_chars: usize,
    other: &str,
) -> (r: Option<ActivityDraft>)
    ensures
        match r {
            Some(d) => text_entry(kind, source@, title@, text@, max_chars as int, other@) == Some(
                d@,
            ),
            None => text_entry(kind, source@, title@, text@, max_chars as int, other@) is None,
        },
{
    match trimmed_preview(text, max_chars) {
        Some(t) => {
            let summary = trimmed_preview_or(t.as_str(), 160, other);
            Some(draft(kind, source, title, summary, Some(t), None, None))
        },
        None => None,
    }
}

fn search_draft(action: &WebSearchAction) -> (r: ActivityDraft)
    ensures
        r@ == search_entry(*action),
{
    draft(
        OfficeActivityKind::RuntimeToolFinished,
        "web_search",
        "网页搜索完成",
        web_search_summary(action),
        Some(web_search_summary(action)),
        None,
        Some("web_search".to_string()),
    )
}

fn item_draft(item: &TurnItem) -> (r: Option<ActivityDraft>)
    ensures
        match r {
            Some(d) => item_entry(*item) == Some(d@),
            None => item_entry(*item) is None,
        },
{
    match item {
        TurnItem::Plan { text } => text_draft(
            OfficeActivityKind::RuntimePlan,
            "plan_item",
            "计划",
            text.as_str(),
            2000,
            "Agent 生成了计划",
        ),
        TurnItem::Reasoning { summary_text } => text_draft(
            OfficeActivityKind::RuntimeReasoning,
            "reasoning_summary",
            "思考摘要",
            join(summary_text, "\n").as_str(),
            2000,
            "Agent 生成了思考摘要",
        ),
        TurnItem::AgentMessage { content } => match agent_message_text(content) {
            Some(text) => {
                let message_id = extract_reply_to_message_id(text.as_str());
                let summary = trimmed_preview_or(text.as_str(), 160, "Agent 输出了消息");
                Some(
                    draft(
                        OfficeActivityKind::RuntimeAgentMessage,
                        "assistant_message",
                        "Agent 输出",
                        summary,
                        Some(text),
                        message_id,
                        None,
                    ),
                )
            },
            None => None,
        },
        TurnItem::WebSearch { action } => Some(search_draft(action)),
        TurnItem::Other => None,
    }
}

fn server_tool(server: &String, tool: &String) -> (r: String)
    ensures
        r@ == server@ + "."@ + tool@,
{
    let mut out = server.clone();
    out.append(".");
    out.append(tool.as_str());
    out
}

fn tool_draft(event: &RuntimeEvent) -> (r: Option<ActivityDraft>)
    ensures
        match r {
            Some(d) => tool_entry(*event) == Some(d@),
            None => tool_entry(*event) is None,
        },
{
    match event {
        RuntimeEvent::ExecCommandBegin { command, cwd } => {
            let mut detail = "cwd: ".to_string();
            detail.append(cwd.as_str());
            detail.append("\ncommand: ");
            detail.append(command_summary(command).as_str());
            Some(
                draft(
                    OfficeActivityKind::RuntimeToolStarted,
                    "exec",
                    "执行命令",
                    command_summary(command),
                    Some(detail),
                    None,
                    Some("exec".to_string()),
                ),
            )
        },
        RuntimeEvent::ExecCommandEnd {
            command,
            status,
            exit_code,
            aggregated_output,
            stdout,
            stderr,
        } => {
            let mut summary = command_summary(command);
            summary.append(" (");
            summary.append(status_word(*status));
            summary.append(", exit ");
            summary.append(decimal_of_i64(*exit_code as i64).as_str());
            summary.append(")");
            Some(
                draft(
                    OfficeActivityKind::RuntimeToolFinished,
                    "exec",
                    "命令结束",
                    summary,
                    Some(
                        trim_tool_output(
                            aggregated_output.as_str(),
                            stdout.as_str(),
                            stderr.as_str(),
                        ),
                    ),
                    None,
                    Some("exec".to_string()),
                ),
            )
        },
        RuntimeEvent::PatchApplyBegin => Some(
            draft(
                OfficeActivityKind::RuntimeToolStarted,
                "apply_patch",
                "准备应用代码改动",
                "Agent 正在应用代码改动".to_string(),
                None,
                None,
                Some("apply_patch".to_string()),
            ),
        ),
        RuntimeEvent::PatchApplyEnd { status, stdout, stderr } => {
            let mut summary = "apply_patch ".to_string();
            summary.append(status_word(*status));
            Some(
                draft(
                    OfficeActivityKind::RuntimeToolFinished,
                    "apply_patch",
                    "代码改动结束",
                    summary,
                    Some(trim_tool_output("", stdout.as_str(), stderr.as_str())),
                    None,
                    Some("apply_patch".to_string()),
                ),
            )
        },
        RuntimeEvent::McpToolCallBegin { server, tool, arguments } => {
            let detail = match arguments {
                Some(a) => Some(a.clone()),
                None => None,
            };
            Some(
                draft(
                    OfficeActivityKind::RuntimeToolStarted,
                    "mcp",
                    "调用 MCP 工具",
                    server_tool(server, tool),
                    detail,
                    None,
                    Some(server_tool(server, tool)),
                ),
            )
        },
        RuntimeEvent::McpToolCallEnd { server, tool, success, result } => {
            let mut summary = server_tool(server, tool);
            if *success {
                summary.append(" completed");
            } else {
                summary.append(" failed");
            }
            Some(
                draft(
                    OfficeActivityKind::RuntimeToolFinished,
                    "mcp",
                    "MCP 工具结束",
                    summary,
                    Some(result.clone()),
                    None,
                    Some(server_tool(server, tool)),
                ),
            )
        },
        RuntimeEvent::WebSearchBegin => Some(
            draft(
                OfficeActivityKind::RuntimeToolStarted,
                "web_search",
                "开始网页搜索",
                "Agent 正在进行网页搜索".to_string(),
                None,
                None,
                Some("web_search".to_string()),
            ),
        ),
        RuntimeEvent::WebSearchEnd { action } => Some(search_draft(action)),
        _ => None,
    }
}

fn collab_activity(event: &RuntimeEvent) -> (r: Option<RuntimeActivity>)
    ensures
        activity_model(r) == collab_entry(*event),
{
    match event {
        RuntimeEvent::CollabAgentSpawnEnd {
            sender_thread_id,
            call_id,
            new_thread_id,
            status,
            prompt,
        } => {
            let mut summary = "spawn `".to_string();
            summary.append(call_id.as_str());
            summary.append("` -> ");
            match new_thread_id {
                Some(id) => {
                    summary.append(id.to_text().as_str());
                },
                None => {
                    summary.append("not created");
                },
            }
            let mut detail = "status: ".to_string();
            detail.append(lifecycle_text(status).as_str());
            detail.append("\nprompt: ");
            detail.append(trimmed_preview_or(prompt.as_str(), 1000, "").as_str());
            Some(
                RuntimeActivity {
                    thread_id: Some(*sender_thread_id),
                    draft: draft(
                        OfficeActivityKind::RuntimeCollab,
                        "collab",
                        "创建协作 Agent",
                        summary,
                        Some(detail),
                        None,
                        Some("spawn_agent".to_string()),
                    ),
                },
            )
        },
        RuntimeEvent::CollabAgentInteractionEnd {
            sender_thread_id,
            call_id,
            receiver_thread_id,
            status,
            prompt,
        } => {
            let mut summary = "sent `".to_string();
            summary.append(call_id.as_str());
            summary.append("` to ");
            summary.append(receiver_thread_id.to_text().as_str());
            let mut detail = "receiver: ".to_string();
            detail.append(receiver_thread_id.to_text().as_str());
            detail.append("\nstatus: ");
            detail.append(lifecycle_text(status).as_str());
            detail.append("\nprompt: ");
            detail.append(trimmed_preview_or(prompt.as_str(), 1000, "").as_str());
            Some(
                RuntimeActivity {
                    thread_id: Some(*sender_thread_id),
                    draft: draft(
                        OfficeActivityKind::RuntimeCollab,
                        "collab",
                        "发送给协作 Agent",
                        summary,
                        Some(detail),
                        None,
                        Some("call".to_string()),
                    ),
                },
            )
        },
        RuntimeEvent::CollabWaitingBegin { sender_thread_id, targets } => {
            let mut summary = "waiting for ".to_string();
            summary.append(wait_targets_label(targets).as_str());
            Some(
                RuntimeActivity {
                    thread_id: Some(*sender_thread_id),
                    draft: draft(
                        OfficeActivityKind::RuntimeWait,
                        "collab_wait",
                        "等待协作 Agent",
                        summary,
                        None,
                        None,
                        Some("wait".to_string()),
                    ),
                },
            )
        },
        RuntimeEvent::CollabWaitingEnd { sender_thread_id, timed_out, targets } => {
            let mut summary = if *timed_out {
                "timed out".to_string()
            } else {
                "completed".to_string()
            };
            summary.append(" for ");
            summary.append(wait_targets_label(targets).as_str());
            Some(
                RuntimeActivity {
                    thread_id: Some(*sender_thread_id),
                    draft: draft(
                        OfficeActivityKind::RuntimeCollab,
                        "collab_wait",
                        "等待结束",
                        summary,
                        Some(wait_targets_detail(targets)),
                        None,
                        Some("wait".to_string()),
                    ),
                },
            )
        },
        RuntimeEvent::CollabResumeBegin { sender_thread_id, receiver_thread_id } => {
            let mut summary = "resuming ".to_string();
            summary.append(receiver_thread_id.to_text().as_str());
            Some(
                RuntimeActivity {
                    thread_id: Some(*sender_thread_id),
                    draft: draft(
                        OfficeActivityKind::RuntimeCollab,
                        "collab",
                        "恢复协作 Agent",
                        summary,
                        None,
                        None,
                        Some("resume_agent".to_string()),
                    ),
                },
            )
        },
        RuntimeEvent::CollabResumeEnd { sender_thread_id, receiver_thread_id, status } => {
            let mut summary = receiver_thread_id.to_text();
            summary.append(" status ");
            summary.append(lifecycle_text(status).as_str());
            Some(
                RuntimeActivity {
                    thread_id: Some(*sender_thread_id),
                    draft: draft(
                        OfficeActivityKind::RuntimeCollab,
                        "collab",
                        "协作 Agent 已恢复",
                        summary,
                        None,
                        None,
                        Some("resume_agent".to_string()),
                    ),
                },
            )
        },
        _ => None,
    }
}

fn under(thread_id: Option<ThreadId>, draft: Option<ActivityDraft>) -> (r: Option<RuntimeActivity>)
    ensures
        match draft {
            Some(d) => activity_model(r) == Some((thread_id, d@)),
            None => r is None,
        },
{
    match draft {
        Some(draft) => Some(RuntimeActivity { thread_id, draft }),
        None => None,
    }
}

/// The entry for an event of a thread.
pub fn runtime_activity_from_event(event: &RuntimeEvent) -> (r: Option<RuntimeActivity>)
    ensures
        activity_model(r) == event_entry(*event),
{
    match event {
        RuntimeEvent::TurnStarted { turn_id } => {
            let mut summary = "turn `".to_string();
            summary.append(turn_id.as_str());
            summary.append("` started");
            let d = draft(
                OfficeActivityKind::RuntimeTurnStarted,
                "runtime_event",
                "Agent 开始处理",
                summary,
                None,
                None,
                None,
            );
            under(None, Some(d))
        },
        RuntimeEvent::AgentReasoning { text } => under(
            None,
            text_draft(
                OfficeActivityKind::RuntimeReasoning,
                "reasoning_summary",
                "思考摘要",
                text.as_str(),
                1000,
                "Agent 更新了思考摘要",
            ),
        ),
        RuntimeEvent::AgentReasoningDelta { delta } => under(
            None,
            text_draft(
                OfficeActivityKind::RuntimeReasoning,
                "reasoning_summary",
                "思考摘要更新",
                delta.as_str(),
                1000,
                "Agent 更新了思考摘要",
            ),
        ),
        RuntimeEvent::PlanUpdate { explanation, plan } => under(
            None,
            text_draft(
                OfficeActivityKind::RuntimePlan,
                "plan_update",
                "计划更新",
                plan_text(explanation, plan).as_str(),
                2000,
                "Agent 更新了计划",
            ),
        ),
        RuntimeEvent::ItemCompleted { thread_id, item } => under(
            Some(*thread_id),
            item_draft(item),
        ),
        RuntimeEvent::AgentWorkSummary { thread_id, summary } => {
            let d = draft(
                OfficeActivityKind::RuntimeAgentMessage,
                "work_summary",
                "工作摘要",
                trimmed_preview_or(summary.as_str(), 160, "Agent 更新了工作摘要"),
                Some(summary.clone()),
                None,
                None,
            );
            under(Some(*thread_id), Some(d))
        },
        RuntimeEvent::Warning { message } => {
            let d = draft(
                OfficeActivityKind::RuntimeError,
                "warning",
                "运行警告",
                message.clone(),
                Some(message.clone()),
                None,
                None,
            );
            under(None, Some(d))
        },
        RuntimeEvent::Error { message } => {
            let d = draft(
                OfficeActivityKind::RuntimeError,
                "error",
                "运行错误",
                message.clone(),
                Some(message.clone()),
                None,
                None,
            );
            under(None, Some(d))
        },
        _ => match tool_draft(event) {
            Some(d) => under(None, Some(d)),
            None => collab_activity(event),
        },
    }
}

/// The agent that an event is recorded for: the one whose thread it names, or
/// else the one whose thread reported it.
pub open spec fn recording_agent(
    names: AgentNames,
    thread: Option<ThreadId>,
    fallback: Seq<char>,
) -> Seq<char> {
    match thread {
        Some(t) => match names.name_of(t) {
            Some(name) => name,
            None => fallback,
        },
        None => fallback,
    }
}

pub open spec fn recording_owner(m: RuntimeModel, agent: Seq<char>) -> Seq<char> {
    if m.agents.contains_key(agent) {
        m.agents[agent].owner_user_id
    } else {
        UNKNOWN_OWNER@
    }
}

/// Whether an event of a thread was recorded, if it has an entry.
pub open spec fn records_event(
    r: Option<AgentRuntimeRecord>,
    was: RuntimeModel,
    m: RuntimeModel,
    names: AgentNames,
    reporter: Seq<char>,
    event: RuntimeEvent,
    now: Timestamp,
) -> bool {
    match event_entry(event) {
        Some((thread, e)) => {
            let agent = recording_agent(names, thread, reporter);
            r is Some && (m, r->0@) == recorded(was, agent, recording_owner(was, agent), e, now)
        },
        None => r is None && m == was,
    }
}

/// Records an event of a thread for the agent it belongs to. An event without an
/// entry changes nothing.
pub fn record_runtime_event_from_codex(
    store: &mut OfficeRuntimeStore,
    names: &AgentNames,
    fallback_agent_id: &str,
    event: &RuntimeEvent,
    now: Timestamp,
) -> (r: Option<AgentRuntimeRecord>)
    ensures
        final(store).place() == old(store).place(),
        records_event(
            r,
            old(store)@,
            final(store)@,
            *names,
            fallback_agent_id@,
            *event,
            now,
        ),
{
    match runtime_activity_from_event(event) {
        Some(activity) => {
            let RuntimeActivity { thread_id, draft } = activity;
            let named = match thread_id {
                Some(t) => names.agent_name_for_thread(t),
                None => None,
            };
            let agent_id = match named {
                Some(name) => name,
                None => fallback_agent_id.to_string(),
            };
            let owner = match store.get(agent_id.as_str()) {
                Some(record) => record.owner_user_id.clone(),
                None => UNKNOWN_OWNER.to_string(),
            };
            Some(store.record_runtime_event(agent_id.as_str(), owner.as_str(), draft, now))
        },
        None => None,
    }
}

// ---------------------------------------------------------------------------
// Laws
// ---------------------------------------------------------------------------

/// A preview is never empty and never longer than its bound and three dots.
pub proof fn law_preview_is_bounded(value: Seq<char>, max: int)
    requires
        max > 0,
    ensures
        preview(value, max) matches Some(p) ==> 0 < p.len() <= max + 3,
        preview(value, max) is None <==> blank(value),
{
    reveal_strlit("...");
}

/// No event of a thread is taken for a message of an owner, for its answer or
/// for the binding of a thread: those are logged by the store alone.
pub proof fn law_events_are_not_owner_messages(event: RuntimeEvent)
    ensures
        event_entry(event) matches Some((_, e)) ==> e.kind
            != OfficeActivityKind::OwnerMessageQueued && e.kind
            != OfficeActivityKind::OwnerReplyReady && e.kind
            != OfficeActivityKind::RuntimeThreadResumed,
{
}

/// The thread that an event speaks of: the one that a part of a turn or a summary of
/// work belongs to, and the one that turns to another.
pub open spec fn thread_spoken_of(event: RuntimeEvent) -> Option<ThreadId> {
    match event {
        RuntimeEvent::ItemCompleted { thread_id, .. } => Some(thread_id),
        RuntimeEvent::AgentWorkSummary { thread_id, .. } => Some(thread_id),
        RuntimeEvent::CollabAgentSpawnEnd { sender_thread_id, .. } => Some(sender_thread_id),
        RuntimeEvent::CollabAgentInteractionEnd { sender_thread_id, .. } => Some(sender_thread_id),
        RuntimeEvent::CollabWaitingBegin { sender_thread_id, .. } => Some(sender_thread_id),
        RuntimeEvent::CollabWaitingEnd { sender_thread_id, .. } => Some(sender_thread_id),
        RuntimeEvent::CollabResumeBegin { sender_thread_id, .. } => Some(sender_thread_id),
        RuntimeEvent::CollabResumeEnd { sender_thread_id, .. } => Some(sender_thread_id),
        _ => None,
    }
}

/// The entry of an event that has one.
pub open spec fn logged(event: RuntimeEvent) -> EventModel {
    let (_, e) = event_entry(event)->0;
    e
}

/// The thread under which an event that has an entry is logged.
pub open spec fn logged_under(event: RuntimeEvent) -> Option<ThreadId> {
    let (t, _) = event_entry(event)->0;
    t
}

/// An entry belongs to the thread that its event speaks of, and is recorded for the
/// agent of that thread; where there is none, for the one whose thread reported it.
pub proof fn law_entries_belong_to_their_thread(
    event: RuntimeEvent,
    names: AgentNames,
    reporter: Seq<char>,
)
    requires
        event_entry(event) is Some,
    ensures
        logged_under(event) == thread_spoken_of(event),
        ({
            let agent = recording_agent(names, logged_under(event), reporter);
            match thread_spoken_of(event) {
                Some(t) => (names.name_of(t) is Some ==> agent == names.name_of(t)->0) && (
                names.name_of(t) is None ==> agent == reporter),
                None => agent == reporter,
            }
        }),
{
}

/// What is logged of an agent whose owner is not known is logged under a name that
/// says so; else under its owner.
pub proof fn law_entries_go_to_the_owner(m: RuntimeModel, agent: Seq<char>)
    ensures
        m.agents.contains_key(agent) ==> recording_owner(m, agent) == m.agents[agent].owner_user_id,
        !m.agents.contains_key(agent) ==> recording_owner(m, agent) == "unknown_owner"@,
{
}

/// Of what kind an entry is: every event but those that end a thread or that nothing
/// is known of is logged as what it is, unless its text is blank.
pub proof fn law_entries_have_their_kind(event: RuntimeEvent)
    ensures
        event is ShutdownComplete || event is Other ==> event_entry(event) is None,
        event is TurnStarted ==> event_entry(event) is Some && logged(event).kind
            == OfficeActivityKind::RuntimeTurnStarted,
        event is Warning || event is Error ==> event_entry(event) is Some && logged(event).kind == OfficeActivityKind::RuntimeError,
        event is AgentWorkSummary ==> event_entry(event) is Some && logged(event).kind
            == OfficeActivityKind::RuntimeAgentMessage,
        event is ExecCommandBegin || event is PatchApplyBegin || event is McpToolCallBegin
            || event is WebSearchBegin ==> event_entry(event) is Some && logged(event).kind == OfficeActivityKind::RuntimeToolStarted,
        event is ExecCommandEnd || event is PatchApplyEnd || event is McpToolCallEnd
            || event is WebSearchEnd ==> event_entry(event) is Some && logged(event).kind
            == OfficeActivityKind::RuntimeToolFinished,
        event is CollabWaitingBegin ==> event_entry(event) is Some && logged(event).kind
            == OfficeActivityKind::RuntimeWait,
        event is CollabAgentSpawnEnd || event is CollabAgentInteractionEnd
            || event is CollabWaitingEnd || event is CollabResumeBegin || event is CollabResumeEnd
            ==> event_entry(event) is Some && logged(event).kind
            == OfficeActivityKind::RuntimeCollab,
        event is AgentReasoning || event is AgentReasoningDelta ==> (event_entry(event) is Some
            ==> logged(event).kind == OfficeActivityKind::RuntimeReasoning),
        event is PlanUpdate ==> (event_entry(event) is Some ==> logged(event).kind
            == OfficeActivityKind::RuntimePlan),
        event matches RuntimeEvent::ItemCompleted { item, .. } ==> match item {
            TurnItem::Plan { text } => (event_entry(event) is None <==> blank(text@)) && (
            event_entry(event) is Some ==> logged(event).kind
                == OfficeActivityKind::RuntimePlan),
            TurnItem::Reasoning { .. } => event_entry(event) is Some ==> logged(event).kind == OfficeActivityKind::RuntimeReasoning,
            TurnItem::AgentMessage { .. } => event_entry(event) is Some ==> logged(event).kind == OfficeActivityKind::RuntimeAgentMessage,
            TurnItem::WebSearch { .. } => event_entry(event) is Some && logged(event).kind == OfficeActivityKind::RuntimeToolFinished,
            TurnItem::Other => event_entry(event) is None,
        },
{
}

/// Whether `shown` is a text, cut behind `max` characters where it is longer.
pub open spec fn is_cut(shown: Seq<char>, text: Seq<char>, max: int) -> bool {
    if text.len() <= max {
        shown == text
    } else {
        shown.len() == max + 3 && shown.take(max) == text.take(max) && shown.skip(max) == "..."@
    }
}

/// What an agent thought or said is logged whole, up to a bound, and nothing is
/// logged of a blank text.
pub proof fn law_texts_are_logged(event: RuntimeEvent)
    ensures
        event matches RuntimeEvent::AgentReasoning { text } ==> (event_entry(event) is None <==> blank(
            text@,
        )) && (!blank(text@) ==> is_cut(logged(event).detail->0, trim(text@), 1000)
            && logged(event).detail is Some),
        event matches RuntimeEvent::AgentReasoningDelta { delta } ==> (event_entry(event) is None
            <==> blank(delta@)) && (!blank(delta@) ==> is_cut(
            logged(event).detail->0,
            trim(delta@),
            1000,
        ) && logged(event).detail is Some),
        event matches RuntimeEvent::ItemCompleted {
            item: TurnItem::AgentMessage { content },
            ..
        } ==> ({
            let t = joined(texts(content@), "\n"@);
            (event_entry(event) is None <==> blank(t)) && (!blank(t) ==> is_cut(
                logged(event).detail->0,
                trim(t),
                4000,
            ) && logged(event).detail is Some)
        }),
        event matches RuntimeEvent::ItemCompleted {
            item: TurnItem::Reasoning { summary_text },
            ..
        } ==> ({
            let t = joined(texts(summary_text@), "\n"@);
            (event_entry(event) is None <==> blank(t)) && (!blank(t) ==> is_cut(
                logged(event).detail->0,
                trim(t),
                2000,
            ))
        }),
        event matches RuntimeEvent::AgentWorkSummary { summary, .. } ==> logged(event).detail == Some(summary@),
        event matches RuntimeEvent::Warning { message } ==> logged(event).detail == Some(
            message@,
        ) && logged(event).summary == message@ && logged(event).source
            == "warning"@,
        event matches RuntimeEvent::Error { message } ==> logged(event).detail == Some(
            message@,
        ) && logged(event).summary == message@ && logged(event).source
            == "error"@,
{
    reveal_strlit("...");
    match event {
        RuntimeEvent::AgentReasoning { text } => {
            lemma_cut(text@, 1000);
        },
        RuntimeEvent::AgentReasoningDelta { delta } => {
            lemma_cut(delta@, 1000);
        },
        RuntimeEvent::ItemCompleted { item: TurnItem::AgentMessage { content }, .. } => {
            lemma_cut(joined(texts(content@), "\n"@), 4000);
        },
        RuntimeEvent::ItemCompleted { item: TurnItem::Reasoning { summary_text }, .. } => {
            lemma_cut(joined(texts(summary_text@), "\n"@), 2000);
        },
        _ => {},
    }
}

proof fn lemma_cut(text: Seq<char>, max: int)
    requires
        max > 0,
    ensures
        preview(text, max) is None <==> blank(text),
        preview(text, max) is Some ==> is_cut(preview(text, max)->0, trim(text), max),
{
    reveal_strlit("...");
    let t = trim(text);
    if t.len() > max {
        let p = t.take(max) + "..."@;
        assert(p.take(max) =~= t.take(max));
        assert(p.skip(max) =~= "..."@);
    }
}

/// An entry for a tool names the tool; one for no tool names none.
pub proof fn law_entries_name_their_tool(event: RuntimeEvent)
    requires
        event_entry(event) is Some,
    ensures
        event is ExecCommandBegin || event is ExecCommandEnd ==> logged(event).tool_name
            == Some("exec"@),
        event is PatchApplyBegin || event is PatchApplyEnd ==> logged(event).tool_name
            == Some("apply_patch"@),
        event is WebSearchBegin || event is WebSearchEnd ==> logged(event).tool_name
            == Some("web_search"@),
        event matches RuntimeEvent::McpToolCallBegin { server, tool, arguments } ==> logged(event).tool_name == Some(server@ + "."@ + tool@) && logged(event).detail
            == opt_text(arguments),
        event matches RuntimeEvent::McpToolCallEnd { server, tool, success, result }
            ==> logged(event).tool_name == Some(server@ + "."@ + tool@) && logged(event).detail == Some(result@) && logged(event).summary == server@ + "."@ + tool@
            + (if success {
            " completed"@
        } else {
            " failed"@
        }),
        event is CollabAgentSpawnEnd ==> logged(event).tool_name == Some("spawn_agent"@),
        event is CollabAgentInteractionEnd ==> logged(event).tool_name == Some("call"@),
        event is CollabWaitingBegin || event is CollabWaitingEnd ==> logged(event).tool_name == Some("wait"@),
        event is CollabResumeBegin || event is CollabResumeEnd ==> logged(event).tool_name == Some("resume_agent"@),
        event is TurnStarted || event is AgentReasoning || event is AgentReasoningDelta
            || event is PlanUpdate || event is AgentWorkSummary || event is Warning
            || event is Error ==> logged(event).tool_name is None,
        !(event is ItemCompleted) ==> logged(event).message_id is None,
{
}

/// The end of a command tells the command, how it ended and its exit code; and what
/// it wrote: all of it where that is known, or else what went to its standard output,
/// and what went to its standard error.
pub proof fn law_commands_are_told(event: RuntimeEvent)
    ensures
        event matches RuntimeEvent::ExecCommandBegin { command, cwd } ==> (command@.len() > 0
            && !blank(joined(texts(command@), " "@)) && trim(
            joined(texts(command@), " "@),
        ).len() <= 240 ==> logged(event).summary == trim(joined(texts(command@), " "@))
            && logged(event).detail == Some(
            "cwd: "@ + cwd@ + "\ncommand: "@ + trim(joined(texts(command@), " "@)),
        )),
        event matches RuntimeEvent::ExecCommandEnd {
            command,
            status,
            exit_code,
            aggregated_output,
            stdout,
            stderr,
        } ==> (command@.len() > 0 && !blank(joined(texts(command@), " "@)) && trim(
            joined(texts(command@), " "@),
        ).len() <= 240 ==> logged(event).summary == trim(joined(texts(command@), " "@))
            + " ("@ + (match status {
            CommandStatus::Completed => "completed"@,
            CommandStatus::Failed => "failed"@,
            CommandStatus::Declined => "declined"@,
        }) + ", exit "@ + signed_decimal(exit_code as int) + ")"@) && (blank(aggregated_output@)
            && blank(stdout@) && blank(stderr@) ==> logged(event).detail == Some(
            "no output"@,
        )) && (!blank(aggregated_output@) && blank(stderr@) && trim(
            aggregated_output@,
        ).len() <= 4000 ==> logged(event).detail == Some(trim(aggregated_output@))) && (
        blank(aggregated_output@) && !blank(stdout@) && blank(stderr@) && trim(stdout@).len()
            <= 3000 ==> logged(event).detail == Some("stdout:\n"@ + trim(stdout@))) && (
        blank(aggregated_output@) && blank(stdout@) && !blank(stderr@) && trim(stderr@).len()
            <= 2000 ==> logged(event).detail == Some("stderr:\n"@ + trim(stderr@))) && (
        !blank(aggregated_output@) && !blank(stderr@) && trim(aggregated_output@).len() <= 4000
            && trim(stderr@).len() <= 2000 ==> logged(event).detail == Some(
            trim(aggregated_output@) + "\n\n"@ + ("stderr:\n"@ + trim(stderr@)),
        )),
        event matches RuntimeEvent::PatchApplyEnd { status, stdout, stderr } ==> logged(event).summary == "apply_patch "@ + (match status {
            CommandStatus::Completed => "completed"@,
            CommandStatus::Failed => "failed"@,
            CommandStatus::Declined => "declined"@,
        }),
{
    reveal_strlit("");
    match event {
        RuntimeEvent::ExecCommandEnd { aggregated_output, stdout, stderr, .. } => {
            let parts = output_parts(aggregated_output@, stdout@, stderr@);
            if parts.len() == 2 {
                assert(parts.drop_last() =~= seq![parts[0]]);
                assert(joined(parts.drop_last(), "\n\n"@) == parts[0]);
            }
        },
        _ => {},
    }
}

/// What passes between agents is told with the agents it passes between.
pub proof fn law_collaboration_is_told(event: RuntimeEvent)
    ensures
        event matches RuntimeEvent::CollabAgentSpawnEnd { call_id, new_thread_id, .. }
            ==> logged(event).summary == "spawn `"@ + call_id@ + "` -> "@ + (
        match new_thread_id {
            Some(id) => thread_text(id),
            None => "not created"@,
        }),
        event matches RuntimeEvent::CollabAgentInteractionEnd { call_id, receiver_thread_id, .. }
            ==> logged(event).summary == "sent `"@ + call_id@ + "` to "@ + thread_text(
            receiver_thread_id,
        ),
        event matches RuntimeEvent::CollabWaitingEnd { timed_out, targets, .. } ==> (targets@.len()
            == 0 ==> logged(event).summary == (if timed_out {
            "timed out"@
        } else {
            "completed"@
        }) + " for "@ + "next inbox message"@) && (targets@.len() == 1
            && !blank(targets@[0].receiver_agent_name@) ==> logged(event).summary == (
        if timed_out {
            "timed out"@
        } else {
            "completed"@
        }) + " for "@ + targets@[0].receiver_agent_name@),
        event matches RuntimeEvent::CollabWaitingEnd { targets, .. } ==> (targets@.len() == 1
            && !blank(targets@[0].receiver_agent_name@) ==> logged(event).detail == Some(
            targets@[0].receiver_agent_name@ + ": "@ + (if targets@[0].completed {
                "Completed"@
            } else {
                "Running"@
            }),
        )),
        event matches RuntimeEvent::CollabWaitingBegin { targets, .. } ==> (targets@.len() == 1
            && blank(targets@[0].receiver_agent_name@) ==> logged(event).summary
            == "waiting for "@ + thread_text(targets@[0].receiver_thread_id)),
        event matches RuntimeEvent::CollabResumeBegin { receiver_thread_id, .. } ==> logged(event).summary == "resuming "@ + thread_text(receiver_thread_id),
        event matches RuntimeEvent::CollabResumeEnd { receiver_thread_id, status, .. }
            ==> logged(event).summary == thread_text(receiver_thread_id) + " status "@
            + shown_status(status),
{
}

/// A message answers what the first of its first twelve lines says that says so.
pub proof fn law_messages_name_what_they_answer(message: Seq<char>)
    ensures
        match reply_target(message) {
            Some(id) => exists|i: int|
                0 <= i < 12 && i < lines(message).len() && line_reply(#[trigger] lines(message)[i])
                    == Some(id) && id.len() > 0 && (begins(
                    trim(lines(message)[i]),
                    "- `reply_to`:"@,
                ) || begins(trim(lines(message)[i]), "reply_to:"@)) && forall|j: int|
                    0 <= j < i ==> line_reply(#[trigger] lines(message)[j]) is None,
            None => forall|i: int|
                0 <= i < 12 && i < lines(message).len() ==> line_reply(
                    #[trigger] lines(message)[i],
                ) is None,
        },
{
    let s = lines(message);
    let h = header_lines(message);
    assert forall|i: int| 0 <= i < h.len() implies #[trigger] h[i] == s[i] by {}
    lemma_first_reply(h);
    match first_reply(h) {
        Some(id) => {
            let i = choose|i: int|
                0 <= i < h.len() && line_reply(#[trigger] h[i]) == Some(id) && forall|j: int|
                    0 <= j < i ==> line_reply(#[trigger] h[j]) is None;
            assert(h[i] == s[i]);
            assert forall|j: int| 0 <= j < i implies line_reply(#[trigger] s[j]) is None by {
                assert(h[j] == s[j]);
            }
            assert(line_reply(s[i]) == Some(id));
        },
        None => {
            assert forall|i: int| 0 <= i < 12 && i < s.len() implies line_reply(
                #[trigger] s[i],
            ) is None by {
                assert(h[i] == s[i]);
            }
        },
    }
}

proof fn lemma_first_reply(s: Seq<Seq<char>>)
    ensures
        match first_reply(s) {
            Some(id) => exists|i: int|
                0 <= i < s.len() && line_reply(#[trigger] s[i]) == Some(id) && forall|j: int|
                    0 <= j < i ==> line_reply(#[trigger] s[j]) is None,
            None => forall|i: int| 0 <= i < s.len() ==> line_reply(#[trigger] s[i]) is None,
        },
    decreases s.len(),
{
    if s.len() > 0 {
        let t = s.skip(1);
        lemma_first_reply(t);
        if line_reply(s[0]) is Some {
            assert(line_reply(s[0]) == first_reply(s));
        } else {
            match first_reply(t) {
                Some(id) => {
                    let i = choose|i: int|
                        0 <= i < t.len() && line_reply(#[trigger] t[i]) == Some(id) && forall|
                            j: int,
                        |
                            0 <= j < i ==> line_reply(#[trigger] t[j]) is None;
                    assert(s[i + 1] == t[i]);
                    assert forall|j: int| 0 <= j < i + 1 implies line_reply(
                        #[trigger] s[j],
                    ) is None by {
                        if j > 0 {
                            assert(s[j] == t[j - 1]);
                        }
                    }
                },
                None => {
                    assert forall|i: int| 0 <= i < s.len() implies line_reply(
                        #[trigger] s[i],
                    ) is None by {
                        if i > 0 {
                            assert(s[i] == t[i - 1]);
                        }
                    }
                },
            }
        }
    }
}

/// The message that a line answers stands bare behind its key; one that gives no name
/// there answers nothing.
pub proof fn law_lines_name_what_they_answer(id: Seq<char>)
    requires
        id.len() > 0,
        !is_space(id[0]) && !is_space(id.last()),
        id[0] != '`' && id.last() != '`',
    ensures
        line_reply("reply_to:"@ + id) == Some(id),
        line_reply("- `reply_to`:"@ + (seq!['`'] + id).push('`')) == Some(id),
{
    reveal_strlit("reply_to:");
    reveal_strlit("- `reply_to`:");
    reveal_strlit("`");
    let k = "reply_to:"@;
    let l = k + id;
    assert(l[0] == 'r' && l.last() == id.last());
    assert(trim_start(l) == l && trim_end(l) == l);
    assert(trim_start(id) == id && trim_end(id) == id);
    assert(l[0] != "- `reply_to`:"@[0]);
    assert(!begins(l, "- `reply_to`:"@)) by {
        if begins(l, "- `reply_to`:"@) {
            assert(l.subrange(0, "- `reply_to`:"@.len() as int)[0] == l[0]);
        }
    }
    assert(l.subrange(0, k.len() as int) =~= k);
    assert(l.skip(k.len() as int) =~= id);
    assert("`"@.contains('`')) by {
        assert("`"@[0] == '`');
    }
    assert(!"`"@.contains(id[0]) && !"`"@.contains(id.last()));
    assert(strip_start(id, "`"@) == id && strip_end(id, "`"@) == id);
    let q = "- `reply_to`:"@;
    let v = (seq!['`'] + id).push('`');
    let m = q + v;
    assert(m[0] == '-' && m.last() == '`');
    assert(trim_start(m) == m && trim_end(m) == m);
    assert(m.subrange(0, q.len() as int) =~= q);
    assert(m.skip(q.len() as int) =~= v);
    assert(v[0] == '`' && v.last() == '`');
    assert(trim_start(v) == v && trim_end(v) == v);
    assert(v.skip(1) =~= id.push('`'));
    let w = id.push('`');
    assert(w[0] == id[0]);
    assert(strip_start(w, "`"@) == w);
    assert(strip_start(v, "`"@) == w);
    assert(w.drop_last() =~= id);
    assert(strip_end(w, "`"@) == strip_end(id, "`"@));
}

/// A search tells what was looked for; a page tells which it was.
pub proof fn law_searches_tell_what_was_looked_for(action: WebSearchAction)
    ensures
        action matches WebSearchAction::Search { query: Some(q), .. } ==> search_text(action)
            == "search: "@ + q@,
        action matches WebSearchAction::Search { query: None, queries: Some(v) } ==> search_text(
            action,
        ) == "search: "@ + joined(texts(v@), ", "@),
        action matches WebSearchAction::OpenPage { url: Some(u) } ==> search_text(action)
            == "open: "@ + u@,
        action matches WebSearchAction::FindInPage { url: Some(u), pattern: Some(p) }
            ==> search_text(action) == "find `"@ + p@ + "` in "@ + u@,
{
}

/// Plans are told step by step, in their order, each with how far it is; what explains
/// them stands first.
pub proof fn law_plans_are_told_step_by_step(explanation: Option<String>, plan: Seq<PlanStep>, i: int)
    requires
        0 <= i < plan.len(),
    ensures
        explanation is None || blank(explanation->0@) ==> plan_lines(explanation, plan).len()
            == plan.len(),
        explanation is Some && !blank(explanation->0@) ==> plan_lines(explanation, plan).len()
            == plan.len() + 1 && plan_lines(explanation, plan)[0] == trim(explanation->0@),
        plan_lines(explanation, plan)[plan_lines(explanation, plan).len() - plan.len() + i] == "- "@
            + (match plan[i].status {
            StepStatus::Pending => "Pending"@,
            StepStatus::InProgress => "InProgress"@,
            StepStatus::Completed => "Completed"@,
        }) + ": "@ + trim(plan[i].step@),
{
}

/// An event is the last of the log of its agent, with its time; the log of nobody else
/// changes, nor any message. One without an entry changes nothing.
pub proof fn law_events_are_recorded_for_their_agent(
    r: Option<AgentRuntimeRecord>,
    was: RuntimeModel,
    m: RuntimeModel,
    names: AgentNames,
    reporter: Seq<char>,
    event: RuntimeEvent,
    now: Timestamp,
    other: Seq<char>,
)
    requires
        records_event(r, was, m, names, reporter, event, now),
    ensures
        r is Some <==> event_entry(event) is Some,
        r is None ==> m == was,
        r is Some ==> {
            let agent = match thread_spoken_of(event) {
                Some(t) => if names.name_of(t) is Some {
                    names.name_of(t)->0
                } else {
                    reporter
                },
                None => reporter,
            };
            let log = crate::office::runtime::activity_of(m, agent);
            &&& log.len() > 0
            &&& log.last().timestamp == now
            &&& log.last().agent_id == agent
            &&& log.last().kind == logged(event).kind
            &&& log.last().summary == logged(event).summary
            &&& log.last().detail == logged(event).detail
            &&& log.last().tool_name == logged(event).tool_name
            &&& m.agents.contains_key(agent) && m.agents[agent] == r->0@
            &&& r->0@.last_seen_at == now
            &&& other != agent ==> crate::office::runtime::activity_of(m, other)
                == crate::office::runtime::activity_of(was, other)
        },
        m.owner_messages == was.owner_messages,
{
    if r is Some {
        law_entries_belong_to_their_thread(event, names, reporter);
    }
}

} // verus!
