//! The pages of the office.
use crate::markup::{html_escape, html_text};
use crate::office::assets::{
    BLACKBOARD_END, BLACKBOARD_TO_GOALS, BLACKBOARD_TO_NOTES, BLACKBOARD_TO_PROJECTS,
    BLACKBOARD_TO_STYLE, DASHBOARD_END, DASHBOARD_TO_ACTIVITY_ITEMS,
    DASHBOARD_TO_AGENT_ID, DASHBOARD_TO_AGENT_STATE, DASHBOARD_TO_AVOID,
    DASHBOARD_TO_CAPABILITIES, DASHBOARD_TO_DASHBOARD_SCRIPT, DASHBOARD_TO_HUMAN_INBOX_ITEMS,
    DASHBOARD_TO_HUMAN_QUEUED_COUNT, DASHBOARD_TO_HUMAN_QUEUED_COUNT_AGAIN,
    DASHBOARD_TO_LAST_REFLECTION, DASHBOARD_TO_QUEUED_COUNT, DASHBOARD_TO_QUEUED_COUNT_AGAIN,
    DASHBOARD_TO_REPORT_PREFERENCE, DASHBOARD_TO_ROLE, DASHBOARD_TO_STATE_EMOJI,
    DASHBOARD_TO_STATE_LABEL, DASHBOARD_TO_STYLE, DASHBOARD_TO_USERNAME,
    DASHBOARD_TO_USERNAME_INITIAL, DASHBOARD_TO_USER_ID, INTERVIEW_END, INTERVIEW_TO_STYLE,
    LOGIN_END, LOGIN_TO_ERROR, LOGIN_TO_STYLE,
};
use crate::office::blackboard::{
    BlackboardModel, BlackboardNote, NoteModel, OfficeBlackboard, ProjectModel, ProjectState,
};
use crate::office::runtime::{activity_models, ActivityModel, OfficeActivityEntry};
use crate::office::web::{
    item_models, ItemModel, OfficeAgentExternalState, OfficeInboxMessage, OfficeInboxReplyStatus,
    OfficeMeResponse,
};
use crate::text::{
    chars_of, contains_text, decimal, decimal_of, decimal_of_usize, has_text, join, joined,
    occurs_at, opt_str, text_of, texts,
};
use crate::time::{stamp_text, Timestamp};
use vstd::prelude::*;

verus! {

/// What all pages share: their style, and the script of the dashboard.
#[derive(Clone, Debug, Eq, PartialEq)]
pub struct PageAssets {
    pub style: String,
    pub script: String,
}

// ---------------------------------------------------------------------------
// What the pages say
// ---------------------------------------------------------------------------

pub open spec fn error_text(message: Seq<char>) -> Seq<char> {
    "<h1>"@ + html_text(message) + "</h1>"@
}

pub open spec fn login_error(error: Option<Seq<char>>) -> Seq<char> {
    match error {
        Some(message) => "<div class=\"error\" role=\"alert\"><span style=\"margin-right:6px\">⚠</span>"@
            + html_text(message) + "</div>"@,
        None => ""@,
    }
}

pub open spec fn login_text(assets: PageAssets, error: Option<Seq<char>>) -> Seq<char> {
    LOGIN_TO_STYLE@ + assets.style@ + LOGIN_TO_ERROR@ + login_error(error) + LOGIN_END@
}

pub open spec fn interview_text(assets: PageAssets) -> Seq<char> {
    INTERVIEW_TO_STYLE@ + assets.style@ + INTERVIEW_END@
}

pub open spec fn status_label(status: OfficeInboxReplyStatus) -> Seq<char> {
    match status {
        OfficeInboxReplyStatus::NotRequired => "无需回复"@,
        OfficeInboxReplyStatus::Pending => "待回复"@,
        OfficeInboxReplyStatus::Replied => "已回复"@,
    }
}

pub open spec fn status_value(status: OfficeInboxReplyStatus) -> Seq<char> {
    match status {
        OfficeInboxReplyStatus::NotRequired => "not_required"@,
        OfficeInboxReplyStatus::Pending => "pending"@,
        OfficeInboxReplyStatus::Replied => "replied"@,
    }
}

pub open spec fn reply_to_text(id: Option<Seq<char>>) -> Seq<char> {
    match id {
        Some(id) => "<code>reply_to: "@ + html_text(id) + "</code>"@,
        None => ""@,
    }
}

pub const REPLY_FORM_TO_ID: &'static str =
    "<form class=\"human-reply-form\" method=\"post\" action=\"/api/inbox\">\n<input type=\"hidden\" name=\"need_reply\" value=\"false\">\n<input type=\"hidden\" name=\"reply_to_message_id\" value=\"";

pub const REPLY_FORM_END: &'static str =
    "\">\n<label>回复 Agent <textarea name=\"content\" rows=\"3\" placeholder=\"输入你的回复，例如：同意，请继续推进。\" required></textarea></label>\n<button type=\"submit\">回复这条消息</button>\n</form>";

/// A form for the reply to a message, where one is still to come.
pub open spec fn reply_form_text(m: ItemModel) -> Seq<char> {
    if m.reply_status == OfficeInboxReplyStatus::Pending {
        REPLY_FORM_TO_ID@ + html_text(m.message_id) + REPLY_FORM_END@
    } else {
        ""@
    }
}

pub open spec fn message_card(m: ItemModel) -> Seq<char> {
    "<li class=\"message-card\" data-message-id=\""@ + html_text(m.message_id)
        + "\" data-reply-status=\""@ + status_value(m.reply_status)
        + "\"><div class=\"message-topline\"><span class=\"inbox-status\">"@ + status_label(
        m.reply_status,
    ) + "</span><strong>"@ + html_text(m.from) + "</strong></div><p>"@ + html_text(m.content)
        + "</p><div class=\"message-meta\"><code>message_id: "@ + html_text(m.message_id)
        + "</code>"@ + reply_to_text(m.reply_to_message_id) + "</div>"@ + reply_form_text(m)
        + "</li>"@
}

pub const NO_MESSAGES: &'static str =
    "<li class=\"empty-state\"><span aria-hidden=\"true\">✉</span><strong>暂无 Agent 发给你的消息。</strong><p>当 Agent 需要你确认、补充或决策时，会在这里形成一张可直接回复的卡片。</p></li>";

/// The cards of the messages, newest first.
pub open spec fn message_cards(s: Seq<ItemModel>) -> Seq<char>
    decreases s.len(),
{
    if s.len() == 0 {
        ""@
    } else {
        message_card(s.last()) + message_cards(s.drop_last())
    }
}

pub open spec fn inbox_text(s: Seq<ItemModel>) -> Seq<char> {
    if s.len() == 0 {
        NO_MESSAGES@
    } else {
        message_cards(s)
    }
}

/// A text that is there and not empty.
pub open spec fn given(s: Option<Seq<char>>) -> bool {
    s matches Some(t) && t.len() > 0
}

/// Under which filter an activity is shown.
pub open spec fn activity_category(e: ActivityModel) -> Seq<char> {
    if given(e.tool_name) {
        "tool"@
    } else if has_text(e.title, "工作摘要"@) || has_text(e.title, "计划"@) {
        "summary"@
    } else if has_text(e.title, "Agent 输出"@) || has_text(e.title, "Agent 已回复"@) || has_text(
        e.title,
        "发送给协作"@,
    ) {
        "reply"@
    } else {
        "other"@
    }
}

pub open spec fn activity_card(e: ActivityModel) -> Seq<char> {
    "<li class=\"timeline-card\" data-category=\""@ + activity_category(e)
        + "\" data-sequence=\""@ + decimal(e.sequence as nat)
        + "\"><div class=\"timeline-dot\" aria-hidden=\"true\"></div><time>"@ + html_text(
        stamp_text(e.timestamp),
    ) + "</time><strong>"@ + html_text(e.title) + "</strong>"@ + (if given(e.tool_name) {
        "<span class=\"activity-tool\">🔧 "@ + html_text(e.tool_name->0) + "</span>"@
    } else {
        ""@
    }) + "<p>"@ + html_text(e.summary) + "</p>"@ + (if given(e.detail) {
        "<div class=\"activity-detail\">"@ + html_text(e.detail->0) + "</div>"@
    } else {
        ""@
    }) + "</li>"@
}

pub const NO_ACTIVITY: &'static str =
    "<li class=\"empty-state\"><span aria-hidden=\"true\">📊</span><strong>暂无活动记录</strong><p>给 Agent 发送任务后，它会在这里同步工作进展与交付物。</p></li>";

/// The cards of the activities, newest first.
pub open spec fn activity_cards(s: Seq<ActivityModel>) -> Seq<char>
    decreases s.len(),
{
    if s.len() == 0 {
        ""@
    } else {
        activity_card(s.last()) + activity_cards(s.drop_last())
    }
}

pub open spec fn activity_text(s: Seq<ActivityModel>) -> Seq<char> {
    if s.len() == 0 {
        NO_ACTIVITY@
    } else {
        activity_cards(s)
    }
}

pub open spec fn state_word(state: OfficeAgentExternalState) -> Seq<char> {
    match state {
        OfficeAgentExternalState::Idle => "idle"@,
        OfficeAgentExternalState::Working => "working"@,
        OfficeAgentExternalState::Waiting => "waiting"@,
    }
}

pub open spec fn state_emoji(state: OfficeAgentExternalState) -> Seq<char> {
    match state {
        OfficeAgentExternalState::Idle => "🟢"@,
        OfficeAgentExternalState::Working => "🟣"@,
        OfficeAgentExternalState::Waiting => "🟡"@,
    }
}

pub open spec fn state_label(state: OfficeAgentExternalState) -> Seq<char> {
    match state {
        OfficeAgentExternalState::Idle => "空闲中"@,
        OfficeAgentExternalState::Working => "工作中"@,
        OfficeAgentExternalState::Waiting => "等待回复"@,
    }
}

/// The first letter of a name.
pub open spec fn initial(name: Seq<char>) -> Seq<char> {
    if name.len() > 0 {
        name.take(1)
    } else {
        "用"@
    }
}

/// A label and a text, or what is said where there is no text.
pub open spec fn labelled(label: Seq<char>, text: Seq<char>, without: Seq<char>) -> Seq<char> {
    if text.len() == 0 {
        without
    } else {
        label + text
    }
}

pub open spec fn reflection_text(at: Option<Timestamp>) -> Seq<char> {
    match at {
        Some(t) => stamp_text(t),
        None => "尚未复盘"@,
    }
}

pub open spec fn dashboard_text(assets: PageAssets, me: OfficeMeResponse) -> Seq<char> {
    let p = me.human_profile@;
    let state = me.agent_state.state;
    let queued = decimal(me.agent_inbox.queued_count as nat);
    let waiting = decimal(me.human_inbox.queued_count as nat);
    DASHBOARD_TO_STYLE@ + assets.style@ + DASHBOARD_TO_AGENT_STATE@ + state_word(state)
        + DASHBOARD_TO_STATE_EMOJI@ + state_emoji(state) + DASHBOARD_TO_STATE_LABEL@ + state_label(
        state,
    ) + DASHBOARD_TO_QUEUED_COUNT@ + queued + DASHBOARD_TO_HUMAN_QUEUED_COUNT@ + waiting
        + DASHBOARD_TO_USERNAME_INITIAL@ + html_text(initial(me.username@)) + DASHBOARD_TO_USERNAME@
        + html_text(me.username@) + DASHBOARD_TO_USER_ID@ + html_text(me.user_id@)
        + DASHBOARD_TO_AGENT_ID@ + html_text(me.agent_id@) + DASHBOARD_TO_ROLE@ + html_text(p.role)
        + DASHBOARD_TO_CAPABILITIES@ + labelled(
        "能力标签："@,
        html_text(joined(p.capability_labels, " · "@)),
        "暂无能力标签"@,
    ) + DASHBOARD_TO_AVOID@ + labelled(
        "勿扰事项："@,
        html_text(joined(p.do_not_disturb, " · "@)),
        "暂无勿扰事项"@,
    ) + DASHBOARD_TO_REPORT_PREFERENCE@ + labelled(
        "汇报偏好："@,
        html_text(p.report_preference),
        "汇报偏好：先结论后细节"@,
    ) + DASHBOARD_TO_LAST_REFLECTION@ + html_text(reflection_text(p.last_reflection_at))
        + DASHBOARD_TO_QUEUED_COUNT_AGAIN@ + queued + DASHBOARD_TO_HUMAN_QUEUED_COUNT_AGAIN@
        + waiting + DASHBOARD_TO_HUMAN_INBOX_ITEMS@ + inbox_text(
        item_models(me.human_inbox.messages@),
    ) + DASHBOARD_TO_ACTIVITY_ITEMS@ + activity_text(activity_models(me.agent_activity.entries@))
        + DASHBOARD_TO_DASHBOARD_SCRIPT@ + assets.script@ + DASHBOARD_END@
}

pub open spec fn note_card(n: NoteModel) -> Seq<char> {
    "<article class=\"note-card\">\n                    <div class=\"note-meta\">"@ + html_text(
        n.author,
    ) + " · "@ + html_text(stamp_text(n.created_at))
        + "</div>\n                    <div class=\"note-content\">"@ + html_text(n.content)
        + "</div>\n                    </article>"@
}

/// The cards of the notes, newest first.
pub open spec fn note_cards(s: Seq<NoteModel>) -> Seq<char>
    decreases s.len(),
{
    if s.len() == 0 {
        ""@
    } else {
        note_card(s.last()) + note_cards(s.drop_last())
    }
}

pub open spec fn notes_text(s: Seq<NoteModel>) -> Seq<char> {
    if s.len() == 0 {
        "<div class=\"empty-state\"><span aria-hidden=\"true\">📝</span><strong>暂无共享笔记</strong><p>Agent 处理结果和关键发现会展示在这里。</p></div>"@
    } else {
        note_cards(s)
    }
}

pub open spec fn goals_text(s: Seq<Seq<char>>) -> Seq<char> {
    if s.len() == 0 {
        "<li class=\"empty-row\">暂无目标</li>"@
    } else {
        joined(s.map_values(|g: Seq<char>| "<li>🎯 "@ + html_text(g) + "</li>"@), ""@)
    }
}

pub open spec fn project_item(p: ProjectModel) -> Seq<char> {
    "<li><strong>📁 "@ + html_text(p.title) + "</strong><p>"@ + html_text(p.summary)
        + "</p></li>"@
}

pub open spec fn projects_text(s: Seq<ProjectModel>) -> Seq<char> {
    if s.len() == 0 {
        "<li class=\"empty-row\">暂无活跃项目</li>"@
    } else {
        joined(s.map_values(|p: ProjectModel| project_item(p)), ""@)
    }
}

pub open spec fn blackboard_text(assets: PageAssets, b: BlackboardModel) -> Seq<char> {
    BLACKBOARD_TO_STYLE@ + assets.style@ + BLACKBOARD_TO_NOTES@ + notes_text(b.notes)
        + BLACKBOARD_TO_GOALS@ + goals_text(b.goals) + BLACKBOARD_TO_PROJECTS@ + projects_text(
        b.projects,
    ) + BLACKBOARD_END@
}

// ---------------------------------------------------------------------------
// Rendering
// ---------------------------------------------------------------------------

/// The page of an error.
pub fn render_error_page(message: &str) -> (r: String)
    ensures
        r@ == error_text(message@),
{
    let mut out = "<h1>".to_string();
    out.append(html_escape(message).as_str());
    out.append("</h1>");
    out
}

pub fn render_login_page(assets: &PageAssets, error: Option<&str>) -> (r: String)
    ensures
        r@ == login_text(*assets, opt_str(error)),
{
    let shown = match error {
        Some(message) => {
            let mut part =
                "<div class=\"error\" role=\"alert\"><span style=\"margin-right:6px\">⚠</span>".to_string();
            part.append(html_escape(message).as_str());
            part.append("</div>");
            part
        },
        None => "".to_string(),
    };
    let mut out = LOGIN_TO_STYLE.to_string();
    out.append(assets.style.as_str());
    out.append(LOGIN_TO_ERROR);
    out.append(shown.as_str());
    out.append(LOGIN_END);
    out
}

pub fn render_interview_page(assets: &PageAssets) -> (r: String)
    ensures
        r@ == interview_text(*assets),
{
    let mut out = INTERVIEW_TO_STYLE.to_string();
    out.append(assets.style.as_str());
    out.append(INTERVIEW_END);
    out
}

pub fn inbox_reply_status_label(status: OfficeInboxReplyStatus) -> (r: &'static str)
    ensures
        r@ == status_label(status),
{
    match status {
        OfficeInboxReplyStatus::NotRequired => "无需回复",
        OfficeInboxReplyStatus::Pending => "待回复",
        OfficeInboxReplyStatus::Replied => "已回复",
    }
}

pub fn inbox_reply_status_value(status: OfficeInboxReplyStatus) -> (r: &'static str)
    ensures
        r@ == status_value(status),
{
    match status {
        OfficeInboxReplyStatus::NotRequired => "not_required",
        OfficeInboxReplyStatus::Pending => "pending",
        OfficeInboxReplyStatus::Replied => "replied",
    }
}

/// A form for the reply to a message.
pub fn render_human_reply_form(message: &OfficeInboxMessage) -> (r: String)
    ensures
        r@ == reply_form_text(message@),
{
    if message.reply_status != OfficeInboxReplyStatus::Pending {
        return "".to_string();
    }
    let mut out = REPLY_FORM_TO_ID.to_string();
    out.append(html_escape(message.message_id.as_str()).as_str());
    out.append(REPLY_FORM_END);
    out
}

fn render_reply_to_code(id: &Option<String>) -> (r: String)
    ensures
        r@ == reply_to_text(crate::text::opt_text(*id)),
{
    match id {
        Some(id) => {
            let mut out = "<code>reply_to: ".to_string();
            out.append(html_escape(id.as_str()).as_str());
            out.append("</code>");
            out
        },
        None => "".to_string(),
    }
}

fn render_message_card(message: &OfficeInboxMessage) -> (r: String)
    ensures
        r@ == message_card(message@),
{
    let id = html_escape(message.message_id.as_str());
    let mut out = "<li class=\"message-card\" data-message-id=\"".to_string();
    out.append(id.as_str());
    out.append("\" data-reply-status=\"");
    out.append(inbox_reply_status_value(message.reply_status));
    out.append("\"><div class=\"message-topline\"><span class=\"inbox-status\">");
    out.append(inbox_reply_status_label(message.reply_status));
    out.append("</span><strong>");
    out.append(html_escape(message.from.as_str()).as_str());
    out.append("</strong></div><p>");
    out.append(html_escape(message.content.as_str()).as_str());
    out.append("</p><div class=\"message-meta\"><code>message_id: ");
    out.append(id.as_str());
    out.append("</code>");
    out.append(render_reply_to_code(&message.reply_to_message_id).as_str());
    out.append("</div>");
    out.append(render_human_reply_form(message).as_str());
    out.append("</li>");
    out
}

/// The cards of the messages, newest first.
pub fn render_human_inbox_items(messages: &Vec<OfficeInboxMessage>) -> (r: String)
    ensures
        r@ == inbox_text(item_models(messages@)),
{
    if messages.len() == 0 {
        return NO_MESSAGES.to_string();
    }
    let ghost s = item_models(messages@);
    let mut out = "".to_string();
    let mut i: usize = messages.len();
    proof {
        reveal_strlit("");
        assert(s.take(i as int) =~= s);
        assert(out@ + message_cards(s) =~= message_cards(s));
    }
    while i > 0
        invariant
            i <= messages@.len(),
            s == item_models(messages@),
            out@ + message_cards(s.take(i as int)) == message_cards(s),
        decreases i,
    {
        let card = render_message_card(&messages[i - 1]);
        proof {
            assert(s.take(i as int).last() == messages@[i - 1]@);
            assert(s.take(i as int).drop_last() =~= s.take(i - 1));
            assert(out@ + (card@ + message_cards(s.take(i - 1))) =~= out@ + card@ + message_cards(
                s.take(i - 1),
            ));
        }
        out.append(card.as_str());
        i = i - 1;
    }
    proof {
        reveal_strlit("");
        assert(out@ + ""@ =~= out@);
    }
    out
}

fn is_given(s: &Option<String>) -> (r: bool)
    ensures
        r == given(crate::text::opt_text(*s)),
{
    match s {
        Some(t) => chars_of(t.as_str()).len() > 0,
        None => false,
    }
}

fn categorize(entry: &OfficeActivityEntry) -> (r: &'static str)
    ensures
        r@ == activity_category(entry@),
{
    let title = entry.title.as_str();
    if is_given(&entry.tool_name) {
        "tool"
    } else if contains_text(title, "工作摘要") || contains_text(title, "计划") {
        "summary"
    } else if contains_text(title, "Agent 输出") || contains_text(title, "Agent 已回复")
        || contains_text(title, "发送给协作") {
        "reply"
    } else {
        "other"
    }
}

fn render_activity_card(entry: &OfficeActivityEntry) -> (r: String)
    ensures
        r@ == activity_card(entry@),
{
    let mut tool = "".to_string();
    if let Some(t) = &entry.tool_name {
        if chars_of(t.as_str()).len() > 0 {
            tool = "<span class=\"activity-tool\">🔧 ".to_string();
            tool.append(html_escape(t.as_str()).as_str());
            tool.append("</span>");
        }
    }
    let mut detail = "".to_string();
    if let Some(t) = &entry.detail {
        if chars_of(t.as_str()).len() > 0 {
            detail = "<div class=\"activity-detail\">".to_string();
            detail.append(html_escape(t.as_str()).as_str());
            detail.append("</div>");
        }
    }
    let mut out = "<li class=\"timeline-card\" data-category=\"".to_string();
    out.append(categorize(entry));
    out.append("\" data-sequence=\"");
    out.append(decimal_of(entry.sequence).as_str());
    out.append("\"><div class=\"timeline-dot\" aria-hidden=\"true\"></div><time>");
    out.append(html_escape(entry.timestamp.to_rfc3339().as_str()).as_str());
    out.append("</time><strong>");
    out.append(html_escape(entry.title.as_str()).as_str());
    out.append("</strong>");
    out.append(tool.as_str());
    out.append("<p>");
    out.append(html_escape(entry.summary.as_str()).as_str());
    out.append("</p>");
    out.append(detail.as_str());
    out.append("</li>");
    out
}

/// The cards of the activities, newest first.
pub fn render_activity_items(entries: &Vec<OfficeActivityEntry>) -> (r: String)
    ensures
        r@ == activity_text(activity_models(entries@)),
{
    if entries.len() == 0 {
        return NO_ACTIVITY.to_string();
    }
    let ghost s = activity_models(entries@);
    let mut out = "".to_string();
    let mut i: usize = entries.len();
    proof {
        reveal_strlit("");
        assert(s.take(i as int) =~= s);
        assert(out@ + activity_cards(s) =~= activity_cards(s));
    }
    while i > 0
        invariant
            i <= entries@.len(),
            s == activity_models(entries@),
            out@ + activity_cards(s.take(i as int)) == activity_cards(s),
        decreases i,
    {
        let card = render_activity_card(&entries[i - 1]);
        proof {
            assert(s.take(i as int).last() == entries@[i - 1]@);
            assert(s.take(i as int).drop_last() =~= s.take(i - 1));
            assert(out@ + (card@ + activity_cards(s.take(i - 1))) =~= out@ + card@ + activity_cards(
                s.take(i - 1),
            ));
        }
        out.append(card.as_str());
        i = i - 1;
    }
    proof {
        reveal_strlit("");
        assert(out@ + ""@ =~= out@);
    }
    out
}

fn label_text(label: &str, text: &str, without: &str) -> (r: String)
    ensures
        r@ == labelled(label@, text@, without@),
{
    if chars_of(text).len() == 0 {
        without.to_string()
    } else {
        let mut out = label.to_string();
        out.append(text);
        out
    }
}

fn first_letter(name: &str) -> (r: String)
    ensures
        r@ == initial(name@),
{
    let chars = chars_of(name);
    if chars.len() > 0 {
        assert(name@.subrange(0, 1) =~= name@.take(1));
        text_of(&chars, 0, 1)
    } else {
        "用".to_string()
    }
}

/// The dashboard of an owner.
pub fn render_dashboard(assets: &PageAssets, me: &OfficeMeResponse) -> (r: String)
    ensures
        r@ == dashboard_text(*assets, *me),
{
    let profile = &me.human_profile;
    let (word, emoji, label) = match me.agent_state.state {
        OfficeAgentExternalState::Idle => ("idle", "🟢", "空闲中"),
        OfficeAgentExternalState::Working => ("working", "🟣", "工作中"),
        OfficeAgentExternalState::Waiting => ("waiting", "🟡", "等待回复"),
    };
    let queued = decimal_of_usize(me.agent_inbox.queued_count);
    let waiting = decimal_of_usize(me.human_inbox.queued_count);
    let capabilities = html_escape(join(&profile.capability_labels, " · ").as_str());
    let avoid = html_escape(join(&profile.do_not_disturb, " · ").as_str());
    let preference = html_escape(profile.report_preference.as_str());
    let last_reflection = match profile.last_reflection_at {
        Some(t) => t.to_rfc3339(),
        None => "尚未复盘".to_string(),
    };
    let mut out = DASHBOARD_TO_STYLE.to_string();
    out.append(assets.style.as_str());
    out.append(DASHBOARD_TO_AGENT_STATE);
    out.append(word);
    out.append(DASHBOARD_TO_STATE_EMOJI);
    out.append(emoji);
    out.append(DASHBOARD_TO_STATE_LABEL);
    out.append(label);
    out.append(DASHBOARD_TO_QUEUED_COUNT);
    out.append(queued.as_str());
    out.append(DASHBOARD_TO_HUMAN_QUEUED_COUNT);
    out.append(waiting.as_str());
    out.append(DASHBOARD_TO_USERNAME_INITIAL);
    out.append(html_escape(first_letter(me.username.as_str()).as_str()).as_str());
    out.append(DASHBOARD_TO_USERNAME);
    out.append(html_escape(me.username.as_str()).as_str());
    out.append(DASHBOARD_TO_USER_ID);
    out.append(html_escape(me.user_id.as_str()).as_str());
    out.append(DASHBOARD_TO_AGENT_ID);
    out.append(html_escape(me.agent_id.as_str()).as_str());
    out.append(DASHBOARD_TO_ROLE);
    out.append(html_escape(profile.role.as_str()).as_str());
    out.append(DASHBOARD_TO_CAPABILITIES);
    out.append(label_text("能力标签：", capabilities.as_str(), "暂无能力标签").as_str());
    out.append(DASHBOARD_TO_AVOID);
    out.append(label_text("勿扰事项：", avoid.as_str(), "暂无勿扰事项").as_str());
    out.append(DASHBOARD_TO_REPORT_PREFERENCE);
    out.append(
        label_text("汇报偏好：", preference.as_str(), "汇报偏好：先结论后细节").as_str(),
    );
    out.append(DASHBOARD_TO_LAST_REFLECTION);
    out.append(html_escape(last_reflection.as_str()).as_str());
    out.append(DASHBOARD_TO_QUEUED_COUNT_AGAIN);
    out.append(queued.as_str());
    out.append(DASHBOARD_TO_HUMAN_QUEUED_COUNT_AGAIN);
    out.append(waiting.as_str());
    out.append(DASHBOARD_TO_HUMAN_INBOX_ITEMS);
    out.append(render_human_inbox_items(&me.human_inbox.messages).as_str());
    out.append(DASHBOARD_TO_ACTIVITY_ITEMS);
    out.append(render_activity_items(&me.agent_activity.entries).as_str());
    out.append(DASHBOARD_TO_DASHBOARD_SCRIPT);
    out.append(assets.script.as_str());
    out.append(DASHBOARD_END);
    out
}

fn render_notes(notes: &Vec<BlackboardNote>) -> (r: String)
    ensures
        r@ == notes_text(notes@.map_values(|n: BlackboardNote| n@)),
{
    if notes.len() == 0 {
        return "<div class=\"empty-state\"><span aria-hidden=\"true\">📝</span><strong>暂无共享笔记</strong><p>Agent 处理结果和关键发现会展示在这里。</p></div>".to_string();
    }
    let ghost s = notes@.map_values(|n: BlackboardNote| n@);
    let mut out = "".to_string();
    let mut i: usize = notes.len();
    proof {
        reveal_strlit("");
        assert(s.take(i as int) =~= s);
        assert(out@ + note_cards(s) =~= note_cards(s));
    }
    while i > 0
        invariant
            i <= notes@.len(),
            s == notes@.map_values(|n: BlackboardNote| n@),
            out@ + note_cards(s.take(i as int)) == note_cards(s),
        decreases i,
    {
        let note = &notes[i - 1];
        let mut card =
            "<article class=\"note-card\">\n                    <div class=\"note-meta\">".to_string();
        card.append(html_escape(note.author_id.as_str()).as_str());
        card.append(" · ");
        card.append(html_escape(note.created_at.to_rfc3339().as_str()).as_str());
        card.append("</div>\n                    <div class=\"note-content\">");
        card.append(html_escape(note.content.as_str()).as_str());
        card.append("</div>\n                    </article>");
        proof {
            assert(s.take(i as int).last() == notes@[i - 1]@);
            assert(card@ == note_card(notes@[i - 1]@));
            assert(s.take(i as int).drop_last() =~= s.take(i - 1));
            assert(out@ + (card@ + note_cards(s.take(i - 1))) =~= out@ + card@ + note_cards(
                s.take(i - 1),
            ));
        }
        out.append(card.as_str());
        i = i - 1;
    }
    proof {
        reveal_strlit("");
        assert(out@ + ""@ =~= out@);
    }
    out
}

fn render_goals(goals: &Vec<String>) -> (r: String)
    ensures
        r@ == goals_text(texts(goals@)),
{
    if goals.len() == 0 {
        return "<li class=\"empty-row\">暂无目标</li>".to_string();
    }
    let ghost all = texts(goals@).map_values(|g: Seq<char>| "<li>🎯 "@ + html_text(g) + "</li>"@);
    let mut parts: Vec<String> = Vec::new();
    let mut i: usize = 0;
    assert(texts(parts@) =~= all.take(0));
    while i < goals.len()
        invariant
            i <= goals@.len(),
            all == texts(goals@).map_values(
                |g: Seq<char>| "<li>🎯 "@ + html_text(g) + "</li>"@,
            ),
            texts(parts@) == all.take(i as int),
        decreases goals@.len() - i,
    {
        let ghost before = texts(parts@);
        let mut part = "<li>🎯 ".to_string();
        part.append(html_escape(goals[i].as_str()).as_str());
        part.append("</li>");
        parts.push(part);
        i = i + 1;
        assert(texts(parts@) =~= before.push(part@));
        assert(all[i - 1] == part@);
        assert(all.take(i as int) =~= all.take(i - 1).push(all[i - 1]));
    }
    assert(all.take(i as int) =~= all);
    join(&parts, "")
}

fn render_projects(projects: &Vec<ProjectState>) -> (r: String)
    ensures
        r@ == projects_text(projects@.map_values(|p: ProjectState| p@)),
{
    if projects.len() == 0 {
        return "<li class=\"empty-row\">暂无活跃项目</li>".to_string();
    }
    let ghost s = projects@.map_values(|p: ProjectState| p@);
    let ghost all = s.map_values(|p: ProjectModel| project_item(p));
    let mut parts: Vec<String> = Vec::new();
    let mut i: usize = 0;
    assert(texts(parts@) =~= all.take(0));
    while i < projects.len()
        invariant
            i <= projects@.len(),
            s == projects@.map_values(|p: ProjectState| p@),
            all == s.map_values(|p: ProjectModel| project_item(p)),
            texts(parts@) == all.take(i as int),
        decreases projects@.len() - i,
    {
        let ghost before = texts(parts@);
        let mut part = "<li><strong>📁 ".to_string();
        part.append(html_escape(projects[i].title.as_str()).as_str());
        part.append("</strong><p>");
        part.append(html_escape(projects[i].summary.as_str()).as_str());
        part.append("</p></li>");
        parts.push(part);
        i = i + 1;
        assert(texts(parts@) =~= before.push(part@));
        assert(all[i - 1] == part@);
        assert(all.take(i as int) =~= all.take(i - 1).push(all[i - 1]));
    }
    assert(all.take(i as int) =~= all);
    join(&parts, "")
}

/// The blackboard.
pub fn render_blackboard_page(assets: &PageAssets, blackboard: &OfficeBlackboard) -> (r: String)
    ensures
        r@ == blackboard_text(*assets, blackboard@),
{
    let mut out = BLACKBOARD_TO_STYLE.to_string();
    out.append(assets.style.as_str());
    out.append(BLACKBOARD_TO_NOTES);
    out.append(render_notes(&blackboard.shared_notes).as_str());
    out.append(BLACKBOARD_TO_GOALS);
    out.append(render_goals(&blackboard.company_goals).as_str());
    out.append(BLACKBOARD_TO_PROJECTS);
    out.append(render_projects(&blackboard.active_projects).as_str());
    out.append(BLACKBOARD_END);
    out
}

// ---------------------------------------------------------------------------
// Laws
// ---------------------------------------------------------------------------

proof fn lemma_shows(d: Seq<char>, label: Seq<char>, item: Seq<char>)
    ensures
        has_text(d + label + item, label + item),
        forall|n: Seq<char>| has_text(d, n) ==> #[trigger] has_text(d + label + item, n),
{
    let all = d + label + item;
    let n = label + item;
    assert(all.subrange(d.len() as int, d.len() + n.len() as int) =~= n);
    assert(occurs_at(all, n, d.len() as int));
    assert forall|n: Seq<char>| has_text(d, n) implies #[trigger] has_text(all, n) by {
        let i = choose|i: int| occurs_at(d, n, i);
        assert(all.subrange(i, i + n.len()) =~= d.subrange(i, i + n.len()));
        assert(occurs_at(all, n, i));
    }
}

/// The dashboard shows, each under its own heading, how the agent stands, how many
/// messages wait for it and for its owner, who the owner is, and their messages and
/// the agent's work. What came from people is escaped.
pub proof fn law_dashboards_show_what_is_told(assets: PageAssets, me: OfficeMeResponse)
    ensures
        ({
            let d = dashboard_text(assets, me);
            let state = me.agent_state.state;
            &&& has_text(
                d,
                DASHBOARD_TO_AGENT_STATE@ + (match state {
                    OfficeAgentExternalState::Idle => "idle"@,
                    OfficeAgentExternalState::Working => "working"@,
                    OfficeAgentExternalState::Waiting => "waiting"@,
                }),
            )
            &&& has_text(
                d,
                DASHBOARD_TO_STATE_LABEL@ + (match state {
                    OfficeAgentExternalState::Idle => "空闲中"@,
                    OfficeAgentExternalState::Working => "工作中"@,
                    OfficeAgentExternalState::Waiting => "等待回复"@,
                }),
            )
            &&& has_text(
                d,
                DASHBOARD_TO_QUEUED_COUNT@ + decimal(me.agent_inbox.queued_count as nat),
            )
            &&& has_text(
                d,
                DASHBOARD_TO_HUMAN_QUEUED_COUNT@ + decimal(me.human_inbox.queued_count as nat),
            )
            &&& has_text(d, DASHBOARD_TO_USERNAME@ + html_text(me.username@))
            &&& has_text(d, DASHBOARD_TO_USER_ID@ + html_text(me.user_id@))
            &&& has_text(d, DASHBOARD_TO_AGENT_ID@ + html_text(me.agent_id@))
            &&& has_text(d, DASHBOARD_TO_ROLE@ + html_text(me.human_profile@.role))
            &&& html_text(me.human_profile@.report_preference).len() > 0 ==> has_text(
                d,
                DASHBOARD_TO_REPORT_PREFERENCE@ + ("汇报偏好："@ + html_text(
                    me.human_profile@.report_preference,
                )),
            )
            &&& html_text(me.human_profile@.report_preference).len() == 0 ==> has_text(
                d,
                DASHBOARD_TO_REPORT_PREFERENCE@ + "汇报偏好：先结论后细节"@,
            )
            &&& html_text(joined(me.human_profile@.capability_labels, " · "@)).len() > 0 ==> has_text(
                d,
                DASHBOARD_TO_CAPABILITIES@ + ("能力标签："@ + html_text(
                    joined(me.human_profile@.capability_labels, " · "@),
                )),
            )
            &&& html_text(joined(me.human_profile@.do_not_disturb, " · "@)).len() > 0 ==> has_text(
                d,
                DASHBOARD_TO_AVOID@ + ("勿扰事项："@ + html_text(
                    joined(me.human_profile@.do_not_disturb, " · "@),
                )),
            )
            &&& has_text(
                d,
                DASHBOARD_TO_HUMAN_INBOX_ITEMS@ + inbox_text(item_models(me.human_inbox.messages@)),
            )
            &&& has_text(
                d,
                DASHBOARD_TO_ACTIVITY_ITEMS@ + activity_text(
                    activity_models(me.agent_activity.entries@),
                ),
            )
        }),
{
    let p = me.human_profile@;
    let state = me.agent_state.state;
    let queued = decimal(me.agent_inbox.queued_count as nat);
    let waiting = decimal(me.human_inbox.queued_count as nat);
    let d0 = DASHBOARD_TO_STYLE@ + assets.style@;
    let d1 = d0 + DASHBOARD_TO_AGENT_STATE@ + state_word(state);
    lemma_shows(d0, DASHBOARD_TO_AGENT_STATE@, state_word(state));
    let d2 = d1 + DASHBOARD_TO_STATE_EMOJI@ + state_emoji(state);
    lemma_shows(d1, DASHBOARD_TO_STATE_EMOJI@, state_emoji(state));
    let d3 = d2 + DASHBOARD_TO_STATE_LABEL@ + state_label(state);
    lemma_shows(d2, DASHBOARD_TO_STATE_LABEL@, state_label(state));
    let d4 = d3 + DASHBOARD_TO_QUEUED_COUNT@ + queued;
    lemma_shows(d3, DASHBOARD_TO_QUEUED_COUNT@, queued);
    let d5 = d4 + DASHBOARD_TO_HUMAN_QUEUED_COUNT@ + waiting;
    lemma_shows(d4, DASHBOARD_TO_HUMAN_QUEUED_COUNT@, waiting);
    let d6 = d5 + DASHBOARD_TO_USERNAME_INITIAL@ + html_text(initial(me.username@));
    lemma_shows(d5, DASHBOARD_TO_USERNAME_INITIAL@, html_text(initial(me.username@)));
    let d7 = d6 + DASHBOARD_TO_USERNAME@ + html_text(me.username@);
    lemma_shows(d6, DASHBOARD_TO_USERNAME@, html_text(me.username@));
    let d8 = d7 + DASHBOARD_TO_USER_ID@ + html_text(me.user_id@);
    lemma_shows(d7, DASHBOARD_TO_USER_ID@, html_text(me.user_id@));
    let d9 = d8 + DASHBOARD_TO_AGENT_ID@ + html_text(me.agent_id@);
    lemma_shows(d8, DASHBOARD_TO_AGENT_ID@, html_text(me.agent_id@));
    let d10 = d9 + DASHBOARD_TO_ROLE@ + html_text(p.role);
    lemma_shows(d9, DASHBOARD_TO_ROLE@, html_text(p.role));
    let d11 = d10 + DASHBOARD_TO_CAPABILITIES@ + labelled("能力标签："@, html_text(joined(p.capability_labels, " · "@)), "暂无能力标签"@);
    lemma_shows(d10, DASHBOARD_TO_CAPABILITIES@, labelled("能力标签："@, html_text(joined(p.capability_labels, " · "@)), "暂无能力标签"@));
    let d12 = d11 + DASHBOARD_TO_AVOID@ + labelled("勿扰事项："@, html_text(joined(p.do_not_disturb, " · "@)), "暂无勿扰事项"@);
    lemma_shows(d11, DASHBOARD_TO_AVOID@, labelled("勿扰事项："@, html_text(joined(p.do_not_disturb, " · "@)), "暂无勿扰事项"@));
    let d13 = d12 + DASHBOARD_TO_REPORT_PREFERENCE@ + labelled("汇报偏好："@, html_text(p.report_preference), "汇报偏好：先结论后细节"@);
    lemma_shows(d12, DASHBOARD_TO_REPORT_PREFERENCE@, labelled("汇报偏好："@, html_text(p.report_preference), "汇报偏好：先结论后细节"@));
    let d14 = d13 + DASHBOARD_TO_LAST_REFLECTION@ + html_text(reflection_text(p.last_reflection_at));
    lemma_shows(d13, DASHBOARD_TO_LAST_REFLECTION@, html_text(reflection_text(p.last_reflection_at)));
    let d15 = d14 + DASHBOARD_TO_QUEUED_COUNT_AGAIN@ + queued;
    lemma_shows(d14, DASHBOARD_TO_QUEUED_COUNT_AGAIN@, queued);
    let d16 = d15 + DASHBOARD_TO_HUMAN_QUEUED_COUNT_AGAIN@ + waiting;
    lemma_shows(d15, DASHBOARD_TO_HUMAN_QUEUED_COUNT_AGAIN@, waiting);
    let d17 = d16 + DASHBOARD_TO_HUMAN_INBOX_ITEMS@ + inbox_text(item_models(me.human_inbox.messages@));
    lemma_shows(d16, DASHBOARD_TO_HUMAN_INBOX_ITEMS@, inbox_text(item_models(me.human_inbox.messages@)));
    let d18 = d17 + DASHBOARD_TO_ACTIVITY_ITEMS@ + activity_text(activity_models(me.agent_activity.entries@));
    lemma_shows(d17, DASHBOARD_TO_ACTIVITY_ITEMS@, activity_text(activity_models(me.agent_activity.entries@)));
    let d19 = d18 + DASHBOARD_TO_DASHBOARD_SCRIPT@ + assets.script@;
    lemma_shows(d18, DASHBOARD_TO_DASHBOARD_SCRIPT@, assets.script@);
    lemma_shows(d19, DASHBOARD_END@, Seq::empty());
    assert(d19 + DASHBOARD_END@ + Seq::<char>::empty() =~= d19 + DASHBOARD_END@);
    assert(dashboard_text(assets, me) == d19 + DASHBOARD_END@);
}

/// The blackboard shows its notes, goals and projects, each under its own heading.
pub proof fn law_blackboards_show_what_is_on_them(assets: PageAssets, b: BlackboardModel)
    ensures
        has_text(blackboard_text(assets, b), BLACKBOARD_TO_NOTES@ + notes_text(b.notes)),
        has_text(blackboard_text(assets, b), BLACKBOARD_TO_GOALS@ + goals_text(b.goals)),
        has_text(blackboard_text(assets, b), BLACKBOARD_TO_PROJECTS@ + projects_text(b.projects)),
{
    let d0 = BLACKBOARD_TO_STYLE@ + assets.style@;
    let d1 = d0 + BLACKBOARD_TO_NOTES@ + notes_text(b.notes);
    lemma_shows(d0, BLACKBOARD_TO_NOTES@, notes_text(b.notes));
    let d2 = d1 + BLACKBOARD_TO_GOALS@ + goals_text(b.goals);
    lemma_shows(d1, BLACKBOARD_TO_GOALS@, goals_text(b.goals));
    let d3 = d2 + BLACKBOARD_TO_PROJECTS@ + projects_text(b.projects);
    lemma_shows(d2, BLACKBOARD_TO_PROJECTS@, projects_text(b.projects));
    lemma_shows(d3, BLACKBOARD_END@, Seq::empty());
    assert(d3 + BLACKBOARD_END@ + Seq::<char>::empty() =~= d3 + BLACKBOARD_END@);
}

/// What came last stands first: messages, activities and notes.
pub proof fn law_newest_cards_stand_first(
    s: Seq<ItemModel>,
    m: ItemModel,
    a: Seq<ActivityModel>,
    e: ActivityModel,
    n: Seq<NoteModel>,
    o: NoteModel,
)
    ensures
        inbox_text(s.push(m)) == message_card(m) + message_cards(s),
        activity_text(a.push(e)) == activity_card(e) + activity_cards(a),
        notes_text(n.push(o)) == note_card(o) + note_cards(n),
        s.len() > 0 ==> inbox_text(s) == message_cards(s),
        a.len() > 0 ==> activity_text(a) == activity_cards(a),
        n.len() > 0 ==> notes_text(n) == note_cards(n),
{
    assert(s.push(m).drop_last() =~= s);
    assert(a.push(e).drop_last() =~= a);
    assert(n.push(o).drop_last() =~= n);
}

/// A reply is asked for just where one is still to come, and it names the message that
/// it answers.
pub proof fn law_forms_are_for_pending_replies(m: ItemModel)
    ensures
        m.reply_status != OfficeInboxReplyStatus::Pending ==> reply_form_text(m).len() == 0,
        m.reply_status == OfficeInboxReplyStatus::Pending ==> reply_form_text(m) == REPLY_FORM_TO_ID@
            + html_text(m.message_id) + REPLY_FORM_END@,
        m.reply_status == OfficeInboxReplyStatus::Pending ==> status_label(m.reply_status) == "待回复"@
            && status_value(m.reply_status) == "pending"@,
        m.reply_status == OfficeInboxReplyStatus::Replied ==> status_label(m.reply_status) == "已回复"@
            && status_value(m.reply_status) == "replied"@,
        m.reply_status == OfficeInboxReplyStatus::NotRequired ==> status_label(m.reply_status)
            == "无需回复"@ && status_value(m.reply_status) == "not_required"@,
{
    reveal_strlit("");
}

/// A card shows whom a message is from, what it says and what it answers, escaped.
pub proof fn law_cards_show_the_message(m: ItemModel)
    ensures
        has_text(message_card(m), "</span><strong>"@ + html_text(m.from)),
        has_text(message_card(m), "</strong></div><p>"@ + html_text(m.content)),
        has_text(
            message_card(m),
            "</p><div class=\"message-meta\"><code>message_id: "@ + html_text(m.message_id),
        ),
        m.reply_to_message_id matches Some(id) ==> has_text(
            message_card(m),
            "</code>"@ + ("<code>reply_to: "@ + html_text(id) + "</code>"@),
        ),
        m.reply_status == OfficeInboxReplyStatus::Pending ==> has_text(
            message_card(m),
            "</div>"@ + reply_form_text(m),
        ),
{
    let d0 = "<li class=\"message-card\" data-message-id=\""@ + html_text(m.message_id)
        + "\" data-reply-status=\""@ + status_value(m.reply_status)
        + "\"><div class=\"message-topline\"><span class=\"inbox-status\">"@ + status_label(
        m.reply_status,
    );
    let d1 = d0 + "</span><strong>"@ + html_text(m.from);
    lemma_shows(d0, "</span><strong>"@, html_text(m.from));
    let d2 = d1 + "</strong></div><p>"@ + html_text(m.content);
    lemma_shows(d1, "</strong></div><p>"@, html_text(m.content));
    let l3 = "</p><div class=\"message-meta\"><code>message_id: "@;
    let d3 = d2 + l3 + html_text(m.message_id);
    lemma_shows(d2, l3, html_text(m.message_id));
    let d4 = d3 + "</code>"@ + reply_to_text(m.reply_to_message_id);
    lemma_shows(d3, "</code>"@, reply_to_text(m.reply_to_message_id));
    let d5 = d4 + "</div>"@ + reply_form_text(m);
    lemma_shows(d4, "</div>"@, reply_form_text(m));
    lemma_shows(d5, "</li>"@, Seq::empty());
    assert(d5 + "</li>"@ + Seq::<char>::empty() =~= d5 + "</li>"@);
    assert(message_card(m) == d5 + "</li>"@);
}

/// Activities are shown under tools, summaries, replies or the rest: one with a tool is
/// under tools, whatever its title.
pub proof fn law_activities_are_shown_by_category(e: ActivityModel)
    ensures
        e.tool_name is Some && e.tool_name->0.len() > 0 ==> activity_category(e) == "tool"@,
        !(e.tool_name is Some && e.tool_name->0.len() > 0) && (has_text(e.title, "工作摘要"@)
            || has_text(e.title, "计划"@)) ==> activity_category(e) == "summary"@,
        !(e.tool_name is Some && e.tool_name->0.len() > 0) && !has_text(e.title, "工作摘要"@)
            && !has_text(e.title, "计划"@) && (has_text(e.title, "Agent 输出"@) || has_text(
            e.title,
            "Agent 已回复"@,
        ) || has_text(e.title, "发送给协作"@)) ==> activity_category(e) == "reply"@,
{
}

/// Errors are shown escaped, on the page of an error and on that of the login.
pub proof fn law_errors_are_shown(assets: PageAssets, message: Seq<char>)
    ensures
        error_text(message) == "<h1>"@ + html_text(message) + "</h1>"@,
        has_text(
            login_text(assets, Some(message)),
            LOGIN_TO_ERROR@ + login_error(Some(message)),
        ),
        has_text(login_error(Some(message)), html_text(message)),
        login_error(None).len() == 0,
{
    reveal_strlit("");
    let d0 = LOGIN_TO_STYLE@ + assets.style@;
    let d1 = d0 + LOGIN_TO_ERROR@ + login_error(Some(message));
    lemma_shows(d0, LOGIN_TO_ERROR@, login_error(Some(message)));
    lemma_shows(d1, LOGIN_END@, Seq::empty());
    assert(d1 + LOGIN_END@ + Seq::<char>::empty() =~= d1 + LOGIN_END@);
    let h = "<div class=\"error\" role=\"alert\"><span style=\"margin-right:6px\">⚠</span>"@;
    let n = html_text(message);
    let all = h + n + "</div>"@;
    assert(all.subrange(h.len() as int, h.len() + n.len() as int) =~= n);
    assert(occurs_at(all, n, h.len() as int));
}

} // verus!
