//! The instructions that an office agent is given.
use crate::markup::{escape_xml_text, xml_text};
use crate::text::{
    blank, decimal, decimal_of, is_blank, join, joined, opt_text, replace_text, replaced, texts,
    trim, trim_end, trim_end_str, trimmed,
};
use vstd::prelude::*;

verus! {

pub const OWNER_BINDING_TEMPLATE: &'static str =
    "<office_owner_binding schema_version=\"1\">\nagent_id: {{AGENT_ID}}\nowner_user_id: {{OWNER_USER_ID}}\nbinding_type: {{BINDING_TYPE}}\nbinding_status: {{BINDING_STATUS}}\nbinding_version: {{BINDING_VERSION}}\n</office_owner_binding>\n";

pub const FIXED_ROSTER_TEMPLATE: &'static str =
    "## Office Directory\n\n### Fixed agent roster\n\n- agent_ceo: CEO\n- agent_a: Agent A\n- agent_b: Agent B\n- agent_c: Agent C\n- agent_d: Agent D\n- agent_e: Agent E\n\n### Human owners\n\n{{HUMAN_PARTICIPANTS}}\n";

pub const OFFICE_COLLABORATION_RULES_TEMPLATE: &'static str =
    "## Office Collaboration Rules\n\n### Routing\n\n- Send work to the agent whose owner is responsible for it.\n- When the question depends on your own domain owner, ask that owner first.\n\n### Owner completion\n\n- Answer every message of your owner that needs a reply, and name the message you answer.\n\n### Human collaboration\n\n- Humans are strong working partners.\n- Do not reduce human interaction to permission requests.\n- State your current understanding or working hypothesis before you ask.\n- Ask for a human challenge review after agent-agent synthesis.\n";

pub const OWNER_TURN_CONTEXT_TEMPLATE: &'static str =
    "## Office Turn Context\n\ntarget_agent_id: {{AGENT_ID}}\nowner_user_id: {{OWNER_USER_ID}}\ninbound_reply_to_message_id: {{INBOUND_REPLY_TO_MESSAGE_ID}}\nowner_message_id: {{OWNER_MESSAGE_ID}}\nowner_message_needs_reply: {{OWNER_MESSAGE_NEEDS_REPLY}}\nowner_reply_target_message_id: {{OWNER_REPLY_TARGET_MESSAGE_ID}}\n";

pub const DEVELOPER_TITLE: &'static str = "# Office Agent Developer Instructions";

/// Whom an agent works for.
#[derive(Clone, Debug, Eq, PartialEq)]
pub struct OfficeOwnerPromptContext {
    pub agent_id: String,
    pub owner_user_id: String,
    pub binding_type: String,
    pub binding_status: String,
    pub binding_version: u64,
}

pub open spec fn owner_binding_text(c: OfficeOwnerPromptContext) -> Seq<char> {
    let a = replaced(OWNER_BINDING_TEMPLATE@, "{{AGENT_ID}}"@, xml_text(c.agent_id@));
    let b = replaced(a, "{{OWNER_USER_ID}}"@, xml_text(c.owner_user_id@));
    let d = replaced(b, "{{BINDING_TYPE}}"@, xml_text(c.binding_type@));
    let e = replaced(d, "{{BINDING_STATUS}}"@, xml_text(c.binding_status@));
    trim(replaced(e, "{{BINDING_VERSION}}"@, decimal(c.binding_version as nat)))
}

pub open spec fn directory_text(people: Seq<char>) -> Seq<char> {
    trim(replaced(FIXED_ROSTER_TEMPLATE@, "{{HUMAN_PARTICIPANTS}}"@, trim(people)))
}

/// What an office agent is told: whom it works for, who is there, and how they
/// work together.
pub open spec fn developer_text(c: OfficeOwnerPromptContext, people: Seq<char>) -> Seq<char> {
    joined(
        seq![
            DEVELOPER_TITLE@,
            owner_binding_text(c),
            directory_text(people),
            trim(OFFICE_COLLABORATION_RULES_TEMPLATE@),
        ],
        "\n\n"@,
    )
}

pub open spec fn bool_text(b: bool) -> Seq<char> {
    if b {
        "true"@
    } else {
        "false"@
    }
}

/// What an agent is told of a message of its owner.
pub open spec fn turn_text(
    agent: Seq<char>,
    owner: Seq<char>,
    message: Seq<char>,
    reply_to: Seq<char>,
    needs_reply: bool,
    target: Option<Seq<char>>,
) -> Seq<char> {
    let a = replaced(OWNER_TURN_CONTEXT_TEMPLATE@, "{{AGENT_ID}}"@, xml_text(agent));
    let b = replaced(a, "{{OWNER_USER_ID}}"@, xml_text(owner));
    let d = replaced(b, "{{INBOUND_REPLY_TO_MESSAGE_ID}}"@, xml_text(reply_to));
    let e = replaced(d, "{{OWNER_MESSAGE_ID}}"@, xml_text(message));
    let f = replaced(e, "{{OWNER_MESSAGE_NEEDS_REPLY}}"@, bool_text(needs_reply));
    let g = replaced(
        f,
        "{{OWNER_REPLY_TARGET_MESSAGE_ID}}"@,
        xml_text(
            match target {
                Some(t) => t,
                None => "none"@,
            },
        ),
    );
    "\n\n"@ + trim(g)
}

fn render_owner_binding(context: &OfficeOwnerPromptContext) -> (r: String)
    ensures
        r@ == owner_binding_text(*context),
{
    proof {
        reveal_strlit("{{AGENT_ID}}");
        reveal_strlit("{{OWNER_USER_ID}}");
        reveal_strlit("{{BINDING_TYPE}}");
        reveal_strlit("{{BINDING_STATUS}}");
        reveal_strlit("{{BINDING_VERSION}}");
    }
    let a = replace_text(
        OWNER_BINDING_TEMPLATE,
        "{{AGENT_ID}}",
        escape_xml_text(context.agent_id.as_str()).as_str(),
    );
    let b = replace_text(
        a.as_str(),
        "{{OWNER_USER_ID}}",
        escape_xml_text(context.owner_user_id.as_str()).as_str(),
    );
    let d = replace_text(
        b.as_str(),
        "{{BINDING_TYPE}}",
        escape_xml_text(context.binding_type.as_str()).as_str(),
    );
    let e = replace_text(
        d.as_str(),
        "{{BINDING_STATUS}}",
        escape_xml_text(context.binding_status.as_str()).as_str(),
    );
    let f = replace_text(
        e.as_str(),
        "{{BINDING_VERSION}}",
        decimal_of(context.binding_version).as_str(),
    );
    trimmed(f.as_str()).to_string()
}

fn render_office_directory(human_participants: &str) -> (r: String)
    ensures
        r@ == directory_text(human_participants@),
{
    proof {
        reveal_strlit("{{HUMAN_PARTICIPANTS}}");
    }
    let a = replace_text(
        FIXED_ROSTER_TEMPLATE,
        "{{HUMAN_PARTICIPANTS}}",
        trimmed(human_participants),
    );
    trimmed(a.as_str()).to_string()
}

/// What an office agent is told.
pub fn render_office_agent_developer_instructions(
    owner_context: &OfficeOwnerPromptContext,
    human_participants: &str,
) -> (r: String)
    ensures
        r@ == developer_text(*owner_context, human_participants@),
{
    let mut parts: Vec<String> = Vec::new();
    parts.push(DEVELOPER_TITLE.to_string());
    parts.push(render_owner_binding(owner_context));
    parts.push(render_office_directory(human_participants));
    parts.push(trimmed(OFFICE_COLLABORATION_RULES_TEMPLATE).to_string());
    assert(texts(parts@) =~= seq![
        DEVELOPER_TITLE@,
        owner_binding_text(*owner_context),
        directory_text(human_participants@),
        trim(OFFICE_COLLABORATION_RULES_TEMPLATE@),
    ]);
    join(&parts, "\n\n")
}

/// The instructions of an agent that has some already: those of the office behind them.
pub open spec fn merged_instructions(existing: Option<String>, office: Seq<char>) -> Seq<char> {
    match existing {
        Some(e) => if blank(e@) {
            office
        } else {
            trim_end(e@) + "\n\n"@ + office
        },
        None => office,
    }
}

/// The instructions that are there already, and behind them those of the office.
pub fn merge_office_developer_instructions(existing: Option<String>, office_prompt: String) -> (r:
    Option<String>)
    ensures
        opt_text(r) == Some(merged_instructions(existing, office_prompt@)),
{
    if let Some(e) = existing {
        if !is_blank(e.as_str()) {
            let mut out = trim_end_str(e.as_str()).to_string();
            out.append("\n\n");
            out.append(office_prompt.as_str());
            return Some(out);
        }
    }
    Some(office_prompt)
}

/// What an agent is told of a message of its owner.
pub fn render_owner_turn_context(
    agent_id: &str,
    owner_user_id: &str,
    owner_message_id: &str,
    reply_to_message_id: &str,
    owner_message_needs_reply: bool,
    owner_reply_target_message_id: Option<&str>,
) -> (r: String)
    ensures
        r@ == turn_text(
            agent_id@,
            owner_user_id@,
            owner_message_id@,
            reply_to_message_id@,
            owner_message_needs_reply,
            crate::text::opt_str(owner_reply_target_message_id),
        ),
{
    proof {
        reveal_strlit("{{AGENT_ID}}");
        reveal_strlit("{{OWNER_USER_ID}}");
        reveal_strlit("{{INBOUND_REPLY_TO_MESSAGE_ID}}");
        reveal_strlit("{{OWNER_MESSAGE_ID}}");
        reveal_strlit("{{OWNER_MESSAGE_NEEDS_REPLY}}");
        reveal_strlit("{{OWNER_REPLY_TARGET_MESSAGE_ID}}");
    }
    let a = replace_text(
        OWNER_TURN_CONTEXT_TEMPLATE,
        "{{AGENT_ID}}",
        escape_xml_text(agent_id).as_str(),
    );
    let b = replace_text(
        a.as_str(),
        "{{OWNER_USER_ID}}",
        escape_xml_text(owner_user_id).as_str(),
    );
    let d = replace_text(
        b.as_str(),
        "{{INBOUND_REPLY_TO_MESSAGE_ID}}",
        escape_xml_text(reply_to_message_id).as_str(),
    );
    let e = replace_text(
        d.as_str(),
        "{{OWNER_MESSAGE_ID}}",
        escape_xml_text(owner_message_id).as_str(),
    );
    let flag = if owner_message_needs_reply {
        "true"
    } else {
        "false"
    };
    let f = replace_text(e.as_str(), "{{OWNER_MESSAGE_NEEDS_REPLY}}", flag);
    let target = match owner_reply_target_message_id {
        Some(t) => t,
        None => "none",
    };
    let g = replace_text(
        f.as_str(),
        "{{OWNER_REPLY_TARGET_MESSAGE_ID}}",
        escape_xml_text(target).as_str(),
    );
    let mut out = "\n\n".to_string();
    out.append(trimmed(g.as_str()));
    out
}

/// What an agent is told of its office begins with the title, ends with the rules of
/// working together, and tells its owner and the people in between, in that order.
pub proof fn law_instructions_tell_owner_people_and_rules(
    c: OfficeOwnerPromptContext,
    people: Seq<char>,
)
    ensures
        developer_text(c, people) == DEVELOPER_TITLE@ + "\n\n"@ + owner_binding_text(c) + "\n\n"@
            + directory_text(people) + "\n\n"@ + trim(OFFICE_COLLABORATION_RULES_TEMPLATE@),
{
    let s = seq![
        DEVELOPER_TITLE@,
        owner_binding_text(c),
        directory_text(people),
        trim(OFFICE_COLLABORATION_RULES_TEMPLATE@),
    ];
    let t = s.drop_last();
    let u = t.drop_last();
    let v = u.drop_last();
    assert(v =~= seq![DEVELOPER_TITLE@]);
    assert(joined(v, "\n\n"@) == DEVELOPER_TITLE@);
    assert(joined(u, "\n\n"@) == joined(v, "\n\n"@) + "\n\n"@ + u.last());
    assert(joined(t, "\n\n"@) == joined(u, "\n\n"@) + "\n\n"@ + t.last());
}

/// Instructions that an agent has stay before those of the office, which stand last
/// and whole in any case.
pub proof fn law_instructions_are_kept(existing: Option<String>, office: Seq<char>)
    ensures
        existing is None || blank(existing->0@) ==> merged_instructions(existing, office) == office,
        existing is Some && !blank(existing->0@) ==> merged_instructions(existing, office)
            == trim_end(existing->0@) + "\n\n"@ + office,
        merged_instructions(existing, office).len() >= office.len(),
{
}

} // verus!
