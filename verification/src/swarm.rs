//! Which instructions a session of a swarm is given. A prompt stands for itself by
//! the name of its template.
use crate::protocol::{SessionSource, SpawnedAgentType, SubAgentSource};
use crate::text::{lower, lowered, opt_str, same_text, trim, trimmed};
use vstd::prelude::*;

verus! {

pub const WECODE_SWARM_COMPLEX_ENV_VAR: &'static str = "WECODE_SWARM_COMPLEX";

pub const CODEX_SWARM_COMPLEX_ENV_VAR: &'static str = "CODEX_SWARM_COMPLEX";

pub const COLLABORATION_MODE_SWARM_MAIN: &'static str = "swarm_main.md";

pub const COLLABORATION_MODE_SWARM_MAIN_COMPLEX: &'static str = "swarm_main_complex.md";

pub const COLLABORATION_MODE_SWARM_SUB: &'static str = "swarm_sub.md";

pub const COLLABORATION_MODE_SWARM_SUB_COMPLEX: &'static str = "swarm_sub_complex.md";

pub const COLLABORATION_MODE_SWARM_SUB_WORKER: &'static str = "swarm_sub_worker.md";

pub const COLLABORATION_MODE_SWARM_SUB_WORKER_COMPLEX: &'static str = "swarm_sub_worker_complex.md";

pub const COLLABORATION_MODE_SWARM_SUB_EXPLORER: &'static str = "swarm_sub_explorer.md";

pub const COLLABORATION_MODE_SWARM_SUB_EXPLORER_COMPLEX: &'static str =
    "swarm_sub_explorer_complex.md";

pub const COLLABORATION_MODE_SWARM_SUB_VERIFIER: &'static str = "swarm_sub_verifier.md";

pub const COLLABORATION_MODE_SWARM_SUB_VERIFIER_COMPLEX: &'static str =
    "swarm_sub_verifier_complex.md";

/// Whether a setting is on: it is there, and does not say no.
pub open spec fn truthy(raw: Option<Seq<char>>) -> bool {
    match raw {
        Some(v) => {
            let t = lower(trim(v));
            t != ""@ && t != "0"@ && t != "false"@ && t != "no"@ && t != "off"@
        },
        None => false,
    }
}

/// The prompt of a sub-agent.
pub open spec fn sub_prompt(complex: bool, agent_type: Option<SpawnedAgentType>) -> Seq<char> {
    match agent_type {
        Some(SpawnedAgentType::Worker) => if complex {
            COLLABORATION_MODE_SWARM_SUB_WORKER_COMPLEX@
        } else {
            COLLABORATION_MODE_SWARM_SUB_WORKER@
        },
        Some(SpawnedAgentType::Explorer) => if complex {
            COLLABORATION_MODE_SWARM_SUB_EXPLORER_COMPLEX@
        } else {
            COLLABORATION_MODE_SWARM_SUB_EXPLORER@
        },
        Some(SpawnedAgentType::Verifier) => if complex {
            COLLABORATION_MODE_SWARM_SUB_VERIFIER_COMPLEX@
        } else {
            COLLABORATION_MODE_SWARM_SUB_VERIFIER@
        },
        None => if complex {
            COLLABORATION_MODE_SWARM_SUB_COMPLEX@
        } else {
            COLLABORATION_MODE_SWARM_SUB@
        },
    }
}

pub open spec fn root_prompt(complex: bool) -> Seq<char> {
    if complex {
        COLLABORATION_MODE_SWARM_MAIN_COMPLEX@
    } else {
        COLLABORATION_MODE_SWARM_MAIN@
    }
}

/// The prompt of a session.
pub open spec fn session_prompt(source: SessionSource, complex: bool) -> Seq<char> {
    match source {
        SessionSource::SubAgent(SubAgentSource::ThreadSpawn { agent_type, .. }) => sub_prompt(
            complex,
            agent_type,
        ),
        SessionSource::SubAgent(_) => sub_prompt(complex, None),
        _ => root_prompt(complex),
    }
}

/// Whether a setting is on.
pub fn env_truthy(raw: Option<&str>) -> (r: bool)
    ensures
        r == truthy(opt_str(raw)),
{
    match raw {
        Some(v) => {
            let t = lowered(trimmed(v));
            let s = t.as_str();
            !same_text(s, "") && !same_text(s, "0") && !same_text(s, "false") && !same_text(s, "no")
                && !same_text(s, "off")
        },
        None => false,
    }
}

/// Whether either of the two settings of the environment is on.
pub fn complex_swarm_enabled_from_env(wecode: Option<&str>, codex: Option<&str>) -> (r: bool)
    ensures
        r == (truthy(opt_str(wecode)) || truthy(opt_str(codex))),
{
    env_truthy(wecode) || env_truthy(codex)
}

/// The prompt of a sub-agent.
pub fn subagent_prompt_for_type(root_complex: bool, agent_type: Option<SpawnedAgentType>) -> (r:
    &'static str)
    ensures
        r@ == sub_prompt(root_complex, agent_type),
{
    match agent_type {
        Some(SpawnedAgentType::Worker) => if root_complex {
            COLLABORATION_MODE_SWARM_SUB_WORKER_COMPLEX
        } else {
            COLLABORATION_MODE_SWARM_SUB_WORKER
        },
        Some(SpawnedAgentType::Explorer) => if root_complex {
            COLLABORATION_MODE_SWARM_SUB_EXPLORER_COMPLEX
        } else {
            COLLABORATION_MODE_SWARM_SUB_EXPLORER
        },
        Some(SpawnedAgentType::Verifier) => if root_complex {
            COLLABORATION_MODE_SWARM_SUB_VERIFIER_COMPLEX
        } else {
            COLLABORATION_MODE_SWARM_SUB_VERIFIER
        },
        None => if root_complex {
            COLLABORATION_MODE_SWARM_SUB_COMPLEX
        } else {
            COLLABORATION_MODE_SWARM_SUB
        },
    }
}

/// The prompt of a session.
pub fn swarm_developer_instructions_for_session_source(
    session_source: &SessionSource,
    root_complex: bool,
) -> (r: &'static str)
    ensures
        r@ == session_prompt(*session_source, root_complex),
{
    match session_source {
        SessionSource::SubAgent(SubAgentSource::ThreadSpawn { agent_type, .. }) => {
            subagent_prompt_for_type(root_complex, *agent_type)
        },
        SessionSource::SubAgent(_) => subagent_prompt_for_type(root_complex, None),
        _ => if root_complex {
            complex_root_swarm_developer_instructions()
        } else {
            standard_root_swarm_developer_instructions()
        },
    }
}

/// Whether the root of a swarm is complex by default.
pub fn default_root_swarm_is_complex(wecode: Option<&str>, codex: Option<&str>) -> (r: bool)
    ensures
        r == (truthy(opt_str(wecode)) || truthy(opt_str(codex))),
{
    complex_swarm_enabled_from_env(wecode, codex)
}

pub fn complex_root_swarm_developer_instructions() -> (r: &'static str)
    ensures
        r@ == root_prompt(true),
{
    COLLABORATION_MODE_SWARM_MAIN_COMPLEX
}

pub fn standard_root_swarm_developer_instructions() -> (r: &'static str)
    ensures
        r@ == root_prompt(false),
{
    COLLABORATION_MODE_SWARM_MAIN
}

/// A setting is off where it is not there, says nothing or says no; all else is on.
pub proof fn law_settings_are_off_where_they_say_no(raw: Option<Seq<char>>)
    ensures
        raw is None ==> !truthy(raw),
        raw matches Some(v) ==> (truthy(raw) <==> !(lower(trim(v)) == ""@ || lower(trim(v)) == "0"@
            || lower(trim(v)) == "false"@ || lower(trim(v)) == "no"@ || lower(trim(v)) == "off"@)),
{
}

/// The root of a swarm is told the prompt of a root, and a sub-agent that of its type;
/// a complex swarm has prompts of its own.
pub proof fn law_prompts_are_by_place_and_type(source: SessionSource, complex: bool)
    ensures
        !(source is SubAgent) && !complex ==> session_prompt(source, complex) == "swarm_main.md"@,
        !(source is SubAgent) && complex ==> session_prompt(source, complex)
            == "swarm_main_complex.md"@,
        source matches SessionSource::SubAgent(sub) ==> match sub {
            SubAgentSource::ThreadSpawn { agent_type: Some(t), .. } => match t {
                SpawnedAgentType::Worker => session_prompt(source, complex) == (if complex {
                    "swarm_sub_worker_complex.md"@
                } else {
                    "swarm_sub_worker.md"@
                }),
                SpawnedAgentType::Explorer => session_prompt(source, complex) == (if complex {
                    "swarm_sub_explorer_complex.md"@
                } else {
                    "swarm_sub_explorer.md"@
                }),
                SpawnedAgentType::Verifier => session_prompt(source, complex) == (if complex {
                    "swarm_sub_verifier_complex.md"@
                } else {
                    "swarm_sub_verifier.md"@
                }),
            },
            _ => session_prompt(source, complex) == (if complex {
                "swarm_sub_complex.md"@
            } else {
                "swarm_sub.md"@
            }),
        },
{
}

} // verus!
