//! The working directory that a prompt speaks of.
use crate::text::{blank, is_blank, opt_str};
use vstd::prelude::*;

verus! {

/// The root of the workspace as tools see it behind a gateway.
pub const LOGICAL_WORKSPACE_ROOT: &'static str = "/workspace";

/// The directory a prompt speaks of.
pub open spec fn shown_cwd(real_cwd: Seq<char>, gateway: bool) -> Seq<char> {
    if gateway {
        LOGICAL_WORKSPACE_ROOT@
    } else {
        real_cwd
    }
}

/// Whether the address of a tool gateway is set.
pub open spec fn gateway_is_set(url: Option<Seq<char>>) -> bool {
    url matches Some(u) && !blank(u)
}

/// The directory a prompt speaks of, where the gateway's address is `url`.
pub fn prompt_cwd(real_cwd: &str, url: Option<&str>) -> (r: String)
    ensures
        r@ == shown_cwd(real_cwd@, gateway_is_set(opt_str(url))),
{
    prompt_cwd_for_gateway(real_cwd, http_tool_gateway_enabled_from_env(url))
}

/// The directory a prompt speaks of.
pub fn prompt_cwd_for_gateway(real_cwd: &str, gateway_enabled: bool) -> (r: String)
    ensures
        r@ == shown_cwd(real_cwd@, gateway_enabled),
{
    if gateway_enabled {
        LOGICAL_WORKSPACE_ROOT.to_string()
    } else {
        real_cwd.to_string()
    }
}

/// Whether the address of a tool gateway, as the environment holds it, is set.
pub fn http_tool_gateway_enabled_from_env(url: Option<&str>) -> (r: bool)
    ensures
        r == gateway_is_set(opt_str(url)),
{
    match url {
        Some(u) => !is_blank(u),
        None => false,
    }
}

/// Behind a gateway a prompt speaks of the logical root; else of the directory itself.
/// An address that is blank sets no gateway.
pub proof fn law_prompts_speak_of_the_directory(real_cwd: Seq<char>, url: Option<Seq<char>>)
    ensures
        url is None || blank(url->0) ==> shown_cwd(real_cwd, gateway_is_set(url)) == real_cwd,
        url is Some && !blank(url->0) ==> shown_cwd(real_cwd, gateway_is_set(url))
            == "/workspace"@,
{
}

} // verus!
