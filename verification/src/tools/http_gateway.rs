//! The execution gateway: how a request to run a tool becomes a command in the
//! container of a company, and what is answered.
//!
//! What the file system, the container runtime and the parsers of arguments and
//! patches say comes from outside. A request is planned from what is known so
//! far: the plan either stands, or is refused, or names what has to be found out
//! first.
use crate::json::{json_quoted, quote_json};
use crate::office::tools::{
    allows, denial, GatewayDecision, PolicyModel, ToolCapabilityPolicy,
};
use crate::paths::{
    below, is_absolute, join_paths, law_below_has_the_other_names, law_joined_path_has_all_names,
    lies_in, names, normal, path_is_absolute, path_join, path_names, resolved,
};
use crate::protocol::{FunctionOutput, SandboxPermissions};
use crate::table::Table;
use crate::text::{
    begins, blank, chars_of, clone_texts, contains_text, decimal, decimal_of, decimal_of_i64,
    decimal_of_usize, has_text, is_space, is_white, lines, lower, lowered, opt_str, opt_text, replaced,
    same_text, signed_decimal, text_of, texts, trim, trimmed,
};
use crate::tools::gateway::{GatewayToolPayload, GatewayToolRequest, GatewayToolResponse};
use crate::tools::scripts::{GREP_FILES_SCRIPT, LIST_DIR_SCRIPT, READ_FILE_SCRIPT};
use crate::tools::workspace_paths::{
    ancestor_inside, backend_error_text, canonical_existing_path_inside_workspace, canonical_inside,
    canonical_path_inside_workspace, container_lines, container_patch, container_path, existing_inside, follow,
    host_patch, host_path, input_path, inside_container, nul_text, patch_path, path_answers, refuse,
    reject_nul, rejected, resolve_inside, resolve_patch_path, resolve_workdir,
    rewrite_apply_patch_absolute_paths, rewrite_apply_patch_paths_to_host, target_models,
    targets_inside, text_step, validate_targets, working_directory, ErrorModel,
    GatewayBackendError, GatewayNeed, NeedModel, PathAnswer, PathModel, Step, StepModel,
    WriteTarget, CONTAINER_WORKSPACE_ROOT,
};
use vstd::prelude::*;
use vstd::utf8::{decode_utf8, valid_utf8};

verus! {

/// How long a command may take if nobody says, in milliseconds.
pub const DEFAULT_DOCKER_TIMEOUT_MS: u64 = 30000;

/// How long a command may take at all, in milliseconds.
pub const MAX_DOCKER_TIMEOUT_MS: u64 = 600000;

/// The exit code of a command that took too long.
pub const DOCKER_TIMEOUT_EXIT_CODE: i32 = 124;

// ---------------------------------------------------------------------------
// The settings
// ---------------------------------------------------------------------------

#[derive(Clone, Debug)]
pub struct DockerGatewayConfig {
    pub image: String,
    pub workspace_root: String,
    pub docker_binary: String,
    pub uid_gid: Option<String>,
    pub memory_limit: String,
    pub cpu_limit: String,
    pub pids_limit: u32,
    pub default_timeout_ms: u64,
    pub max_timeout_ms: u64,
    pub default_company_id: String,
    pub container_name_prefix: String,
}

#[verifier::ext_equal]
pub struct ConfigModel {
    pub image: Seq<char>,
    pub workspace_root: Seq<char>,
    pub docker_binary: Seq<char>,
    pub uid_gid: Option<Seq<char>>,
    pub memory_limit: Seq<char>,
    pub cpu_limit: Seq<char>,
    pub pids_limit: u32,
    pub default_timeout_ms: u64,
    pub max_timeout_ms: u64,
    pub default_company_id: Seq<char>,
    pub container_name_prefix: Seq<char>,
}

impl View for DockerGatewayConfig {
    type V = ConfigModel;

    open spec fn view(&self) -> ConfigModel {
        ConfigModel {
            image: self.image@,
            workspace_root: self.workspace_root@,
            docker_binary: self.docker_binary@,
            uid_gid: opt_text(self.uid_gid),
            memory_limit: self.memory_limit@,
            cpu_limit: self.cpu_limit@,
            pids_limit: self.pids_limit,
            default_timeout_ms: self.default_timeout_ms,
            max_timeout_ms: self.max_timeout_ms,
            default_company_id: self.default_company_id@,
            container_name_prefix: self.container_name_prefix@,
        }
    }
}

/// The settings of a gateway of which only the image and the workspace are known.
pub open spec fn default_config(image: Seq<char>, workspace_root: Seq<char>) -> ConfigModel {
    ConfigModel {
        image,
        workspace_root,
        docker_binary: "docker"@,
        uid_gid: Some("1000:1000"@),
        memory_limit: "512m"@,
        cpu_limit: "1.0"@,
        pids_limit: 256,
        default_timeout_ms: DEFAULT_DOCKER_TIMEOUT_MS,
        max_timeout_ms: MAX_DOCKER_TIMEOUT_MS,
        default_company_id: "default"@,
        container_name_prefix: "codex-company"@,
    }
}

impl DockerGatewayConfig {
    pub fn new(image: &str, workspace_root: &str) -> (r: DockerGatewayConfig)
        ensures
            r@ == default_config(image@, workspace_root@),
    {
        DockerGatewayConfig {
            image: image.to_string(),
            workspace_root: workspace_root.to_string(),
            docker_binary: "docker".to_string(),
            uid_gid: Some("1000:1000".to_string()),
            memory_limit: "512m".to_string(),
            cpu_limit: "1.0".to_string(),
            pids_limit: 256,
            default_timeout_ms: DEFAULT_DOCKER_TIMEOUT_MS,
            max_timeout_ms: MAX_DOCKER_TIMEOUT_MS,
            default_company_id: "default".to_string(),
            container_name_prefix: "codex-company".to_string(),
        }
    }
}

/// A gateway that runs tools in containers.
#[derive(Clone, Debug)]
pub struct DockerGatewayBackend {
    pub config: DockerGatewayConfig,
}

pub open spec fn with_binary(c: ConfigModel, docker_binary: Seq<char>) -> ConfigModel {
    ConfigModel { docker_binary, ..c }
}

pub open spec fn with_user(c: ConfigModel, uid_gid: Option<Seq<char>>) -> ConfigModel {
    ConfigModel { uid_gid, ..c }
}

pub open spec fn with_bounds(
    c: ConfigModel,
    memory_limit: Seq<char>,
    cpu_limit: Seq<char>,
    pids_limit: u32,
) -> ConfigModel {
    ConfigModel { memory_limit, cpu_limit, pids_limit, ..c }
}

pub open spec fn with_usual_time(c: ConfigModel, default_timeout_ms: u64) -> ConfigModel {
    ConfigModel { default_timeout_ms, ..c }
}

pub open spec fn with_longest_time(c: ConfigModel, max_timeout_ms: u64) -> ConfigModel {
    ConfigModel { max_timeout_ms, ..c }
}

pub open spec fn with_company(c: ConfigModel, default_company_id: Seq<char>) -> ConfigModel {
    ConfigModel { default_company_id, ..c }
}

pub open spec fn with_prefix(c: ConfigModel, container_name_prefix: Seq<char>) -> ConfigModel {
    ConfigModel { container_name_prefix, ..c }
}

impl DockerGatewayBackend {
    pub fn new(image: &str, workspace_root: &str) -> (r: DockerGatewayBackend)
        ensures
            r.config@ == default_config(image@, workspace_root@),
    {
        DockerGatewayBackend::with_config(DockerGatewayConfig::new(image, workspace_root))
    }

    pub fn with_config(config: DockerGatewayConfig) -> (r: DockerGatewayBackend)
        ensures
            r.config == config,
    {
        DockerGatewayBackend { config }
    }

    pub fn with_docker_binary(self, docker_binary: &str) -> (r: DockerGatewayBackend)
        ensures
            r.config@ == with_binary(self.config@, docker_binary@),
    {
        let mut backend = self;
        backend.config.docker_binary = docker_binary.to_string();
        backend
    }

    pub fn with_uid_gid(self, uid_gid: Option<String>) -> (r: DockerGatewayBackend)
        ensures
            r.config@ == with_user(self.config@, opt_text(uid_gid)),
    {
        let mut backend = self;
        backend.config.uid_gid = uid_gid;
        backend
    }

    pub fn with_limits(self, memory_limit: &str, cpu_limit: &str, pids_limit: u32) -> (r:
        DockerGatewayBackend)
        ensures
            r.config@ == with_bounds(self.config@, memory_limit@, cpu_limit@, pids_limit),
    {
        let mut backend = self;
        backend.config.memory_limit = memory_limit.to_string();
        backend.config.cpu_limit = cpu_limit.to_string();
        backend.config.pids_limit = pids_limit;
        backend
    }

    pub fn with_default_timeout(self, timeout_ms: u64) -> (r: DockerGatewayBackend)
        ensures
            r.config@ == with_usual_time(self.config@, timeout_ms),
    {
        let mut backend = self;
        backend.config.default_timeout_ms = timeout_ms;
        backend
    }

    pub fn with_max_timeout(self, timeout_ms: u64) -> (r: DockerGatewayBackend)
        ensures
            r.config@ == with_longest_time(self.config@, timeout_ms),
    {
        let mut backend = self;
        backend.config.max_timeout_ms = timeout_ms;
        backend
    }

    pub fn with_default_company_id(self, company_id: &str) -> (r: DockerGatewayBackend)
        ensures
            r.config@ == with_company(self.config@, company_id@),
    {
        let mut backend = self;
        backend.config.default_company_id = company_id.to_string();
        backend
    }

    pub fn with_container_name_prefix(self, prefix: &str) -> (r: DockerGatewayBackend)
        ensures
            r.config@ == with_prefix(self.config@, prefix@),
    {
        let mut backend = self;
        backend.config.container_name_prefix = prefix.to_string();
        backend
    }
}

// ---------------------------------------------------------------------------
// Names of containers and directories
// ---------------------------------------------------------------------------

pub open spec fn is_lower_letter(c: char) -> bool {
    'a' <= c && c <= 'z'
}

pub open spec fn is_upper_letter(c: char) -> bool {
    'A' <= c && c <= 'Z'
}

pub open spec fn is_decimal_digit(c: char) -> bool {
    '0' <= c && c <= '9'
}

pub open spec fn is_separator(c: char) -> bool {
    c == '-' || c == '_' || c == '.'
}

/// What a character becomes in a name; most are left out.
pub open spec fn name_char(c: char) -> Option<char> {
    if is_lower_letter(c) || is_decimal_digit(c) {
        Some(c)
    } else if is_upper_letter(c) {
        Some(((c as u32) + 32) as char)
    } else if is_separator(c) {
        Some(c)
    } else if is_space(c) || c == '/' || c == '\\' || c == ':' || c == '@' || c == '#' {
        Some('-')
    } else {
        None
    }
}

/// How many characters a name has at most.
pub open spec fn most_chars(max_len: nat) -> nat {
    if max_len == 0 {
        1
    } else {
        max_len
    }
}

/// A name with one more character, unless it is full: it may always have one. It
/// begins with no separator, and no two stand side by side.
pub open spec fn with_char(name: Seq<char>, c: char, max_len: nat) -> Seq<char> {
    match name_char(c) {
        Some(m) => if name.len() >= most_chars(max_len) || (is_separator(m) && (name.len() == 0
            || is_separator(name.last()))) {
            name
        } else {
            name.push(m)
        },
        None => name,
    }
}

pub open spec fn gathered(s: Seq<char>, max_len: nat) -> Seq<char>
    decreases s.len(),
{
    if s.len() == 0 {
        Seq::empty()
    } else {
        with_char(gathered(s.drop_last(), max_len), s.last(), max_len)
    }
}

pub open spec fn without_last_separator(s: Seq<char>) -> Seq<char> {
    if s.len() > 0 && is_separator(s.last()) {
        s.drop_last()
    } else {
        s
    }
}

/// A text as a name: lower case letters, digits and single separators between
/// them, no longer than this.
pub open spec fn sanitized(value: Seq<char>, max_len: nat) -> Seq<char> {
    without_last_separator(gathered(trim(value), max_len))
}

/// A name in the making: only its characters, no separator first, no two side by
/// side.
pub open spec fn is_name_start(s: Seq<char>) -> bool {
    &&& forall|i: int|
        0 <= i < s.len() ==> is_lower_letter(#[trigger] s[i]) || is_decimal_digit(s[i])
            || is_separator(s[i])
    &&& s.len() > 0 ==> !is_separator(s[0])
    &&& forall|i: int, j: int|
        0 <= i < s.len() && j == i + 1 && j < s.len() && is_separator(#[trigger] s[i])
            ==> !is_separator(#[trigger] s[j])
}

proof fn lemma_gathered(s: Seq<char>, max_len: nat)
    ensures
        is_name_start(gathered(s, max_len)),
        gathered(s, max_len).len() <= most_chars(max_len),
    decreases s.len(),
{
    if s.len() > 0 {
        lemma_gathered(s.drop_last(), max_len);
        let g = gathered(s.drop_last(), max_len);
        let c = s.last();
        if is_upper_letter(c) {
            assert(is_lower_letter(((c as u32) + 32) as char));
        }
    }
}

/// A sanitized text is one segment of a path: it holds nothing but lower case
/// letters, digits and separators, no two of them side by side, begins and ends
/// with a letter or a digit, and is no longer than it may be.
pub proof fn law_sanitized_is_a_segment(value: Seq<char>, max_len: nat)
    ensures
        is_name_start(sanitized(value, max_len)),
        sanitized(value, max_len).len() <= most_chars(max_len),
        sanitized(value, max_len).len() > 0 ==> !is_separator(sanitized(value, max_len).last()),
        !sanitized(value, max_len).contains('/'),
{
    lemma_gathered(trim(value), max_len);
    let g = gathered(trim(value), max_len);
    let r = sanitized(value, max_len);
    if g.len() > 1 && is_separator(g.last()) {
        assert(g[g.len() - 1] == g.last());
        assert(!is_separator(g[g.len() - 2]));
        assert(r.last() == g[g.len() - 2]);
    }
    assert forall|i: int| 0 <= i < r.len() implies r[i] != '/' by {
        assert(r[i] == g[i]);
    }
}

fn lower_letter(c: char) -> (r: char)
    requires
        is_upper_letter(c),
    ensures
        r == ((c as u32) + 32) as char,
{
    let code: u8 = (c as u8) + 32;
    code as char
}

fn mapped_char(c: char) -> (r: Option<char>)
    ensures
        r == name_char(c),
{
    if ('a' <= c && c <= 'z') || ('0' <= c && c <= '9') {
        Some(c)
    } else if 'A' <= c && c <= 'Z' {
        Some(lower_letter(c))
    } else if c == '-' || c == '_' || c == '.' {
        Some(c)
    } else if is_white(c) || c == '/' || c == '\\' || c == ':' || c == '@' || c == '#' {
        Some('-')
    } else {
        None
    }
}

/// A text as a name.
pub fn sanitize_component(value: &str, max_len: usize) -> (r: String)
    ensures
        r@ == sanitized(value@, max_len as nat),
{
    let cs = chars_of(trimmed(value));
    let ghost s = trim(value@);
    let mut out: Vec<char> = Vec::new();
    let mut i: usize = 0;
    assert(s.take(0) =~= Seq::<char>::empty());
    assert(out@ =~= Seq::<char>::empty());
    while i < cs.len()
        invariant
            i <= cs@.len(),
            cs@ == s,
            out@ == gathered(s.take(i as int), max_len as nat),
        decreases cs@.len() - i,
    {
        let c = cs[i];
        proof {
            assert(s.take(i + 1).drop_last() =~= s.take(i as int));
            assert(s.take(i + 1).last() == c);
        }
        if let Some(m) = mapped_char(c) {
            let separates = m == '-' || m == '_' || m == '.';
            let misplaced = separates && (out.len() == 0 || {
                let last = out[out.len() - 1];
                last == '-' || last == '_' || last == '.'
            });
            if (out.len() == 0 || out.len() < max_len) && !misplaced {
                out.push(m);
            }
        }
        i = i + 1;
    }
    assert(s.take(i as int) =~= s);
    if out.len() > 0 {
        let last = out[out.len() - 1];
        if last == '-' || last == '_' || last == '.' {
            out.pop();
        }
    }
    assert(out@.subrange(0, out@.len() as int) =~= out@);
    text_of(&out, 0, out.len())
}

pub open spec fn nameless_text(label: Seq<char>) -> Seq<char> {
    label + " must contain at least one ASCII letter or digit"@
}

/// A text as a name that is not empty.
pub open spec fn named(value: Seq<char>, max_len: nat, label: Seq<char>) -> Result<
    Seq<char>,
    ErrorModel,
> {
    if sanitized(value, max_len).len() == 0 {
        Err(ErrorModel::Rejected(nameless_text(label)))
    } else {
        Ok(sanitized(value, max_len))
    }
}

pub open spec fn text_or_error(r: Result<String, GatewayBackendError>) -> Result<
    Seq<char>,
    ErrorModel,
> {
    match r {
        Ok(t) => Ok(t@),
        Err(e) => Err(e@),
    }
}

fn sanitize_named(value: &str, max_len: usize, label: &str) -> (r: Result<
    String,
    GatewayBackendError,
>)
    ensures
        text_or_error(r) == named(value@, max_len as nat, label@),
{
    let name = sanitize_component(value, max_len);
    if chars_of(name.as_str()).len() == 0 {
        Err(rejected(label, " must contain at least one ASCII letter or digit"))
    } else {
        Ok(name)
    }
}

pub fn sanitize_scope_component(value: &str, label: &str) -> (r: Result<
    String,
    GatewayBackendError,
>)
    ensures
        text_or_error(r) == named(value@, 64, label@),
{
    sanitize_named(value, 64, label)
}

pub fn sanitize_docker_name_component(value: &str, label: &str) -> (r: Result<
    String,
    GatewayBackendError,
>)
    ensures
        text_or_error(r) == named(value@, 48, label@),
{
    sanitize_named(value, 48, label)
}

/// The name of the container of a company.
pub open spec fn container_name(prefix: Seq<char>, company_id: Seq<char>) -> Result<
    Seq<char>,
    ErrorModel,
> {
    match named(prefix, 48, "container_name_prefix"@) {
        Err(e) => Err(e),
        Ok(p) => match named(company_id, 48, "company_id"@) {
            Err(e) => Err(e),
            Ok(c) => Ok(p + "-"@ + c),
        },
    }
}

pub fn company_container_name(prefix: &str, company_id: &str) -> (r: Result<
    String,
    GatewayBackendError,
>)
    ensures
        text_or_error(r) == container_name(prefix@, company_id@),
{
    let mut out = match sanitize_docker_name_component(prefix, "container_name_prefix") {
        Ok(p) => p,
        Err(e) => {
            return Err(e);
        },
    };
    match sanitize_docker_name_component(company_id, "company_id") {
        Ok(company) => {
            out.append("-");
            out.append(company.as_str());
            Ok(out)
        },
        Err(e) => Err(e),
    }
}

/// Where a request is at home: a container, and the directories that have to be
/// there.
#[derive(Clone, Debug)]
pub struct DockerRequestScope {
    pub container_name: String,
    pub public_host_root: String,
    pub agent_private_host_root: String,
    pub project_host_root: Option<String>,
}

#[verifier::ext_equal]
pub struct RequestScopeModel {
    pub container_name: Seq<char>,
    pub public_host_root: Seq<char>,
    pub agent_private_host_root: Seq<char>,
    pub project_host_root: Option<Seq<char>>,
}

impl View for DockerRequestScope {
    type V = RequestScopeModel;

    open spec fn view(&self) -> RequestScopeModel {
        RequestScopeModel {
            container_name: self.container_name@,
            public_host_root: self.public_host_root@,
            agent_private_host_root: self.agent_private_host_root@,
            project_host_root: opt_text(self.project_host_root),
        }
    }
}

pub open spec fn or_text(value: Option<Seq<char>>, fallback: Seq<char>) -> Seq<char> {
    match value {
        Some(v) => v,
        None => fallback,
    }
}

pub open spec fn named_opt(value: Option<Seq<char>>, max_len: nat, label: Seq<char>) -> Result<
    Option<Seq<char>>,
    ErrorModel,
> {
    match value {
        None => Ok(None),
        Some(v) => match named(v, max_len, label) {
            Ok(n) => Ok(Some(n)),
            Err(e) => Err(e),
        },
    }
}

pub open spec fn request_scope(
    config: ConfigModel,
    company_id: Option<Seq<char>>,
    project_id: Option<Seq<char>>,
    agent_id: Option<Seq<char>>,
    root: Seq<char>,
) -> Result<RequestScopeModel, ErrorModel> {
    match named(or_text(company_id, config.default_company_id), 64, "company_id"@) {
        Err(e) => Err(e),
        Ok(company) => match named_opt(project_id, 64, "project_id"@) {
            Err(e) => Err(e),
            Ok(project) => match named(or_text(agent_id, "default-agent"@), 64, "agent_id"@) {
                Err(e) => Err(e),
                Ok(agent) => match container_name(config.container_name_prefix, company) {
                    Err(e) => Err(e),
                    Ok(container_name) => Ok(
                        RequestScopeModel {
                            container_name,
                            public_host_root: path_join(root, "public"@),
                            agent_private_host_root: path_join(
                                path_join(path_join(root, "agents"@), agent),
                                "private"@,
                            ),
                            project_host_root: match project {
                                Some(p) => Some(path_join(path_join(root, "projects"@), p)),
                                None => None,
                            },
                        },
                    ),
                },
            },
        },
    }
}

pub open spec fn scope_or_error(r: Result<DockerRequestScope, GatewayBackendError>) -> Result<
    RequestScopeModel,
    ErrorModel,
> {
    match r {
        Ok(s) => Ok(s@),
        Err(e) => Err(e@),
    }
}

fn str_or<'a>(value: &'a Option<String>, fallback: &'a str) -> (r: &'a str)
    ensures
        r@ == or_text(opt_text(*value), fallback@),
{
    match value {
        Some(v) => v.as_str(),
        None => fallback,
    }
}

impl DockerGatewayBackend {
    /// Where a request is at home.
    pub fn scope_for_request(&self, request: &GatewayToolRequest, workspace_root: &str) -> (r:
        Result<DockerRequestScope, GatewayBackendError>)
        ensures
            scope_or_error(r) == request_scope(
                self.config@,
                opt_text(request.company_id),
                opt_text(request.project_id),
                opt_text(request.agent_id),
                workspace_root@,
            ),
    {
        let company = match sanitize_scope_component(
            str_or(&request.company_id, self.config.default_company_id.as_str()),
            "company_id",
        ) {
            Ok(c) => c,
            Err(e) => {
                return Err(e);
            },
        };
        let project = match &request.project_id {
            None => None,
            Some(p) => match sanitize_scope_component(p.as_str(), "project_id") {
                Ok(n) => Some(n),
                Err(e) => {
                    return Err(e);
                },
            },
        };
        let agent = match sanitize_scope_component(
            str_or(&request.agent_id, "default-agent"),
            "agent_id",
        ) {
            Ok(a) => a,
            Err(e) => {
                return Err(e);
            },
        };
        let container_name = match company_container_name(
            self.config.container_name_prefix.as_str(),
            company.as_str(),
        ) {
            Ok(n) => n,
            Err(e) => {
                return Err(e);
            },
        };
        let agents = join_paths(workspace_root, "agents");
        let home = join_paths(agents.as_str(), agent.as_str());
        let project_host_root = match project {
            Some(p) => {
                let projects = join_paths(workspace_root, "projects");
                Some(join_paths(projects.as_str(), p.as_str()))
            },
            None => None,
        };
        Ok(
            DockerRequestScope {
                container_name,
                public_host_root: join_paths(workspace_root, "public"),
                agent_private_host_root: join_paths(home.as_str(), "private"),
                project_host_root,
            },
        )
    }
}

// ---------------------------------------------------------------------------
// What is known of a request
// ---------------------------------------------------------------------------

#[derive(Debug)]
pub struct ShellArgs {
    pub command: Vec<String>,
    pub workdir: Option<String>,
    pub timeout_ms: Option<u64>,
    pub sandbox_permissions: Option<SandboxPermissions>,
}

#[derive(Debug)]
pub struct ShellCommandArgs {
    pub command: String,
    pub workdir: Option<String>,
    pub timeout_ms: Option<u64>,
    pub sandbox_permissions: Option<SandboxPermissions>,
}

#[derive(Debug)]
pub struct DockerExecCommandArgs {
    pub cmd: String,
    pub workdir: Option<String>,
    pub shell: Option<String>,
    pub timeout_ms: Option<u64>,
    pub sandbox_permissions: SandboxPermissions,
}

#[derive(Debug)]
pub struct DockerReadFileArgs {
    pub file_path: String,
    pub offset: Option<usize>,
    pub limit: Option<usize>,
}

#[derive(Debug)]
pub struct DockerListDirArgs {
    pub dir_path: String,
    pub offset: Option<usize>,
    pub limit: Option<usize>,
    pub depth: Option<usize>,
}

#[derive(Debug)]
pub struct DockerGrepFilesArgs {
    pub pattern: String,
    /// The file names that are searched.
    pub file_glob: Option<String>,
    pub path: Option<String>,
    pub limit: Option<usize>,
}

/// A file that a patch touches, and where it is moved to.
#[derive(Debug)]
pub struct PatchedFile {
    pub path: String,
    pub move_path: Option<String>,
}

/// A patch that can be applied.
#[derive(Debug)]
pub struct PatchAction {
    pub cwd: String,
    pub patch: String,
    pub changes: Vec<PatchedFile>,
}

#[derive(Debug)]
pub enum PatchVerification {
    Body(PatchAction),
    CorrectnessError(String),
    ShellParseError,
    NotApplyPatch,
}

/// What was found out for one request.
#[derive(Debug)]
pub struct GatewayAnswers {
    pub paths: Table<PathAnswer>,
    pub shell: Option<Result<ShellArgs, String>>,
    pub shell_command: Option<Result<ShellCommandArgs, String>>,
    pub exec_command: Option<Result<DockerExecCommandArgs, String>>,
    /// The patch that the arguments hold.
    pub apply_patch: Option<Result<String, String>>,
    pub read_file: Option<Result<DockerReadFileArgs, String>>,
    pub list_dir: Option<Result<DockerListDirArgs, String>>,
    pub grep_files: Option<Result<DockerGrepFilesArgs, String>>,
    /// The files that the patch touches.
    pub patch: Option<Result<Vec<PatchedFile>, String>>,
    /// Whether the patch can be applied.
    pub verified_patch: Option<PatchVerification>,
}

impl GatewayAnswers {
    /// Nothing was found out.
    pub fn new() -> (r: GatewayAnswers)
        ensures
            path_answers(r.paths) == Map::<Seq<char>, PathModel>::empty(),
            r.shell is None,
            r.shell_command is None,
            r.exec_command is None,
            r.apply_patch is None,
            r.read_file is None,
            r.list_dir is None,
            r.grep_files is None,
            r.patch is None,
            r.verified_patch is None,
    {
        let r = GatewayAnswers {
            paths: Table::new(),
            shell: None,
            shell_command: None,
            exec_command: None,
            apply_patch: None,
            read_file: None,
            list_dir: None,
            grep_files: None,
            patch: None,
            verified_patch: None,
        };
        assert(path_answers(r.paths) =~= Map::empty());
        r
    }
}

/// A command in a container.
#[derive(Debug)]
pub struct DockerToolPlan {
    pub command: Vec<String>,
    pub workdir_in_container: String,
    pub timeout_ms: u64,
}

#[verifier::ext_equal]
pub struct PlanModel {
    pub command: Seq<Seq<char>>,
    pub workdir: Seq<char>,
    pub timeout_ms: u64,
}

impl View for DockerToolPlan {
    type V = PlanModel;

    open spec fn view(&self) -> PlanModel {
        PlanModel {
            command: texts(self.command@),
            workdir: self.workdir_in_container@,
            timeout_ms: self.timeout_ms,
        }
    }
}

pub open spec fn plan_step(s: Step<DockerToolPlan>) -> StepModel<PlanModel> {
    match s {
        Step::Done(p) => StepModel::Done(p@),
        Step::Ask(n) => StepModel::Ask(n@),
        Step::Fail(e) => StepModel::Fail(e@),
    }
}

// ---------------------------------------------------------------------------
// How a request is planned
// ---------------------------------------------------------------------------

pub open spec fn least(a: u64, b: u64) -> u64 {
    if a <= b {
        a
    } else {
        b
    }
}

/// How long a command may take.
pub open spec fn timeout_step(config: ConfigModel, timeout_ms: Option<u64>) -> StepModel<u64> {
    match timeout_ms {
        None => StepModel::Done(least(config.default_timeout_ms, config.max_timeout_ms)),
        Some(ms) => if ms == 0 {
            refuse("timeout_ms must be greater than zero"@)
        } else {
            StepModel::Done(least(ms, config.max_timeout_ms))
        },
    }
}

/// Two paths with the same names.
pub open spec fn same_path(a: Seq<char>, b: Seq<char>) -> bool {
    is_absolute(a) == is_absolute(b) && names(a) == names(b)
}

/// The directory that a request is made in: the project, where the workspace as a
/// whole is named.
pub open spec fn request_directory(
    cwd: Seq<char>,
    project: Option<Seq<char>>,
    root: Seq<char>,
    known: Map<Seq<char>, PathModel>,
) -> StepModel<Seq<char>> {
    if project is Some && (same_path(cwd, CONTAINER_WORKSPACE_ROOT@) || same_path(cwd, root)) {
        existing_inside(project->0, root, "cwd"@, known)
    } else {
        canonical_inside(cwd, root, "cwd"@, known)
    }
}

pub open spec fn escalation_text() -> Seq<char> {
    "middleware gateway does not allow escalated sandbox permissions"@
}

pub open spec fn escalates(p: Option<SandboxPermissions>) -> bool {
    p == Some(SandboxPermissions::RequireEscalated)
}

/// Why a command cannot be run, if it cannot.
pub open spec fn command_fault(command: Seq<Seq<char>>) -> Option<Seq<char>> {
    if command.len() == 0 {
        Some("command must not be empty"@)
    } else if exists|i: int| 0 <= i < command.len() && #[trigger] command[i].len() == 0 {
        Some("command arguments must not be empty"@)
    } else if exists|i: int| 0 <= i < command.len() && (#[trigger] command[i]).contains('\0') {
        Some(nul_text("command argument"@))
    } else {
        None
    }
}

/// A command in a directory of the host.
pub open spec fn placed(
    config: ConfigModel,
    command: Seq<Seq<char>>,
    dir: Seq<char>,
    timeout_ms: Option<u64>,
    root: Seq<char>,
) -> StepModel<PlanModel> {
    follow(
        inside_container(dir, root),
        |workdir: Seq<char>|
            follow(
                timeout_step(config, timeout_ms),
                |ms: u64| StepModel::Done(PlanModel { command, workdir, timeout_ms: ms }),
            ),
    )
}

/// A command in the directory that the tool was given.
pub open spec fn run_in(
    config: ConfigModel,
    command: Seq<Seq<char>>,
    cwd: Seq<char>,
    workdir: Option<Seq<char>>,
    timeout_ms: Option<u64>,
    root: Seq<char>,
    known: Map<Seq<char>, PathModel>,
) -> StepModel<PlanModel> {
    follow(
        working_directory(cwd, workdir, root, known),
        |dir: Seq<char>| placed(config, command, dir, timeout_ms, root),
    )
}

pub open spec fn list_plan(
    config: ConfigModel,
    command: Seq<Seq<char>>,
    escalated: bool,
    cwd: Seq<char>,
    workdir: Option<Seq<char>>,
    timeout_ms: Option<u64>,
    root: Seq<char>,
    known: Map<Seq<char>, PathModel>,
) -> StepModel<PlanModel> {
    if escalated {
        refuse(escalation_text())
    } else {
        match command_fault(command) {
            Some(t) => refuse(t),
            None => run_in(config, command, cwd, workdir, timeout_ms, root, known),
        }
    }
}

pub open spec fn script_plan(
    config: ConfigModel,
    shell: Seq<char>,
    script: Seq<char>,
    cwd: Seq<char>,
    workdir: Option<Seq<char>>,
    timeout_ms: Option<u64>,
    root: Seq<char>,
    known: Map<Seq<char>, PathModel>,
) -> StepModel<PlanModel> {
    run_in(config, seq![shell, "-lc"@, script], cwd, workdir, timeout_ms, root, known)
}

pub open spec fn shell_command_plan(
    config: ConfigModel,
    args: ShellCommandArgs,
    cwd: Seq<char>,
    root: Seq<char>,
    known: Map<Seq<char>, PathModel>,
) -> StepModel<PlanModel> {
    let command = trim(args.command@);
    if escalates(args.sandbox_permissions) {
        refuse(escalation_text())
    } else if command.len() == 0 {
        refuse("shell_command command must not be empty"@)
    } else if command.contains('\0') {
        refuse(nul_text("shell_command command"@))
    } else {
        script_plan(
            config,
            "/bin/sh"@,
            command,
            cwd,
            opt_text(args.workdir),
            args.timeout_ms,
            root,
            known,
        )
    }
}

/// The shell that was asked for, if one was.
pub open spec fn chosen_shell(shell: Option<Seq<char>>) -> Seq<char> {
    match shell {
        Some(s) => if trim(s).len() == 0 {
            "/bin/sh"@
        } else {
            s
        },
        None => "/bin/sh"@,
    }
}

pub open spec fn exec_command_plan(
    config: ConfigModel,
    args: DockerExecCommandArgs,
    cwd: Seq<char>,
    root: Seq<char>,
    known: Map<Seq<char>, PathModel>,
) -> StepModel<PlanModel> {
    let command = trim(args.cmd@);
    let shell = chosen_shell(opt_text(args.shell));
    if args.sandbox_permissions == SandboxPermissions::RequireEscalated {
        refuse(escalation_text())
    } else if command.len() == 0 {
        refuse("exec_command cmd must not be empty"@)
    } else if command.contains('\0') {
        refuse(nul_text("exec_command cmd"@))
    } else if shell.contains('\0') {
        refuse(nul_text("exec_command shell"@))
    } else {
        script_plan(
            config,
            shell,
            command,
            cwd,
            opt_text(args.workdir),
            args.timeout_ms,
            root,
            known,
        )
    }
}

pub open spec fn or_number(value: Option<usize>, fallback: usize) -> usize {
    match value {
        Some(v) => v,
        None => fallback,
    }
}

pub open spec fn zero_text(label: Seq<char>) -> Seq<char> {
    label + " must be greater than zero"@
}

/// A program that is given what is below the workspace.
pub open spec fn python_plan(config: ConfigModel, command: Seq<Seq<char>>) -> StepModel<PlanModel> {
    StepModel::Done(
        PlanModel {
            command,
            workdir: CONTAINER_WORKSPACE_ROOT@,
            timeout_ms: config.default_timeout_ms,
        },
    )
}

pub open spec fn read_file_plan(
    config: ConfigModel,
    args: DockerReadFileArgs,
    cwd: Seq<char>,
    root: Seq<char>,
    known: Map<Seq<char>, PathModel>,
) -> StepModel<PlanModel> {
    let offset = or_number(args.offset, 1);
    let limit = or_number(args.limit, 2000);
    follow(
        input_path(cwd, args.file_path@, root),
        |p: Seq<char>|
            follow(
                canonical_inside(p, root, "file_path"@, known),
                |file: Seq<char>|
                    if offset == 0 {
                        refuse(zero_text("offset"@))
                    } else if limit == 0 {
                        refuse(zero_text("limit"@))
                    } else {
                        follow(
                            inside_container(file, root),
                            |seen: Seq<char>|
                                python_plan(
                                    config,
                                    seq![
                                        "python3"@,
                                        "-c"@,
                                        READ_FILE_SCRIPT@,
                                        seen,
                                        decimal(offset as nat),
                                        decimal(limit as nat),
                                    ],
                                ),
                        )
                    },
            ),
    )
}

pub open spec fn list_dir_plan(
    config: ConfigModel,
    args: DockerListDirArgs,
    cwd: Seq<char>,
    root: Seq<char>,
    known: Map<Seq<char>, PathModel>,
) -> StepModel<PlanModel> {
    let offset = or_number(args.offset, 1);
    let limit = or_number(args.limit, 25);
    let depth = or_number(args.depth, 2);
    follow(
        input_path(cwd, args.dir_path@, root),
        |p: Seq<char>|
            follow(
                canonical_inside(p, root, "dir_path"@, known),
                |dir: Seq<char>|
                    if offset == 0 {
                        refuse(zero_text("offset"@))
                    } else if limit == 0 {
                        refuse(zero_text("limit"@))
                    } else if depth == 0 {
                        refuse(zero_text("depth"@))
                    } else {
                        follow(
                            inside_container(dir, root),
                            |seen: Seq<char>|
                                python_plan(
                                    config,
                                    seq![
                                        "python3"@,
                                        "-c"@,
                                        LIST_DIR_SCRIPT@,
                                        seen,
                                        decimal(offset as nat),
                                        decimal(limit as nat),
                                        decimal(depth as nat),
                                    ],
                                ),
                        )
                    },
            ),
    )
}

/// The number of files that a search gives at most.
pub open spec fn search_limit(limit: Option<usize>) -> usize {
    if or_number(limit, 100) <= 2000 {
        or_number(limit, 100)
    } else {
        2000
    }
}

pub open spec fn grep_files_plan(
    config: ConfigModel,
    args: DockerGrepFilesArgs,
    cwd: Seq<char>,
    root: Seq<char>,
    known: Map<Seq<char>, PathModel>,
) -> StepModel<PlanModel> {
    let pattern = trim(args.pattern@);
    let limit = search_limit(args.limit);
    let glob = or_text(opt_text(args.file_glob), ""@);
    if pattern.len() == 0 {
        refuse("pattern must not be empty"@)
    } else if pattern.contains('\0') {
        refuse(nul_text("pattern"@))
    } else if limit == 0 {
        refuse(zero_text("limit"@))
    } else {
        follow(
            input_path(cwd, or_text(opt_text(args.path), "."@), root),
            |p: Seq<char>|
                follow(
                    canonical_inside(p, root, "path"@, known),
                    |path: Seq<char>|
                        if glob.contains('\0') {
                            refuse(nul_text(file_glob_label()))
                        } else {
                            follow(
                                inside_container(path, root),
                                |seen: Seq<char>|
                                    python_plan(
                                        config,
                                        seq![
                                            "python3"@,
                                            "-c"@,
                                            GREP_FILES_SCRIPT@,
                                            pattern,
                                            glob,
                                            seen,
                                            decimal(limit as nat),
                                        ],
                                    ),
                            )
                        },
                ),
        )
    }
}

/// What the pattern of file names is called in a refusal.
pub open spec fn file_glob_label() -> Seq<char> {
    "include"@
}

/// The files that are written: each one touched, and where it is moved to.
pub open spec fn targets_of(files: Seq<(Seq<char>, Option<Seq<char>>)>) -> Seq<
    (Seq<char>, Seq<char>),
>
    decreases files.len(),
{
    if files.len() == 0 {
        Seq::empty()
    } else {
        let done = targets_of(files.drop_last()).push((files.last().0, "apply_patch target"@));
        match files.last().1 {
            Some(m) => done.push((m, "apply_patch move target"@)),
            None => done,
        }
    }
}

pub open spec fn file_models(v: Seq<PatchedFile>) -> Seq<(Seq<char>, Option<Seq<char>>)> {
    v.map_values(|f: PatchedFile| (f.path@, opt_text(f.move_path)))
}

/// A file of a patch, on the host.
pub open spec fn located(cwd: Seq<char>, file: (Seq<char>, Option<Seq<char>>), root: Seq<char>) -> (
    Seq<char>,
    Option<Seq<char>>,
) {
    (
        patch_path(cwd, file.0, root),
        match file.1 {
            Some(m) => Some(patch_path(cwd, m, root)),
            None => None,
        },
    )
}

pub open spec fn located_files(
    cwd: Seq<char>,
    files: Seq<(Seq<char>, Option<Seq<char>>)>,
    root: Seq<char>,
) -> Seq<(Seq<char>, Option<Seq<char>>)> {
    files.map_values(|f: (Seq<char>, Option<Seq<char>>)| located(cwd, f, root))
}

pub open spec fn verification_text(error: Seq<char>) -> Seq<char> {
    "apply_patch verification failed: "@ + error
}

/// A patch that can be applied, in the directory it is for.
pub open spec fn action_plan(
    config: ConfigModel,
    action: PatchAction,
    root: Seq<char>,
    known: Map<Seq<char>, PathModel>,
) -> StepModel<PlanModel> {
    follow(
        canonical_inside(action.cwd@, root, "apply_patch cwd"@, known),
        |dir: Seq<char>|
            follow(
                targets_inside(targets_of(file_models(action.changes@)), root, known),
                |u: ()|
                    follow(
                        container_patch(action.patch@, root),
                        |patch: Seq<char>|
                            follow(
                                inside_container(dir, root),
                                |workdir: Seq<char>|
                                    StepModel::Done(
                                        PlanModel {
                                            command: seq!["apply_patch"@, patch],
                                            workdir,
                                            timeout_ms: config.default_timeout_ms,
                                        },
                                    ),
                            ),
                    ),
            ),
    )
}

pub open spec fn verified_plan(
    config: ConfigModel,
    patch: Seq<char>,
    cwd: Seq<char>,
    root: Seq<char>,
    answers: GatewayAnswers,
) -> StepModel<PlanModel> {
    match answers.verified_patch {
        None => StepModel::Ask(NeedModel::VerifyPatch(patch, cwd)),
        Some(PatchVerification::CorrectnessError(e)) => refuse(verification_text(e@)),
        Some(PatchVerification::ShellParseError) => refuse(
            "apply_patch handler received invalid patch input"@,
        ),
        Some(PatchVerification::NotApplyPatch) => refuse(
            "apply_patch handler received non-apply_patch input"@,
        ),
        Some(PatchVerification::Body(action)) => action_plan(
            config,
            action,
            root,
            path_answers(answers.paths),
        ),
    }
}

pub open spec fn apply_patch_plan(
    config: ConfigModel,
    input: Seq<char>,
    cwd: Seq<char>,
    root: Seq<char>,
    answers: GatewayAnswers,
) -> StepModel<PlanModel> {
    let patch = host_patch(input, root);
    if input.contains('\0') {
        refuse(nul_text("apply_patch input"@))
    } else {
        match answers.patch {
            None => StepModel::Ask(NeedModel::ParsePatch(patch)),
            Some(Err(e)) => refuse(verification_text(e@)),
            Some(Ok(files)) => follow(
                targets_inside(
                    targets_of(located_files(cwd, file_models(files@), root)),
                    root,
                    path_answers(answers.paths),
                ),
                |u: ()| verified_plan(config, patch, cwd, root, answers),
            ),
        }
    }
}

pub open spec fn payload_text(tool: Seq<char>) -> Seq<char> {
    tool + " requires a function payload"@
}

pub open spec fn arguments_text(error: Seq<char>) -> Seq<char> {
    "invalid tool arguments: "@ + error
}

/// What the arguments of a tool say, once they were read.
pub open spec fn read_arguments<T>(
    tool_name: Seq<char>,
    arguments: Seq<char>,
    answer: Option<Result<T, String>>,
) -> StepModel<T> {
    match answer {
        None => StepModel::Ask(NeedModel::Arguments(tool_name, arguments)),
        Some(Err(e)) => refuse(arguments_text(e@)),
        Some(Ok(args)) => StepModel::Done(args),
    }
}

/// What the arguments of a function say; a call without arguments is refused.
pub open spec fn function_arguments<T>(
    request: GatewayToolRequest,
    label: Seq<char>,
    answer: Option<Result<T, String>>,
) -> StepModel<T> {
    match request.payload {
        GatewayToolPayload::Function { arguments } => read_arguments(
            request.tool_name@,
            arguments@,
            answer,
        ),
        _ => refuse(payload_text(label)),
    }
}

/// How a tool is run in a directory.
pub open spec fn tool_plan(
    config: ConfigModel,
    request: GatewayToolRequest,
    cwd: Seq<char>,
    root: Seq<char>,
    answers: GatewayAnswers,
) -> StepModel<PlanModel> {
    let known = path_answers(answers.paths);
    let tool = request.tool_name@;
    if tool == "shell"@ || tool == "container.exec"@ {
        follow(
            function_arguments(request, "shell"@, answers.shell),
            |a: ShellArgs|
                list_plan(
                    config,
                    texts(a.command@),
                    escalates(a.sandbox_permissions),
                    cwd,
                    opt_text(a.workdir),
                    a.timeout_ms,
                    root,
                    known,
                ),
        )
    } else if tool == "local_shell"@ {
        match request.payload {
            GatewayToolPayload::LocalShell {
                command,
                workdir,
                timeout_ms,
                sandbox_permissions,
                prefix_rule,
                justification,
            } => list_plan(
                config,
                texts(command@),
                match sandbox_permissions {
                    Some(p) => has_text(p@, "RequireEscalated"@),
                    None => false,
                },
                cwd,
                opt_text(workdir),
                timeout_ms,
                root,
                known,
            ),
            _ => refuse("local_shell requires a local_shell payload"@),
        }
    } else if tool == "shell_command"@ {
        follow(
            function_arguments(request, "shell_command"@, answers.shell_command),
            |a: ShellCommandArgs| shell_command_plan(config, a, cwd, root, known),
        )
    } else if tool == "exec_command"@ {
        follow(
            function_arguments(request, "exec_command"@, answers.exec_command),
            |a: DockerExecCommandArgs| exec_command_plan(config, a, cwd, root, known),
        )
    } else if tool == "apply_patch"@ {
        match request.payload {
            GatewayToolPayload::Function { arguments } => follow(
                read_arguments(tool, arguments@, answers.apply_patch),
                |input: String| apply_patch_plan(config, input@, cwd, root, answers),
            ),
            GatewayToolPayload::Custom { input } => apply_patch_plan(
                config,
                input@,
                cwd,
                root,
                answers,
            ),
            _ => refuse("apply_patch requires a function or custom payload"@),
        }
    } else if tool == "read_file"@ {
        follow(
            function_arguments(request, "read_file"@, answers.read_file),
            |a: DockerReadFileArgs| read_file_plan(config, a, cwd, root, known),
        )
    } else if tool == "list_dir"@ {
        follow(
            function_arguments(request, "list_dir"@, answers.list_dir),
            |a: DockerListDirArgs| list_dir_plan(config, a, cwd, root, known),
        )
    } else if tool == "grep_files"@ {
        follow(
            function_arguments(request, "grep_files"@, answers.grep_files),
            |a: DockerGrepFilesArgs| grep_files_plan(config, a, cwd, root, known),
        )
    } else {
        StepModel::Fail(ErrorModel::UnsupportedTool(tool))
    }
}

/// How a request is run: in its directory, if it has one.
pub open spec fn request_plan(
    config: ConfigModel,
    request: GatewayToolRequest,
    project: Option<Seq<char>>,
    root: Seq<char>,
    answers: GatewayAnswers,
) -> StepModel<PlanModel> {
    follow(
        request_directory(request.cwd@, project, root, path_answers(answers.paths)),
        |cwd: Seq<char>| tool_plan(config, request, cwd, root, answers),
    )
}

// ---------------------------------------------------------------------------
// Planning
// ---------------------------------------------------------------------------

fn min_ms(a: u64, b: u64) -> (r: u64)
    ensures
        r == least(a, b),
{
    if a <= b {
        a
    } else {
        b
    }
}

fn fail(message: &str) -> (r: Step<DockerToolPlan>)
    ensures
        plan_step(r) == refuse::<PlanModel>(message@),
{
    Step::Fail(GatewayBackendError::Rejected(message.to_string()))
}

fn fail_with(label: &str, rest: &str) -> (r: Step<DockerToolPlan>)
    ensures
        plan_step(r) == refuse::<PlanModel>(label@ + rest@),
{
    Step::Fail(rejected(label, rest))
}

/// Whether a number is taken, or refused as zero.
pub open spec fn is_positive(r: Result<(), GatewayBackendError>, value: usize, label: Seq<char>) -> bool {
    match r {
        Ok(_) => value != 0,
        Err(e) => value == 0 && e@ == ErrorModel::Rejected(zero_text(label)),
    }
}

/// Refuses a number that is zero.
pub fn ensure_positive(value: usize, label: &str) -> (r: Result<(), GatewayBackendError>)
    ensures
        is_positive(r, value, label@),
{
    if value == 0 {
        Err(rejected(label, " must be greater than zero"))
    } else {
        Ok(())
    }
}

fn or_usize(value: Option<usize>, fallback: usize) -> (r: usize)
    ensures
        r == or_number(value, fallback),
{
    match value {
        Some(v) => v,
        None => fallback,
    }
}

pub open spec fn unit_or_error(r: Result<(), GatewayBackendError>) -> Result<(), ErrorModel> {
    match r {
        Ok(u) => Ok(u),
        Err(e) => Err(e@),
    }
}

/// Refuses permissions that the container does not give.
pub fn ensure_sandbox_permissions(permissions: Option<SandboxPermissions>) -> (r: Result<
    (),
    GatewayBackendError,
>)
    ensures
        unit_or_error(r) == (if escalates(permissions) {
            Err::<(), ErrorModel>(ErrorModel::Rejected(escalation_text()))
        } else {
            Ok(())
        }),
{
    match permissions {
        Some(SandboxPermissions::RequireEscalated) => Err(
            GatewayBackendError::Rejected(
                "middleware gateway does not allow escalated sandbox permissions".to_string(),
            ),
        ),
        _ => Ok(()),
    }
}

/// The same, of permissions that come as a text.
pub fn ensure_gateway_sandbox_permissions(permissions: Option<&str>) -> (r: Result<
    (),
    GatewayBackendError,
>)
    ensures
        unit_or_error(r) == (if permissions is Some && has_text(
            permissions->0@,
            "RequireEscalated"@,
        ) {
            Err::<(), ErrorModel>(ErrorModel::Rejected(escalation_text()))
        } else {
            Ok(())
        }),
{
    match permissions {
        Some(p) => if contains_text(p, "RequireEscalated") {
            ensure_sandbox_permissions(Some(SandboxPermissions::RequireEscalated))
        } else {
            Ok(())
        },
        None => Ok(()),
    }
}

/// Refuses a command that cannot be run.
pub fn validate_command(command: &Vec<String>) -> (r: Result<(), GatewayBackendError>)
    ensures
        unit_or_error(r) == (match command_fault(texts(command@)) {
            Some(t) => Err::<(), ErrorModel>(ErrorModel::Rejected(t)),
            None => Ok(()),
        }),
{
    let ghost c = texts(command@);
    if command.len() == 0 {
        return Err(GatewayBackendError::Rejected("command must not be empty".to_string()));
    }
    let mut i: usize = 0;
    while i < command.len()
        invariant
            i <= command@.len(),
            command@.len() > 0,
            c == texts(command@),
            forall|k: int| 0 <= k < i ==> #[trigger] c[k].len() > 0,
        decreases command@.len() - i,
    {
        if chars_of(command[i].as_str()).len() == 0 {
            assert(c[i as int].len() == 0);
            return Err(
                GatewayBackendError::Rejected("command arguments must not be empty".to_string()),
            );
        }
        assert(c[i as int].len() > 0);
        i = i + 1;
    }
    let mut j: usize = 0;
    while j < command.len()
        invariant
            j <= command@.len(),
            command@.len() > 0,
            c == texts(command@),
            forall|k: int| 0 <= k < c.len() ==> #[trigger] c[k].len() > 0,
            forall|k: int| 0 <= k < j ==> !(#[trigger] c[k]).contains('\0'),
        decreases command@.len() - j,
    {
        if let Err(e) = reject_nul(command[j].as_str(), "command argument") {
            assert(c[j as int].contains('\0'));
            return Err(e);
        }
        assert(!c[j as int].contains('\0'));
        j = j + 1;
    }
    Ok(())
}

/// Whether two paths have the same names.
pub fn is_same_path(a: &str, b: &str) -> (r: bool)
    ensures
        r == same_path(a@, b@),
{
    if path_is_absolute(a) != path_is_absolute(b) {
        return false;
    }
    let x = path_names(a);
    let y = path_names(b);
    if x.len() != y.len() {
        assert(texts(x@).len() != texts(y@).len());
        return false;
    }
    let mut i: usize = 0;
    while i < x.len()
        invariant
            i <= x@.len(),
            x@.len() == y@.len(),
            texts(x@) == names(a@),
            texts(y@) == names(b@),
            forall|k: int| 0 <= k < i ==> #[trigger] texts(x@)[k] == texts(y@)[k],
        decreases x@.len() - i,
    {
        if !same_text(x[i].as_str(), y[i].as_str()) {
            assert(texts(x@)[i as int] != texts(y@)[i as int]);
            return false;
        }
        i = i + 1;
    }
    assert(texts(x@) =~= texts(y@));
    true
}

/// The files that are written.
fn write_targets(files: &Vec<PatchedFile>) -> (r: Vec<WriteTarget>)
    ensures
        target_models(r@) == targets_of(file_models(files@)),
{
    let ghost s = file_models(files@);
    let mut out: Vec<WriteTarget> = Vec::new();
    let mut i: usize = 0;
    assert(s.take(0) =~= Seq::<(Seq<char>, Option<Seq<char>>)>::empty());
    assert(target_models(out@) =~= Seq::<(Seq<char>, Seq<char>)>::empty());
    while i < files.len()
        invariant
            i <= files@.len(),
            s == file_models(files@),
            target_models(out@) == targets_of(s.take(i as int)),
        decreases files@.len() - i,
    {
        let ghost before = target_models(out@);
        proof {
            assert(s.take(i + 1).drop_last() =~= s.take(i as int));
            assert(s.take(i + 1).last() == s[i as int]);
        }
        let target = WriteTarget {
            path: files[i].path.clone(),
            label: "apply_patch target".to_string(),
        };
        out.push(target);
        assert(target_models(out@) =~= before.push((files@[i as int].path@, "apply_patch target"@)));
        if let Some(m) = &files[i].move_path {
            let ghost middle = target_models(out@);
            let moved = WriteTarget {
                path: m.clone(),
                label: "apply_patch move target".to_string(),
            };
            out.push(moved);
            assert(target_models(out@) =~= middle.push((m@, "apply_patch move target"@)));
        }
        i = i + 1;
    }
    assert(s.take(i as int) =~= s);
    out
}

/// The files of a patch, on the host.
fn locate_files(cwd: &str, files: &Vec<PatchedFile>, workspace_root: &str) -> (r: Vec<PatchedFile>)
    ensures
        file_models(r@) == located_files(cwd@, file_models(files@), workspace_root@),
{
    let ghost s = located_files(cwd@, file_models(files@), workspace_root@);
    let mut out: Vec<PatchedFile> = Vec::new();
    let mut i: usize = 0;
    assert(file_models(out@) =~= s.take(0));
    while i < files.len()
        invariant
            i <= files@.len(),
            s == located_files(cwd@, file_models(files@), workspace_root@),
            file_models(out@) == s.take(i as int),
        decreases files@.len() - i,
    {
        let ghost before = file_models(out@);
        let path = resolve_patch_path(cwd, files[i].path.as_str(), workspace_root);
        let move_path = match &files[i].move_path {
            Some(m) => Some(resolve_patch_path(cwd, m.as_str(), workspace_root)),
            None => None,
        };
        let file = PatchedFile { path, move_path };
        assert(s[i as int] == (file.path@, opt_text(file.move_path)));
        out.push(file);
        i = i + 1;
        assert(file_models(out@) =~= before.push(s[i - 1]));
        assert(s.take(i as int) =~= s.take(i - 1).push(s[i - 1]));
    }
    assert(s.take(i as int) =~= s);
    out
}

fn three(a: &str, b: &str, c: &str) -> (r: Vec<String>)
    ensures
        texts(r@) == seq![a@, b@, c@],
{
    let v: Vec<String> = vec![a.to_string(), b.to_string(), c.to_string()];
    assert(texts(v@) =~= seq![a@, b@, c@]);
    v
}

fn push_text(v: &mut Vec<String>, t: String)
    ensures
        texts(final(v)@) == texts(old(v)@).push(t@),
{
    v.push(t);
    assert(texts(v@) =~= texts(old(v)@).push(t@));
}

impl DockerGatewayBackend {
    /// How long a command may take.
    pub fn timeout_from_ms(&self, timeout_ms: Option<u64>) -> (r: Result<u64, GatewayBackendError>)
        ensures
            match r {
                Ok(ms) => timeout_step(self.config@, timeout_ms) == StepModel::Done(ms),
                Err(e) => timeout_step(self.config@, timeout_ms) == StepModel::<u64>::Fail(e@),
            },
    {
        match timeout_ms {
            None => Ok(min_ms(self.config.default_timeout_ms, self.config.max_timeout_ms)),
            Some(ms) => if ms == 0 {
                Err(
                    GatewayBackendError::Rejected(
                        "timeout_ms must be greater than zero".to_string(),
                    ),
                )
            } else {
                Ok(min_ms(ms, self.config.max_timeout_ms))
            },
        }
    }

    /// The directory that a request is made in.
    pub fn request_cwd(
        &self,
        request: &GatewayToolRequest,
        workspace_root: &str,
        scope: &DockerRequestScope,
        known: &Table<PathAnswer>,
    ) -> (r: Step<String>)
        ensures
            text_step(r) == request_directory(
                request.cwd@,
                scope@.project_host_root,
                workspace_root@,
                path_answers(*known),
            ),
    {
        if let Some(project) = &scope.project_host_root {
            if is_same_path(request.cwd.as_str(), CONTAINER_WORKSPACE_ROOT) || is_same_path(
                request.cwd.as_str(),
                workspace_root,
            ) {
                return canonical_existing_path_inside_workspace(
                    project.as_str(),
                    workspace_root,
                    "cwd",
                    known,
                );
            }
        }
        canonical_path_inside_workspace(request.cwd.as_str(), workspace_root, "cwd", known)
    }

    fn place(
        &self,
        command: Vec<String>,
        dir: &str,
        timeout_ms: Option<u64>,
        workspace_root: &str,
    ) -> (r: Step<DockerToolPlan>)
        ensures
            plan_step(r) == placed(
                self.config@,
                texts(command@),
                dir@,
                timeout_ms,
                workspace_root@,
            ),
    {
        let workdir_in_container = match container_path(dir, workspace_root) {
            Step::Done(w) => w,
            Step::Ask(n) => {
                return Step::Ask(n);
            },
            Step::Fail(e) => {
                return Step::Fail(e);
            },
        };
        match self.timeout_from_ms(timeout_ms) {
            Ok(timeout_ms) => Step::Done(
                DockerToolPlan { command, workdir_in_container, timeout_ms },
            ),
            Err(e) => Step::Fail(e),
        }
    }

    fn run_there(
        &self,
        command: Vec<String>,
        cwd: &str,
        workdir: Option<&str>,
        timeout_ms: Option<u64>,
        workspace_root: &str,
        known: &Table<PathAnswer>,
    ) -> (r: Step<DockerToolPlan>)
        ensures
            plan_step(r) == run_in(
                self.config@,
                texts(command@),
                cwd@,
                opt_str(workdir),
                timeout_ms,
                workspace_root@,
                path_answers(*known),
            ),
    {
        match resolve_workdir(cwd, workdir, workspace_root, known) {
            Step::Done(dir) => self.place(command, dir.as_str(), timeout_ms, workspace_root),
            Step::Ask(n) => Step::Ask(n),
            Step::Fail(e) => Step::Fail(e),
        }
    }

    fn plan_shell_command(
        &self,
        args: &ShellCommandArgs,
        cwd: &str,
        workspace_root: &str,
        known: &Table<PathAnswer>,
    ) -> (r: Step<DockerToolPlan>)
        ensures
            plan_step(r) == shell_command_plan(
                self.config@,
                *args,
                cwd@,
                workspace_root@,
                path_answers(*known),
            ),
    {
        if let Err(e) = ensure_sandbox_permissions(args.sandbox_permissions) {
            return Step::Fail(e);
        }
        let command = trimmed(args.command.as_str());
        if chars_of(command).len() == 0 {
            return fail("shell_command command must not be empty");
        }
        if let Err(e) = reject_nul(command, "shell_command command") {
            return Step::Fail(e);
        }
        self.run_there(
            three("/bin/sh", "-lc", command),
            cwd,
            as_str_opt(&args.workdir),
            args.timeout_ms,
            workspace_root,
            known,
        )
    }

    fn plan_exec_command(
        &self,
        args: &DockerExecCommandArgs,
        cwd: &str,
        workspace_root: &str,
        known: &Table<PathAnswer>,
    ) -> (r: Step<DockerToolPlan>)
        ensures
            plan_step(r) == exec_command_plan(
                self.config@,
                *args,
                cwd@,
                workspace_root@,
                path_answers(*known),
            ),
    {
        if let Err(e) = ensure_sandbox_permissions(Some(args.sandbox_permissions)) {
            return Step::Fail(e);
        }
        let command = trimmed(args.cmd.as_str());
        if chars_of(command).len() == 0 {
            return fail("exec_command cmd must not be empty");
        }
        if let Err(e) = reject_nul(command, "exec_command cmd") {
            return Step::Fail(e);
        }
        let shell = match &args.shell {
            Some(s) => if chars_of(trimmed(s.as_str())).len() == 0 {
                "/bin/sh"
            } else {
                s.as_str()
            },
            None => "/bin/sh",
        };
        if let Err(e) = reject_nul(shell, "exec_command shell") {
            return Step::Fail(e);
        }
        self.run_there(
            three(shell, "-lc", command),
            cwd,
            as_str_opt(&args.workdir),
            args.timeout_ms,
            workspace_root,
            known,
        )
    }

    fn python(&self, command: Vec<String>) -> (r: Step<DockerToolPlan>)
        ensures
            plan_step(r) == python_plan(self.config@, texts(command@)),
    {
        Step::Done(
            DockerToolPlan {
                command,
                workdir_in_container: CONTAINER_WORKSPACE_ROOT.to_string(),
                timeout_ms: self.config.default_timeout_ms,
            },
        )
    }

    fn plan_read_file(
        &self,
        args: &DockerReadFileArgs,
        cwd: &str,
        workspace_root: &str,
        known: &Table<PathAnswer>,
    ) -> (r: Step<DockerToolPlan>)
        ensures
            plan_step(r) == read_file_plan(
                self.config@,
                *args,
                cwd@,
                workspace_root@,
                path_answers(*known),
            ),
    {
        let file = match resolve_inside(
            cwd,
            args.file_path.as_str(),
            workspace_root,
            "file_path",
            known,
        ) {
            Step::Done(p) => p,
            Step::Ask(n) => {
                return Step::Ask(n);
            },
            Step::Fail(e) => {
                return Step::Fail(e);
            },
        };
        let offset: usize = or_usize(args.offset, 1);
        let limit: usize = or_usize(args.limit, 2000);
        if let Err(e) = ensure_positive(offset, "offset") {
            return Step::Fail(e);
        }
        if let Err(e) = ensure_positive(limit, "limit") {
            return Step::Fail(e);
        }
        let seen = match container_path(file.as_str(), workspace_root) {
            Step::Done(p) => p,
            Step::Ask(n) => {
                return Step::Ask(n);
            },
            Step::Fail(e) => {
                return Step::Fail(e);
            },
        };
        let mut command = three("python3", "-c", READ_FILE_SCRIPT);
        push_text(&mut command, seen);
        push_text(&mut command, decimal_of_usize(offset));
        push_text(&mut command, decimal_of_usize(limit));
        assert(texts(command@) =~= seq![
            "python3"@,
            "-c"@,
            READ_FILE_SCRIPT@,
            seen@,
            decimal(offset as nat),
            decimal(limit as nat),
        ]);
        self.python(command)
    }

    fn plan_list_dir(
        &self,
        args: &DockerListDirArgs,
        cwd: &str,
        workspace_root: &str,
        known: &Table<PathAnswer>,
    ) -> (r: Step<DockerToolPlan>)
        ensures
            plan_step(r) == list_dir_plan(
                self.config@,
                *args,
                cwd@,
                workspace_root@,
                path_answers(*known),
            ),
    {
        let dir = match resolve_inside(
            cwd,
            args.dir_path.as_str(),
            workspace_root,
            "dir_path",
            known,
        ) {
            Step::Done(p) => p,
            Step::Ask(n) => {
                return Step::Ask(n);
            },
            Step::Fail(e) => {
                return Step::Fail(e);
            },
        };
        let offset: usize = or_usize(args.offset, 1);
        let limit: usize = or_usize(args.limit, 25);
        let depth: usize = or_usize(args.depth, 2);
        if let Err(e) = ensure_positive(offset, "offset") {
            return Step::Fail(e);
        }
        if let Err(e) = ensure_positive(limit, "limit") {
            return Step::Fail(e);
        }
        if let Err(e) = ensure_positive(depth, "depth") {
            return Step::Fail(e);
        }
        let seen = match container_path(dir.as_str(), workspace_root) {
            Step::Done(p) => p,
            Step::Ask(n) => {
                return Step::Ask(n);
            },
            Step::Fail(e) => {
                return Step::Fail(e);
            },
        };
        let mut command = three("python3", "-c", LIST_DIR_SCRIPT);
        push_text(&mut command, seen);
        push_text(&mut command, decimal_of_usize(offset));
        push_text(&mut command, decimal_of_usize(limit));
        push_text(&mut command, decimal_of_usize(depth));
        assert(texts(command@) =~= seq![
            "python3"@,
            "-c"@,
            LIST_DIR_SCRIPT@,
            seen@,
            decimal(offset as nat),
            decimal(limit as nat),
            decimal(depth as nat),
        ]);
        self.python(command)
    }

    fn plan_grep_files(
        &self,
        args: &DockerGrepFilesArgs,
        cwd: &str,
        workspace_root: &str,
        known: &Table<PathAnswer>,
    ) -> (r: Step<DockerToolPlan>)
        ensures
            plan_step(r) == grep_files_plan(
                self.config@,
                *args,
                cwd@,
                workspace_root@,
                path_answers(*known),
            ),
    {
        let pattern = trimmed(args.pattern.as_str());
        if chars_of(pattern).len() == 0 {
            return fail("pattern must not be empty");
        }
        if let Err(e) = reject_nul(pattern, "pattern") {
            return Step::Fail(e);
        }
        let wanted: usize = or_usize(args.limit, 100);
        let limit: usize = if wanted <= 2000 {
            wanted
        } else {
            2000
        };
        if let Err(e) = ensure_positive(limit, "limit") {
            return Step::Fail(e);
        }
        let path = match resolve_inside(
            cwd,
            str_or(&args.path, "."),
            workspace_root,
            "path",
            known,
        ) {
            Step::Done(p) => p,
            Step::Ask(n) => {
                return Step::Ask(n);
            },
            Step::Fail(e) => {
                return Step::Fail(e);
            },
        };
        let glob = str_or(&args.file_glob, "");
        if let Err(e) = reject_nul(glob, "include") {
            return Step::Fail(e);
        }
        let seen = match container_path(path.as_str(), workspace_root) {
            Step::Done(p) => p,
            Step::Ask(n) => {
                return Step::Ask(n);
            },
            Step::Fail(e) => {
                return Step::Fail(e);
            },
        };
        let mut command = three("python3", "-c", GREP_FILES_SCRIPT);
        push_text(&mut command, pattern.to_string());
        push_text(&mut command, glob.to_string());
        push_text(&mut command, seen);
        push_text(&mut command, decimal_of_usize(limit));
        assert(texts(command@) =~= seq![
            "python3"@,
            "-c"@,
            GREP_FILES_SCRIPT@,
            pattern@,
            glob@,
            seen@,
            decimal(limit as nat),
        ]);
        self.python(command)
    }

    /// A patch that can be applied, in the directory it is for.
    fn plan_action(
        &self,
        action: &PatchAction,
        workspace_root: &str,
        known: &Table<PathAnswer>,
    ) -> (r: Step<DockerToolPlan>)
        ensures
            plan_step(r) == action_plan(
                self.config@,
                *action,
                workspace_root@,
                path_answers(*known),
            ),
    {
        let dir = match canonical_path_inside_workspace(
            action.cwd.as_str(),
            workspace_root,
            "apply_patch cwd",
            known,
        ) {
            Step::Done(p) => p,
            Step::Ask(n) => {
                return Step::Ask(n);
            },
            Step::Fail(e) => {
                return Step::Fail(e);
            },
        };
        match validate_targets(&write_targets(&action.changes), workspace_root, known) {
            Step::Done(_) => {},
            Step::Ask(n) => {
                return Step::Ask(n);
            },
            Step::Fail(e) => {
                return Step::Fail(e);
            },
        }
        let patch = match rewrite_apply_patch_absolute_paths(
            action.patch.as_str(),
            workspace_root,
        ) {
            Step::Done(p) => p,
            Step::Ask(n) => {
                return Step::Ask(n);
            },
            Step::Fail(e) => {
                return Step::Fail(e);
            },
        };
        let workdir_in_container = match container_path(dir.as_str(), workspace_root) {
            Step::Done(p) => p,
            Step::Ask(n) => {
                return Step::Ask(n);
            },
            Step::Fail(e) => {
                return Step::Fail(e);
            },
        };
        let command: Vec<String> = vec!["apply_patch".to_string(), patch];
        assert(texts(command@) =~= seq!["apply_patch"@, patch@]);
        Step::Done(
            DockerToolPlan {
                command,
                workdir_in_container,
                timeout_ms: self.config.default_timeout_ms,
            },
        )
    }

    fn plan_apply_patch(
        &self,
        input: &str,
        cwd: &str,
        workspace_root: &str,
        answers: &GatewayAnswers,
    ) -> (r: Step<DockerToolPlan>)
        ensures
            plan_step(r) == apply_patch_plan(
                self.config@,
                input@,
                cwd@,
                workspace_root@,
                *answers,
            ),
    {
        if let Err(e) = reject_nul(input, "apply_patch input") {
            return Step::Fail(e);
        }
        let patch = rewrite_apply_patch_paths_to_host(input, workspace_root);
        let files = match &answers.patch {
            None => {
                return Step::Ask(GatewayNeed::ParsePatch(patch));
            },
            Some(Err(e)) => {
                return fail_with("apply_patch verification failed: ", e.as_str());
            },
            Some(Ok(files)) => files,
        };
        let here = locate_files(cwd, files, workspace_root);
        match validate_targets(&write_targets(&here), workspace_root, &answers.paths) {
            Step::Done(_) => {},
            Step::Ask(n) => {
                return Step::Ask(n);
            },
            Step::Fail(e) => {
                return Step::Fail(e);
            },
        }
        match &answers.verified_patch {
            None => Step::Ask(GatewayNeed::VerifyPatch { patch, cwd: cwd.to_string() }),
            Some(PatchVerification::CorrectnessError(e)) => fail_with(
                "apply_patch verification failed: ",
                e.as_str(),
            ),
            Some(PatchVerification::ShellParseError) => fail(
                "apply_patch handler received invalid patch input",
            ),
            Some(PatchVerification::NotApplyPatch) => fail(
                "apply_patch handler received non-apply_patch input",
            ),
            Some(PatchVerification::Body(action)) => self.plan_action(
                action,
                workspace_root,
                &answers.paths,
            ),
        }
    }

    fn plan_list(
        &self,
        command: &Vec<String>,
        permissions: Result<(), GatewayBackendError>,
        cwd: &str,
        workdir: Option<&str>,
        timeout_ms: Option<u64>,
        workspace_root: &str,
        known: &Table<PathAnswer>,
    ) -> (r: Step<DockerToolPlan>)
        requires
            permissions matches Err(e) ==> e@ == ErrorModel::Rejected(escalation_text()),
        ensures
            plan_step(r) == list_plan(
                self.config@,
                texts(command@),
                permissions is Err,
                cwd@,
                opt_str(workdir),
                timeout_ms,
                workspace_root@,
                path_answers(*known),
            ),
    {
        if let Err(e) = permissions {
            return Step::Fail(e);
        }
        if let Err(e) = validate_command(command) {
            return Step::Fail(e);
        }
        self.run_there(clone_texts(command), cwd, workdir, timeout_ms, workspace_root, known)
    }

    /// How a request is run, from what was found out so far.
    pub fn plan_tool_request(
        &self,
        request: &GatewayToolRequest,
        workspace_root: &str,
        scope: &DockerRequestScope,
        answers: &GatewayAnswers,
    ) -> (r: Step<DockerToolPlan>)
        ensures
            plan_step(r) == request_plan(
                self.config@,
                *request,
                scope@.project_host_root,
                workspace_root@,
                *answers,
            ),
    {
        match self.request_cwd(request, workspace_root, scope, &answers.paths) {
            Step::Done(cwd) => self.plan_tool(request, cwd.as_str(), workspace_root, answers),
            Step::Ask(n) => Step::Ask(n),
            Step::Fail(e) => Step::Fail(e),
        }
    }

    /// How a tool is run in a directory.
    pub fn plan_tool(
        &self,
        request: &GatewayToolRequest,
        cwd: &str,
        workspace_root: &str,
        answers: &GatewayAnswers,
    ) -> (r: Step<DockerToolPlan>)
        ensures
            plan_step(r) == tool_plan(
                self.config@,
                *request,
                cwd@,
                workspace_root@,
                *answers,
            ),
    {
        let tool = request.tool_name.as_str();
        let known = &answers.paths;
        if same_text(tool, "shell") || same_text(tool, "container.exec") {
            match asked_arguments(request, "shell", &answers.shell) {
                Ok(a) => self.plan_list(
                    &a.command,
                    ensure_sandbox_permissions(a.sandbox_permissions),
                    cwd,
                    as_str_opt(&a.workdir),
                    a.timeout_ms,
                    workspace_root,
                    known,
                ),
                Err(step) => step,
            }
        } else if same_text(tool, "local_shell") {
            match &request.payload {
                GatewayToolPayload::LocalShell {
                    command,
                    workdir,
                    timeout_ms,
                    sandbox_permissions,
                    ..
                } => self.plan_list(
                    command,
                    ensure_gateway_sandbox_permissions(as_str_opt(sandbox_permissions)),
                    cwd,
                    as_str_opt(workdir),
                    *timeout_ms,
                    workspace_root,
                    known,
                ),
                _ => fail("local_shell requires a local_shell payload"),
            }
        } else if same_text(tool, "shell_command") {
            match asked_arguments(request, "shell_command", &answers.shell_command) {
                Ok(a) => self.plan_shell_command(a, cwd, workspace_root, known),
                Err(step) => step,
            }
        } else if same_text(tool, "exec_command") {
            match asked_arguments(request, "exec_command", &answers.exec_command) {
                Ok(a) => self.plan_exec_command(a, cwd, workspace_root, known),
                Err(step) => step,
            }
        } else if same_text(tool, "apply_patch") {
            match &request.payload {
                GatewayToolPayload::Function { arguments } => match asked(
                    tool,
                    arguments.as_str(),
                    &answers.apply_patch,
                ) {
                    Ok(input) => self.plan_apply_patch(
                        input.as_str(),
                        cwd,
                        workspace_root,
                        answers,
                    ),
                    Err(step) => step,
                },
                GatewayToolPayload::Custom { input } => self.plan_apply_patch(
                    input.as_str(),
                    cwd,
                    workspace_root,
                    answers,
                ),
                _ => fail("apply_patch requires a function or custom payload"),
            }
        } else if same_text(tool, "read_file") {
            match asked_arguments(request, "read_file", &answers.read_file) {
                Ok(a) => self.plan_read_file(a, cwd, workspace_root, known),
                Err(step) => step,
            }
        } else if same_text(tool, "list_dir") {
            match asked_arguments(request, "list_dir", &answers.list_dir) {
                Ok(a) => self.plan_list_dir(a, cwd, workspace_root, known),
                Err(step) => step,
            }
        } else if same_text(tool, "grep_files") {
            match asked_arguments(request, "grep_files", &answers.grep_files) {
                Ok(a) => self.plan_grep_files(a, cwd, workspace_root, known),
                Err(step) => step,
            }
        } else {
            Step::Fail(GatewayBackendError::UnsupportedTool(tool.to_string()))
        }
    }
}

pub open spec fn as_arguments<T>(r: Result<&T, Step<DockerToolPlan>>) -> StepModel<T> {
    match r {
        Ok(a) => StepModel::Done(*a),
        Err(Step::Ask(n)) => StepModel::Ask(n@),
        Err(Step::Fail(e)) => StepModel::Fail(e@),
        Err(Step::Done(p)) => refuse(Seq::empty()),
    }
}

/// What the arguments of a tool say, once they were read.
fn asked<'a, T>(
    tool_name: &str,
    arguments: &str,
    answer: &'a Option<Result<T, String>>,
) -> (r: Result<&'a T, Step<DockerToolPlan>>)
    ensures
        as_arguments(r) == read_arguments(tool_name@, arguments@, *answer),
        r matches Err(s) ==> !(s is Done),
{
    match answer {
        None => Err(
            Step::Ask(
                GatewayNeed::Arguments {
                    tool_name: tool_name.to_string(),
                    arguments: arguments.to_string(),
                },
            ),
        ),
        Some(Err(e)) => Err(fail_with("invalid tool arguments: ", e.as_str())),
        Some(Ok(a)) => Ok(a),
    }
}

fn asked_arguments<'a, T>(
    request: &GatewayToolRequest,
    label: &str,
    answer: &'a Option<Result<T, String>>,
) -> (r: Result<&'a T, Step<DockerToolPlan>>)
    ensures
        as_arguments(r) == function_arguments(*request, label@, *answer),
        r matches Err(s) ==> !(s is Done),
{
    match &request.payload {
        GatewayToolPayload::Function { arguments } => asked(
            request.tool_name.as_str(),
            arguments.as_str(),
            answer,
        ),
        _ => Err(fail_with(label, " requires a function payload")),
    }
}

fn as_str_opt<'a>(value: &'a Option<String>) -> (r: Option<&'a str>)
    ensures
        opt_str(r) == opt_text(*value),
{
    match value {
        Some(v) => Some(v.as_str()),
        None => None,
    }
}

// ---------------------------------------------------------------------------
// The container of a company
// ---------------------------------------------------------------------------

/// What `String::from_utf8_lossy` makes of bytes.
pub uninterp spec fn lossy_text(bytes: Seq<u8>) -> Seq<char>;

/// Trusted: `String::from_utf8_lossy`. The text depends on the bytes alone; bytes
/// that are valid UTF-8 give the text that they encode.
#[verifier::external_body]
fn text_of_bytes(bytes: &Vec<u8>) -> (r: String)
    ensures
        r@ == lossy_text(bytes@),
        valid_utf8(bytes@) ==> r@ == decode_utf8(bytes@),
{
    String::from_utf8_lossy(bytes).into_owned()
}

/// A command of the container runtime.
#[derive(Clone, Debug)]
pub struct DockerCommandRequest {
    pub executable: String,
    pub args: Vec<String>,
    pub timeout_ms: u64,
    pub container_name: String,
}

#[verifier::ext_equal]
pub struct CommandModel {
    pub executable: Seq<char>,
    pub args: Seq<Seq<char>>,
    pub timeout_ms: u64,
    pub container_name: Seq<char>,
}

impl View for DockerCommandRequest {
    type V = CommandModel;

    open spec fn view(&self) -> CommandModel {
        CommandModel {
            executable: self.executable@,
            args: texts(self.args@),
            timeout_ms: self.timeout_ms,
            container_name: self.container_name@,
        }
    }
}

/// What a command printed, and how it ended.
#[derive(Clone, Debug, PartialEq, Eq)]
pub struct DockerCommandOutput {
    pub stdout: Vec<u8>,
    pub stderr: Vec<u8>,
    pub exit_code: i32,
}

/// The arguments that create the container.
pub open spec fn create_args(config: ConfigModel, container: Seq<char>, root: Seq<char>) -> Seq<
    Seq<char>,
> {
    seq![
        "run"@,
        "-d"@,
        "--name"@,
        container,
        "--network"@,
        "none"@,
        "--read-only"@,
        "--tmpfs"@,
        "/tmp:rw,noexec,nosuid,nodev,size=64m"@,
        "--cap-drop"@,
        "ALL"@,
        "--security-opt"@,
        "no-new-privileges"@,
        "--memory"@,
        config.memory_limit,
        "--cpus"@,
        config.cpu_limit,
        "--pids-limit"@,
        decimal(config.pids_limit as nat),
        "-v"@,
        root + ":/workspace:rw"@,
        config.image,
        "sleep"@,
        "infinity"@,
    ]
}

/// The arguments that run a planned command in the container.
pub open spec fn exec_args(config: ConfigModel, container: Seq<char>, plan: PlanModel) -> Seq<
    Seq<char>,
> {
    seq!["exec"@, "-w"@, plan.workdir] + (match config.uid_gid {
        Some(u) => seq!["-u"@, u],
        None => Seq::empty(),
    }) + seq![container] + plan.command
}

/// A command of the runtime that is not a planned one.
pub open spec fn runtime_command(
    config: ConfigModel,
    container_name: Seq<char>,
    args: Seq<Seq<char>>,
) -> CommandModel {
    CommandModel {
        executable: config.docker_binary,
        args,
        timeout_ms: least(config.default_timeout_ms, config.max_timeout_ms),
        container_name,
    }
}

/// What has to be done so that the container runs.
#[derive(Clone, Copy, Debug, PartialEq, Eq, Structural)]
pub enum ContainerAction {
    /// It runs.
    Nothing,
    /// It is there, but does not run.
    Start,
    /// It is not there.
    Create,
}

/// What has to be done, from what `docker inspect` said.
pub open spec fn inspected(output: DockerCommandOutput) -> ContainerAction {
    if output.exit_code != 0 {
        ContainerAction::Create
    } else if lower(trim(lossy_text(output.stdout@))) == "true"@ {
        ContainerAction::Nothing
    } else {
        ContainerAction::Start
    }
}

pub open spec fn runtime_failure(verb: Seq<char>, error: Seq<char>) -> ErrorModel {
    ErrorModel::Internal("docker "@ + verb + " failed: "@ + error)
}

pub open spec fn exit_failure(
    verb: Seq<char>,
    container: Seq<char>,
    output: DockerCommandOutput,
) -> ErrorModel {
    ErrorModel::Internal(
        "docker "@ + verb + " `"@ + container + "` failed with exit code "@ + signed_decimal(
            output.exit_code as int,
        ) + ": "@ + lossy_text(output.stderr@),
    )
}

fn runtime_error(verb: &str, error: &str) -> (r: GatewayBackendError)
    ensures
        r@ == runtime_failure(verb@, error@),
{
    let mut out = "docker ".to_string();
    out.append(verb);
    out.append(" failed: ");
    out.append(error);
    GatewayBackendError::Internal(out)
}

/// What has to be done, from what `docker inspect` said; an error where it could
/// not be run.
pub fn container_action(inspect: &Result<DockerCommandOutput, String>) -> (r: Result<
    ContainerAction,
    GatewayBackendError,
>)
    ensures
        match (r, *inspect) {
            (Ok(a), Ok(o)) => a == inspected(o),
            (Err(e), Err(t)) => e@ == runtime_failure("inspect"@, t@),
            _ => false,
        },
        (*inspect matches Ok(o) && o.exit_code == 0 && valid_utf8(o.stdout@)) ==> r
            == Ok::<_, GatewayBackendError>(
            if lower(trim(decode_utf8((*inspect)->Ok_0.stdout@))) == "true"@ {
                ContainerAction::Nothing
            } else {
                ContainerAction::Start
            },
        ),
{
    match inspect {
        Err(t) => Err(runtime_error("inspect", t.as_str())),
        Ok(o) => {
            if o.exit_code != 0 {
                return Ok(ContainerAction::Create);
            }
            let said = text_of_bytes(&o.stdout);
            if same_text(lowered(trimmed(said.as_str())).as_str(), "true") {
                Ok(ContainerAction::Nothing)
            } else {
                Ok(ContainerAction::Start)
            }
        },
    }
}

/// What a command for a container came to.
pub open spec fn container_result(
    verb: Seq<char>,
    container_name: Seq<char>,
    outcome: Result<DockerCommandOutput, String>,
) -> Result<(), ErrorModel> {
    match outcome {
        Err(t) => Err(runtime_failure(verb, t@)),
        Ok(o) => if o.exit_code == 0 {
            Ok(())
        } else {
            Err(exit_failure(verb, container_name, o))
        },
    }
}

/// Whether a container was started (`start`) or created (`run`).
pub fn container_outcome(
    verb: &str,
    container_name: &str,
    outcome: &Result<DockerCommandOutput, String>,
) -> (r: Result<(), GatewayBackendError>)
    ensures
        unit_or_error(r) == container_result(verb@, container_name@, *outcome),
{
    match outcome {
        Err(t) => Err(runtime_error(verb, t.as_str())),
        Ok(o) => {
            if o.exit_code == 0 {
                return Ok(());
            }
            let mut out = "docker ".to_string();
            out.append(verb);
            out.append(" `");
            out.append(container_name);
            out.append("` failed with exit code ");
            out.append(decimal_of_i64(o.exit_code as i64).as_str());
            out.append(": ");
            out.append(text_of_bytes(&o.stderr).as_str());
            Err(GatewayBackendError::Internal(out))
        },
    }
}

impl DockerGatewayBackend {
    fn command(&self, container_name: &str, args: Vec<String>) -> (r: DockerCommandRequest)
        ensures
            r@ == runtime_command(self.config@, container_name@, texts(args@)),
    {
        DockerCommandRequest {
            executable: self.config.docker_binary.clone(),
            args,
            timeout_ms: min_ms(self.config.default_timeout_ms, self.config.max_timeout_ms),
            container_name: container_name.to_string(),
        }
    }

    /// The command that asks whether the container runs.
    pub fn inspect_command(&self, scope: &DockerRequestScope) -> (r: DockerCommandRequest)
        ensures
            r@ == runtime_command(
                self.config@,
                scope@.container_name,
                seq!["inspect"@, "-f"@, "{{.State.Running}}"@, scope@.container_name],
            ),
    {
        let mut args = three("inspect", "-f", "{{.State.Running}}");
        push_text(&mut args, scope.container_name.clone());
        assert(texts(args@) =~= seq![
            "inspect"@,
            "-f"@,
            "{{.State.Running}}"@,
            scope.container_name@,
        ]);
        self.command(scope.container_name.as_str(), args)
    }

    /// The command that starts the container.
    pub fn start_company_container(&self, scope: &DockerRequestScope) -> (r: DockerCommandRequest)
        ensures
            r@ == runtime_command(
                self.config@,
                scope@.container_name,
                seq!["start"@, scope@.container_name],
            ),
    {
        let args: Vec<String> = vec!["start".to_string(), scope.container_name.clone()];
        assert(texts(args@) =~= seq!["start"@, scope.container_name@]);
        self.command(scope.container_name.as_str(), args)
    }

    /// The command that creates the container.
    pub fn create_company_container(&self, scope: &DockerRequestScope, workspace_root: &str) -> (r:
        DockerCommandRequest)
        ensures
            r@ == runtime_command(
                self.config@,
                scope@.container_name,
                create_args(self.config@, scope@.container_name, workspace_root@),
            ),
    {
        let args = self.docker_create_args(scope.container_name.as_str(), workspace_root);
        self.command(scope.container_name.as_str(), args)
    }

    /// The command that runs a planned tool.
    pub fn exec_command(&self, scope: &DockerRequestScope, plan: &DockerToolPlan) -> (r:
        DockerCommandRequest)
        ensures
            r@ == (CommandModel {
                executable: self.config@.docker_binary,
                args: exec_args(self.config@, scope@.container_name, plan@),
                timeout_ms: plan@.timeout_ms,
                container_name: scope@.container_name,
            }),
    {
        DockerCommandRequest {
            executable: self.config.docker_binary.clone(),
            args: self.docker_exec_args(scope.container_name.as_str(), plan),
            timeout_ms: plan.timeout_ms,
            container_name: scope.container_name.clone(),
        }
    }

    pub fn docker_create_args(&self, container_name: &str, workspace_root: &str) -> (r: Vec<String>)
        ensures
            texts(r@) == create_args(self.config@, container_name@, workspace_root@),
    {
        let mut mount = workspace_root.to_string();
        mount.append(":/workspace:rw");
        let args: Vec<String> = vec![
            "run".to_string(),
            "-d".to_string(),
            "--name".to_string(),
            container_name.to_string(),
            "--network".to_string(),
            "none".to_string(),
            "--read-only".to_string(),
            "--tmpfs".to_string(),
            "/tmp:rw,noexec,nosuid,nodev,size=64m".to_string(),
            "--cap-drop".to_string(),
            "ALL".to_string(),
            "--security-opt".to_string(),
            "no-new-privileges".to_string(),
            "--memory".to_string(),
            self.config.memory_limit.clone(),
            "--cpus".to_string(),
            self.config.cpu_limit.clone(),
            "--pids-limit".to_string(),
            decimal_of(self.config.pids_limit as u64),
            "-v".to_string(),
            mount,
            self.config.image.clone(),
            "sleep".to_string(),
            "infinity".to_string(),
        ];
        assert(texts(args@) =~= create_args(self.config@, container_name@, workspace_root@));
        args
    }

    pub fn docker_exec_args(&self, container_name: &str, plan: &DockerToolPlan) -> (r: Vec<String>)
        ensures
            texts(r@) == exec_args(self.config@, container_name@, plan@),
    {
        let mut args = three("exec", "-w", plan.workdir_in_container.as_str());
        let ghost start = texts(args@);
        let ghost user = match self.config@.uid_gid {
            Some(u) => seq!["-u"@, u],
            None => Seq::<Seq<char>>::empty(),
        };
        if let Some(uid_gid) = &self.config.uid_gid {
            push_text(&mut args, "-u".to_string());
            push_text(&mut args, uid_gid.clone());
        }
        assert(texts(args@) =~= start + user);
        push_text(&mut args, container_name.to_string());
        let ghost front = texts(args@);
        assert(front =~= start + user + seq![container_name@]);
        let ghost all = texts(plan.command@);
        let mut i: usize = 0;
        assert(texts(args@) =~= front + all.take(0));
        while i < plan.command.len()
            invariant
                i <= plan.command@.len(),
                all == texts(plan.command@),
                texts(args@) == front + all.take(i as int),
            decreases plan.command@.len() - i,
        {
            let ghost before = texts(args@);
            push_text(&mut args, plan.command[i].clone());
            i = i + 1;
            assert(all[i - 1] == plan.command@[i - 1]@);
            assert(front + all.take(i as int) =~= before.push(all[i - 1]));
        }
        assert(all.take(i as int) =~= all);
        args
    }
}

// ---------------------------------------------------------------------------
// What is answered
// ---------------------------------------------------------------------------

/// How the result of a command is written down.
pub open spec fn execution_text(output: DockerCommandOutput) -> Seq<char> {
    "{\"stdout\":"@ + json_quoted(lossy_text(output.stdout@)) + ",\"stderr\":"@ + json_quoted(
        lossy_text(output.stderr@),
    ) + ",\"exit_code\":"@ + signed_decimal(output.exit_code as int) + "}"@
}

/// Whether the answer tells the result of a command: as a text where the tool was
/// given one, and otherwise with whether it succeeded.
pub open spec fn tells_result(
    r: GatewayToolResponse,
    payload: GatewayToolPayload,
    output: DockerCommandOutput,
) -> bool {
    match payload {
        GatewayToolPayload::Custom { .. } => r matches GatewayToolResponse::Custom {
            output: o,
            call_id: None,
        } && o@ == execution_text(output),
        _ => r matches GatewayToolResponse::Function { output: o, call_id: None } && o.text@
            == execution_text(output) && o.success == Some(output.exit_code == 0),
    }
}

/// What a request is answered once its command was run.
pub fn finish_execution(
    payload: &GatewayToolPayload,
    outcome: &Result<DockerCommandOutput, String>,
) -> (r: Result<GatewayToolResponse, GatewayBackendError>)
    ensures
        match (r, *outcome) {
            (Ok(a), Ok(o)) => tells_result(a, *payload, o),
            (Err(e), Err(t)) => e@ == runtime_failure("exec"@, t@),
            _ => false,
        },
{
    let o = match outcome {
        Err(t) => {
            return Err(runtime_error("exec", t.as_str()));
        },
        Ok(o) => o,
    };
    let mut body = "{\"stdout\":".to_string();
    body.append(quote_json(text_of_bytes(&o.stdout).as_str()).as_str());
    body.append(",\"stderr\":");
    body.append(quote_json(text_of_bytes(&o.stderr).as_str()).as_str());
    body.append(",\"exit_code\":");
    body.append(decimal_of_i64(o.exit_code as i64).as_str());
    body.append("}");
    match payload {
        GatewayToolPayload::Custom { .. } => Ok(
            GatewayToolResponse::Custom { output: body, call_id: None },
        ),
        _ => Ok(
            GatewayToolResponse::Function {
                output: FunctionOutput { text: body, success: Some(o.exit_code == 0) },
                call_id: None,
            },
        ),
    }
}

/// Who may ask the gateway, and for what.
#[derive(Clone, Debug)]
pub struct GatewayHttpServer {
    pub bearer_token: Option<String>,
    pub capability_policy: ToolCapabilityPolicy,
}

/// A status and what is said with it.
#[derive(Debug, PartialEq, Eq)]
pub struct GatewayErrorReply {
    pub status: u16,
    pub error: String,
}

pub open spec fn says(r: GatewayErrorReply, status: u16, error: Seq<char>) -> bool {
    r.status == status && r.error@ == error
}

/// Whether a request with this `Authorization` may be made.
pub open spec fn is_authorized(token: Option<Seq<char>>, header: Option<Seq<char>>) -> bool {
    match token {
        None => true,
        Some(t) => header == Some("Bearer "@ + t),
    }
}

/// Whether a request is refused, and why.
pub open spec fn refuses(
    r: Option<GatewayErrorReply>,
    token: Option<Seq<char>>,
    policy: PolicyModel,
    authorization: Option<Seq<char>>,
    request: Result<&str, &str>,
) -> bool {
    if !is_authorized(token, authorization) {
        r matches Some(e) && says(e, 401, "missing or invalid bearer token"@)
    } else {
        match request {
            Err(t) => r matches Some(e) && says(e, 400, "invalid request JSON: "@ + t@),
            Ok(tool) => if allows(policy, tool@) {
                r is None
            } else {
                r matches Some(e) && says(e, 403, denial(tool@))
            },
        }
    }
}

impl GatewayHttpServer {
    /// A server that anyone may ask for anything.
    pub fn new() -> (r: GatewayHttpServer)
        ensures
            r.bearer_token is None,
            r.capability_policy@ == (PolicyModel { allow_all: true, allowed: Seq::empty() }),
    {
        GatewayHttpServer { bearer_token: None, capability_policy: ToolCapabilityPolicy::allow_all() }
    }

    pub fn with_bearer_token(self, bearer_token: &str) -> (r: GatewayHttpServer)
        ensures
            opt_text(r.bearer_token) == Some(bearer_token@),
            r.capability_policy == self.capability_policy,
    {
        GatewayHttpServer {
            bearer_token: Some(bearer_token.to_string()),
            capability_policy: self.capability_policy,
        }
    }

    pub fn with_capability_policy(self, capability_policy: ToolCapabilityPolicy) -> (r:
        GatewayHttpServer)
        ensures
            r.bearer_token == self.bearer_token,
            r.capability_policy == capability_policy,
    {
        GatewayHttpServer { bearer_token: self.bearer_token, capability_policy }
    }

    /// Whether a request with this `Authorization` may be made.
    pub fn authorized(&self, authorization: Option<&str>) -> (r: bool)
        ensures
            r == is_authorized(opt_text(self.bearer_token), opt_str(authorization)),
    {
        match (&self.bearer_token, authorization) {
            (None, _) => true,
            (Some(_), None) => false,
            (Some(token), Some(value)) => {
                let mut expected = "Bearer ".to_string();
                expected.append(token.as_str());
                same_text(value, expected.as_str())
            },
        }
    }

    /// Why a request is not handed to the backend, if it is not: it is not
    /// authorized, it cannot be read, or its tool is not allowed. `request` is the
    /// name of its tool, or why it cannot be read.
    pub fn refusal(&self, authorization: Option<&str>, request: Result<&str, &str>) -> (r: Option<
        GatewayErrorReply,
    >)
        ensures
            refuses(
                r,
                opt_text(self.bearer_token),
                self.capability_policy@,
                opt_str(authorization),
                request,
            ),
    {
        if !self.authorized(authorization) {
            return Some(
                GatewayErrorReply {
                    status: 401,
                    error: "missing or invalid bearer token".to_string(),
                },
            );
        }
        match request {
            Err(t) => {
                let mut error = "invalid request JSON: ".to_string();
                error.append(t);
                Some(GatewayErrorReply { status: 400, error })
            },
            Ok(tool) => match self.capability_policy.check(tool) {
                GatewayDecision::Allowed => None,
                GatewayDecision::Denied { reason } => Some(
                    GatewayErrorReply { status: 403, error: reason },
                ),
            },
        }
    }
}

/// The status of an error.
pub open spec fn error_status(e: ErrorModel) -> u16 {
    match e {
        ErrorModel::UnsupportedTool(_) => 400,
        ErrorModel::Rejected(_) => 403,
        ErrorModel::Internal(_) => 500,
    }
}

/// What a request is answered that the backend could not serve.
pub fn gateway_error(error: &GatewayBackendError) -> (r: GatewayErrorReply)
    ensures
        says(r, error_status(error@), backend_error_text(error@)),
{
    let status: u16 = match error {
        GatewayBackendError::UnsupportedTool(_) => 400,
        GatewayBackendError::Rejected(_) => 403,
        GatewayBackendError::Internal(_) => 500,
    };
    GatewayErrorReply { status, error: error.message() }
}

/// A backend that answers each tool with what it was told.
#[derive(Clone, Debug)]
pub struct InMemoryGatewayBackend {
    pub responses: Table<GatewayToolResponse>,
}

pub open spec fn text_answer(r: GatewayToolResponse, output: Seq<char>) -> bool {
    r matches GatewayToolResponse::Function { output: o, call_id: None } && o.text@ == output
        && o.success == Some(true)
}

impl Default for InMemoryGatewayBackend {
    fn default() -> (r: InMemoryGatewayBackend)
        ensures
            r.responses@ == Map::<Seq<char>, GatewayToolResponse>::empty(),
    {
        InMemoryGatewayBackend::new()
    }
}

/// Whether a tool is answered as was set, or is not supported.
pub open spec fn answers_as_set(
    r: Result<GatewayToolResponse, GatewayBackendError>,
    responses: Map<Seq<char>, GatewayToolResponse>,
    tool_name: Seq<char>,
) -> bool {
    match r {
        Ok(a) => responses.contains_key(tool_name) && a == responses[tool_name],
        Err(e) => !responses.contains_key(tool_name) && e@ == ErrorModel::UnsupportedTool(tool_name),
    }
}

impl InMemoryGatewayBackend {
    pub fn new() -> (r: InMemoryGatewayBackend)
        ensures
            r.responses@ == Map::<Seq<char>, GatewayToolResponse>::empty(),
    {
        InMemoryGatewayBackend { responses: Table::new() }
    }

    /// The backend that answers the tool with this text.
    pub fn with_text_response(self, tool_name: &str, output: &str) -> (r: InMemoryGatewayBackend)
        ensures
            r.responses@.contains_key(tool_name@),
            text_answer(r.responses@[tool_name@], output@),
            r.responses@ == self.responses@.insert(tool_name@, r.responses@[tool_name@]),
    {
        self.with_response(
            tool_name,
            GatewayToolResponse::Function {
                output: FunctionOutput { text: output.to_string(), success: Some(true) },
                call_id: None,
            },
        )
    }

    /// The backend that answers the tool so.
    pub fn with_response(self, tool_name: &str, response: GatewayToolResponse) -> (r:
        InMemoryGatewayBackend)
        ensures
            r.responses@ == self.responses@.insert(tool_name@, response),
    {
        let mut responses = self.responses;
        responses.insert(tool_name.to_string(), response);
        InMemoryGatewayBackend { responses }
    }

    /// The answer for the tool; one that has none is not supported.
    pub fn dispatch(&self, tool_name: &str) -> (r: Result<GatewayToolResponse, GatewayBackendError>)
        ensures
            answers_as_set(r, self.responses@, tool_name@),
    {
        match self.responses.get(tool_name) {
            Some(a) => Ok(a.copy()),
            None => Err(GatewayBackendError::UnsupportedTool(tool_name.to_string())),
        }
    }
}

// ---------------------------------------------------------------------------
// Laws
// ---------------------------------------------------------------------------

/// Whether a path of the container is its workspace, or is written as one below
/// it.
pub open spec fn in_workspace(p: Seq<char>) -> bool {
    p == CONTAINER_WORKSPACE_ROOT@ || begins(p, CONTAINER_WORKSPACE_ROOT@ + "/"@)
}

proof fn lemma_start_stays(start: Seq<char>, rest: Seq<char>, from: char, to: Seq<char>)
    requires
        !start.contains(from),
    ensures
        replaced(start + rest, seq![from], to) == start + replaced(rest, seq![from], to),
    decreases start.len(),
{
    let whole = start + rest;
    if start.len() == 0 {
        assert(whole =~= rest);
    } else {
        assert(start[0] != from);
        assert(whole.take(1)[0] == start[0]);
        let t = start.skip(1);
        assert forall|i: int| 0 <= i < t.len() implies t[i] != from by {
            assert(t[i] == start[i + 1]);
        }
        lemma_start_stays(t, rest, from, to);
        assert(whole.skip(1) =~= t + rest);
        assert(seq![whole[0]] + (t + replaced(rest, seq![from], to)) =~= start + replaced(
            rest,
            seq![from],
            to,
        ));
    }
}

proof fn lemma_seen_in_workspace(path: Seq<char>, root: Seq<char>)
    ensures
        inside_container(path, root) matches StepModel::Done(seen) ==> in_workspace(seen),
{
    let logical = CONTAINER_WORKSPACE_ROOT@;
    if inside_container(path, root) is Done {
        reveal_strlit("/workspace");
        reveal_strlit("\\");
        reveal_strlit("/");
        let rest = below(path, root)->0;
        if rest.len() > 0 {
            law_below_has_the_other_names(path, root);
            assert("\\"@ =~= seq!['\\']);
            let start = logical + "/"@;
            assert(path_join(logical, rest) =~= start + rest);
            lemma_start_stays(start, rest, '\\', "/"@);
            let seen = inside_container(path, root)->Done_0;
            assert(seen.take(start.len() as int) =~= start);
        }
    }
}

/// Whatever a request says and whatever was found out, a plan that stands runs in
/// the workspace of the container.
pub proof fn law_plans_run_in_the_workspace(
    config: ConfigModel,
    request: GatewayToolRequest,
    project: Option<Seq<char>>,
    root: Seq<char>,
    answers: GatewayAnswers,
)
    ensures
        request_plan(config, request, project, root, answers) matches StepModel::Done(plan)
            ==> in_workspace(plan.workdir),
{
    let plan = request_plan(config, request, project, root, answers);
    assert forall|p: Seq<char>| #[trigger]
        inside_container(p, root) is Done implies in_workspace(
        inside_container(p, root)->Done_0,
    ) by {
        lemma_seen_in_workspace(p, root);
    }
}

/// A command that is given a time gets no more than the greatest, and none is
/// refused for asking more.
pub proof fn law_timeouts_are_capped(config: ConfigModel, timeout_ms: Option<u64>)
    ensures
        timeout_step(config, timeout_ms) matches StepModel::Done(ms) ==> ms
            <= config.max_timeout_ms,
        timeout_ms matches Some(ms) ==> (timeout_step(config, timeout_ms) is Done <==> ms > 0),
{
}

/// The path of the host that a tool means: below the workspace where it names the
/// logical one, or below the directory it works in.
pub open spec fn meant_path(cwd: Seq<char>, value: Seq<char>, root: Seq<char>) -> Seq<char> {
    if is_absolute(value) {
        host_path(host_path(value, root), root)
    } else {
        host_path(path_join(cwd, value), root)
    }
}

/// Whether the file system says that this is the path that a tool means, inside the
/// workspace.
pub open spec fn is_at(
    found: Seq<char>,
    cwd: Seq<char>,
    value: Seq<char>,
    root: Seq<char>,
    known: Map<Seq<char>, PathModel>,
) -> bool {
    let p = meant_path(cwd, value, root);
    known.contains_key(p) && known[p].canonical == Ok::<_, Seq<char>>(found) && lies_in(found, root)
}

/// Whether a command runs in the directory that was asked for; in that of the
/// request where none was.
pub open spec fn runs_where_asked(
    plan: PlanModel,
    cwd: Seq<char>,
    workdir: Option<Seq<char>>,
    root: Seq<char>,
    known: Map<Seq<char>, PathModel>,
) -> bool {
    if workdir is Some && !blank(workdir->0) {
        exists|dir: Seq<char>| #[trigger]
            is_at(dir, cwd, trim(workdir->0), root, known) && inside_container(dir, root)
                == StepModel::Done(plan.workdir)
    } else {
        inside_container(cwd, root) == StepModel::Done(plan.workdir)
    }
}

/// Whether a command may take as long as was asked for, as far as that is admitted;
/// where nothing was, as long as is usual.
pub open spec fn lasts_as_asked(ms: u64, asked: Option<u64>, config: ConfigModel) -> bool {
    match asked {
        Some(a) => a > 0 && (a <= config.max_timeout_ms ==> ms == a) && (a > config.max_timeout_ms
            ==> ms == config.max_timeout_ms),
        None => (config.default_timeout_ms <= config.max_timeout_ms ==> ms
            == config.default_timeout_ms) && (config.default_timeout_ms > config.max_timeout_ms
            ==> ms == config.max_timeout_ms),
    }
}

proof fn lemma_run_in(
    config: ConfigModel,
    command: Seq<Seq<char>>,
    cwd: Seq<char>,
    workdir: Option<Seq<char>>,
    timeout_ms: Option<u64>,
    root: Seq<char>,
    known: Map<Seq<char>, PathModel>,
)
    ensures
        run_in(config, command, cwd, workdir, timeout_ms, root, known) matches StepModel::Done(plan)
            ==> plan.command == command && runs_where_asked(plan, cwd, workdir, root, known)
            && lasts_as_asked(plan.timeout_ms, timeout_ms, config),
{
    if let StepModel::Done(plan) = run_in(config, command, cwd, workdir, timeout_ms, root, known) {
        let dir = working_directory(cwd, workdir, root, known)->Done_0;
        if workdir is Some && !blank(workdir->0) {
            assert(is_at(dir, cwd, trim(workdir->0), root, known));
        }
    }
}

/// A request is made in the directory that it names; where it names the workspace as
/// a whole and belongs to a project, in that of the project.
pub proof fn law_requests_are_made_in_their_directory(
    cwd: Seq<char>,
    project: Option<Seq<char>>,
    root: Seq<char>,
    known: Map<Seq<char>, PathModel>,
    dir: Seq<char>,
)
    requires
        request_directory(cwd, project, root, known) == StepModel::Done(dir),
    ensures
        lies_in(dir, root),
        ({
            let whole = (is_absolute(cwd) == is_absolute("/workspace"@) && names(cwd) == names(
                "/workspace"@,
            )) || (is_absolute(cwd) == is_absolute(root) && names(cwd) == names(root));
            let p = if project is Some && whole {
                project->0
            } else {
                host_path(cwd, root)
            };
            known.contains_key(p) && known[p].canonical == Ok::<_, Seq<char>>(dir)
        }),
{
}

/// A shell runs just the command that was asked for, in the directory that was asked
/// for, for as long as was asked for; a script is given to the shell that was asked
/// for, or the usual one. None is run with more rights, and none that is empty.
#[verifier::rlimit(60)]
pub proof fn law_shells_run_what_was_asked(
    config: ConfigModel,
    request: GatewayToolRequest,
    cwd: Seq<char>,
    root: Seq<char>,
    answers: GatewayAnswers,
    plan: PlanModel,
)
    requires
        tool_plan(config, request, cwd, root, answers) == StepModel::Done(plan),
    ensures
        request.tool_name@ == "shell"@ || request.tool_name@ == "container.exec"@ ==> (
        answers.shell matches Some(Ok(a)) && {
            &&& plan.command == texts(a.command@)
            &&& a.command@.len() > 0
            &&& a.sandbox_permissions != Some(SandboxPermissions::RequireEscalated)
            &&& runs_where_asked(plan, cwd, opt_text(a.workdir), root, path_answers(answers.paths))
            &&& lasts_as_asked(plan.timeout_ms, a.timeout_ms, config)
        }),
        request.tool_name@ == "shell_command"@ ==> (answers.shell_command matches Some(Ok(a)) && {
            &&& plan.command == seq!["/bin/sh"@, "-lc"@, trim(a.command@)]
            &&& !blank(a.command@)
            &&& a.sandbox_permissions != Some(SandboxPermissions::RequireEscalated)
            &&& runs_where_asked(plan, cwd, opt_text(a.workdir), root, path_answers(answers.paths))
            &&& lasts_as_asked(plan.timeout_ms, a.timeout_ms, config)
        }),
        request.tool_name@ == "exec_command"@ ==> (answers.exec_command matches Some(Ok(a)) && {
            &&& plan.command == seq![
                if a.shell is Some && !blank(a.shell->0@) {
                    a.shell->0@
                } else {
                    "/bin/sh"@
                },
                "-lc"@,
                trim(a.cmd@),
            ]
            &&& !blank(a.cmd@)
            &&& a.sandbox_permissions != SandboxPermissions::RequireEscalated
            &&& runs_where_asked(plan, cwd, opt_text(a.workdir), root, path_answers(answers.paths))
            &&& lasts_as_asked(plan.timeout_ms, a.timeout_ms, config)
        }),
        request.tool_name@ == "local_shell"@ ==> (
        request.payload matches GatewayToolPayload::LocalShell {
            command,
            workdir,
            timeout_ms,
            sandbox_permissions,
            prefix_rule,
            justification,
        } && {
            &&& plan.command == texts(command@)
            &&& command@.len() > 0
            &&& runs_where_asked(plan, cwd, opt_text(workdir), root, path_answers(answers.paths))
            &&& lasts_as_asked(plan.timeout_ms, timeout_ms, config)
        }),
{
    let known = path_answers(answers.paths);
    lemma_tools_differ();
    if let Some(Ok(a)) = answers.shell {
        lemma_run_in(config, texts(a.command@), cwd, opt_text(a.workdir), a.timeout_ms, root, known);
    }
    if let Some(Ok(a)) = answers.shell_command {
        lemma_run_in(
            config,
            seq!["/bin/sh"@, "-lc"@, trim(a.command@)],
            cwd,
            opt_text(a.workdir),
            a.timeout_ms,
            root,
            known,
        );
    }
    if let Some(Ok(a)) = answers.exec_command {
        let shell = if a.shell is Some && !blank(a.shell->0@) {
            a.shell->0@
        } else {
            "/bin/sh"@
        };
        assert(chosen_shell(opt_text(a.shell)) == shell);
        lemma_run_in(
            config,
            seq![shell, "-lc"@, trim(a.cmd@)],
            cwd,
            opt_text(a.workdir),
            a.timeout_ms,
            root,
            known,
        );
    }
    if let GatewayToolPayload::LocalShell {
        command,
        workdir,
        timeout_ms,
        sandbox_permissions,
        prefix_rule,
        justification,
    } = request.payload {
        lemma_run_in(config, texts(command@), cwd, opt_text(workdir), timeout_ms, root, known);
    }
}

proof fn lemma_tools_differ()
    ensures
        "shell"@ != "local_shell"@,
        "shell"@ != "shell_command"@,
        "shell"@ != "exec_command"@,
        "shell"@ != "apply_patch"@,
        "shell"@ != "read_file"@,
        "shell"@ != "list_dir"@,
        "shell"@ != "grep_files"@,
        "container.exec"@ != "local_shell"@,
        "container.exec"@ != "shell_command"@,
        "container.exec"@ != "exec_command"@,
        "container.exec"@ != "apply_patch"@,
        "container.exec"@ != "read_file"@,
        "container.exec"@ != "list_dir"@,
        "container.exec"@ != "grep_files"@,
        "local_shell"@ != "shell_command"@,
        "local_shell"@ != "exec_command"@,
        "local_shell"@ != "apply_patch"@,
        "local_shell"@ != "read_file"@,
        "local_shell"@ != "list_dir"@,
        "local_shell"@ != "grep_files"@,
        "shell_command"@ != "exec_command"@,
        "shell_command"@ != "apply_patch"@,
        "shell_command"@ != "read_file"@,
        "shell_command"@ != "list_dir"@,
        "shell_command"@ != "grep_files"@,
        "exec_command"@ != "apply_patch"@,
        "exec_command"@ != "read_file"@,
        "exec_command"@ != "list_dir"@,
        "exec_command"@ != "grep_files"@,
        "apply_patch"@ != "read_file"@,
        "apply_patch"@ != "list_dir"@,
        "apply_patch"@ != "grep_files"@,
        "read_file"@ != "list_dir"@,
        "read_file"@ != "grep_files"@,
        "list_dir"@ != "grep_files"@,
{
    reveal_strlit("shell");
    reveal_strlit("container.exec");
    reveal_strlit("local_shell");
    reveal_strlit("shell_command");
    reveal_strlit("exec_command");
    reveal_strlit("apply_patch");
    reveal_strlit("read_file");
    reveal_strlit("list_dir");
    reveal_strlit("grep_files");
    assert("shell"@.len() == 5);
    assert("container.exec"@.len() == 14);
    assert("local_shell"@.len() == 11 && "local_shell"@[0] == 'l');
    assert("shell_command"@.len() == 13);
    assert("exec_command"@.len() == 12);
    assert("apply_patch"@.len() == 11 && "apply_patch"@[0] == 'a');
    assert("read_file"@.len() == 9);
    assert("list_dir"@.len() == 8);
    assert("grep_files"@.len() == 10);
}

/// A file is read just as was asked: the file, from which line on, and how many. Where
/// nothing is said it is read from the first line on, and 2000 lines of it.
pub proof fn law_files_are_read_as_asked(
    config: ConfigModel,
    request: GatewayToolRequest,
    cwd: Seq<char>,
    root: Seq<char>,
    answers: GatewayAnswers,
    plan: PlanModel,
)
    requires
        tool_plan(config, request, cwd, root, answers) == StepModel::Done(plan),
        request.tool_name@ == "read_file"@,
    ensures
        answers.read_file matches Some(Ok(a)) && {
            &&& reads(plan, 6, 3, cwd, a.file_path@, root, path_answers(answers.paths))
            &&& is_number(plan.command[4], a.offset, 1)
            &&& is_number(plan.command[5], a.limit, 2000)
            &&& plan.command[2] == READ_FILE_SCRIPT@
            &&& plan.workdir == "/workspace"@
            &&& plan.timeout_ms == config.default_timeout_ms
        },
{
    lemma_tools_differ();
    let known = path_answers(answers.paths);
    assert(answers.read_file matches Some(Ok(_)));
    let a = answers.read_file->0->Ok_0;
    assert(read_file_plan(config, a, cwd, root, known) == StepModel::Done(plan));
    let p = input_path(cwd, a.file_path@, root)->Done_0;
    let file = canonical_inside(p, root, "file_path"@, known)->Done_0;
    assert(is_at(file, cwd, a.file_path@, root, known));
}

/// A directory is listed just as was asked: which one, from which entry on, how many
/// and how deep. Where nothing is said, 25 entries from the first on, two levels deep.
pub proof fn law_directories_are_listed_as_asked(
    config: ConfigModel,
    request: GatewayToolRequest,
    cwd: Seq<char>,
    root: Seq<char>,
    answers: GatewayAnswers,
    plan: PlanModel,
)
    requires
        tool_plan(config, request, cwd, root, answers) == StepModel::Done(plan),
        request.tool_name@ == "list_dir"@,
    ensures
        answers.list_dir matches Some(Ok(a)) && {
            &&& reads(plan, 7, 3, cwd, a.dir_path@, root, path_answers(answers.paths))
            &&& is_number(plan.command[4], a.offset, 1)
            &&& is_number(plan.command[5], a.limit, 25)
            &&& is_number(plan.command[6], a.depth, 2)
            &&& plan.command[2] == LIST_DIR_SCRIPT@
            &&& plan.workdir == "/workspace"@
            &&& plan.timeout_ms == config.default_timeout_ms
        },
{
    lemma_tools_differ();
    let known = path_answers(answers.paths);
    assert(answers.list_dir matches Some(Ok(_)));
    let a = answers.list_dir->0->Ok_0;
    assert(list_dir_plan(config, a, cwd, root, known) == StepModel::Done(plan));
    let p = input_path(cwd, a.dir_path@, root)->Done_0;
    let dir = canonical_inside(p, root, "dir_path"@, known)->Done_0;
    assert(is_at(dir, cwd, a.dir_path@, root, known));
}

/// Files are searched just as was asked: for what, where and which; 100 are told of
/// where nothing is said, and never more than 2000.
#[verifier::rlimit(60)]
pub proof fn law_files_are_searched_as_asked(
    config: ConfigModel,
    request: GatewayToolRequest,
    cwd: Seq<char>,
    root: Seq<char>,
    answers: GatewayAnswers,
    plan: PlanModel,
)
    requires
        tool_plan(config, request, cwd, root, answers) == StepModel::Done(plan),
        request.tool_name@ == "grep_files"@,
    ensures
        answers.grep_files matches Some(Ok(a)) && {
            &&& reads(
                plan,
                7,
                5,
                cwd,
                if a.path is Some {
                    a.path->0@
                } else {
                    "."@
                },
                root,
                path_answers(answers.paths),
            )
            &&& !blank(a.pattern@)
            &&& plan.command[3] == trim(a.pattern@)
            &&& plan.command[4] == (if a.file_glob is Some {
                a.file_glob->0@
            } else {
                ""@
            })
            &&& (a.limit is Some && a.limit->0 > 2000 ==> plan.command[6] == decimal(2000))
            &&& (a.limit is None || a.limit->0 <= 2000 ==> is_number(plan.command[6], a.limit, 100))
            &&& plan.command[2] == GREP_FILES_SCRIPT@
            &&& plan.workdir == "/workspace"@
            &&& plan.timeout_ms == config.default_timeout_ms
        },
{
    lemma_tools_differ();
    let known = path_answers(answers.paths);
    assert(answers.grep_files matches Some(Ok(_)));
    let a = answers.grep_files->0->Ok_0;
    assert(grep_files_plan(config, a, cwd, root, known) == StepModel::Done(plan));
    let v = or_text(opt_text(a.path), "."@);
    let p = input_path(cwd, v, root)->Done_0;
    let path = canonical_inside(p, root, "path"@, known)->Done_0;
    assert(is_at(path, cwd, v, root, known));
}

/// Whether a program with so many arguments is given this path as its `k`-th.
pub open spec fn reads(
    plan: PlanModel,
    n: int,
    k: int,
    cwd: Seq<char>,
    value: Seq<char>,
    root: Seq<char>,
    known: Map<Seq<char>, PathModel>,
) -> bool {
    &&& plan.command.len() == n
    &&& plan.command[0] == "python3"@
    &&& plan.command[1] == "-c"@
    &&& exists|p: Seq<char>| #[trigger]
        is_at(p, cwd, value, root, known) && inside_container(p, root) == StepModel::Done(
            plan.command[k],
        )
}

/// Whether a text is the number that was asked for, or the usual one.
pub open spec fn is_number(t: Seq<char>, asked: Option<usize>, usual: nat) -> bool {
    match asked {
        Some(n) => n > 0 && t == decimal(n as nat),
        None => t == decimal(usual),
    }
}

/// A patch is applied in the directory it was checked for, and only where it writes
/// nothing outside the workspace: neither a file it touches nor one it moves.
pub proof fn law_patches_stay_inside(
    config: ConfigModel,
    request: GatewayToolRequest,
    cwd: Seq<char>,
    root: Seq<char>,
    answers: GatewayAnswers,
    plan: PlanModel,
    i: int,
)
    requires
        tool_plan(config, request, cwd, root, answers) == StepModel::Done(plan),
        request.tool_name@ == "apply_patch"@,
    ensures
        answers.verified_patch matches Some(PatchVerification::Body(action)) && {
            &&& plan.command.len() == 2
            &&& plan.command[0] == "apply_patch"@
            &&& container_patch(action.patch@, root) == StepModel::Done(plan.command[1])
            &&& plan.timeout_ms == config.default_timeout_ms
            &&& exists|dir: Seq<char>|
                lies_in(dir, root) && #[trigger] inside_container(dir, root) == StepModel::Done(
                    plan.workdir,
                )
            &&& 0 <= i < action.changes@.len() ==> is_absolute(action.changes@[i].path@) && lies_in(
                normal(action.changes@[i].path@),
                root,
            ) && (action.changes@[i].move_path matches Some(m) ==> is_absolute(m@) && lies_in(
                normal(m@),
                root,
            ))
        },
        answers.patch matches Some(Ok(files)) && (0 <= i < files@.len() ==> lies_in(
            normal(patch_path(cwd, files@[i].path@, root)),
            root,
        ) && (files@[i].move_path matches Some(m) ==> lies_in(
            normal(patch_path(cwd, m@, root)),
            root,
        ))),
{
    lemma_tools_differ();
    let known = path_answers(answers.paths);
    let files = answers.patch->0->Ok_0;
    let action = answers.verified_patch->0->Body_0;
    let dir = canonical_inside(action.cwd@, root, "apply_patch cwd"@, known)->Done_0;
    assert(inside_container(dir, root) == StepModel::Done(plan.workdir));
    if 0 <= i < action.changes@.len() {
        let all = file_models(action.changes@);
        lemma_target_inside(all, i, root, known);
        assert(all[i].0 == action.changes@[i].path@);
    }
    if 0 <= i < files@.len() {
        let all = located_files(cwd, file_models(files@), root);
        lemma_target_inside(all, i, root, known);
        assert(all[i].0 == patch_path(cwd, files@[i].path@, root));
    }
}

proof fn lemma_all_targets(
    targets: Seq<(Seq<char>, Seq<char>)>,
    j: int,
    root: Seq<char>,
    known: Map<Seq<char>, PathModel>,
)
    requires
        targets_inside(targets, root, known) is Done,
        0 <= j < targets.len(),
    ensures
        is_absolute(targets[j].0),
        lies_in(normal(targets[j].0), root),
    decreases targets.len(),
{
    if j < targets.len() - 1 {
        assert(targets.drop_last()[j] == targets[j]);
        lemma_all_targets(targets.drop_last(), j, root, known);
    }
}

proof fn lemma_is_target(files: Seq<(Seq<char>, Option<Seq<char>>)>, i: int)
    requires
        0 <= i < files.len(),
    ensures
        exists|j: int| 0 <= j < targets_of(files).len() && (#[trigger] targets_of(files)[j]).0 == files[i].0,
        files[i].1 matches Some(m) ==> exists|j: int|
            0 <= j < targets_of(files).len() && (#[trigger] targets_of(files)[j]).0 == m,
    decreases files.len(),
{
    let all = targets_of(files);
    let front = targets_of(files.drop_last());
    if i == files.len() - 1 {
        assert(all[front.len() as int].0 == files[i].0);
        if files[i].1 is Some {
            assert(all[front.len() as int + 1].0 == files[i].1->0);
        }
    } else {
        assert(files.drop_last()[i] == files[i]);
        lemma_is_target(files.drop_last(), i);
        let j = choose|j: int| 0 <= j < front.len() && (#[trigger] front[j]).0 == files[i].0;
        assert(all[j] == front[j]);
        if files[i].1 is Some {
            let j = choose|j: int| 0 <= j < front.len() && (#[trigger] front[j]).0 == files[i].1->0;
            assert(all[j] == front[j]);
        }
    }
}

proof fn lemma_target_inside(
    files: Seq<(Seq<char>, Option<Seq<char>>)>,
    i: int,
    root: Seq<char>,
    known: Map<Seq<char>, PathModel>,
)
    requires
        targets_inside(targets_of(files), root, known) is Done,
        0 <= i < files.len(),
    ensures
        is_absolute(files[i].0),
        lies_in(normal(files[i].0), root),
        files[i].1 matches Some(m) ==> is_absolute(m) && lies_in(normal(m), root),
{
    let all = targets_of(files);
    lemma_is_target(files, i);
    let j = choose|j: int| 0 <= j < all.len() && (#[trigger] all[j]).0 == files[i].0;
    lemma_all_targets(all, j, root, known);
    if files[i].1 is Some {
        let k = choose|k: int| 0 <= k < all.len() && (#[trigger] all[k]).0 == files[i].1->0;
        lemma_all_targets(all, k, root, known);
    }
}

/// Nine tools are run in the container; any other is refused by its name, and is not
/// run.
pub proof fn law_other_tools_are_refused(
    config: ConfigModel,
    request: GatewayToolRequest,
    cwd: Seq<char>,
    root: Seq<char>,
    answers: GatewayAnswers,
)
    ensures
        tool_plan(config, request, cwd, root, answers) == StepModel::<PlanModel>::Fail(
            ErrorModel::UnsupportedTool(request.tool_name@),
        ) <==> request.tool_name@ != "shell"@ && request.tool_name@ != "container.exec"@
            && request.tool_name@ != "local_shell"@ && request.tool_name@ != "shell_command"@
            && request.tool_name@ != "exec_command"@ && request.tool_name@ != "apply_patch"@
            && request.tool_name@ != "read_file"@ && request.tool_name@ != "list_dir"@
            && request.tool_name@ != "grep_files"@,
{
    lemma_targets_refuse_only(
        targets_of(
            match answers.patch {
                Some(Ok(files)) => located_files(cwd, file_models(files@), root),
                _ => Seq::empty(),
            },
        ),
        root,
        path_answers(answers.paths),
    );
    if let Some(PatchVerification::Body(action)) = answers.verified_patch {
        lemma_targets_refuse_only(
            targets_of(file_models(action.changes@)),
            root,
            path_answers(answers.paths),
        );
        lemma_lines_refuse_only(lines(action.patch@), root);
    }
}

proof fn lemma_ancestors_refuse_only(
    path: Seq<Seq<char>>,
    k: nat,
    root: Seq<char>,
    label: Seq<char>,
    known: Map<Seq<char>, PathModel>,
)
    ensures
        ancestor_inside(path, k, root, label, known) matches StepModel::Fail(e) ==> e is Rejected,
    decreases k,
{
    if k > 0 {
        lemma_ancestors_refuse_only(path, (k - 1) as nat, root, label, known);
    }
}

proof fn lemma_targets_refuse_only(
    targets: Seq<(Seq<char>, Seq<char>)>,
    root: Seq<char>,
    known: Map<Seq<char>, PathModel>,
)
    ensures
        targets_inside(targets, root, known) matches StepModel::Fail(e) ==> e is Rejected,
    decreases targets.len(),
{
    if targets.len() > 0 {
        lemma_targets_refuse_only(targets.drop_last(), root, known);
        let t = targets.last();
        lemma_ancestors_refuse_only(
            resolved(names(t.0)),
            resolved(names(t.0)).len(),
            root,
            t.1,
            known,
        );
    }
}

proof fn lemma_lines_refuse_only(s: Seq<Seq<char>>, root: Seq<char>)
    ensures
        container_lines(s, root) matches StepModel::Fail(e) ==> e is Rejected,
    decreases s.len(),
{
    if s.len() > 0 {
        lemma_lines_refuse_only(s.drop_last(), root);
    }
}

/// A request is at home in the container of its company, and in the directories of
/// its agent and its project below the workspace. Names that already are ones are
/// taken as they are.
pub proof fn law_requests_are_at_home(
    config: ConfigModel,
    company: Option<Seq<char>>,
    project: Option<Seq<char>>,
    agent: Option<Seq<char>>,
    root: Seq<char>,
    scope: RequestScopeModel,
)
    requires
        request_scope(config, company, project, agent, root) == Ok::<_, ErrorModel>(scope),
        is_absolute(root),
    ensures
        scope.project_host_root is Some == project is Some,
        names(scope.public_host_root) == names(root) + names("public"@),
        is_clean_name(
            if agent is Some {
                agent->0
            } else {
                "default-agent"@
            },
            64,
        ) ==> scope.agent_private_host_root == path_join(
            path_join(
                path_join(root, "agents"@),
                if agent is Some {
                    agent->0
                } else {
                    "default-agent"@
                },
            ),
            "private"@,
        ),
        project matches Some(p) ==> is_clean_name(p, 64) ==> scope.project_host_root == Some(
            path_join(path_join(root, "projects"@), p),
        ),
        company matches Some(c) ==> is_clean_name(c, 48) && is_clean_name(
            config.container_name_prefix,
            48,
        ) ==> scope.container_name == config.container_name_prefix + "-"@ + c,
{
    reveal_strlit("public");
    law_joined_path_has_all_names(root, "public"@);
    let a = if agent is Some {
        agent->0
    } else {
        "default-agent"@
    };
    if is_clean_name(a, 64) {
        law_clean_names_are_kept(a, 64);
    }
    if project is Some && is_clean_name(project->0, 64) {
        law_clean_names_are_kept(project->0, 64);
    }
    if company is Some && is_clean_name(company->0, 48) && is_clean_name(
        config.container_name_prefix,
        48,
    ) {
        law_clean_names_are_kept(company->0, 48);
        law_clean_names_are_kept(company->0, 64);
        law_clean_names_are_kept(config.container_name_prefix, 48);
    }
}

/// Whether a text is a name already: lower case letters, digits, and single
/// separators between them, and no longer than it may be.
pub open spec fn is_clean_name(s: Seq<char>, max: nat) -> bool {
    &&& is_name_start(s)
    &&& 0 < s.len() <= max
    &&& !is_separator(s.last())
}

/// A text that is a name already stays as it is.
pub proof fn law_clean_names_are_kept(s: Seq<char>, max: nat)
    requires
        is_clean_name(s, max),
    ensures
        sanitized(s, max) == s,
        named(s, max, Seq::empty()) == Ok::<_, ErrorModel>(s),
{
    assert forall|i: int| 0 <= i < s.len() implies !is_space(#[trigger] s[i]) by {
        assert(is_lower_letter(s[i]) || is_decimal_digit(s[i]) || is_separator(s[i]));
    }
    lemma_trim_keeps(s);
    lemma_gathers_all(s, max);
}

proof fn lemma_trim_keeps(s: Seq<char>)
    requires
        s.len() > 0,
        forall|i: int| 0 <= i < s.len() ==> !is_space(#[trigger] s[i]),
    ensures
        trim(s) == s,
{
    assert(!is_space(s[0]));
    assert(!is_space(s[s.len() - 1]));
}

proof fn lemma_gathers_all(s: Seq<char>, max: nat)
    requires
        is_name_start(s),
        s.len() <= max,
    ensures
        gathered(s, max) == s,
    decreases s.len(),
{
    if s.len() == 0 {
        assert(gathered(s, max) =~= s);
    } else {
        let front = s.drop_last();
        let c = s.last();
        assert forall|i: int| 0 <= i < front.len() implies is_lower_letter(#[trigger] front[i])
            || is_decimal_digit(front[i]) || is_separator(front[i]) by {
            assert(front[i] == s[i]);
        }
        assert forall|i: int, j: int|
            0 <= i < front.len() && j == i + 1 && j < front.len() && is_separator(
                #[trigger] front[i],
            ) implies !is_separator(#[trigger] front[j]) by {
            assert(front[i] == s[i] && front[j] == s[j]);
        }
        lemma_gathers_all(front, max);
        assert(is_lower_letter(s[s.len() - 1]) || is_decimal_digit(s[s.len() - 1]) || is_separator(
            s[s.len() - 1],
        ));
        assert(name_char(c) == Some(c));
        if is_separator(c) && front.len() > 0 {
            assert(s[s.len() - 2] == front.last());
            if is_separator(front.last()) {
                assert(!is_separator(s[s.len() - 1]));
            }
        }
        assert(front.push(c) =~= s);
    }
}

/// A command is run in the container of the request, in the directory it was planned
/// for; all of it, and nothing else, stands behind the name of the container. It runs
/// as the user that is set, if one is.
pub proof fn law_containers_run_the_plan(config: ConfigModel, container: Seq<char>, plan: PlanModel)
    ensures
        ({
            let args = exec_args(config, container, plan);
            let k = args.len() - plan.command.len();
            &&& k >= 4
            &&& args.skip(k) == plan.command
            &&& args[k - 1] == container
            &&& args[0] == "exec"@ && args[1] == "-w"@ && args[2] == plan.workdir
            &&& match config.uid_gid {
                Some(u) => k == 6 && args[3] == "-u"@ && args[4] == u,
                None => k == 4,
            }
        }),
{
    let args = exec_args(config, container, plan);
    let k = args.len() - plan.command.len();
    assert(args.skip(k) =~= plan.command);
}

/// Whether two arguments follow each other.
pub open spec fn has_option(args: Seq<Seq<char>>, name: Seq<char>, value: Seq<char>) -> bool {
    exists|i: int| 0 <= i < args.len() - 1 && #[trigger] args[i] == name && args[i + 1] == value
}

/// The container of a company has no network and no rights to gain, cannot write but
/// to its workspace and a small place for temporary files, and is bounded in memory,
/// processors and processes.
pub proof fn law_containers_are_confined(config: ConfigModel, container: Seq<char>, root: Seq<char>)
    ensures
        ({
            let args = create_args(config, container, root);
            &&& has_option(args, "--name"@, container)
            &&& has_option(args, "--network"@, "none"@)
            &&& args.contains("--read-only"@)
            &&& has_option(args, "--cap-drop"@, "ALL"@)
            &&& has_option(args, "--security-opt"@, "no-new-privileges"@)
            &&& has_option(args, "--memory"@, config.memory_limit)
            &&& has_option(args, "--cpus"@, config.cpu_limit)
            &&& has_option(args, "--pids-limit"@, decimal(config.pids_limit as nat))
            &&& has_option(args, "-v"@, root + ":/workspace:rw"@)
            &&& has_option(args, "--tmpfs"@, "/tmp:rw,noexec,nosuid,nodev,size=64m"@)
            &&& args[args.len() - 3] == config.image
        }),
{
    let args = create_args(config, container, root);
    assert(args[2] == "--name"@ && args[3] == container);
    assert(args[4] == "--network"@ && args[5] == "none"@);
    assert(args[6] == "--read-only"@);
    assert(args[7] == "--tmpfs"@);
    assert(args[9] == "--cap-drop"@ && args[10] == "ALL"@);
    assert(args[11] == "--security-opt"@);
    assert(args[13] == "--memory"@);
    assert(args[15] == "--cpus"@);
    assert(args[17] == "--pids-limit"@);
    assert(args[19] == "-v"@);
}

/// A container that is not there is created, one that does not run is started, and
/// one that runs is left alone.
pub proof fn law_containers_are_brought_up(output: DockerCommandOutput)
    ensures
        inspected(output) is Create <==> output.exit_code != 0,
        inspected(output) is Nothing <==> output.exit_code == 0 && lower(
            trim(lossy_text(output.stdout@)),
        ) == "true"@,
{
}

/// Where a token is set, only who shows it is let in; where none is, everybody.
pub proof fn law_only_the_token_lets_in(token: Option<Seq<char>>, header: Option<Seq<char>>)
    ensures
        token is None ==> is_authorized(token, header),
        token is Some && header is None ==> !is_authorized(token, header),
        token is Some && header is Some ==> (is_authorized(token, header) <==> header->0.len()
            == token->0.len() + 7 && header->0.take(7) == "Bearer "@ && header->0.skip(7)
            == token->0),
{
    reveal_strlit("Bearer ");
    if token is Some && header is Some {
        let h = header->0;
        let t = token->0;
        assert("Bearer "@.len() == 7);
        if h == "Bearer "@ + t {
            assert(h.take(7) =~= "Bearer "@);
            assert(h.skip(7) =~= t);
        }
        if h.len() == t.len() + 7 && h.take(7) == "Bearer "@ && h.skip(7) == t {
            assert(h =~= h.take(7) + h.skip(7));
        }
    }
}

/// What the asker got wrong is answered as such, what is forbidden as forbidden, and
/// what went wrong inside as that.
pub proof fn law_errors_have_their_status(e: ErrorModel)
    ensures
        e is UnsupportedTool ==> error_status(e) == 400,
        e is Rejected ==> error_status(e) == 403,
        e is Internal ==> error_status(e) == 500,
{
}

/// The result of a command is told with both of its outputs and its exit code, in
/// this order; it succeeded just where the code is zero.
pub proof fn law_results_are_told(
    r: GatewayToolResponse,
    payload: GatewayToolPayload,
    output: DockerCommandOutput,
)
    requires
        tells_result(r, payload, output),
    ensures
        ({
            let text = "{\"stdout\":"@ + json_quoted(lossy_text(output.stdout@)) + ",\"stderr\":"@
                + json_quoted(lossy_text(output.stderr@)) + ",\"exit_code\":"@ + signed_decimal(
                output.exit_code as int,
            ) + "}"@;
            match r {
                GatewayToolResponse::Custom { output: o, call_id } => payload is Custom && o@
                    == text,
                GatewayToolResponse::Function { output: o, call_id } => !(payload is Custom)
                    && o.text@ == text && (o.success == Some(true) <==> output.exit_code == 0) && (
                o.success == Some(false) <==> output.exit_code != 0),
                _ => false,
            }
        }),
{
}

/// What is set of a configuration is set, and nothing else changes.
pub proof fn law_settings_are_set_one_by_one(
    c: ConfigModel,
    text: Seq<char>,
    other: Seq<char>,
    user: Option<Seq<char>>,
    pids: u32,
    ms: u64,
)
    ensures
        with_binary(c, text).docker_binary == text,
        with_binary(c, text) == (ConfigModel { docker_binary: text, ..c }),
        with_user(c, user).uid_gid == user,
        with_user(c, user) == (ConfigModel { uid_gid: user, ..c }),
        with_bounds(c, text, other, pids).memory_limit == text,
        with_bounds(c, text, other, pids).cpu_limit == other,
        with_bounds(c, text, other, pids).pids_limit == pids,
        with_bounds(c, text, other, pids).image == c.image,
        with_usual_time(c, ms).default_timeout_ms == ms,
        with_usual_time(c, ms).max_timeout_ms == c.max_timeout_ms,
        with_longest_time(c, ms).max_timeout_ms == ms,
        with_longest_time(c, ms).default_timeout_ms == c.default_timeout_ms,
        with_company(c, text).default_company_id == text,
        with_company(c, text).container_name_prefix == c.container_name_prefix,
        with_prefix(c, text).container_name_prefix == text,
        with_prefix(c, text).default_company_id == c.default_company_id,
        with_prefix(c, text).workspace_root == c.workspace_root,
        with_company(c, text).workspace_root == c.workspace_root,
{
}

/// A number is taken just where it is not zero.
pub proof fn law_zero_is_refused(r: Result<(), GatewayBackendError>, value: usize, label: Seq<char>)
    requires
        is_positive(r, value, label),
    ensures
        r is Ok <==> value > 0,
        r matches Err(e) ==> e@ == ErrorModel::Rejected(label + " must be greater than zero"@),
{
}

/// A tool that was given an answer gets it; any other is not supported.
pub proof fn law_answers_are_given_as_set(
    r: Result<GatewayToolResponse, GatewayBackendError>,
    responses: Map<Seq<char>, GatewayToolResponse>,
    tool_name: Seq<char>,
)
    requires
        answers_as_set(r, responses, tool_name),
    ensures
        r is Ok <==> responses.contains_key(tool_name),
        r matches Ok(a) ==> a == responses[tool_name],
        r matches Err(e) ==> e@ == ErrorModel::UnsupportedTool(tool_name),
{
}

/// A request is let through just where its token is right, it can be read, and its tool
/// is allowed. The token is asked for first.
pub proof fn law_requests_are_let_through(
    r: Option<GatewayErrorReply>,
    token: Option<Seq<char>>,
    policy: PolicyModel,
    authorization: Option<Seq<char>>,
    request: Result<&str, &str>,
)
    requires
        refuses(r, token, policy, authorization, request),
    ensures
        r is None <==> is_authorized(token, authorization) && request is Ok && allows(
            policy,
            request->Ok_0@,
        ),
        !is_authorized(token, authorization) ==> r is Some && says(
            r->0,
            401,
            "missing or invalid bearer token"@,
        ),
        is_authorized(token, authorization) && request is Err ==> r is Some && says(
            r->0,
            400,
            "invalid request JSON: "@ + request->Err_0@,
        ),
        is_authorized(token, authorization) && request is Ok && !allows(policy, request->Ok_0@)
            ==> r is Some && says(r->0, 403, denial(request->Ok_0@)),
{
}

/// A command for a container went well just where it ran and its exit code was zero.
pub proof fn law_containers_run_where_nothing_failed(
    verb: Seq<char>,
    container_name: Seq<char>,
    outcome: Result<DockerCommandOutput, String>,
)
    ensures
        container_result(verb, container_name, outcome) is Ok <==> outcome is Ok
            && outcome->Ok_0.exit_code == 0,
{
}

} // verus!
