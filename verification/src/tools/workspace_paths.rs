//! Paths of a shared workspace: how a path that a tool names is found on the host,
//! and whether it stays inside.
//!
//! What the file system says of a path comes from outside. A check that needs it
//! asks for it, and is made again once the answer is there.
use crate::paths::{
    absolute, absolute_path, below, is_absolute, join_paths, law_below_has_the_other_names,
    law_joined_path_has_all_names, lemma_below_is_part, lemma_no_names, lies_in, names, normal,
    normalize_absolute_path, path_below, path_is_absolute, path_join, path_lies_in, path_names,
    resolve_names, resolved,
};
use crate::table::Table;
use crate::text::{
    after_prefix, begins, chars_of, contains_char, join, joined, lines, lines_of, opt_str,
    replace_text, replaced, texts, trim, trimmed,
};
use vstd::prelude::*;

verus! {

/// The workspace as tools see it.
pub const CONTAINER_WORKSPACE_ROOT: &'static str = "/workspace";

#[derive(Debug, PartialEq, Eq)]
pub enum GatewayBackendError {
    UnsupportedTool(String),
    Rejected(String),
    Internal(String),
}

#[verifier::ext_equal]
pub enum ErrorModel {
    UnsupportedTool(Seq<char>),
    Rejected(Seq<char>),
    Internal(Seq<char>),
}

impl View for GatewayBackendError {
    type V = ErrorModel;

    open spec fn view(&self) -> ErrorModel {
        match *self {
            GatewayBackendError::UnsupportedTool(t) => ErrorModel::UnsupportedTool(t@),
            GatewayBackendError::Rejected(t) => ErrorModel::Rejected(t@),
            GatewayBackendError::Internal(t) => ErrorModel::Internal(t@),
        }
    }
}

pub open spec fn backend_error_text(e: ErrorModel) -> Seq<char> {
    match e {
        ErrorModel::UnsupportedTool(tool) => "tool `"@ + tool
            + "` is not supported by this middleware gateway"@,
        ErrorModel::Rejected(m) => m,
        ErrorModel::Internal(m) => m,
    }
}

impl GatewayBackendError {
    /// What is said of the error.
    pub fn message(&self) -> (r: String)
        ensures
            r@ == backend_error_text(self@),
    {
        match self {
            GatewayBackendError::UnsupportedTool(tool) => {
                let mut out = "tool `".to_string();
                out.append(tool.as_str());
                out.append("` is not supported by this middleware gateway");
                out
            },
            GatewayBackendError::Rejected(m) => m.clone(),
            GatewayBackendError::Internal(m) => m.clone(),
        }
    }
}

/// What has to be found out before a check can be made.
#[derive(Debug, PartialEq, Eq)]
pub enum GatewayNeed {
    /// What the file system says of a path.
    Path(String),
    /// What the arguments of a tool say.
    Arguments { tool_name: String, arguments: String },
    /// Which files a patch touches.
    ParsePatch(String),
    /// Whether a patch can be applied in a directory.
    VerifyPatch { patch: String, cwd: String },
}

#[verifier::ext_equal]
pub enum NeedModel {
    Path(Seq<char>),
    Arguments(Seq<char>, Seq<char>),
    ParsePatch(Seq<char>),
    VerifyPatch(Seq<char>, Seq<char>),
}

impl View for GatewayNeed {
    type V = NeedModel;

    open spec fn view(&self) -> NeedModel {
        match *self {
            GatewayNeed::Path(p) => NeedModel::Path(p@),
            GatewayNeed::Arguments { tool_name, arguments } => NeedModel::Arguments(
                tool_name@,
                arguments@,
            ),
            GatewayNeed::ParsePatch(p) => NeedModel::ParsePatch(p@),
            GatewayNeed::VerifyPatch { patch, cwd } => NeedModel::VerifyPatch(patch@, cwd@),
        }
    }
}

/// The outcome of a check: made, or something has to be found out first, or
/// refused.
#[derive(Debug, PartialEq, Eq)]
pub enum Step<T> {
    Done(T),
    Ask(GatewayNeed),
    Fail(GatewayBackendError),
}

#[verifier::ext_equal]
pub enum StepModel<A> {
    Done(A),
    Ask(NeedModel),
    Fail(ErrorModel),
}

/// What comes behind a check that was made.
pub open spec fn follow<A, B>(s: StepModel<A>, f: spec_fn(A) -> StepModel<B>) -> StepModel<B> {
    match s {
        StepModel::Done(a) => f(a),
        StepModel::Ask(n) => StepModel::Ask(n),
        StepModel::Fail(e) => StepModel::Fail(e),
    }
}

pub open spec fn text_step(s: Step<String>) -> StepModel<Seq<char>> {
    match s {
        Step::Done(t) => StepModel::Done(t@),
        Step::Ask(n) => StepModel::Ask(n@),
        Step::Fail(e) => StepModel::Fail(e@),
    }
}

pub open spec fn unit_step(s: Step<()>) -> StepModel<()> {
    match s {
        Step::Done(t) => StepModel::Done(t),
        Step::Ask(n) => StepModel::Ask(n@),
        Step::Fail(e) => StepModel::Fail(e@),
    }
}

pub open spec fn refuse<A>(message: Seq<char>) -> StepModel<A> {
    StepModel::Fail(ErrorModel::Rejected(message))
}

/// What the file system says of a path: whether it is there, and its canonical
/// form or why there is none.
#[derive(Debug)]
pub struct PathAnswer {
    pub exists: bool,
    pub canonical: Result<String, String>,
}

#[verifier::ext_equal]
pub struct PathModel {
    pub exists: bool,
    pub canonical: Result<Seq<char>, Seq<char>>,
}

impl View for PathAnswer {
    type V = PathModel;

    open spec fn view(&self) -> PathModel {
        PathModel {
            exists: self.exists,
            canonical: match self.canonical {
                Ok(p) => Ok(p@),
                Err(e) => Err(e@),
            },
        }
    }
}

/// What the file system said so far.
pub open spec fn path_answers(t: Table<PathAnswer>) -> Map<Seq<char>, PathModel> {
    t@.map_values(|a: PathAnswer| a@)
}

// ---------------------------------------------------------------------------
// What the checks say
// ---------------------------------------------------------------------------

pub open spec fn outside_text(label: Seq<char>) -> Seq<char> {
    label + " must stay inside docker workspace_root"@
}

pub open spec fn nul_text(label: Seq<char>) -> Seq<char> {
    label + " must not contain NUL bytes"@
}

pub open spec fn inaccessible_text(label: Seq<char>, path: Seq<char>, error: Seq<char>) -> Seq<
    char,
> {
    label + " `"@ + path + "` is not accessible: "@ + error
}

/// Where a path of a tool is on the host: what lies in the logical workspace lies
/// in the workspace.
pub open spec fn host_path(path: Seq<char>, root: Seq<char>) -> Seq<char> {
    match below(path, CONTAINER_WORKSPACE_ROOT@) {
        Some(rest) => path_join(root, rest),
        None => path,
    }
}

/// The canonical form of a path that has to be there, inside the workspace.
pub open spec fn existing_inside(
    path: Seq<char>,
    root: Seq<char>,
    label: Seq<char>,
    known: Map<Seq<char>, PathModel>,
) -> StepModel<Seq<char>> {
    if !known.contains_key(path) {
        StepModel::Ask(NeedModel::Path(path))
    } else {
        match known[path].canonical {
            Err(e) => refuse(inaccessible_text(label, path, e)),
            Ok(c) => if lies_in(c, root) {
                StepModel::Done(c)
            } else {
                refuse(outside_text(label))
            },
        }
    }
}

/// The canonical form of a path of a tool, inside the workspace.
pub open spec fn canonical_inside(
    raw: Seq<char>,
    root: Seq<char>,
    label: Seq<char>,
    known: Map<Seq<char>, PathModel>,
) -> StepModel<Seq<char>> {
    if raw.contains('\0') {
        refuse(nul_text(label))
    } else if !is_absolute(raw) {
        refuse(label + " must be an absolute path"@)
    } else {
        existing_inside(host_path(raw, root), root, label, known)
    }
}

/// A path that a tool was given: absolute, or below the working directory.
pub open spec fn input_path(cwd: Seq<char>, value: Seq<char>, root: Seq<char>) -> StepModel<
    Seq<char>,
> {
    if value.contains('\0') {
        refuse(nul_text("path"@))
    } else if is_absolute(value) {
        StepModel::Done(host_path(value, root))
    } else {
        StepModel::Done(path_join(cwd, value))
    }
}

/// The directory that a tool works in.
pub open spec fn working_directory(
    cwd: Seq<char>,
    workdir: Option<Seq<char>>,
    root: Seq<char>,
    known: Map<Seq<char>, PathModel>,
) -> StepModel<Seq<char>> {
    match workdir {
        Some(w) => if trim(w).len() == 0 {
            StepModel::Done(cwd)
        } else {
            follow(
                input_path(cwd, trim(w), root),
                |p: Seq<char>| canonical_inside(p, root, "workdir"@, known),
            )
        },
        None => StepModel::Done(cwd),
    }
}

/// A path of the host as the container sees it.
pub open spec fn inside_container(path: Seq<char>, root: Seq<char>) -> StepModel<Seq<char>> {
    match below(path, root) {
        None => refuse("path must stay inside docker workspace_root"@),
        Some(rest) => if rest.len() == 0 {
            StepModel::Done(CONTAINER_WORKSPACE_ROOT@)
        } else {
            StepModel::Done(replaced(path_join(CONTAINER_WORKSPACE_ROOT@, rest), "\\"@, "/"@))
        },
    }
}

/// Whether the nearest ancestor that is there lies inside the workspace; of a
/// path with these names, the first `k` of them.
pub open spec fn ancestor_inside(
    path: Seq<Seq<char>>,
    k: nat,
    root: Seq<char>,
    label: Seq<char>,
    known: Map<Seq<char>, PathModel>,
) -> StepModel<()>
    decreases k,
{
    let here = absolute(path.take(k as int));
    if !known.contains_key(here) {
        StepModel::Ask(NeedModel::Path(here))
    } else if known[here].exists {
        match known[here].canonical {
            Err(e) => refuse(inaccessible_text(label, here, e)),
            Ok(c) => if lies_in(c, root) {
                StepModel::Done(())
            } else {
                refuse(outside_text(label))
            },
        }
    } else if k == 0 {
        refuse(label + " has no accessible parent"@)
    } else {
        ancestor_inside(path, (k - 1) as nat, root, label, known)
    }
}

/// Whether a file may be written: its path, without `..`, lies inside the
/// workspace, and so does what it is put in.
pub open spec fn target_inside(
    raw: Seq<char>,
    root: Seq<char>,
    label: Seq<char>,
    known: Map<Seq<char>, PathModel>,
) -> StepModel<()> {
    if !is_absolute(raw) {
        refuse(label + " must resolve to an absolute path"@)
    } else if !lies_in(normal(raw), root) {
        refuse(outside_text(label))
    } else {
        ancestor_inside(
            resolved(names(raw)),
            resolved(names(raw)).len(),
            root,
            label,
            known,
        )
    }
}

/// Where a path of a patch is on the host.
pub open spec fn patch_path(cwd: Seq<char>, path: Seq<char>, root: Seq<char>) -> Seq<char> {
    if is_absolute(path) {
        host_path(path, root)
    } else {
        path_join(cwd, path)
    }
}

/// Whether all the files may be written, each under its label.
pub open spec fn targets_inside(
    targets: Seq<(Seq<char>, Seq<char>)>,
    root: Seq<char>,
    known: Map<Seq<char>, PathModel>,
) -> StepModel<()>
    decreases targets.len(),
{
    if targets.len() == 0 {
        StepModel::Done(())
    } else {
        follow(
            targets_inside(targets.drop_last(), root, known),
            |u: ()| target_inside(targets.last().0, root, targets.last().1, known),
        )
    }
}

/// The marker that a line begins with.
pub open spec fn marker_of(line: Seq<char>) -> Option<Seq<char>> {
    if begins(line, "*** Add File: "@) {
        Some("*** Add File: "@)
    } else if begins(line, "*** Delete File: "@) {
        Some("*** Delete File: "@)
    } else if begins(line, "*** Update File: "@) {
        Some("*** Update File: "@)
    } else if begins(line, "*** Move to: "@) {
        Some("*** Move to: "@)
    } else {
        None
    }
}

/// A line of a patch with the path of the host in place of that of the tool.
pub open spec fn host_line(line: Seq<char>, root: Seq<char>) -> Seq<char> {
    match marker_of(line) {
        Some(m) => {
            let path = line.skip(m.len() as int);
            if is_absolute(path) {
                m + replaced(host_path(path, root), "\\"@, "/"@)
            } else {
                line
            }
        },
        None => line,
    }
}

/// A line of a patch with the path of the container in place of that of the host.
pub open spec fn container_line(line: Seq<char>, root: Seq<char>) -> StepModel<Seq<char>> {
    match marker_of(line) {
        Some(m) => {
            let path = line.skip(m.len() as int);
            if is_absolute(path) {
                follow(
                    inside_container(normal(path), root),
                    |p: Seq<char>| StepModel::Done(m + p),
                )
            } else {
                StepModel::Done(line)
            }
        },
        None => StepModel::Done(line),
    }
}

pub open spec fn container_lines(s: Seq<Seq<char>>, root: Seq<char>) -> StepModel<Seq<Seq<char>>>
    decreases s.len(),
{
    if s.len() == 0 {
        StepModel::Done(Seq::empty())
    } else {
        follow(
            container_lines(s.drop_last(), root),
            |done: Seq<Seq<char>>|
                follow(
                    container_line(s.last(), root),
                    |line: Seq<char>| StepModel::Done(done.push(line)),
                ),
        )
    }
}

pub open spec fn host_patch(patch: Seq<char>, root: Seq<char>) -> Seq<char> {
    joined(lines(patch).map_values(|l: Seq<char>| host_line(l, root)), "\n"@)
}

pub open spec fn container_patch(patch: Seq<char>, root: Seq<char>) -> StepModel<Seq<char>> {
    follow(
        container_lines(lines(patch), root),
        |done: Seq<Seq<char>>| StepModel::Done(joined(done, "\n"@)),
    )
}

// ---------------------------------------------------------------------------
// The checks
// ---------------------------------------------------------------------------

/// A refusal that says this of that.
pub fn rejected(label: &str, rest: &str) -> (r: GatewayBackendError)
    ensures
        r@ == ErrorModel::Rejected(label@ + rest@),
{
    let mut out = label.to_string();
    out.append(rest);
    GatewayBackendError::Rejected(out)
}

fn inaccessible(label: &str, path: &str, error: &str) -> (r: GatewayBackendError)
    ensures
        r@ == ErrorModel::Rejected(inaccessible_text(label@, path@, error@)),
{
    let mut out = label.to_string();
    out.append(" `");
    out.append(path);
    out.append("` is not accessible: ");
    out.append(error);
    GatewayBackendError::Rejected(out)
}

/// Refuses a text with a NUL in it.
pub fn reject_nul(value: &str, label: &str) -> (r: Result<(), GatewayBackendError>)
    ensures
        match r {
            Ok(_) => !value@.contains('\0'),
            Err(e) => value@.contains('\0') && e@ == ErrorModel::Rejected(nul_text(label@)),
        },
{
    if contains_char(value, '\0') {
        Err(rejected(label, " must not contain NUL bytes"))
    } else {
        Ok(())
    }
}

/// Where a path of a tool is on the host.
pub fn gateway_path_to_host_path(path: &str, workspace_root: &str) -> (r: String)
    ensures
        r@ == host_path(path@, workspace_root@),
{
    match path_below(path, CONTAINER_WORKSPACE_ROOT) {
        Some(rest) => join_paths(workspace_root, rest.as_str()),
        None => path.to_string(),
    }
}

/// The canonical form of a path that has to be there, inside the workspace.
pub fn canonical_existing_path_inside_workspace(
    path: &str,
    workspace_root: &str,
    label: &str,
    known: &Table<PathAnswer>,
) -> (r: Step<String>)
    ensures
        text_step(r) == existing_inside(path@, workspace_root@, label@, path_answers(*known)),
{
    match known.get(path) {
        None => Step::Ask(GatewayNeed::Path(path.to_string())),
        Some(answer) => match &answer.canonical {
            Err(e) => Step::Fail(inaccessible(label, path, e.as_str())),
            Ok(c) => if path_lies_in(c.as_str(), workspace_root) {
                Step::Done(c.clone())
            } else {
                Step::Fail(rejected(label, " must stay inside docker workspace_root"))
            },
        },
    }
}

/// The canonical form of a path of a tool, inside the workspace.
pub fn canonical_path_inside_workspace(
    raw_path: &str,
    workspace_root: &str,
    label: &str,
    known: &Table<PathAnswer>,
) -> (r: Step<String>)
    ensures
        text_step(r) == canonical_inside(raw_path@, workspace_root@, label@, path_answers(*known)),
{
    if let Err(e) = reject_nul(raw_path, label) {
        return Step::Fail(e);
    }
    if !path_is_absolute(raw_path) {
        return Step::Fail(rejected(label, " must be an absolute path"));
    }
    let path = gateway_path_to_host_path(raw_path, workspace_root);
    canonical_existing_path_inside_workspace(path.as_str(), workspace_root, label, known)
}

/// A path that a tool was given.
pub fn resolve_input_path(cwd: &str, value: &str, workspace_root: &str) -> (r: Step<String>)
    ensures
        text_step(r) == input_path(cwd@, value@, workspace_root@),
{
    if let Err(e) = reject_nul(value, "path") {
        return Step::Fail(e);
    }
    if path_is_absolute(value) {
        Step::Done(gateway_path_to_host_path(value, workspace_root))
    } else {
        Step::Done(join_paths(cwd, value))
    }
}

/// The canonical form of a path that a tool was given.
pub fn resolve_inside(
    cwd: &str,
    value: &str,
    workspace_root: &str,
    label: &str,
    known: &Table<PathAnswer>,
) -> (r: Step<String>)
    ensures
        text_step(r) == follow(
            input_path(cwd@, value@, workspace_root@),
            |p: Seq<char>|
                canonical_inside(p, workspace_root@, label@, path_answers(*known)),
        ),
{
    match resolve_input_path(cwd, value, workspace_root) {
        Step::Done(p) => canonical_path_inside_workspace(p.as_str(), workspace_root, label, known),
        Step::Ask(n) => Step::Ask(n),
        Step::Fail(e) => Step::Fail(e),
    }
}

/// The directory that a tool works in.
pub fn resolve_workdir(
    cwd: &str,
    workdir: Option<&str>,
    workspace_root: &str,
    known: &Table<PathAnswer>,
) -> (r: Step<String>)
    ensures
        text_step(r) == working_directory(
            cwd@,
            opt_str(workdir),
            workspace_root@,
            path_answers(*known),
        ),
{
    match workdir {
        Some(w) => {
            let w = trimmed(w);
            if chars_of(w).len() == 0 {
                Step::Done(cwd.to_string())
            } else {
                resolve_inside(cwd, w, workspace_root, "workdir", known)
            }
        },
        None => Step::Done(cwd.to_string()),
    }
}

/// A path of the host as the container sees it.
pub fn container_path(path: &str, workspace_root: &str) -> (r: Step<String>)
    ensures
        text_step(r) == inside_container(path@, workspace_root@),
{
    match path_below(path, workspace_root) {
        None => Step::Fail(
            GatewayBackendError::Rejected(
                "path must stay inside docker workspace_root".to_string(),
            ),
        ),
        Some(rest) => if chars_of(rest.as_str()).len() == 0 {
            Step::Done(CONTAINER_WORKSPACE_ROOT.to_string())
        } else {
            proof {
                reveal_strlit("\\");
            }
            let full = join_paths(CONTAINER_WORKSPACE_ROOT, rest.as_str());
            Step::Done(replace_text(full.as_str(), "\\", "/"))
        },
    }
}

fn drop_last_name(v: &mut Vec<String>)
    requires
        old(v)@.len() > 0,
    ensures
        final(v)@ == old(v)@.drop_last(),
{
    v.pop();
}

/// Whether a file may be written.
pub fn validate_workspace_target_path(
    raw_path: &str,
    workspace_root: &str,
    label: &str,
    known: &Table<PathAnswer>,
) -> (r: Step<()>)
    ensures
        unit_step(r) == target_inside(raw_path@, workspace_root@, label@, path_answers(*known)),
{
    if !path_is_absolute(raw_path) {
        return Step::Fail(rejected(label, " must resolve to an absolute path"));
    }
    let normalized = normalize_absolute_path(raw_path);
    if !path_lies_in(normalized.as_str(), workspace_root) {
        return Step::Fail(rejected(label, " must stay inside docker workspace_root"));
    }
    let mut here_names = resolve_names(&path_names(raw_path));
    let ghost all = resolved(names(raw_path@));
    let ghost m = path_answers(*known);
    assert(all.take(all.len() as int) =~= all);
    assert(texts(here_names@).len() == here_names@.len());
    loop
        invariant
            texts(here_names@) == all.take(here_names@.len() as int),
            here_names@.len() <= all.len(),
            m == path_answers(*known),
            ancestor_inside(all, all.len(), workspace_root@, label@, m) == ancestor_inside(
                all,
                here_names@.len(),
                workspace_root@,
                label@,
                m,
            ),
            target_inside(raw_path@, workspace_root@, label@, m) == ancestor_inside(
                all,
                all.len(),
                workspace_root@,
                label@,
                m,
            ),
        decreases here_names@.len(),
    {
        let here = absolute_path(&here_names);
        match known.get(here.as_str()) {
            None => {
                return Step::Ask(GatewayNeed::Path(here));
            },
            Some(answer) => {
                assert(m[here@] == answer@);
                if answer.exists {
                    match &answer.canonical {
                        Err(e) => {
                            return Step::Fail(inaccessible(label, here.as_str(), e.as_str()));
                        },
                        Ok(c) => {
                            if path_lies_in(c.as_str(), workspace_root) {
                                return Step::Done(());
                            }
                            return Step::Fail(
                                rejected(label, " must stay inside docker workspace_root"),
                            );
                        },
                    }
                }
            },
        }
        if here_names.len() == 0 {
            return Step::Fail(rejected(label, " has no accessible parent"));
        }
        let ghost before = texts(here_names@);
        drop_last_name(&mut here_names);
        proof {
            assert(texts(here_names@) =~= before.drop_last());
            assert(texts(here_names@) =~= all.take(here_names@.len() as int));
        }
    }
}

/// Where a path of a patch is on the host.
pub fn resolve_patch_path(cwd: &str, path: &str, workspace_root: &str) -> (r: String)
    ensures
        r@ == patch_path(cwd@, path@, workspace_root@),
{
    if path_is_absolute(path) {
        gateway_path_to_host_path(path, workspace_root)
    } else {
        join_paths(cwd, path)
    }
}

/// A file that is to be written, and what it is called in a refusal.
#[derive(Debug)]
pub struct WriteTarget {
    pub path: String,
    pub label: String,
}

pub open spec fn target_models(v: Seq<WriteTarget>) -> Seq<(Seq<char>, Seq<char>)> {
    v.map_values(|t: WriteTarget| (t.path@, t.label@))
}

/// Whether all the files may be written.
pub fn validate_targets(
    targets: &Vec<WriteTarget>,
    workspace_root: &str,
    known: &Table<PathAnswer>,
) -> (r: Step<()>)
    ensures
        unit_step(r) == targets_inside(
            target_models(targets@),
            workspace_root@,
            path_answers(*known),
        ),
{
    let ghost s = target_models(targets@);
    let ghost m = path_answers(*known);
    let mut i: usize = 0;
    assert(s.take(0) =~= Seq::<(Seq<char>, Seq<char>)>::empty());
    while i < targets.len()
        invariant
            i <= targets@.len(),
            s == target_models(targets@),
            m == path_answers(*known),
            targets_inside(s.take(i as int), workspace_root@, m) == StepModel::<()>::Done(()),
        decreases targets@.len() - i,
    {
        let step = validate_workspace_target_path(
            targets[i].path.as_str(),
            workspace_root,
            targets[i].label.as_str(),
            known,
        );
        proof {
            assert(s.take(i + 1).drop_last() =~= s.take(i as int));
            assert(s.take(i + 1).last() == s[i as int]);
            assert(targets_inside(s.take(i + 1), workspace_root@, m) == unit_step(step));
        }
        match step {
            Step::Done(_) => {},
            Step::Ask(n) => {
                proof {
                    lemma_targets_stop(s, i + 1, workspace_root@, m);
                }
                return Step::Ask(n);
            },
            Step::Fail(e) => {
                proof {
                    lemma_targets_stop(s, i + 1, workspace_root@, m);
                }
                return Step::Fail(e);
            },
        }
        i = i + 1;
    }
    assert(s.take(i as int) =~= s);
    Step::Done(())
}

/// Once a target is not found to be inside, the targets behind it do not matter.
proof fn lemma_targets_stop(
    s: Seq<(Seq<char>, Seq<char>)>,
    n: int,
    root: Seq<char>,
    known: Map<Seq<char>, PathModel>,
)
    requires
        0 <= n <= s.len(),
        !(targets_inside(s.take(n), root, known) is Done),
    ensures
        targets_inside(s, root, known) == targets_inside(s.take(n), root, known),
    decreases s.len(),
{
    if n == s.len() {
        assert(s.take(n) =~= s);
    } else {
        let front = s.drop_last();
        assert(front.take(n) =~= s.take(n));
        lemma_targets_stop(front, n, root, known);
    }
}

/// A line of a patch, parted behind its marker.
fn split_marker<'a>(line: &'a str) -> (r: Option<(&'static str, &'a str)>)
    ensures
        match r {
            Some((m, rest)) => marker_of(line@) == Some(m@) && rest@ == line@.skip(
                m@.len() as int,
            ),
            None => marker_of(line@) is None,
        },
{
    if let Some(rest) = after_prefix(line, "*** Add File: ") {
        return Some(("*** Add File: ", rest));
    }
    if let Some(rest) = after_prefix(line, "*** Delete File: ") {
        return Some(("*** Delete File: ", rest));
    }
    if let Some(rest) = after_prefix(line, "*** Update File: ") {
        return Some(("*** Update File: ", rest));
    }
    if let Some(rest) = after_prefix(line, "*** Move to: ") {
        return Some(("*** Move to: ", rest));
    }
    None
}

pub fn rewrite_apply_patch_marker_line_to_host(line: &str, workspace_root: &str) -> (r: String)
    ensures
        r@ == host_line(line@, workspace_root@),
{
    match split_marker(line) {
        Some((marker, path)) => if path_is_absolute(path) {
            proof {
                reveal_strlit("\\");
            }
            let host = gateway_path_to_host_path(path, workspace_root);
            let mut out = marker.to_string();
            out.append(replace_text(host.as_str(), "\\", "/").as_str());
            out
        } else {
            line.to_string()
        },
        None => line.to_string(),
    }
}

pub fn rewrite_apply_patch_marker_line(line: &str, workspace_root: &str) -> (r: Step<String>)
    ensures
        text_step(r) == container_line(line@, workspace_root@),
{
    match split_marker(line) {
        Some((marker, path)) => if path_is_absolute(path) {
            let normalized = normalize_absolute_path(path);
            match container_path(normalized.as_str(), workspace_root) {
                Step::Done(p) => {
                    let mut out = marker.to_string();
                    out.append(p.as_str());
                    Step::Done(out)
                },
                Step::Ask(n) => Step::Ask(n),
                Step::Fail(e) => Step::Fail(e),
            }
        } else {
            Step::Done(line.to_string())
        },
        None => Step::Done(line.to_string()),
    }
}

/// A patch with the paths of the host.
pub fn rewrite_apply_patch_paths_to_host(patch: &str, workspace_root: &str) -> (r: String)
    ensures
        r@ == host_patch(patch@, workspace_root@),
{
    let all = lines_of(patch);
    let ghost s = lines(patch@).map_values(|l: Seq<char>| host_line(l, workspace_root@));
    let mut out: Vec<String> = Vec::new();
    let mut i: usize = 0;
    assert(texts(out@) =~= s.take(0));
    while i < all.len()
        invariant
            i <= all@.len(),
            texts(all@) == lines(patch@),
            s == lines(patch@).map_values(|l: Seq<char>| host_line(l, workspace_root@)),
            texts(out@) == s.take(i as int),
        decreases all@.len() - i,
    {
        let ghost before = texts(out@);
        let line = rewrite_apply_patch_marker_line_to_host(all[i].as_str(), workspace_root);
        assert(texts(all@)[i as int] == all@[i as int]@);
        assert(s[i as int] == line@);
        out.push(line);
        i = i + 1;
        assert(texts(out@) =~= before.push(line@));
        assert(s.take(i as int) =~= s.take(i - 1).push(s[i - 1]));
    }
    assert(s.take(i as int) =~= s);
    join(&out, "\n")
}

/// Once a line cannot be rewritten, the lines behind it do not matter.
proof fn lemma_lines_stop(s: Seq<Seq<char>>, n: int, root: Seq<char>)
    requires
        0 <= n <= s.len(),
        !(container_lines(s.take(n), root) is Done),
    ensures
        container_lines(s, root) == container_lines(s.take(n), root),
    decreases s.len(),
{
    if n == s.len() {
        assert(s.take(n) =~= s);
    } else {
        let front = s.drop_last();
        assert(front.take(n) =~= s.take(n));
        lemma_lines_stop(front, n, root);
    }
}

/// A patch with the paths of the container.
pub fn rewrite_apply_patch_absolute_paths(patch: &str, workspace_root: &str) -> (r: Step<String>)
    ensures
        text_step(r) == container_patch(patch@, workspace_root@),
{
    let all = lines_of(patch);
    let ghost s = lines(patch@);
    let ghost root = workspace_root@;
    let mut out: Vec<String> = Vec::new();
    let mut i: usize = 0;
    assert(texts(out@) =~= Seq::<Seq<char>>::empty());
    assert(s.take(0) =~= Seq::<Seq<char>>::empty());
    while i < all.len()
        invariant
            i <= all@.len(),
            texts(all@) == s,
            s == lines(patch@),
            root == workspace_root@,
            container_lines(s.take(i as int), root) == StepModel::Done(texts(out@)),
        decreases all@.len() - i,
    {
        let ghost before = texts(out@);
        let step = rewrite_apply_patch_marker_line(all[i].as_str(), workspace_root);
        proof {
            assert(s.take(i + 1).drop_last() =~= s.take(i as int));
            assert(s.take(i + 1).last() == all@[i as int]@);
        }
        match step {
            Step::Done(line) => {
                out.push(line);
                assert(texts(out@) =~= before.push(line@));
            },
            Step::Ask(n) => {
                proof {
                    lemma_lines_stop(s, i + 1, root);
                }
                return Step::Ask(n);
            },
            Step::Fail(e) => {
                proof {
                    lemma_lines_stop(s, i + 1, root);
                }
                return Step::Fail(e);
            },
        }
        i = i + 1;
    }
    assert(s.take(i as int) =~= s);
    Step::Done(join(&out, "\n"))
}

// ---------------------------------------------------------------------------
// Laws
// ---------------------------------------------------------------------------

/// Whatever the file system answers, a path that is accepted lies inside the
/// workspace.
pub proof fn law_accepted_paths_stay_inside(
    raw: Seq<char>,
    root: Seq<char>,
    label: Seq<char>,
    known: Map<Seq<char>, PathModel>,
)
    ensures
        canonical_inside(raw, root, label, known) matches StepModel::Done(c) ==> lies_in(c, root),
        existing_inside(raw, root, label, known) matches StepModel::Done(c) ==> lies_in(c, root),
{
}

/// The same holds of the directory that a tool works in, if the one it starts
/// from lies inside.
pub proof fn law_working_directory_stays_inside(
    cwd: Seq<char>,
    workdir: Option<Seq<char>>,
    root: Seq<char>,
    known: Map<Seq<char>, PathModel>,
)
    requires
        lies_in(cwd, root),
    ensures
        working_directory(cwd, workdir, root, known) matches StepModel::Done(c) ==> lies_in(
            c,
            root,
        ),
{
}

/// What lies inside the workspace is seen by the container.
pub proof fn law_inside_is_visible(path: Seq<char>, root: Seq<char>)
    requires
        lies_in(path, root),
    ensures
        inside_container(path, root) is Done,
{
}

proof fn lemma_nothing_replaced(s: Seq<char>, from: char, to: Seq<char>)
    requires
        !s.contains(from),
    ensures
        replaced(s, seq![from], to) == s,
    decreases s.len(),
{
    if s.len() > 0 {
        assert(s[0] != from);
        assert(s.take(1)[0] == s[0]);
        assert forall|i: int| 0 <= i < s.skip(1).len() implies s.skip(1)[i] != from by {
            assert(s.skip(1)[i] == s[i + 1]);
        }
        lemma_nothing_replaced(s.skip(1), from, to);
        assert(seq![s[0]] + s.skip(1) =~= s);
    }
}

proof fn lemma_logical_root()
    ensures
        is_absolute(CONTAINER_WORKSPACE_ROOT@),
        !CONTAINER_WORKSPACE_ROOT@.contains('\\'),
        CONTAINER_WORKSPACE_ROOT@.len() > 0 && CONTAINER_WORKSPACE_ROOT@.last() != '/',
{
    reveal_strlit("/workspace");
}

/// Unless a name holds a backslash, a path
/// of the host that the container sees lies in the logical workspace there, and
/// is found again on the host: it has the names it had.
pub proof fn law_container_path_is_found_again(path: Seq<char>, root: Seq<char>)
    requires
        lies_in(path, root),
        !path.contains('\\'),
    ensures
        inside_container(path, root) matches StepModel::Done(seen) && lies_in(
            seen,
            CONTAINER_WORKSPACE_ROOT@,
        ) && names(host_path(seen, root)) == names(path) && lies_in(host_path(seen, root), root),
{
    let logical = CONTAINER_WORKSPACE_ROOT@;
    let k = names(root).len() as int;
    let rest = below(path, root)->0;
    let seen = inside_container(path, root)->Done_0;
    lemma_logical_root();
    law_below_has_the_other_names(path, root);
    if rest.len() == 0 {
        lemma_no_names();
        assert(rest =~= Seq::<char>::empty());
        assert(names(logical).subrange(0, names(logical).len() as int) =~= names(logical));
    } else {
        law_joined_path_has_all_names(logical, rest);
        lemma_below_is_part(path, root, '\\');
        reveal_strlit("\\");
        reveal_strlit("/");
        let full = path_join(logical, rest);
        assert(full =~= logical + "/"@ + rest);
        assert forall|i: int| 0 <= i < full.len() implies full[i] != '\\' by {
            if i < logical.len() {
                assert(full[i] == logical[i]);
            } else if i > logical.len() {
                assert(full[i] == rest[i - logical.len() - 1]);
            }
        }
        assert("\\"@ =~= seq!['\\']);
        lemma_nothing_replaced(full, '\\', "/"@);
        assert(seen == full);
    }
    law_below_has_the_other_names(seen, logical);
    let again = below(seen, logical)->0;
    assert(names(again) =~= names(rest));
    law_joined_path_has_all_names(root, again);
    assert(names(root) == names(path).subrange(0, k));
    assert(names(root) + names(path).skip(k) =~= names(path));
}

/// What a tool names in the logical workspace is found at the same place in the real
/// one; any other path is taken as it is.
pub proof fn law_tool_paths_are_found_on_the_host(path: Seq<char>, root: Seq<char>)
    requires
        is_absolute(root),
    ensures
        !lies_in(path, "/workspace"@) ==> host_path(path, root) == path,
        lies_in(path, "/workspace"@) ==> lies_in(host_path(path, root), root) && names(
            host_path(path, root),
        ) == names(root) + names(path).skip(names("/workspace"@).len() as int),
{
    if lies_in(path, "/workspace"@) {
        law_below_has_the_other_names(path, "/workspace"@);
        law_joined_path_has_all_names(root, below(path, "/workspace"@)->0);
    }
}

/// A path of a tool is accepted just where it is absolute and without NUL, and where
/// the file system says that it is there, inside the workspace; then it is what the
/// file system says. What the file system was not asked for, it is asked for.
pub proof fn law_paths_are_accepted_inside(
    raw: Seq<char>,
    root: Seq<char>,
    label: Seq<char>,
    known: Map<Seq<char>, PathModel>,
)
    ensures
        ({
            let r = canonical_inside(raw, root, label, known);
            let h = host_path(raw, root);
            &&& raw.contains('\0') || !is_absolute(raw) ==> r is Fail
            &&& !raw.contains('\0') && is_absolute(raw) && !known.contains_key(h) ==> r
                == StepModel::<Seq<char>>::Ask(NeedModel::Path(h))
            &&& !raw.contains('\0') && is_absolute(raw) && known.contains_key(h) ==> (r is Done
                <==> known[h].canonical is Ok && lies_in(known[h].canonical->Ok_0, root))
            &&& r matches StepModel::Done(c) ==> known[h].canonical == Ok::<Seq<char>, Seq<char>>(c)
            &&& r matches StepModel::Fail(e) ==> e is Rejected
        }),
{
}

/// A tool works where it is told to: below the working directory, or at an absolute
/// path; without a word of it, in the working directory itself.
pub proof fn law_tools_work_where_they_are_told(
    cwd: Seq<char>,
    workdir: Option<Seq<char>>,
    root: Seq<char>,
    known: Map<Seq<char>, PathModel>,
)
    ensures
        ({
            let r = working_directory(cwd, workdir, root, known);
            &&& workdir is None || trim(workdir->0).len() == 0 ==> r == StepModel::Done(cwd)
            &&& workdir matches Some(w) ==> trim(w).len() > 0 ==> {
                let asked = if is_absolute(trim(w)) {
                    host_path(trim(w), root)
                } else {
                    path_join(cwd, trim(w))
                };
                &&& trim(w).contains('\0') ==> r is Fail
                &&& !trim(w).contains('\0') ==> r == canonical_inside(
                    asked,
                    root,
                    "workdir"@,
                    known,
                )
            }
        }),
{
}

/// A file may be written only where its path, without `..`, stays inside, and where
/// what is there of it does.
pub proof fn law_targets_stay_inside(
    raw: Seq<char>,
    root: Seq<char>,
    label: Seq<char>,
    known: Map<Seq<char>, PathModel>,
)
    ensures
        target_inside(raw, root, label, known) is Done ==> is_absolute(raw) && lies_in(
            normal(raw),
            root,
        ) && exists|k: int|
            0 <= k <= resolved(names(raw)).len() && is_nearest(
                resolved(names(raw)),
                #[trigger] resolved(names(raw)).take(k),
                root,
                known,
            ),
        !is_absolute(raw) || !lies_in(normal(raw), root) ==> target_inside(
            raw,
            root,
            label,
            known,
        ) is Fail,
{
    let path = resolved(names(raw));
    if target_inside(raw, root, label, known) is Done {
        lemma_nearest(path, path.len(), root, label, known);
    }
}

/// Whether `here` is an ancestor that is there, inside the workspace, and none of the
/// longer ones is there.
pub open spec fn is_nearest(
    path: Seq<Seq<char>>,
    here: Seq<Seq<char>>,
    root: Seq<char>,
    known: Map<Seq<char>, PathModel>,
) -> bool {
    let a = absolute(here);
    &&& known.contains_key(a) && known[a].exists
    &&& known[a].canonical is Ok && lies_in(known[a].canonical->Ok_0, root)
    &&& forall|j: int|
        here.len() < j <= path.len() ==> known.contains_key(absolute(#[trigger] path.take(j)))
            && !known[absolute(path.take(j))].exists
}

proof fn lemma_nearest(
    path: Seq<Seq<char>>,
    k: nat,
    root: Seq<char>,
    label: Seq<char>,
    known: Map<Seq<char>, PathModel>,
)
    requires
        k <= path.len(),
        ancestor_inside(path, k, root, label, known) is Done,
        forall|j: int|
            k < j <= path.len() ==> known.contains_key(absolute(#[trigger] path.take(j)))
                && !known[absolute(path.take(j))].exists,
    ensures
        exists|i: int|
            0 <= i <= path.len() && is_nearest(path, #[trigger] path.take(i), root, known),
    decreases k,
{
    let here = path.take(k as int);
    if known[absolute(here)].exists {
        assert(is_nearest(path, path.take(k as int), root, known));
    } else {
        lemma_nearest(path, (k - 1) as nat, root, label, known);
    }
}

/// All files of a patch have to stay inside: one that does not stops them all.
pub proof fn law_all_targets_stay_inside(
    targets: Seq<(Seq<char>, Seq<char>)>,
    root: Seq<char>,
    known: Map<Seq<char>, PathModel>,
    i: int,
)
    requires
        targets_inside(targets, root, known) is Done,
        0 <= i < targets.len(),
    ensures
        target_inside(targets[i].0, root, targets[i].1, known) is Done,
        lies_in(normal(targets[i].0), root),
    decreases targets.len(),
{
    if i < targets.len() - 1 {
        law_all_targets_stay_inside(targets.drop_last(), root, known, i);
        assert(targets.drop_last()[i] == targets[i]);
    } else {
        assert(targets.last() == targets[i]);
    }
}

/// The files of a patch lie below the working directory, unless their paths are
/// absolute.
pub proof fn law_patch_paths_are_below_the_directory(cwd: Seq<char>, path: Seq<char>, root: Seq<char>)
    ensures
        !is_absolute(path) ==> patch_path(cwd, path, root) == path_join(cwd, path),
        is_absolute(path) && !lies_in(path, "/workspace"@) ==> patch_path(cwd, path, root) == path,
        is_absolute(path) ==> patch_path(cwd, path, root) == host_path(path, root),
{
}

/// Of a patch only the paths of files are rewritten, and only absolute ones; every
/// other line stays as it is.
pub proof fn law_other_lines_stay(line: Seq<char>, root: Seq<char>)
    ensures
        !begins(line, "*** Add File: "@) && !begins(line, "*** Delete File: "@) && !begins(
            line,
            "*** Update File: "@,
        ) && !begins(line, "*** Move to: "@) ==> host_line(line, root) == line && container_line(
            line,
            root,
        ) == StepModel::Done(line),
        container_line(line, root) matches StepModel::Done(l) ==> match marker_of(line) {
            Some(m) => begins(l, m) && begins(line, m),
            None => l == line,
        },
        match marker_of(line) {
            Some(m) => begins(host_line(line, root), m) && (!is_absolute(
                line.skip(m.len() as int),
            ) ==> host_line(line, root) == line),
            None => host_line(line, root) == line,
        },
{
    if let Some(m) = marker_of(line) {
        let path = line.skip(m.len() as int);
        let h = m + replaced(host_path(path, root), "\\"@, "/"@);
        assert(h.subrange(0, m.len() as int) =~= m);
        if let StepModel::Done(p) = inside_container(normal(path), root) {
            assert((m + p).subrange(0, m.len() as int) =~= m);
        }
    }
}

/// What is said of a refusal is its reason; of a tool that is not known, its name.
pub proof fn law_errors_say_why(e: ErrorModel)
    ensures
        e matches ErrorModel::Rejected(m) ==> backend_error_text(e) == m,
        e matches ErrorModel::Internal(m) ==> backend_error_text(e) == m,
        e matches ErrorModel::UnsupportedTool(t) ==> backend_error_text(e) == "tool `"@ + t
            + "` is not supported by this middleware gateway"@,
{
}

} // verus!
