//! The offline bundle: which of its files must be present, where the Node.js
//! runtime and the `openclaw` launcher are looked for, where the bundle
//! itself is looked for, and the protocol that installs OpenClaw from it.
use vstd::prelude::*;
use crate::number::{decimal_chars, decimal_string};
use crate::text::{push_str_chars, string_of, trim, trim_str_chars};

verus! {

broadcast use vstd::string::group_string_axioms;

// ---------------------------------------------------------------------------
// The payload
// ---------------------------------------------------------------------------

/// Which entries of a bundle directory exist.
#[derive(Debug, Clone, Copy)]
pub struct BundleProbe {
    /// the manifest file at the root of the bundle
    pub manifest: bool,
    /// `prefix/`, a prepared installation snapshot
    pub prefix: bool,
    /// `npm/bin/npm-cli.js`
    pub npm_cli: bool,
    /// `openclaw.tgz`
    pub openclaw_tgz: bool,
    /// `npm-cache/`
    pub npm_cache: bool,
}

/// The bundle can be installed from: it has a manifest, and either a
/// prepared prefix or everything an offline npm installation needs.
pub open spec fn payload_usable(p: BundleProbe) -> bool {
    p.manifest && (p.prefix || (p.npm_cli && p.openclaw_tgz && p.npm_cache))
}

/// Whether the bundle whose entries `p` describes can be installed from.
pub fn bundle_payload_usable(p: &BundleProbe) -> (b: bool)
    ensures
        b == payload_usable(*p),
{
    if !p.manifest {
        return false;
    }
    if p.prefix {
        return true;
    }
    p.npm_cli && p.openclaw_tgz && p.npm_cache
}

/// The path components, under a bundle or prefix directory, of the bundled
/// Node.js executable (`node/node.exe` on Windows, `node/node` elsewhere).
pub fn bundled_node_components(windows: bool) -> (r: Vec<String>)
    ensures
        r@.len() == 2,
        r@[0]@ == "node"@,
        r@[1]@ == (if windows {
            "node.exe"@
        } else {
            "node"@
        }),
{
    let mut r: Vec<String> = Vec::new();
    r.push("node".to_string());
    if windows {
        r.push("node.exe".to_string());
    } else {
        r.push("node".to_string());
    }
    r
}

/// The bundled Node.js executable, if the candidate path exists.
pub fn resolve_bundled_node_binary(candidate: String, exists: bool) -> (r: Option<String>)
    ensures
        exists ==> r == Some(candidate),
        !exists ==> r is None,
{
    if exists {
        Some(candidate)
    } else {
        None
    }
}

/// The places, relative to an installation prefix, where the `openclaw`
/// launcher may be: on Windows the `npm -g --prefix` links, elsewhere
/// `bin/openclaw`.
pub fn openclaw_binary_candidates(windows: bool) -> (r: Vec<String>)
    ensures
        windows ==> r@.len() == 4 && r@[0]@ == "node_modules/.bin/openclaw.cmd"@ && r@[1]@
            == "node_modules/.bin/openclaw"@ && r@[2]@ == "openclaw.cmd"@ && r@[3]@
            == "bin/openclaw.cmd"@,
        !windows ==> r@.len() == 1 && r@[0]@ == "bin/openclaw"@,
{
    let mut r: Vec<String> = Vec::new();
    if windows {
        r.push("node_modules/.bin/openclaw.cmd".to_string());
        r.push("node_modules/.bin/openclaw".to_string());
        r.push("openclaw.cmd".to_string());
        r.push("bin/openclaw.cmd".to_string());
    } else {
        r.push("bin/openclaw".to_string());
    }
    r
}

/// Whether the prefix holds the launcher, given which of the candidates
/// exist.
pub fn prefix_has_openclaw_binary(found: &Vec<bool>) -> (b: bool)
    ensures
        b == exists|i: int| 0 <= i < found@.len() && found@[i],
{
    let mut i: usize = 0;
    while i < found.len()
        invariant
            i <= found.len(),
            forall|j: int| 0 <= j < i ==> !found@[j],
        decreases found.len() - i,
    {
        if found[i] {
            return true;
        }
        i = i + 1;
    }
    false
}

// ---------------------------------------------------------------------------
// Where the shipped bundle is looked for
// ---------------------------------------------------------------------------

/// A candidate location: a base directory and the components joined to it.
#[derive(Debug)]
pub struct PathCandidate {
    pub base: String,
    pub components: Vec<String>,
}

/// The views of a candidate's components.
pub open spec fn components_view(c: PathCandidate) -> Seq<Seq<char>> {
    c.components@.map_values(|s: String| s@)
}

fn candidate(base: &String, parts: Vec<String>) -> (c: PathCandidate)
    ensures
        c.base == *base,
        c.components == parts,
{
    PathCandidate { base: base.clone(), components: parts }
}

fn strings2(a: &str, b: &str) -> (r: Vec<String>)
    ensures
        r@.len() == 2,
        r@[0]@ == a@,
        r@[1]@ == b@,
{
    let mut r: Vec<String> = Vec::new();
    r.push(a.to_string());
    r.push(b.to_string());
    r
}

fn strings3(a: &str, b: &str, c: &str) -> (r: Vec<String>)
    ensures
        r@.len() == 3,
        r@[0]@ == a@,
        r@[1]@ == b@,
        r@[2]@ == c@,
{
    let mut r: Vec<String> = Vec::new();
    r.push(a.to_string());
    r.push(b.to_string());
    r.push(c.to_string());
    r
}

fn strings4(a: &str, b: &str, c: &str, d: &str) -> (r: Vec<String>)
    ensures
        r@.len() == 4,
        r@[0]@ == a@,
        r@[1]@ == b@,
        r@[2]@ == c@,
        r@[3]@ == d@,
{
    let mut r: Vec<String> = Vec::new();
    r.push(a.to_string());
    r.push(b.to_string());
    r.push(c.to_string());
    r.push(d.to_string());
    r
}

/// The places where the bundle shipped with the application is looked for,
/// in order: the resource directory's `openclaw-bundle`; under the working
/// directory `src-tauri/bundle/resources/openclaw-bundle` and
/// `bundle/resources/openclaw-bundle`; next to the executable
/// `bundle/resources/openclaw-bundle`, `resources/openclaw-bundle` and
/// `../../Resources/openclaw-bundle`.  A base that is unknown contributes
/// no candidates.
pub fn bundle_dir_candidates(
    resource_dir: Option<String>,
    cwd: Option<String>,
    exe_dir: Option<String>,
) -> (r: Vec<PathCandidate>)
    ensures
        r@.len() == (if resource_dir is Some {
            1int
        } else {
            0
        }) + (if cwd is Some {
            2int
        } else {
            0
        }) + (if exe_dir is Some {
            3int
        } else {
            0
        }),
        resource_dir matches Some(b) ==> r@[0].base == b && r@[0].components@.len() == 0,
        cwd matches Some(b) ==> ({
            let o = if resource_dir is Some {
                1int
            } else {
                0
            };
            &&& r@[o].base == b
            &&& components_view(r@[o]) == seq![
                "src-tauri"@,
                "bundle"@,
                "resources"@,
                "openclaw-bundle"@,
            ]
            &&& r@[o + 1].base == b
            &&& components_view(r@[o + 1]) == seq!["bundle"@, "resources"@, "openclaw-bundle"@]
        }),
        exe_dir matches Some(b) ==> ({
            let o = (if resource_dir is Some {
                1int
            } else {
                0
            }) + (if cwd is Some {
                2int
            } else {
                0
            });
            &&& r@[o].base == b
            &&& components_view(r@[o]) == seq!["bundle"@, "resources"@, "openclaw-bundle"@]
            &&& r@[o + 1].base == b
            &&& components_view(r@[o + 1]) == seq!["resources"@, "openclaw-bundle"@]
            &&& r@[o + 2].base == b
            &&& components_view(r@[o + 2]) == seq![
                ".."@,
                ".."@,
                "Resources"@,
                "openclaw-bundle"@,
            ]
        }),
{
    let mut r: Vec<PathCandidate> = Vec::new();
    if let Some(b) = &resource_dir {
        r.push(candidate(b, Vec::new()));
    }
    if let Some(b) = &cwd {
        let c1 = candidate(b, strings4("src-tauri", "bundle", "resources", "openclaw-bundle"));
        proof {
            assert(components_view(c1) =~= seq![
                "src-tauri"@,
                "bundle"@,
                "resources"@,
                "openclaw-bundle"@,
            ]);
        }
        r.push(c1);
        let c2 = candidate(b, strings3("bundle", "resources", "openclaw-bundle"));
        proof {
            assert(components_view(c2) =~= seq!["bundle"@, "resources"@, "openclaw-bundle"@]);
        }
        r.push(c2);
    }
    if let Some(b) = &exe_dir {
        let c1 = candidate(b, strings3("bundle", "resources", "openclaw-bundle"));
        proof {
            assert(components_view(c1) =~= seq!["bundle"@, "resources"@, "openclaw-bundle"@]);
        }
        r.push(c1);
        let c2 = candidate(b, strings2("resources", "openclaw-bundle"));
        proof {
            assert(components_view(c2) =~= seq!["resources"@, "openclaw-bundle"@]);
        }
        r.push(c2);
        let c3 = candidate(b, strings4("..", "..", "Resources", "openclaw-bundle"));
        proof {
            assert(components_view(c3) =~= seq![".."@, ".."@, "Resources"@, "openclaw-bundle"@]);
        }
        r.push(c3);
    }
    r
}

/// The first candidate that exists, given which of them exist.
pub fn first_existing(exists: &Vec<bool>) -> (r: Option<usize>)
    ensures
        match r {
            Some(i) => i < exists@.len() && exists@[i as int] && forall|j: int|
                0 <= j < i ==> !exists@[j],
            None => forall|j: int| 0 <= j < exists@.len() ==> !exists@[j],
        },
{
    let mut i: usize = 0;
    while i < exists.len()
        invariant
            i <= exists.len(),
            forall|j: int| 0 <= j < i ==> !exists@[j],
        decreases exists.len() - i,
    {
        if exists[i] {
            return Some(i);
        }
        i = i + 1;
    }
    None
}

// ---------------------------------------------------------------------------
// Installing from a bundle directory
// ---------------------------------------------------------------------------

/// Where the installation from a bundle directory stands: each stage
/// waits for the outcome of the action that led to it.
#[derive(Debug, Clone, Copy, PartialEq, Eq, Structural)]
pub enum OfflineStage {
    /// Waits for the probe of the bundle's entries.
    Start,
    /// Waits for the installation prefix to be created.
    Preparing { snapshot: bool },
    /// Waits for the prepared prefix to be copied.
    CopyingSnapshot,
    /// Waits for the Node.js runtime to be copied after the snapshot.
    SnapshotNode,
    /// Waits for the launcher check after the snapshot.
    SnapshotCheck,
    /// Waits for the probe of what an offline npm installation needs.
    NpmProbe,
    /// Waits for npm to finish.
    NpmRunning,
    /// Waits for the Node.js runtime to be copied after npm.
    NpmNode,
    /// Waits for the launcher check after npm.
    NpmCheck,
}

/// The outcome of the last action.
#[derive(Debug)]
pub enum OfflineEvent {
    /// The entries of the bundle directory.
    Probed(BundleProbe),
    /// A file-system step (creating the prefix, copying the runtime) done.
    Done,
    /// The prepared prefix was copied: this many files.
    Copied(usize),
    /// The launcher was looked for in the prefix.
    LauncherFound(bool),
    /// What the offline npm installation needs: the bundled Node.js, npm's
    /// entry script, the OpenClaw package and the npm cache.
    NpmInputs { node: bool, npm_cli: bool, openclaw_tgz: bool, npm_cache: bool },
    /// npm ran: whether it succeeded, and what it printed.
    NpmExited { success: bool, stdout: String, stderr: String },
    /// A step failed with this error.
    Failed(String),
}

/// A progress report to publish: step, percentage and message.
#[derive(Debug)]
pub struct Progress {
    pub step: String,
    pub percent: u8,
    pub message: String,
}

/// What the installation does next.
#[derive(Debug)]
pub enum OfflineAction {
    /// Resolve the installation prefix (the chosen directory, else the
    /// OpenClaw directory, see `openclaw_root`), then publish the progress
    /// report and create the prefix.
    PreparePrefix { progress: Progress, next: OfflineStage },
    /// Publish the progress report and copy the prepared prefix into the
    /// installation prefix, counting the files.
    CopySnapshot { progress: Progress, next: OfflineStage },
    /// Publish the progress report and copy the bundled Node.js runtime into
    /// the prefix's `node` directory.
    CopyNode { progress: Progress, next: OfflineStage },
    /// Look for the launcher in the prefix.
    CheckLauncher { next: OfflineStage },
    /// Look for the bundled Node.js and the npm installation inputs.
    ProbeNpm { next: OfflineStage },
    /// Publish the progress report and run the bundled npm offline.
    RunNpm { progress: Progress, next: OfflineStage },
    /// Finish, publishing the final progress report where there is one.
    Finish { report: Option<Progress>, result: Result<bool, String> },
}

/// The event that each stage waits for.
pub open spec fn event_fits(stage: OfflineStage, e: OfflineEvent) -> bool {
    match stage {
        OfflineStage::Start => e is Probed,
        OfflineStage::Preparing { .. } => e is Done || e is Failed,
        OfflineStage::CopyingSnapshot => e is Copied || e is Failed,
        OfflineStage::SnapshotNode => e is Done || e is Failed,
        OfflineStage::SnapshotCheck => e is LauncherFound,
        OfflineStage::NpmProbe => e is NpmInputs,
        OfflineStage::NpmRunning => e is NpmExited || e is Failed,
        OfflineStage::NpmNode => e is Done || e is Failed,
        OfflineStage::NpmCheck => e is LauncherFound,
    }
}

/// Whether `e` is the event that `stage` waits for.
pub fn offline_event_fits(stage: OfflineStage, e: &OfflineEvent) -> (b: bool)
    ensures
        b == event_fits(stage, *e),
{
    match stage {
        OfflineStage::Start => matches!(e, OfflineEvent::Probed(_)),
        OfflineStage::Preparing { .. } => matches!(e, OfflineEvent::Done)
            || matches!(e, OfflineEvent::Failed(_)),
        OfflineStage::CopyingSnapshot => matches!(e, OfflineEvent::Copied(_))
            || matches!(e, OfflineEvent::Failed(_)),
        OfflineStage::SnapshotNode => matches!(e, OfflineEvent::Done)
            || matches!(e, OfflineEvent::Failed(_)),
        OfflineStage::SnapshotCheck => matches!(e, OfflineEvent::LauncherFound(_)),
        OfflineStage::NpmProbe => matches!(e, OfflineEvent::NpmInputs { .. }),
        OfflineStage::NpmRunning => matches!(e, OfflineEvent::NpmExited { .. })
            || matches!(e, OfflineEvent::Failed(_)),
        OfflineStage::NpmNode => matches!(e, OfflineEvent::Done)
            || matches!(e, OfflineEvent::Failed(_)),
        OfflineStage::NpmCheck => matches!(e, OfflineEvent::LauncherFound(_)),
    }
}

/// The progress report has these values.
pub open spec fn progress_is(p: Progress, step: Seq<char>, percent: u8, message: Seq<char>) -> bool {
    p.step@ == step && p.percent == percent && p.message@ == message
}

fn progress(step: &str, percent: u8, message: &str) -> (p: Progress)
    ensures
        progress_is(p, step@, percent, message@),
{
    Progress { step: step.to_string(), percent, message: message.to_string() }
}

/// The rank of a stage in the protocol; every action leads to a stage of
/// higher rank.
pub open spec fn stage_rank(s: OfflineStage) -> nat {
    match s {
        OfflineStage::Start => 0,
        OfflineStage::Preparing { .. } => 1,
        OfflineStage::CopyingSnapshot => 2,
        OfflineStage::SnapshotNode => 3,
        OfflineStage::SnapshotCheck => 4,
        OfflineStage::NpmProbe => 5,
        OfflineStage::NpmRunning => 6,
        OfflineStage::NpmNode => 7,
        OfflineStage::NpmCheck => 8,
    }
}

/// The stage that an action leads to; none where it finishes.
pub open spec fn action_next(a: OfflineAction) -> Option<OfflineStage> {
    match a {
        OfflineAction::PreparePrefix { next, .. } => Some(next),
        OfflineAction::CopySnapshot { next, .. } => Some(next),
        OfflineAction::CopyNode { next, .. } => Some(next),
        OfflineAction::CheckLauncher { next } => Some(next),
        OfflineAction::ProbeNpm { next } => Some(next),
        OfflineAction::RunNpm { next, .. } => Some(next),
        OfflineAction::Finish { .. } => None,
    }
}

/// The result an action finishes with, if it finishes.
pub open spec fn action_result(a: OfflineAction) -> Option<Result<bool, String>> {
    match a {
        OfflineAction::Finish { result, .. } => Some(result),
        _ => None,
    }
}

/// The error message for a failed npm run: its output and error output,
/// each trimmed.
pub open spec fn npm_failure_message(stdout: Seq<char>, stderr: Seq<char>) -> Seq<char> {
    "npm 离线安装失败: "@ + trim(stdout) + " "@ + trim(stderr)
}

/// The error where the bundled npm could not be started.
pub fn npm_launch_error(e: &str) -> (m: String)
    ensures
        m@ == "运行 bundled npm 失败: "@ + e@,
{
    let mut v: Vec<char> = Vec::new();
    push_str_chars(&mut v, "运行 bundled npm 失败: ");
    push_str_chars(&mut v, e);
    string_of(&v)
}

/// The message published after the prepared prefix was copied.
pub open spec fn copied_message(count: nat) -> Seq<char> {
    "已复制 "@ + decimal_string(count) + " 个文件，正在复制 Node.js 运行时..."@
}

/// One step of installing OpenClaw from a bundle directory: from the stage
/// and the outcome of the last action, the next action.
///
/// A bundle whose payload is not usable is skipped (`Ok(false)`).  With a
/// prepared prefix, the prefix is copied and the Node.js runtime added; if
/// the launcher is then present, installation is complete, else npm is
/// tried.  The npm route needs the bundled Node.js and all npm inputs
/// (else `Ok(false)`); after a successful run the runtime is copied and the
/// launcher must be present (else an error).  Any failed step ends with
/// its error.
pub fn offline_install_step(stage: OfflineStage, event: OfflineEvent) -> (a: OfflineAction)
    requires
        event_fits(stage, event),
    ensures
        // the protocol moves forward
        action_next(a) matches Some(n) ==> stage_rank(n) > stage_rank(stage),
        // success is reported only once the launcher was found in the prefix
        action_result(a) == Some(Ok::<bool, String>(true)) ==> (event matches OfflineEvent::LauncherFound(true)),
        // the bundle is skipped only for an unusable payload or missing npm inputs
        action_result(a) == Some(Ok::<bool, String>(false)) ==> (stage == OfflineStage::Start || stage
            == OfflineStage::NpmProbe),
        // a failed step ends with its error
        event matches OfflineEvent::Failed(e) ==> (a matches OfflineAction::Finish {
            report: None,
            result: Err(x),
        } && x == e),
        // the payload check
        stage == OfflineStage::Start ==> (match event {
            OfflineEvent::Probed(p) => if payload_usable(p) {
                a matches OfflineAction::PreparePrefix { progress, next } && progress_is(
                    progress,
                    "prepare"@,
                    5,
                    "正在准备安装目录..."@,
                ) && next == (OfflineStage::Preparing { snapshot: p.prefix })
            } else {
                a matches OfflineAction::Finish { report: None, result: Ok(false) }
            },
            _ => true,
        }),
        // after the prefix is created: the snapshot, or the npm route
        stage == (OfflineStage::Preparing { snapshot: true }) && event is Done ==> (
        a matches OfflineAction::CopySnapshot { progress, next } && progress_is(
            progress,
            "copy"@,
            20,
            "正在复制文件（这可能需要一两分钟）..."@,
        ) && next == OfflineStage::CopyingSnapshot),
        stage == (OfflineStage::Preparing { snapshot: false }) && event is Done ==> (
        a matches OfflineAction::ProbeNpm { next } && next == OfflineStage::NpmProbe),
        // the snapshot route
        stage == OfflineStage::CopyingSnapshot ==> (match event {
            OfflineEvent::Copied(n) => a matches OfflineAction::CopyNode { progress, next }
                && progress_is(progress, "node"@, 80, copied_message(n as nat)) && next
                == OfflineStage::SnapshotNode,
            _ => true,
        }),
        stage == OfflineStage::SnapshotNode && event is Done ==> (a matches OfflineAction::CheckLauncher {
            next,
        } && next == OfflineStage::SnapshotCheck),
        stage == OfflineStage::SnapshotCheck ==> (match event {
            OfflineEvent::LauncherFound(true) => a matches OfflineAction::Finish {
                report: Some(p),
                result: Ok(true),
            } && progress_is(p, "done"@, 100, "安装完成！"@),
            OfflineEvent::LauncherFound(false) => a matches OfflineAction::ProbeNpm { next }
                && next == OfflineStage::NpmProbe,
            _ => true,
        }),
        // the npm route
        stage == OfflineStage::NpmProbe ==> (match event {
            OfflineEvent::NpmInputs { node, npm_cli, openclaw_tgz, npm_cache } => if node
                && npm_cli && openclaw_tgz && npm_cache {
                a matches OfflineAction::RunNpm { progress, next } && progress_is(
                    progress,
                    "npm"@,
                    40,
                    "正在执行 npm 安装（可能需要几分钟）..."@,
                ) && next == OfflineStage::NpmRunning
            } else {
                a matches OfflineAction::Finish { report: None, result: Ok(false) }
            },
            _ => true,
        }),
        stage == OfflineStage::NpmRunning ==> (match event {
            OfflineEvent::NpmExited { success, stdout, stderr } => if success {
                a matches OfflineAction::CopyNode { progress, next } && progress_is(
                    progress,
                    "node"@,
                    85,
                    "正在复制 Node.js 运行时..."@,
                ) && next == OfflineStage::NpmNode
            } else {
                a matches OfflineAction::Finish { report: None, result: Err(m) } && m@
                    == npm_failure_message(stdout@, stderr@)
            },
            _ => true,
        }),
        stage == OfflineStage::NpmNode && event is Done ==> (a matches OfflineAction::CheckLauncher {
            next,
        } && next == OfflineStage::NpmCheck),
        stage == OfflineStage::NpmCheck ==> (match event {
            OfflineEvent::LauncherFound(true) => a matches OfflineAction::Finish {
                report: Some(p),
                result: Ok(true),
            } && progress_is(p, "done"@, 100, "安装完成！"@),
            OfflineEvent::LauncherFound(false) => a matches OfflineAction::Finish {
                report: None,
                result: Err(m),
            } && m@ == "npm 离线安装成功但未找到 openclaw binary"@,
            _ => true,
        }),
{
    match event {
        OfflineEvent::Failed(e) => OfflineAction::Finish { report: None, result: Err(e) },
        OfflineEvent::Probed(p) => {
            if bundle_payload_usable(&p) {
                OfflineAction::PreparePrefix {
                    progress: progress("prepare", 5, "正在准备安装目录..."),
                    next: OfflineStage::Preparing { snapshot: p.prefix },
                }
            } else {
                OfflineAction::Finish { report: None, result: Ok(false) }
            }
        },
        OfflineEvent::Done => match stage {
            OfflineStage::Preparing { snapshot } => {
                if snapshot {
                    OfflineAction::CopySnapshot {
                        progress: progress("copy", 20, "正在复制文件（这可能需要一两分钟）..."),
                        next: OfflineStage::CopyingSnapshot,
                    }
                } else {
                    OfflineAction::ProbeNpm { next: OfflineStage::NpmProbe }
                }
            },
            OfflineStage::SnapshotNode => OfflineAction::CheckLauncher {
                next: OfflineStage::SnapshotCheck,
            },
            _ => OfflineAction::CheckLauncher { next: OfflineStage::NpmCheck },
        },
        OfflineEvent::Copied(n) => {
            let mut m: Vec<char> = Vec::new();
            push_str_chars(&mut m, "已复制 ");
            let d = decimal_chars(n as u64);
            crate::text::append_chars(&mut m, &d);
            push_str_chars(&mut m, " 个文件，正在复制 Node.js 运行时...");
            let ms = string_of(&m);
            OfflineAction::CopyNode {
                progress: Progress { step: "node".to_string(), percent: 80, message: ms },
                next: OfflineStage::SnapshotNode,
            }
        },
        OfflineEvent::LauncherFound(found) => {
            if found {
                OfflineAction::Finish {
                    report: Some(progress("done", 100, "安装完成！")),
                    result: Ok(true),
                }
            } else if stage == OfflineStage::SnapshotCheck {
                OfflineAction::ProbeNpm { next: OfflineStage::NpmProbe }
            } else {
                OfflineAction::Finish {
                    report: None,
                    result: Err("npm 离线安装成功但未找到 openclaw binary".to_string()),
                }
            }
        },
        OfflineEvent::NpmInputs { node, npm_cli, openclaw_tgz, npm_cache } => {
            if node && npm_cli && openclaw_tgz && npm_cache {
                OfflineAction::RunNpm {
                    progress: progress("npm", 40, "正在执行 npm 安装（可能需要几分钟）..."),
                    next: OfflineStage::NpmRunning,
                }
            } else {
                OfflineAction::Finish { report: None, result: Ok(false) }
            }
        },
        OfflineEvent::NpmExited { success, stdout, stderr } => {
            if success {
                OfflineAction::CopyNode {
                    progress: progress("node", 85, "正在复制 Node.js 运行时..."),
                    next: OfflineStage::NpmNode,
                }
            } else {
                let mut m: Vec<char> = Vec::new();
                push_str_chars(&mut m, "npm 离线安装失败: ");
                let o = trim_str_chars(stdout.as_str());
                crate::text::append_chars(&mut m, &o);
                push_str_chars(&mut m, " ");
                let e = trim_str_chars(stderr.as_str());
                crate::text::append_chars(&mut m, &e);
                OfflineAction::Finish { report: None, result: Err(string_of(&m)) }
            }
        },
    }
}

} // verus!
