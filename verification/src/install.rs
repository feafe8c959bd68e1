//! Outcomes of the installation commands: the environment report, the
//! results of installing Node.js and Git, of installing, updating and
//! uninstalling OpenClaw, and of initialising its configuration.
use vstd::prelude::*;
use crate::text::{has_suffix, push_str_chars, str_ends_with, string_of, trim};
use crate::bundle::{components_view, PathCandidate};
use crate::version::{node_major, check_node_version_requirement, MIN_NODE_MAJOR};

verus! {

broadcast use vstd::string::group_string_axioms;

/// The outcome of an installation step.
#[derive(Debug)]
pub struct InstallResult {
    pub success: bool,
    pub message: String,
    pub error: Option<String>,
}

/// A progress report of an installation.
#[derive(Debug)]
pub struct InstallProgress {
    pub step: String,
    pub progress: u8,
    pub message: String,
    pub error: Option<String>,
}

/// A progress report for `step` at `progress` percent.
pub fn install_progress(step: &str, progress: u8, message: &str) -> (p: InstallProgress)
    ensures
        p.step@ == step@,
        p.progress == progress,
        p.message@ == message@,
        p.error is None,
{
    InstallProgress {
        step: step.to_string(),
        progress,
        message: message.to_string(),
        error: None,
    }
}

/// The result `{success, message, error}` has these values.
pub open spec fn result_is(r: InstallResult, success: bool, message: Seq<char>, error: Option<
    Seq<char>,
>) -> bool {
    &&& r.success == success
    &&& r.message@ == message
    &&& match error {
        Some(e) => r.error matches Some(x) && x@ == e,
        None => r.error is None,
    }
}

fn make_result(success: bool, message: String, error: Option<String>) -> (r: InstallResult)
    ensures
        r.success == success,
        r.message == message,
        r.error == error,
{
    InstallResult { success, message, error }
}

/// `a` followed by `b`, as a new string.
fn concat(a: &str, b: &str) -> (r: String)
    ensures
        r@ == a@ + b@,
{
    let mut v: Vec<char> = Vec::new();
    push_str_chars(&mut v, a);
    push_str_chars(&mut v, b);
    string_of(&v)
}

// ---------------------------------------------------------------------------
// Operating systems
// ---------------------------------------------------------------------------

/// The operating systems that the installers tell apart.
#[derive(Debug, Clone, Copy, PartialEq, Eq, Structural)]
pub enum TargetOs {
    Windows,
    MacOs,
    Linux,
    Other,
}

/// The operating system a name from `platform::get_os` denotes.
pub open spec fn os_of(name: Seq<char>) -> TargetOs {
    if name == "windows"@ {
        TargetOs::Windows
    } else if name == "macos"@ {
        TargetOs::MacOs
    } else if name == "linux"@ {
        TargetOs::Linux
    } else {
        TargetOs::Other
    }
}

/// The operating system that a name denotes (`"windows"`, `"macos"`,
/// `"linux"`; anything else is unsupported).
pub fn target_os(name: &str) -> (t: TargetOs)
    ensures
        t == os_of(name@),
{
    let n = name.to_string();
    if n == "windows".to_string() {
        TargetOs::Windows
    } else if n == "macos".to_string() {
        TargetOs::MacOs
    } else if n == "linux".to_string() {
        TargetOs::Linux
    } else {
        TargetOs::Other
    }
}

/// The result for an operating system that has no installer.
pub fn unsupported_os_result(os: &str) -> (r: InstallResult)
    ensures
        result_is(r, false, "不支持的操作系统"@, Some("不支持的操作系统: "@ + os@)),
{
    make_result(false, "不支持的操作系统".to_string(), Some(concat("不支持的操作系统: ", os)))
}

// ---------------------------------------------------------------------------
// Node.js and Git
// ---------------------------------------------------------------------------

/// The result of the Windows Node.js installer script, given whether a
/// Node.js version could be found afterwards.
pub fn nodejs_windows_result(script: Result<String, String>, node_found: bool) -> (r:
    InstallResult)
    ensures
        script is Ok && node_found ==> result_is(
            r,
            true,
            "Node.js 安装成功！请重启应用以使环境变量生效。"@,
            None,
        ),
        script is Ok && !node_found ==> result_is(
            r,
            false,
            "安装后需要重启应用"@,
            Some(script->Ok_0@),
        ),
        script is Err ==> result_is(r, false, "Node.js 安装失败"@, Some(script->Err_0@)),
{
    match script {
        Ok(output) => {
            if node_found {
                make_result(true, "Node.js 安装成功！请重启应用以使环境变量生效。".to_string(), None)
            } else {
                make_result(false, "安装后需要重启应用".to_string(), Some(output))
            }
        },
        Err(e) => make_result(false, "Node.js 安装失败".to_string(), Some(e)),
    }
}

/// The result of the macOS or Linux Node.js installer script.
pub fn nodejs_script_result(script: Result<String, String>) -> (r: InstallResult)
    ensures
        script is Ok ==> result_is(r, true, "Node.js 安装成功！"@ + script->Ok_0@, None),
        script is Err ==> result_is(r, false, "Node.js 安装失败"@, Some(script->Err_0@)),
{
    match script {
        Ok(output) => make_result(true, concat("Node.js 安装成功！", output.as_str()), None),
        Err(e) => make_result(false, "Node.js 安装失败".to_string(), Some(e)),
    }
}

/// The result of the Windows Git installer script, given whether `git
/// --version` runs afterwards.
pub fn git_windows_result(script: Result<String, String>, git_found: bool) -> (r: InstallResult)
    ensures
        script is Ok && git_found ==> result_is(
            r,
            true,
            "Git 安装成功！请重启应用以使环境变量生效。"@,
            None,
        ),
        script is Ok && !git_found ==> result_is(r, false, "安装后需要重启应用"@, None),
        script is Err ==> result_is(r, false, "Git 安装失败"@, Some(script->Err_0@)),
{
    match script {
        Ok(_) => {
            if git_found {
                make_result(true, "Git 安装成功！请重启应用以使环境变量生效。".to_string(), None)
            } else {
                make_result(false, "安装后需要重启应用".to_string(), None)
            }
        },
        Err(e) => make_result(false, "Git 安装失败".to_string(), Some(e)),
    }
}

/// The result of the macOS or Linux Git installer script.
pub fn git_script_result(script: Result<String, String>) -> (r: InstallResult)
    ensures
        script is Ok ==> result_is(r, true, "Git 安装成功！"@, None),
        script is Err ==> result_is(r, false, "Git 安装失败"@, Some(script->Err_0@)),
{
    match script {
        Ok(_) => make_result(true, "Git 安装成功！".to_string(), None),
        Err(e) => make_result(false, "Git 安装失败".to_string(), Some(e)),
    }
}

// ---------------------------------------------------------------------------
// The environment report
// ---------------------------------------------------------------------------

/// What the environment check found.
#[derive(Debug)]
pub struct EnvironmentStatus {
    pub git_installed: bool,
    pub git_version: Option<String>,
    pub node_installed: bool,
    pub node_version: Option<String>,
    pub node_version_ok: bool,
    pub openclaw_installed: bool,
    pub openclaw_version: Option<String>,
    pub config_dir_exists: bool,
    pub ready: bool,
    pub os: String,
}

/// The environment report from what was observed: the operating system,
/// the outcome of `git --version`, the Node.js and OpenClaw versions found,
/// and whether the configuration directory exists.  The environment is
/// ready when OpenClaw is installed.
pub fn check_environment(
    os: String,
    git_output: Result<String, String>,
    node_version: Option<String>,
    openclaw_version: Option<String>,
    config_dir_exists: bool,
) -> (st: EnvironmentStatus)
    ensures
        st.os == os,
        st.git_installed == git_output is Ok,
        git_output is Ok <==> st.git_version is Some,
        st.git_version matches Some(v) ==> v@ == trim(git_output->Ok_0@),
        st.node_installed == node_version is Some,
        st.node_version == node_version,
        st.node_version_ok == (node_version matches Some(v) && node_major(v@) >= MIN_NODE_MAJOR),
        st.openclaw_installed == openclaw_version is Some,
        st.openclaw_version == openclaw_version,
        st.config_dir_exists == config_dir_exists,
        st.ready == openclaw_version is Some,
{
    let git_version = match &git_output {
        Ok(v) => Some(crate::text::trim_string(v.as_str())),
        Err(_) => None,
    };
    let node_version_ok = check_node_version_requirement(&node_version);
    let git_installed = git_version.is_some();
    let node_installed = node_version.is_some();
    let openclaw_installed = openclaw_version.is_some();
    EnvironmentStatus {
        git_installed,
        git_version,
        node_installed,
        node_version,
        node_version_ok,
        openclaw_installed,
        openclaw_version,
        config_dir_exists,
        ready: openclaw_installed,
        os,
    }
}

// ---------------------------------------------------------------------------
// Installing OpenClaw
// ---------------------------------------------------------------------------

/// Whether a bundle archive (by URL or path) is a zip archive.
pub fn archive_is_zip(name: &str) -> (b: bool)
    ensures
        b == has_suffix(name@, ".zip"@),
{
    str_ends_with(name, ".zip")
}

/// The file name a downloaded bundle archive is stored under.
pub fn archive_file_name(is_zip: bool) -> (r: String)
    ensures
        r@ == (if is_zip {
            "openclaw-bundle.zip"@
        } else {
            "openclaw-bundle.tar.gz"@
        }),
{
    if is_zip {
        "openclaw-bundle.zip".to_string()
    } else {
        "openclaw-bundle.tar.gz".to_string()
    }
}

/// Where installing OpenClaw starts.
#[derive(Debug)]
pub enum InstallRoute {
    /// Unpack the archive the user chose (a zip archive or not) and install
    /// from it.
    LocalArchive { path: String, zip: bool },
    /// Try the bundle shipped with the application first.
    Embedded,
}

/// Where installing starts: the archive the user chose, if any, else the
/// bundle shipped with the application.
pub fn install_route(local_bundle_path: Option<String>) -> (r: InstallRoute)
    ensures
        match local_bundle_path {
            Some(p) => r matches InstallRoute::LocalArchive { path, zip } && path == p && zip
                == has_suffix(p@, ".zip"@),
            None => r is Embedded,
        },
{
    match local_bundle_path {
        Some(p) => {
            let zip = archive_is_zip(p.as_str());
            InstallRoute::LocalArchive { path: p, zip }
        },
        None => InstallRoute::Embedded,
    }
}

/// What follows the attempt with the shipped bundle.
#[derive(Debug)]
pub enum AfterEmbedded {
    /// Installed: this is the result.
    Done(InstallResult),
    /// Download the bundle from this URL and install from it.
    Download(String),
}

/// What follows the attempt with the shipped bundle (`Some(true)` where it
/// installed): done, else a download from the URL given, or the default
/// download URL.
pub fn after_embedded(outcome: Option<bool>, bundle_url: Option<String>, default_url: String) -> (r:
    AfterEmbedded)
    ensures
        outcome == Some(true) ==> (r matches AfterEmbedded::Done(res) && result_is(
            res,
            true,
            "OpenClaw 安装成功！"@,
            None,
        )),
        outcome != Some(true) ==> (r matches AfterEmbedded::Download(u) && u == (match bundle_url {
            Some(b) => b,
            None => default_url,
        })),
{
    match outcome {
        Some(true) => AfterEmbedded::Done(embedded_bundle_result()),
        _ => AfterEmbedded::Download(
            match bundle_url {
                Some(b) => b,
                None => default_url,
            },
        ),
    }
}

/// The result of installing from a local bundle archive, from the outcome
/// of installing its payload.
pub fn local_bundle_result(r: Result<bool, String>) -> (res: InstallResult)
    ensures
        r == Ok::<bool, String>(true) ==> result_is(res, true, "OpenClaw 本地离线包安装成功！"@, None),
        r == Ok::<bool, String>(false) ==> result_is(
            res,
            false,
            "本地离线包安装失败：payload 不完整"@,
            Some("payload 不完整"@),
        ),
        r is Err ==> result_is(
            res,
            false,
            "本地离线包安装失败: "@ + r->Err_0@,
            Some(r->Err_0@),
        ),
{
    match r {
        Ok(true) => make_result(true, "OpenClaw 本地离线包安装成功！".to_string(), None),
        Ok(false) => make_result(
            false,
            "本地离线包安装失败：payload 不完整".to_string(),
            Some("payload 不完整".to_string()),
        ),
        Err(e) => {
            let m = concat("本地离线包安装失败: ", e.as_str());
            make_result(false, m, Some(e))
        },
    }
}

/// The result of installing from the bundle shipped with the application.
pub fn embedded_bundle_result() -> (res: InstallResult)
    ensures
        result_is(res, true, "OpenClaw 安装成功！"@, None),
{
    make_result(true, "OpenClaw 安装成功！".to_string(), None)
}

/// The outcome of trying the bundle shipped with the application: whether
/// it installed, or none where installing failed.
pub fn offline_install_outcome(r: Result<bool, String>) -> (o: Option<bool>)
    ensures
        match r {
            Ok(b) => o == Some(b),
            Err(_) => o is None,
        },
{
    match r {
        Ok(b) => Some(b),
        Err(_) => None,
    }
}

/// The outcome of installing a downloaded bundle: an incomplete payload is
/// an error.
pub fn downloaded_bundle_outcome(r: Result<bool, String>) -> (o: Result<(), String>)
    ensures
        r == Ok::<bool, String>(true) ==> o is Ok,
        r == Ok::<bool, String>(false) ==> (o matches Err(e) && e@
            == "bundle 安装失败：payload 不完整"@),
        r is Err ==> (o matches Err(e) && e == r->Err_0),
{
    match r {
        Ok(true) => Ok(()),
        Ok(false) => Err("bundle 安装失败：payload 不完整".to_string()),
        Err(e) => Err(e),
    }
}

/// The result of downloading and installing a bundle.
pub fn download_install_result(r: Result<(), String>) -> (res: InstallResult)
    ensures
        r is Ok ==> result_is(res, true, "OpenClaw 下载安装成功！"@, None),
        r is Err ==> result_is(res, false, "安装失败: "@ + r->Err_0@, Some(r->Err_0@)),
{
    match r {
        Ok(()) => make_result(true, "OpenClaw 下载安装成功！".to_string(), None),
        Err(e) => {
            let m = concat("安装失败: ", e.as_str());
            make_result(false, m, Some(e))
        },
    }
}

/// The subdirectory of an extracted archive that holds the bundle: the
/// `openclaw-bundle` directory where the archive has one, else the
/// extraction directory itself.
pub fn extracted_bundle_subdir(nested_exists: bool) -> (r: Option<String>)
    ensures
        nested_exists ==> (r matches Some(s) && s@ == "openclaw-bundle"@),
        !nested_exists ==> r is None,
{
    if nested_exists {
        Some("openclaw-bundle".to_string())
    } else {
        None
    }
}

// ---------------------------------------------------------------------------
// Configuration initialisation
// ---------------------------------------------------------------------------

/// The subdirectories of the configuration directory that initialisation
/// creates, in order.
pub fn config_subdirs() -> (r: Vec<String>)
    ensures
        r@.len() == 3,
        r@[0]@ == "agents/main/sessions"@,
        r@[1]@ == "agents/main/agent"@,
        r@[2]@ == "credentials"@,
{
    let mut r: Vec<String> = Vec::new();
    r.push("agents/main/sessions".to_string());
    r.push("agents/main/agent".to_string());
    r.push("credentials".to_string());
    r
}

/// The result when the configuration directory cannot be created.
pub fn config_dir_error_result(e: String) -> (r: InstallResult)
    ensures
        result_is(r, false, "创建配置目录失败"@, Some(e@)),
{
    make_result(false, "创建配置目录失败".to_string(), Some(e))
}

/// The result when a configuration subdirectory cannot be created.
pub fn config_subdir_error_result(subdir: &str, e: String) -> (r: InstallResult)
    ensures
        result_is(r, false, "创建目录失败: "@ + subdir@, Some(e@)),
{
    make_result(false, concat("创建目录失败: ", subdir), Some(e))
}

/// The result of a completed configuration initialisation.
pub fn config_init_result() -> (r: InstallResult)
    ensures
        result_is(r, true, "配置初始化成功！"@, None),
{
    make_result(true, "配置初始化成功！".to_string(), None)
}

// ---------------------------------------------------------------------------
// Updating and uninstalling
// ---------------------------------------------------------------------------

/// The result of updating OpenClaw with npm on Windows, given the version
/// found afterwards.
pub fn update_windows_result(r: Result<String, String>, new_version: Option<String>) -> (res:
    InstallResult)
    ensures
        r is Ok ==> result_is(
            res,
            true,
            "OpenClaw 已更新到 "@ + (match new_version {
                Some(v) => v@,
                None => "最新版本"@,
            }),
            None,
        ),
        r is Err ==> result_is(res, false, "OpenClaw 更新失败"@, Some(r->Err_0@)),
{
    match r {
        Ok(_) => {
            let v = match new_version {
                Some(v) => v,
                None => "最新版本".to_string(),
            };
            make_result(true, concat("OpenClaw 已更新到 ", v.as_str()), None)
        },
        Err(e) => make_result(false, "OpenClaw 更新失败".to_string(), Some(e)),
    }
}

/// The result of the Unix update script.
pub fn update_unix_result(r: Result<String, String>) -> (res: InstallResult)
    ensures
        r is Ok ==> result_is(res, true, "OpenClaw 已更新！"@ + r->Ok_0@, None),
        r is Err ==> result_is(res, false, "OpenClaw 更新失败"@, Some(r->Err_0@)),
{
    match r {
        Ok(out) => make_result(true, concat("OpenClaw 已更新！", out.as_str()), None),
        Err(e) => make_result(false, "OpenClaw 更新失败".to_string(), Some(e)),
    }
}

/// The directories under the installation prefix that uninstalling
/// removes, in order (the configuration and logs stay).
pub fn uninstall_dirs() -> (r: Vec<String>)
    ensures
        r@.len() == 5,
        r@[0]@ == "node"@,
        r@[1]@ == "node_modules"@,
        r@[2]@ == "bin"@,
        r@[3]@ == "lib"@,
        r@[4]@ == "bundle-cache"@,
{
    let mut r: Vec<String> = Vec::new();
    r.push("node".to_string());
    r.push("node_modules".to_string());
    r.push("bin".to_string());
    r.push("lib".to_string());
    r.push("bundle-cache".to_string());
    r
}

/// Whether a file directly under the prefix is an executable that
/// uninstalling removes (`.cmd` or `.exe`).
pub fn is_prefix_executable(name: &str) -> (b: bool)
    ensures
        b == (has_suffix(name@, ".cmd"@) || has_suffix(name@, ".exe"@)),
{
    str_ends_with(name, ".cmd") || str_ends_with(name, ".exe")
}

/// The items of `names` separated by `", "`.
pub open spec fn comma_joined(names: Seq<Seq<char>>) -> Seq<char>
    decreases names.len(),
{
    if names.len() == 0 {
        Seq::empty()
    } else if names.len() == 1 {
        names[0]
    } else {
        comma_joined(names.drop_last()) + ", "@ + names.last()
    }
}

/// The result of uninstalling, given the directories removed and whether
/// OpenClaw can still be found afterwards.
pub fn uninstall_result(removed: &Vec<String>, still_installed: bool) -> (res: InstallResult)
    ensures
        !still_installed ==> result_is(
            res,
            true,
            "OpenClaw 已成功卸载！（已删除: "@ + comma_joined(crate::service::string_views(removed@))
                + "）"@,
            None,
        ),
        still_installed ==> result_is(
            res,
            false,
            "卸载命令已执行，但 OpenClaw 仍然存在，请尝试手动删除 ~/.openclaw 目录"@,
            None,
        ),
{
    if still_installed {
        return make_result(
            false,
            "卸载命令已执行，但 OpenClaw 仍然存在，请尝试手动删除 ~/.openclaw 目录".to_string(),
            None,
        );
    }
    let ghost names = crate::service::string_views(removed@);
    let mut body: Vec<char> = Vec::new();
    let mut i: usize = 0;
    proof {
        assert(names.take(0) =~= Seq::<Seq<char>>::empty());
    }
    while i < removed.len()
        invariant
            i <= removed.len(),
            names == crate::service::string_views(removed@),
            body@ == comma_joined(names.take(i as int)),
        decreases removed.len() - i,
    {
        proof {
            assert(names.take(i + 1).drop_last() =~= names.take(i as int));
            assert(names.take(i + 1).last() == removed@[i as int]@);
            assert(names.take(i + 1).len() == i + 1);
        }
        if i > 0 {
            push_str_chars(&mut body, ", ");
        }
        push_str_chars(&mut body, removed[i].as_str());
        proof {
            if i == 0 {
                assert(names.take(1)[0] == removed@[0]@);
                assert(body@ =~= comma_joined(names.take(1)));
            }
        }
        i = i + 1;
    }
    proof {
        assert(names.take(removed@.len() as int) =~= names);
    }
    let mut m: Vec<char> = Vec::new();
    push_str_chars(&mut m, "OpenClaw 已成功卸载！（已删除: ");
    crate::text::append_chars(&mut m, &body);
    push_str_chars(&mut m, "）");
    make_result(true, string_of(&m), None)
}

/// The OpenClaw directory, where everything is installed, as a base and the
/// components joined to it: `OPENCLAW_HOME` where it is set and not empty,
/// else `.openclaw` joined to the home directory; none where neither is
/// known.
pub fn openclaw_root(openclaw_home: Option<String>, home: Option<String>) -> (r: Option<
    PathCandidate,
>)
    ensures
        openclaw_home matches Some(h) ==> (h@.len() > 0 ==> (r matches Some(c) && c.base == h
            && c.components@.len() == 0)),
        !(openclaw_home matches Some(h) && h@.len() > 0) ==> match home {
            Some(x) => (r matches Some(c) && c.base == x && components_view(c) == seq![
                ".openclaw"@,
            ]),
            None => r is None,
        },
{
    if let Some(h) = openclaw_home {
        if !h.as_str().is_empty() {
            return Some(PathCandidate { base: h, components: Vec::new() });
        }
    }
    match home {
        Some(x) => {
            let mut components: Vec<String> = Vec::new();
            components.push(".openclaw".to_string());
            let c = PathCandidate { base: x, components };
            proof {
                assert(components_view(c) =~= seq![".openclaw"@]);
            }
            Some(c)
        },
        None => None,
    }
}

} // verus!
