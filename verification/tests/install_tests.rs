use openclaw_manager::install::{
    after_embedded, install_route, openclaw_root, AfterEmbedded, InstallRoute,
    archive_file_name, archive_is_zip, check_environment, config_dir_error_result,
    config_init_result, config_subdir_error_result, config_subdirs, download_install_result,
    downloaded_bundle_outcome, embedded_bundle_result, extracted_bundle_subdir, git_script_result,
    git_windows_result, install_progress, is_prefix_executable, local_bundle_result,
    nodejs_script_result, nodejs_windows_result, offline_install_outcome, target_os,
    uninstall_dirs, uninstall_result, unsupported_os_result, update_unix_result,
    update_windows_result, InstallResult, TargetOs,
};

fn check(r: InstallResult, success: bool, message: &str, error: Option<&str>) {
    assert_eq!(r.success, success);
    assert_eq!(r.message, message);
    assert_eq!(r.error.as_deref(), error);
}

fn s(v: &[&str]) -> Vec<String> {
    v.iter().map(|x| x.to_string()).collect()
}

#[test]
fn progress_report() {
    let p = install_progress("copy", 20, "正在复制文件");
    assert_eq!(p.step, "copy");
    assert_eq!(p.progress, 20);
    assert_eq!(p.message, "正在复制文件");
    assert_eq!(p.error, None);
}

#[test]
fn operating_systems() {
    assert_eq!(target_os("windows"), TargetOs::Windows);
    assert_eq!(target_os("macos"), TargetOs::MacOs);
    assert_eq!(target_os("linux"), TargetOs::Linux);
    assert_eq!(target_os("freebsd"), TargetOs::Other);
    assert_eq!(target_os("Linux"), TargetOs::Other);
    check(unsupported_os_result("freebsd"), false, "不支持的操作系统", Some("不支持的操作系统: freebsd"));
}

#[test]
fn nodejs_results() {
    check(
        nodejs_windows_result(Ok("done".to_string()), true),
        true,
        "Node.js 安装成功！请重启应用以使环境变量生效。",
        None,
    );
    check(nodejs_windows_result(Ok("done".to_string()), false), false, "安装后需要重启应用", Some("done"));
    check(nodejs_windows_result(Err("e".to_string()), true), false, "Node.js 安装失败", Some("e"));
    check(nodejs_script_result(Ok("v22".to_string())), true, "Node.js 安装成功！v22", None);
    check(nodejs_script_result(Err("x".to_string())), false, "Node.js 安装失败", Some("x"));
}

#[test]
fn git_results() {
    check(
        git_windows_result(Ok(String::new()), true),
        true,
        "Git 安装成功！请重启应用以使环境变量生效。",
        None,
    );
    check(git_windows_result(Ok(String::new()), false), false, "安装后需要重启应用", None);
    check(git_windows_result(Err("w".to_string()), false), false, "Git 安装失败", Some("w"));
    check(git_script_result(Ok("out".to_string())), true, "Git 安装成功！", None);
    check(git_script_result(Err("z".to_string())), false, "Git 安装失败", Some("z"));
}

#[test]
fn environment_report_ready_when_openclaw_installed() {
    let st = check_environment(
        "macos".to_string(),
        Ok("git version 2.40.0\n".to_string()),
        Some("v22.3.0".to_string()),
        Some("1.0.0".to_string()),
        true,
    );
    assert!(st.git_installed);
    assert_eq!(st.git_version, Some("git version 2.40.0".to_string()));
    assert!(st.node_installed);
    assert_eq!(st.node_version, Some("v22.3.0".to_string()));
    assert!(st.node_version_ok);
    assert!(st.openclaw_installed);
    assert_eq!(st.openclaw_version, Some("1.0.0".to_string()));
    assert!(st.config_dir_exists);
    assert!(st.ready);
    assert_eq!(st.os, "macos");
}

#[test]
fn environment_report_missing_tools() {
    let st = check_environment(
        "linux".to_string(),
        Err("not found".to_string()),
        Some("v18.0.0".to_string()),
        None,
        false,
    );
    assert!(!st.git_installed);
    assert_eq!(st.git_version, None);
    assert!(st.node_installed);
    assert!(!st.node_version_ok);
    assert!(!st.openclaw_installed);
    assert!(!st.ready);
    assert!(!st.config_dir_exists);
    let st = check_environment("windows".to_string(), Ok(String::new()), None, None, false);
    assert!(!st.node_installed);
    assert!(!st.node_version_ok);
    assert!(st.git_installed);
}

#[test]
fn bundle_archives() {
    assert!(archive_is_zip("https://x/openclaw-bundle-win-x64.zip"));
    assert!(!archive_is_zip("https://x/openclaw-bundle-linux-x64.tar.gz"));
    assert!(!archive_is_zip("zip"));
    assert_eq!(archive_file_name(true), "openclaw-bundle.zip");
    assert_eq!(archive_file_name(false), "openclaw-bundle.tar.gz");
    assert_eq!(extracted_bundle_subdir(true), Some("openclaw-bundle".to_string()));
    assert_eq!(extracted_bundle_subdir(false), None);
}

#[test]
fn install_outcomes() {
    check(local_bundle_result(Ok(true)), true, "OpenClaw 本地离线包安装成功！", None);
    check(
        local_bundle_result(Ok(false)),
        false,
        "本地离线包安装失败：payload 不完整",
        Some("payload 不完整"),
    );
    check(local_bundle_result(Err("io".to_string())), false, "本地离线包安装失败: io", Some("io"));
    check(embedded_bundle_result(), true, "OpenClaw 安装成功！", None);
    assert_eq!(offline_install_outcome(Ok(true)), Some(true));
    assert_eq!(offline_install_outcome(Ok(false)), Some(false));
    assert_eq!(offline_install_outcome(Err("e".to_string())), None);
    assert_eq!(downloaded_bundle_outcome(Ok(true)), Ok(()));
    assert_eq!(
        downloaded_bundle_outcome(Ok(false)),
        Err("bundle 安装失败：payload 不完整".to_string())
    );
    assert_eq!(downloaded_bundle_outcome(Err("net".to_string())), Err("net".to_string()));
    check(download_install_result(Ok(())), true, "OpenClaw 下载安装成功！", None);
    check(download_install_result(Err("net".to_string())), false, "安装失败: net", Some("net"));
}

#[test]
fn configuration_initialisation() {
    assert_eq!(config_subdirs(), s(&["agents/main/sessions", "agents/main/agent", "credentials"]));
    check(config_dir_error_result("denied".to_string()), false, "创建配置目录失败", Some("denied"));
    check(
        config_subdir_error_result("credentials", "denied".to_string()),
        false,
        "创建目录失败: credentials",
        Some("denied"),
    );
    check(config_init_result(), true, "配置初始化成功！", None);
}

#[test]
fn update_results() {
    check(
        update_windows_result(Ok(String::new()), Some("1.2.3".to_string())),
        true,
        "OpenClaw 已更新到 1.2.3",
        None,
    );
    check(update_windows_result(Ok(String::new()), None), true, "OpenClaw 已更新到 最新版本", None);
    check(update_windows_result(Err("e".to_string()), None), false, "OpenClaw 更新失败", Some("e"));
    check(update_unix_result(Ok("ok".to_string())), true, "OpenClaw 已更新！ok", None);
    check(update_unix_result(Err("f".to_string())), false, "OpenClaw 更新失败", Some("f"));
}

#[test]
fn uninstall_results() {
    assert_eq!(uninstall_dirs(), s(&["node", "node_modules", "bin", "lib", "bundle-cache"]));
    assert!(is_prefix_executable("openclaw.cmd"));
    assert!(is_prefix_executable("node.exe"));
    assert!(!is_prefix_executable("openclaw.json"));
    check(
        uninstall_result(&s(&["node", "bin"]), false),
        true,
        "OpenClaw 已成功卸载！（已删除: node, bin）",
        None,
    );
    check(uninstall_result(&vec![], false), true, "OpenClaw 已成功卸载！（已删除: ）", None);
    check(
        uninstall_result(&s(&["node"]), true),
        false,
        "卸载命令已执行，但 OpenClaw 仍然存在，请尝试手动删除 ~/.openclaw 目录",
        None,
    );
}

#[test]
fn install_routes() {
    match install_route(Some("/tmp/b.zip".to_string())) {
        InstallRoute::LocalArchive { path, zip } => {
            assert_eq!(path, "/tmp/b.zip");
            assert!(zip);
        }
        other => panic!("unexpected {:?}", other),
    }
    match install_route(Some("/tmp/b.tar.gz".to_string())) {
        InstallRoute::LocalArchive { zip, .. } => assert!(!zip),
        other => panic!("unexpected {:?}", other),
    }
    assert!(matches!(install_route(None), InstallRoute::Embedded));
    match after_embedded(Some(true), None, "d".to_string()) {
        AfterEmbedded::Done(r) => check(r, true, "OpenClaw 安装成功！", None),
        other => panic!("unexpected {:?}", other),
    }
    for outcome in [Some(false), None] {
        match after_embedded(outcome, Some("u".to_string()), "d".to_string()) {
            AfterEmbedded::Download(u) => assert_eq!(u, "u"),
            other => panic!("unexpected {:?}", other),
        }
        match after_embedded(outcome, None, "d".to_string()) {
            AfterEmbedded::Download(u) => assert_eq!(u, "d"),
            other => panic!("unexpected {:?}", other),
        }
    }
}

#[test]
fn install_root_follows_openclaw_home() {
    let some = |x: &str| Some(x.to_string());
    let root = |h: Option<String>, home: Option<String>| {
        openclaw_root(h, home).map(|c| (c.base, c.components))
    };
    assert_eq!(root(some("/opt/oc"), some("/home/u")), Some(("/opt/oc".to_string(), vec![])));
    assert_eq!(
        root(some(""), some("/home/u")),
        Some(("/home/u".to_string(), vec![".openclaw".to_string()]))
    );
    assert_eq!(
        root(None, some("C:\\Users\\u")),
        Some(("C:\\Users\\u".to_string(), vec![".openclaw".to_string()]))
    );
    assert_eq!(root(None, None), None);
    assert_eq!(root(some("/x"), None), Some(("/x".to_string(), vec![])));
}
