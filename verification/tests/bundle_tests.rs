use openclaw_manager::bundle::npm_launch_error;
use openclaw_manager::bundle::{
    bundle_dir_candidates, bundle_payload_usable, bundled_node_components, first_existing,
    offline_event_fits, offline_install_step, openclaw_binary_candidates,
    prefix_has_openclaw_binary, resolve_bundled_node_binary, BundleProbe, OfflineAction,
    OfflineEvent, OfflineStage, Progress,
};

fn probe(manifest: bool, prefix: bool, npm_cli: bool, openclaw_tgz: bool, npm_cache: bool) -> BundleProbe {
    BundleProbe { manifest, prefix, npm_cli, openclaw_tgz, npm_cache }
}

fn s(v: &[&str]) -> Vec<String> {
    v.iter().map(|x| x.to_string()).collect()
}

fn check_progress(p: &Progress, step: &str, percent: u8, message: &str) {
    assert_eq!(p.step, step);
    assert_eq!(p.percent, percent);
    assert_eq!(p.message, message);
}

fn step(stage: OfflineStage, event: OfflineEvent) -> OfflineAction {
    assert!(offline_event_fits(stage, &event));
    offline_install_step(stage, event)
}

#[test]
fn payload_needs_manifest() {
    assert!(!bundle_payload_usable(&probe(false, true, true, true, true)));
}

#[test]
fn payload_with_prefix_snapshot_is_usable() {
    assert!(bundle_payload_usable(&probe(true, true, false, false, false)));
}

#[test]
fn payload_with_npm_inputs_is_usable() {
    assert!(bundle_payload_usable(&probe(true, false, true, true, true)));
    assert!(!bundle_payload_usable(&probe(true, false, true, true, false)));
    assert!(!bundle_payload_usable(&probe(true, false, false, true, true)));
    assert!(!bundle_payload_usable(&probe(true, false, true, false, true)));
}

#[test]
fn bundled_node_paths() {
    assert_eq!(bundled_node_components(true), s(&["node", "node.exe"]));
    assert_eq!(bundled_node_components(false), s(&["node", "node"]));
    assert_eq!(resolve_bundled_node_binary("/b/node/node".to_string(), true), Some("/b/node/node".to_string()));
    assert_eq!(resolve_bundled_node_binary("/b/node/node".to_string(), false), None);
}

#[test]
fn launcher_candidates() {
    assert_eq!(
        openclaw_binary_candidates(true),
        s(&["node_modules/.bin/openclaw.cmd", "node_modules/.bin/openclaw", "openclaw.cmd", "bin/openclaw.cmd"])
    );
    assert_eq!(openclaw_binary_candidates(false), s(&["bin/openclaw"]));
    assert!(prefix_has_openclaw_binary(&vec![false, false, true, false]));
    assert!(!prefix_has_openclaw_binary(&vec![false, false]));
    assert!(!prefix_has_openclaw_binary(&vec![]));
}

#[test]
fn bundle_locations_in_order() {
    let c = bundle_dir_candidates(
        Some("/res/openclaw-bundle".to_string()),
        Some("/cwd".to_string()),
        Some("/exe".to_string()),
    );
    assert_eq!(c.len(), 6);
    assert_eq!(c[0].base, "/res/openclaw-bundle");
    assert!(c[0].components.is_empty());
    assert_eq!(c[1].base, "/cwd");
    assert_eq!(c[1].components, s(&["src-tauri", "bundle", "resources", "openclaw-bundle"]));
    assert_eq!(c[2].components, s(&["bundle", "resources", "openclaw-bundle"]));
    assert_eq!(c[3].base, "/exe");
    assert_eq!(c[3].components, s(&["bundle", "resources", "openclaw-bundle"]));
    assert_eq!(c[4].components, s(&["resources", "openclaw-bundle"]));
    assert_eq!(c[5].components, s(&["..", "..", "Resources", "openclaw-bundle"]));
}

#[test]
fn bundle_locations_skip_unknown_bases() {
    let c = bundle_dir_candidates(None, None, Some("/exe".to_string()));
    assert_eq!(c.len(), 3);
    assert_eq!(c[0].base, "/exe");
    assert_eq!(bundle_dir_candidates(None, None, None).len(), 0);
    let c = bundle_dir_candidates(None, Some("/w".to_string()), None);
    assert_eq!(c.len(), 2);
    assert_eq!(c[1].components, s(&["bundle", "resources", "openclaw-bundle"]));
}

#[test]
fn first_existing_location() {
    assert_eq!(first_existing(&vec![false, true, true]), Some(1));
    assert_eq!(first_existing(&vec![false, false]), None);
    assert_eq!(first_existing(&vec![]), None);
}

#[test]
fn unusable_payload_is_skipped() {
    match step(OfflineStage::Start, OfflineEvent::Probed(probe(false, true, true, true, true))) {
        OfflineAction::Finish { report: None, result: Ok(false) } => {}
        other => panic!("unexpected {:?}", other),
    }
}

#[test]
fn snapshot_route_to_success() {
    let a = step(OfflineStage::Start, OfflineEvent::Probed(probe(true, true, false, false, false)));
    let next = match a {
        OfflineAction::PreparePrefix { progress, next } => {
            check_progress(&progress, "prepare", 5, "正在准备安装目录...");
            next
        }
        other => panic!("unexpected {:?}", other),
    };
    assert_eq!(next, OfflineStage::Preparing { snapshot: true });
    let next = match step(next, OfflineEvent::Done) {
        OfflineAction::CopySnapshot { progress, next } => {
            check_progress(&progress, "copy", 20, "正在复制文件（这可能需要一两分钟）...");
            next
        }
        other => panic!("unexpected {:?}", other),
    };
    let next = match step(next, OfflineEvent::Copied(1234)) {
        OfflineAction::CopyNode { progress, next } => {
            check_progress(&progress, "node", 80, "已复制 1234 个文件，正在复制 Node.js 运行时...");
            next
        }
        other => panic!("unexpected {:?}", other),
    };
    let next = match step(next, OfflineEvent::Done) {
        OfflineAction::CheckLauncher { next } => next,
        other => panic!("unexpected {:?}", other),
    };
    match step(next, OfflineEvent::LauncherFound(true)) {
        OfflineAction::Finish { report: Some(p), result: Ok(true) } => {
            check_progress(&p, "done", 100, "安装完成！");
        }
        other => panic!("unexpected {:?}", other),
    }
}

#[test]
fn snapshot_without_launcher_falls_back_to_npm() {
    match step(OfflineStage::SnapshotCheck, OfflineEvent::LauncherFound(false)) {
        OfflineAction::ProbeNpm { next } => assert_eq!(next, OfflineStage::NpmProbe),
        other => panic!("unexpected {:?}", other),
    }
}

#[test]
fn npm_route_to_success() {
    let next = match step(OfflineStage::Start, OfflineEvent::Probed(probe(true, false, true, true, true))) {
        OfflineAction::PreparePrefix { next, .. } => next,
        other => panic!("unexpected {:?}", other),
    };
    assert_eq!(next, OfflineStage::Preparing { snapshot: false });
    let next = match step(next, OfflineEvent::Done) {
        OfflineAction::ProbeNpm { next } => next,
        other => panic!("unexpected {:?}", other),
    };
    let inputs = OfflineEvent::NpmInputs { node: true, npm_cli: true, openclaw_tgz: true, npm_cache: true };
    let next = match step(next, inputs) {
        OfflineAction::RunNpm { progress, next } => {
            check_progress(&progress, "npm", 40, "正在执行 npm 安装（可能需要几分钟）...");
            next
        }
        other => panic!("unexpected {:?}", other),
    };
    let exited = OfflineEvent::NpmExited { success: true, stdout: String::new(), stderr: String::new() };
    let next = match step(next, exited) {
        OfflineAction::CopyNode { progress, next } => {
            check_progress(&progress, "node", 85, "正在复制 Node.js 运行时...");
            next
        }
        other => panic!("unexpected {:?}", other),
    };
    let next = match step(next, OfflineEvent::Done) {
        OfflineAction::CheckLauncher { next } => next,
        other => panic!("unexpected {:?}", other),
    };
    assert_eq!(next, OfflineStage::NpmCheck);
    assert!(matches!(
        step(next, OfflineEvent::LauncherFound(true)),
        OfflineAction::Finish { report: Some(_), result: Ok(true) }
    ));
}

#[test]
fn npm_route_without_inputs_is_skipped() {
    for inputs in [
        OfflineEvent::NpmInputs { node: false, npm_cli: true, openclaw_tgz: true, npm_cache: true },
        OfflineEvent::NpmInputs { node: true, npm_cli: false, openclaw_tgz: true, npm_cache: true },
        OfflineEvent::NpmInputs { node: true, npm_cli: true, openclaw_tgz: false, npm_cache: true },
        OfflineEvent::NpmInputs { node: true, npm_cli: true, openclaw_tgz: true, npm_cache: false },
    ] {
        assert!(matches!(
            step(OfflineStage::NpmProbe, inputs),
            OfflineAction::Finish { report: None, result: Ok(false) }
        ));
    }
}

#[test]
fn npm_failure_reports_trimmed_output() {
    let exited = OfflineEvent::NpmExited {
        success: false,
        stdout: "  out \n".to_string(),
        stderr: "\terr ".to_string(),
    };
    match step(OfflineStage::NpmRunning, exited) {
        OfflineAction::Finish { report: None, result: Err(m) } => assert_eq!(m, "npm 离线安装失败: out err"),
        other => panic!("unexpected {:?}", other),
    }
}

#[test]
fn npm_success_without_launcher_is_an_error() {
    match step(OfflineStage::NpmCheck, OfflineEvent::LauncherFound(false)) {
        OfflineAction::Finish { report: None, result: Err(m) } => {
            assert_eq!(m, "npm 离线安装成功但未找到 openclaw binary")
        }
        other => panic!("unexpected {:?}", other),
    }
}

#[test]
fn failed_steps_end_with_their_error() {
    for stage in [
        OfflineStage::Preparing { snapshot: true },
        OfflineStage::CopyingSnapshot,
        OfflineStage::SnapshotNode,
        OfflineStage::NpmRunning,
        OfflineStage::NpmNode,
    ] {
        match step(stage, OfflineEvent::Failed("disk full".to_string())) {
            OfflineAction::Finish { report: None, result: Err(m) } => assert_eq!(m, "disk full"),
            other => panic!("unexpected {:?}", other),
        }
    }
}

#[test]
fn events_that_do_not_fit_are_recognised() {
    assert!(!offline_event_fits(OfflineStage::Start, &OfflineEvent::Done));
    assert!(!offline_event_fits(OfflineStage::SnapshotCheck, &OfflineEvent::Failed("x".to_string())));
    assert!(offline_event_fits(OfflineStage::CopyingSnapshot, &OfflineEvent::Copied(0)));
    assert!(!offline_event_fits(OfflineStage::NpmProbe, &OfflineEvent::LauncherFound(true)));
}

#[test]
fn npm_launch_failure_message() {
    assert_eq!(npm_launch_error("not found"), "运行 bundled npm 失败: not found");
}
