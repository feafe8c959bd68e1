use openclaw_manager::version::{
    check_node_version_requirement, check_openclaw_update, compare_versions,
    get_latest_openclaw_version, get_openclaw_version, MIN_NODE_MAJOR,
};

#[test]
fn compare_versions_detects_patch_minor_major_updates() {
    assert!(compare_versions("1.0.0", "1.0.1"));
    assert!(compare_versions("1.0.9", "1.1.0"));
    assert!(compare_versions("1.9.9", "2.0.0"));
}

#[test]
fn compare_versions_not_newer_when_equal_or_older() {
    assert!(!compare_versions("1.0.0", "1.0.0"));
    assert!(!compare_versions("1.2.0", "1.1.9"));
    assert!(!compare_versions("2.0.0", "1.99.99"));
}

#[test]
fn compare_versions_ignores_v_prefix_and_whitespace() {
    assert!(!compare_versions("v1.2.3", "1.2.3"));
    assert!(!compare_versions("  1.2.3\n", "v1.2.3"));
    assert!(compare_versions("v1.2.3", " 1.2.4 "));
}

#[test]
fn compare_versions_missing_components_count_as_zero() {
    assert!(!compare_versions("1", "1.0.0"));
    assert!(compare_versions("1", "1.0.1"));
    assert!(!compare_versions("1.0.1", "1.0"));
}

#[test]
fn compare_versions_only_first_three_components() {
    assert!(!compare_versions("1.2.3.4", "1.2.3.9"));
}

#[test]
fn compare_versions_drops_non_numeric_pieces() {
    // "0-beta" is no number and is dropped, so the patch level is missing (0).
    assert!(compare_versions("1.0.0-beta", "1.0.1"));
    assert!(!compare_versions("1.0.5", "1.0.9-rc"));
    assert!(compare_versions("1.x.3", "1.4"));
}

#[test]
fn compare_versions_is_irreflexive_and_asymmetric_on_examples() {
    let vs = ["0.1.0", "1.0.0", "1.0.1", "v2", "2.1"];
    for a in vs.iter() {
        assert!(!compare_versions(a, a));
        for b in vs.iter() {
            assert!(!(compare_versions(a, b) && compare_versions(b, a)));
        }
    }
}

#[test]
fn compare_versions_is_transitive_on_example() {
    assert!(compare_versions("1.0.0", "1.1.0"));
    assert!(compare_versions("1.1.0", "1.1.5"));
    assert!(compare_versions("1.0.0", "1.1.5"));
}

#[test]
fn node_requirement_accepts_major_22_and_above() {
    assert_eq!(MIN_NODE_MAJOR, 22);
    assert!(check_node_version_requirement(&Some("v22.0.0".to_string())));
    assert!(check_node_version_requirement(&Some("v23.1.2".to_string())));
    assert!(check_node_version_requirement(&Some("22".to_string())));
}

#[test]
fn node_requirement_rejects_older_or_missing() {
    assert!(!check_node_version_requirement(&Some("v21.9.9".to_string())));
    assert!(!check_node_version_requirement(&Some("v18.0.0".to_string())));
    assert!(!check_node_version_requirement(&None));
    assert!(!check_node_version_requirement(&Some("latest".to_string())));
    assert!(!check_node_version_requirement(&Some(String::new())));
}

#[test]
fn openclaw_version_is_trimmed_output() {
    assert_eq!(
        get_openclaw_version(&Ok("  1.2.3\n".to_string())),
        Some("1.2.3".to_string())
    );
    assert_eq!(get_openclaw_version(&Ok(" \n".to_string())), Some(String::new()));
    assert_eq!(get_openclaw_version(&Err("not found".to_string())), None);
}

#[test]
fn latest_version_is_trimmed_and_nonempty() {
    assert_eq!(
        get_latest_openclaw_version(&Ok("2.0.1\n".to_string())),
        Some("2.0.1".to_string())
    );
    assert_eq!(get_latest_openclaw_version(&Ok("   ".to_string())), None);
    assert_eq!(get_latest_openclaw_version(&Err("npm failed".to_string())), None);
}

#[test]
fn update_check_not_installed() {
    let info = check_openclaw_update(None, Some("1.0.0".to_string()));
    assert!(!info.update_available);
    assert_eq!(info.current_version, None);
    assert_eq!(info.latest_version, None);
    assert_eq!(info.error, Some("OpenClaw 未安装".to_string()));
}

#[test]
fn update_check_latest_unknown() {
    let info = check_openclaw_update(Some("1.0.0".to_string()), None);
    assert!(!info.update_available);
    assert_eq!(info.current_version, Some("1.0.0".to_string()));
    assert_eq!(info.latest_version, None);
    assert_eq!(info.error, Some("无法获取最新版本信息".to_string()));
}

#[test]
fn update_check_compares_versions() {
    let info = check_openclaw_update(Some("1.0.0".to_string()), Some("1.0.2".to_string()));
    assert!(info.update_available);
    assert_eq!(info.current_version, Some("1.0.0".to_string()));
    assert_eq!(info.latest_version, Some("1.0.2".to_string()));
    assert_eq!(info.error, None);
    let same = check_openclaw_update(Some("v1.0.2".to_string()), Some("1.0.2".to_string()));
    assert!(!same.update_available);
    assert_eq!(same.error, None);
}

#[test]
fn node_requirement_is_monotone_in_the_major_version() {
    for m1 in [0u32, 21, 22, 23, 100] {
        for m2 in [0u32, 21, 22, 23, 100] {
            if m1 <= m2 {
                let a = check_node_version_requirement(&Some(format!("v{}.{}", m1, "x.y")));
                let b = check_node_version_requirement(&Some(format!("v{}.{}", m2, "0")));
                assert!(!a || b);
            }
        }
    }
}
