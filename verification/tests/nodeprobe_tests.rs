use openclaw_manager::nodeprobe::{
    get_unix_node_paths, get_windows_node_paths, node_probe_plan, node_search_step,
    node_version_from_output, nvm_default_alias_file, nvm_settings_file, AcceptRule,
    CommandKind, NodeSearch,
};

fn s(v: &[&str]) -> Vec<String> {
    v.iter().map(|x| x.to_string()).collect()
}

#[test]
fn unix_paths_without_home() {
    assert_eq!(
        get_unix_node_paths(None, Some("22.0.0".to_string())),
        s(&["/opt/homebrew/bin/node", "/usr/local/bin/node", "/usr/bin/node"])
    );
}

#[test]
fn unix_paths_with_home() {
    let p = get_unix_node_paths(Some("/home/u".to_string()), None);
    assert_eq!(
        p,
        s(&[
            "/opt/homebrew/bin/node",
            "/usr/local/bin/node",
            "/usr/bin/node",
            "/home/u/.nvm/versions/node/v22.0.0/bin/node",
            "/home/u/.nvm/versions/node/v22.1.0/bin/node",
            "/home/u/.nvm/versions/node/v22.2.0/bin/node",
            "/home/u/.nvm/versions/node/v22.11.0/bin/node",
            "/home/u/.nvm/versions/node/v22.12.0/bin/node",
            "/home/u/.nvm/versions/node/v23.0.0/bin/node",
            "/home/u/.fnm/aliases/default/bin/node",
            "/home/u/.volta/bin/node",
            "/home/u/.asdf/shims/node",
            "/home/u/.local/share/mise/shims/node",
        ])
    );
}

#[test]
fn unix_nvm_default_comes_first() {
    let p = get_unix_node_paths(Some("/h".to_string()), Some(" 22.5.1\n".to_string()));
    assert_eq!(p.len(), 14);
    assert_eq!(p[0], "/h/.nvm/versions/node/v22.5.1/bin/node");
    assert_eq!(p[1], "/opt/homebrew/bin/node");
    let p = get_unix_node_paths(Some("/h".to_string()), Some("  \n".to_string()));
    assert_eq!(p.len(), 13);
    assert_eq!(nvm_default_alias_file("/h"), "/h/.nvm/alias/default");
}

#[test]
fn windows_paths_minimal() {
    assert_eq!(
        get_windows_node_paths(None, None, None, None, None),
        s(&[
            "C:\\Program Files\\nodejs\\node.exe",
            "C:\\Program Files (x86)\\nodejs\\node.exe",
            "C:\\nvm4w\\nodejs\\node.exe",
        ])
    );
}

#[test]
fn windows_paths_full() {
    let p = get_windows_node_paths(
        Some("C:\\Users\\u".to_string()),
        Some("D:\\PF".to_string()),
        Some("D:\\PF86".to_string()),
        Some("C:\\nvm\\link".to_string()),
        Some((
            "C:\\nvm".to_string(),
            "root: C:\\nvm\ncurrent: 20.1.0\r\narch: 64\ncurrent:22.3.0 \n".to_string(),
        )),
    );
    assert_eq!(
        p,
        s(&[
            "C:\\nvm\\v22.3.0\\node.exe",
            "C:\\nvm\\v20.1.0\\node.exe",
            "C:\\nvm\\link\\node.exe",
            "C:\\Program Files\\nodejs\\node.exe",
            "C:\\Program Files (x86)\\nodejs\\node.exe",
            "C:\\nvm4w\\nodejs\\node.exe",
            "C:\\Users\\u\\AppData\\Roaming\\nvm\\current\\node.exe",
            "C:\\Users\\u\\AppData\\Roaming\\fnm\\aliases\\default\\node.exe",
            "C:\\Users\\u\\AppData\\Local\\fnm\\aliases\\default\\node.exe",
            "C:\\Users\\u\\.fnm\\aliases\\default\\node.exe",
            "C:\\Users\\u\\AppData\\Local\\Volta\\bin\\node.exe",
            "C:\\Users\\u\\scoop\\apps\\nodejs\\current\\node.exe",
            "C:\\Users\\u\\scoop\\apps\\nodejs-lts\\current\\node.exe",
            "C:\\ProgramData\\chocolatey\\lib\\nodejs\\tools\\node.exe",
            "D:\\PF\\nodejs\\node.exe",
            "D:\\PF86\\nodejs\\node.exe",
        ])
    );
    assert_eq!(nvm_settings_file("C:\\nvm"), "C:\\nvm\\settings.txt");
}

#[test]
fn windows_nvm_settings_without_current() {
    let p = get_windows_node_paths(
        None,
        None,
        None,
        None,
        Some(("C:\\nvm".to_string(), "current:   \n xcurrent: 1\n".to_string())),
    );
    assert_eq!(p.len(), 3);
}

#[test]
fn version_output_rules() {
    let ok = |x: &str| Ok::<String, String>(x.to_string());
    assert_eq!(node_version_from_output(AcceptRule::TrimmedStartsWithV, &ok(" v22.1.0\n")), Some("v22.1.0".to_string()));
    assert_eq!(node_version_from_output(AcceptRule::TrimmedStartsWithV, &ok("22.1.0")), None);
    assert_eq!(node_version_from_output(AcceptRule::AnyOutput, &ok("22.1.0\n")), Some("22.1.0".to_string()));
    assert_eq!(node_version_from_output(AcceptRule::AnyOutput, &ok("")), Some(String::new()));
    assert_eq!(node_version_from_output(AcceptRule::RawStartsWithV, &ok("v20.0.0\n")), Some("v20.0.0".to_string()));
    assert_eq!(node_version_from_output(AcceptRule::RawStartsWithV, &ok("\nv20.0.0")), None);
    assert_eq!(node_version_from_output(AcceptRule::AnyOutput, &Err("no".to_string())), None);
}

#[test]
fn unix_probe_plan() {
    let plan = node_probe_plan(false, Some("/h/.openclaw/node/node".to_string()), &s(&["/usr/bin/node"]));
    assert_eq!(plan.len(), 4);
    assert_eq!(plan[0].kind, CommandKind::Program);
    assert_eq!(plan[0].command, "/h/.openclaw/node/node");
    assert_eq!(plan[0].needs_path, Some("/h/.openclaw/node/node".to_string()));
    assert_eq!(plan[0].rule, AcceptRule::TrimmedStartsWithV);
    assert_eq!(plan[1].kind, CommandKind::Program);
    assert_eq!(plan[1].command, "node");
    assert_eq!(plan[1].needs_path, None);
    assert_eq!(plan[1].rule, AcceptRule::AnyOutput);
    assert_eq!(plan[2].command, "/usr/bin/node");
    assert_eq!(plan[2].needs_path, Some("/usr/bin/node".to_string()));
    assert_eq!(plan[2].rule, AcceptRule::AnyOutput);
    assert_eq!(plan[3].kind, CommandKind::Shell);
    assert_eq!(
        plan[3].command,
        "source ~/.zshrc 2>/dev/null || source ~/.bashrc 2>/dev/null; node --version 2>/dev/null"
    );
    assert_eq!(plan[3].rule, AcceptRule::RawStartsWithV);
}

#[test]
fn windows_probe_plan() {
    let plan = node_probe_plan(true, None, &s(&["C:\\n\\node.exe"]));
    assert_eq!(plan.len(), 2);
    assert_eq!(plan[0].kind, CommandKind::Cmd);
    assert_eq!(plan[0].command, "node --version");
    assert_eq!(plan[0].rule, AcceptRule::TrimmedStartsWithV);
    assert_eq!(plan[1].kind, CommandKind::Cmd);
    assert_eq!(plan[1].command, "\"C:\\n\\node.exe\" --version");
    assert_eq!(plan[1].needs_path, Some("C:\\n\\node.exe".to_string()));
    assert_eq!(plan[1].rule, AcceptRule::TrimmedStartsWithV);
}

#[test]
fn search_steps() {
    assert!(matches!(node_search_step(3, 0, Some("v22".to_string())), NodeSearch::Found(v) if v == "v22"));
    assert!(matches!(node_search_step(3, 0, None), NodeSearch::Probe(1)));
    assert!(matches!(node_search_step(3, 2, None), NodeSearch::NotFound));
}
