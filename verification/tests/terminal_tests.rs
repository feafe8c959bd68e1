use openclaw_manager::install::TargetOs;
use openclaw_manager::terminal::{
    env_terminal_emulators, env_terminal_not_found, env_terminal_opened, env_terminal_script,
    env_terminal_script_path, install_terminal_plan, installer_terminal_not_found,
    windows_env_path_dirs,
    installer_terminal_opened, terminal_error, EnvTerminalOs, InstallerScript, TerminalPlan,
    TerminalStep,
};

#[test]
fn nodejs_installer_terminal() {
    assert!(matches!(install_terminal_plan("nodejs", TargetOs::Windows), TerminalPlan::PowerShellNode));
    match install_terminal_plan("nodejs", TargetOs::MacOs) {
        TerminalPlan::OpenScript { script, path } => {
            assert_eq!(script, InstallerScript::NodeMac);
            assert_eq!(path, "/tmp/openclaw_install_nodejs.command");
        }
        other => panic!("unexpected {:?}", other),
    }
    for os in [TargetOs::Linux, TargetOs::Other] {
        match install_terminal_plan("nodejs", os) {
            TerminalPlan::Refuse(e) => assert_eq!(e, "请手动安装 Node.js: https://nodejs.org/"),
            other => panic!("unexpected {:?}", other),
        }
    }
}

#[test]
fn openclaw_installer_terminal() {
    assert!(matches!(install_terminal_plan("openclaw", TargetOs::Windows), TerminalPlan::PowerShellOpenClaw));
    match install_terminal_plan("openclaw", TargetOs::MacOs) {
        TerminalPlan::OpenScript { script, path } => {
            assert_eq!(script, InstallerScript::OpenClawMac);
            assert_eq!(path, "/tmp/openclaw_install_openclaw.command");
        }
        other => panic!("unexpected {:?}", other),
    }
    match install_terminal_plan("openclaw", TargetOs::Linux) {
        TerminalPlan::ScriptInEmulator { script, path, emulators } => {
            assert_eq!(script, InstallerScript::OpenClawLinux);
            assert_eq!(path, "/tmp/openclaw_install_openclaw.sh");
            assert_eq!(emulators, vec!["gnome-terminal", "xfce4-terminal", "konsole", "xterm"]);
        }
        other => panic!("unexpected {:?}", other),
    }
}

#[test]
fn unknown_installer_is_refused() {
    match install_terminal_plan("python", TargetOs::Linux) {
        TerminalPlan::Refuse(e) => assert_eq!(e, "未知的安装类型: python"),
        other => panic!("unexpected {:?}", other),
    }
}

#[test]
fn terminal_messages() {
    assert_eq!(terminal_error(TerminalStep::WriteScript, "e1"), "创建脚本失败: e1");
    assert_eq!(terminal_error(TerminalStep::Chmod, "e2"), "设置权限失败: e2");
    assert_eq!(terminal_error(TerminalStep::Launch, "e3"), "启动终端失败: e3");
    assert_eq!(installer_terminal_opened(), "已打开安装终端");
    assert_eq!(installer_terminal_not_found(), "无法启动终端，请手动运行: npm install -g openclaw");
    assert_eq!(env_terminal_opened(EnvTerminalOs::MacOs, ""), "已打开终端（OpenClaw 环境已注入）");
    assert_eq!(env_terminal_opened(EnvTerminalOs::Linux, "xterm"), "已打开 xterm（OpenClaw 环境已注入）");
    assert_eq!(
        env_terminal_not_found("/tmp/openclaw_env_terminal.sh", "/bin/zsh"),
        "未找到可用终端，请手动运行：\nsource /tmp/openclaw_env_terminal.sh\n然后执行 /bin/zsh"
    );
}

#[test]
fn env_terminal_script_macos() {
    let env = "# comment\n\nexport API_KEY=abc\n  FOO=bar  \nexport   SPACED=1\n".to_string();
    let script = env_terminal_script(EnvTerminalOs::MacOs, "/Users/u/.openclaw", Some(env), "/bin/zsh");
    let expected = [
        "#!/bin/bash",
        r#"[ -f "$HOME/.zshrc" ] && source "$HOME/.zshrc" 2>/dev/null || true"#,
        r#"[ -f "$HOME/.bashrc" ] && source "$HOME/.bashrc" 2>/dev/null || true"#,
        r#"export PATH="/Users/u/.openclaw/node:/Users/u/.openclaw/bin:$PATH""#,
        "export API_KEY=abc",
        "export FOO=bar",
        "export   SPACED=1",
        "echo -e '\\033[32mOpenClaw 环境已就绪\\033[0m'",
        "echo '配置目录: /Users/u/.openclaw'",
        "exec \"$SHELL\"",
    ]
    .join("\n");
    assert_eq!(script, expected);
}

#[test]
fn env_terminal_script_linux_without_env_file() {
    let script = env_terminal_script(EnvTerminalOs::Linux, "/home/u/.openclaw", None, "/bin/fish");
    let expected = [
        "#!/bin/bash",
        r#"[ -f "$HOME/.bashrc" ] && source "$HOME/.bashrc" 2>/dev/null || true"#,
        r#"[ -f "$HOME/.zshrc" ] && source "$HOME/.zshrc" 2>/dev/null || true"#,
        r#"export PATH="/home/u/.openclaw/node:/home/u/.openclaw/bin:$PATH""#,
        "echo -e '\\033[32mOpenClaw 环境已就绪\\033[0m'",
        "echo '配置目录: /home/u/.openclaw'",
        "exec \"/bin/fish\"",
    ]
    .join("\n");
    assert_eq!(script, expected);
}

#[test]
fn env_terminal_paths_and_emulators() {
    assert_eq!(env_terminal_script_path(EnvTerminalOs::MacOs), "/tmp/openclaw_env_terminal.command");
    assert_eq!(env_terminal_script_path(EnvTerminalOs::Linux), "/tmp/openclaw_env_terminal.sh");
    let e = env_terminal_emulators();
    let got: Vec<(String, Vec<String>)> = e.into_iter().map(|x| (x.program, x.args)).collect();
    let want: Vec<(String, Vec<String>)> = vec![
        ("gnome-terminal", vec!["--"]),
        ("xterm", vec!["-e"]),
        ("konsole", vec!["-e"]),
        ("xfce4-terminal", vec!["-e"]),
        ("tilix", vec!["-e"]),
        ("alacritty", vec!["-e"]),
        ("kitty", vec![]),
    ]
    .into_iter()
    .map(|(p, a)| (p.to_string(), a.into_iter().map(|s| s.to_string()).collect()))
    .collect();
    assert_eq!(got, want);
}

#[test]
fn windows_path_directories() {
    assert_eq!(windows_env_path_dirs("C:\\Users\\u/.openclaw"), "C:\\Users\\u/.openclaw/node;C:\\Users\\u/.openclaw/bin");
}
