//! Terminals opened for the user: the installer terminals, and the
//! terminal whose environment has the bundled Node.js and OpenClaw on its
//! `PATH` and the user's variables from the OpenClaw `env` file.
use vstd::prelude::*;
use crate::install::TargetOs;
use crate::encoding::{base64, base64_encode, le_bytes, utf16_units, utf16le_bytes};
use crate::text::{
    push_replaced, replace_char, split_once_char, split_once_chars, trim_matches_char,
    trim_matches_char_chars,
};
use crate::text::{
    chars_of, has_prefix, lines, lines_chars, push_str_chars, string_of, trim, trim_chars, views,
};

verus! {

broadcast use vstd::string::group_string_axioms;

// ---------------------------------------------------------------------------
// Installer terminals
// ---------------------------------------------------------------------------

/// The installer scripts that are written out and run in a terminal.
#[derive(Debug, Clone, Copy, PartialEq, Eq, Structural)]
pub enum InstallerScript {
    /// The Node.js installer for macOS.
    NodeMac,
    /// The OpenClaw installer for macOS.
    OpenClawMac,
    /// The OpenClaw installer for Linux.
    OpenClawLinux,
}

/// How an installer terminal is opened.
#[derive(Debug)]
pub enum TerminalPlan {
    /// Run the Node.js installer through PowerShell.
    PowerShellNode,
    /// Run the OpenClaw installer through PowerShell.
    PowerShellOpenClaw,
    /// Write `script` to `path`, make it executable and open it with `open`.
    OpenScript { script: InstallerScript, path: String },
    /// Write `script` to `path`, make it executable and start the first of
    /// `emulators` that launches, with the arguments `--` and the path.
    ScriptInEmulator { script: InstallerScript, path: String, emulators: Vec<String> },
    /// No terminal can be opened: this is the error.
    Refuse(String),
}

/// The terminal emulators tried for the Linux installer, in order.
pub open spec fn installer_emulators() -> Seq<Seq<char>> {
    seq!["gnome-terminal"@, "xfce4-terminal"@, "konsole"@, "xterm"@]
}

/// How to open an installer terminal for `install_type` (`"nodejs"` or
/// `"openclaw"`) on `os`.  Anything but Windows and macOS counts as Linux.
pub fn install_terminal_plan(install_type: &str, os: TargetOs) -> (p: TerminalPlan)
    ensures
        install_type@ == "nodejs"@ ==> (match os {
            TargetOs::Windows => p is PowerShellNode,
            TargetOs::MacOs => p matches TerminalPlan::OpenScript { script, path } && script
                == InstallerScript::NodeMac && path@ == "/tmp/openclaw_install_nodejs.command"@,
            _ => p matches TerminalPlan::Refuse(e) && e@ == "请手动安装 Node.js: https://nodejs.org/"@,
        }),
        install_type@ == "openclaw"@ ==> (match os {
            TargetOs::Windows => p is PowerShellOpenClaw,
            TargetOs::MacOs => p matches TerminalPlan::OpenScript { script, path } && script
                == InstallerScript::OpenClawMac && path@
                == "/tmp/openclaw_install_openclaw.command"@,
            _ => p matches TerminalPlan::ScriptInEmulator { script, path, emulators } && script
                == InstallerScript::OpenClawLinux && path@ == "/tmp/openclaw_install_openclaw.sh"@
                && emulators@.map_values(|s: String| s@) == installer_emulators(),
        }),
        install_type@ != "nodejs"@ && install_type@ != "openclaw"@ ==> (p matches TerminalPlan::Refuse(
            e,
        ) && e@ == "未知的安装类型: "@ + install_type@),
{
    let t = install_type.to_string();
    proof {
        reveal_strlit("nodejs");
        reveal_strlit("openclaw");
        assert("nodejs"@[0] != "openclaw"@[0]);
        assert("nodejs"@ != "openclaw"@);
    }
    if t == "nodejs".to_string() {
        match os {
            TargetOs::Windows => TerminalPlan::PowerShellNode,
            TargetOs::MacOs => TerminalPlan::OpenScript {
                script: InstallerScript::NodeMac,
                path: "/tmp/openclaw_install_nodejs.command".to_string(),
            },
            _ => TerminalPlan::Refuse("请手动安装 Node.js: https://nodejs.org/".to_string()),
        }
    } else if t == "openclaw".to_string() {
        match os {
            TargetOs::Windows => TerminalPlan::PowerShellOpenClaw,
            TargetOs::MacOs => TerminalPlan::OpenScript {
                script: InstallerScript::OpenClawMac,
                path: "/tmp/openclaw_install_openclaw.command".to_string(),
            },
            _ => {
                let mut emulators: Vec<String> = Vec::new();
                emulators.push("gnome-terminal".to_string());
                emulators.push("xfce4-terminal".to_string());
                emulators.push("konsole".to_string());
                emulators.push("xterm".to_string());
                proof {
                    assert(emulators@.map_values(|s: String| s@) =~= installer_emulators());
                }
                TerminalPlan::ScriptInEmulator {
                    script: InstallerScript::OpenClawLinux,
                    path: "/tmp/openclaw_install_openclaw.sh".to_string(),
                    emulators,
                }
            },
        }
    } else {
        let mut m: Vec<char> = Vec::new();
        push_str_chars(&mut m, "未知的安装类型: ");
        push_str_chars(&mut m, install_type);
        TerminalPlan::Refuse(string_of(&m))
    }
}

/// The steps of opening a terminal that can fail.
#[derive(Debug, Clone, Copy, PartialEq, Eq, Structural)]
pub enum TerminalStep {
    /// Writing the script.
    WriteScript,
    /// Making it executable.
    Chmod,
    /// Starting the terminal.
    Launch,
}

/// The error for a failed step of opening a terminal.
pub open spec fn terminal_error_spec(step: TerminalStep, e: Seq<char>) -> Seq<char> {
    match step {
        TerminalStep::WriteScript => "创建脚本失败: "@ + e,
        TerminalStep::Chmod => "设置权限失败: "@ + e,
        TerminalStep::Launch => "启动终端失败: "@ + e,
    }
}

/// The error for a failed step of opening a terminal.
pub fn terminal_error(step: TerminalStep, e: &str) -> (m: String)
    ensures
        m@ == terminal_error_spec(step, e@),
{
    let mut v: Vec<char> = Vec::new();
    match step {
        TerminalStep::WriteScript => push_str_chars(&mut v, "创建脚本失败: "),
        TerminalStep::Chmod => push_str_chars(&mut v, "设置权限失败: "),
        TerminalStep::Launch => push_str_chars(&mut v, "启动终端失败: "),
    }
    push_str_chars(&mut v, e);
    string_of(&v)
}

/// The message once an installer terminal is open.
pub fn installer_terminal_opened() -> (m: String)
    ensures
        m@ == "已打开安装终端"@,
{
    "已打开安装终端".to_string()
}

/// The error where no emulator could run the Linux OpenClaw installer.
pub fn installer_terminal_not_found() -> (m: String)
    ensures
        m@ == "无法启动终端，请手动运行: npm install -g openclaw"@,
{
    "无法启动终端，请手动运行: npm install -g openclaw".to_string()
}

// ---------------------------------------------------------------------------
// The environment terminal
// ---------------------------------------------------------------------------

/// An `env` file line as an `export` line: trimmed, with its own leading
/// `export ` dropped and `export ` put in front; none for blank lines and
/// comments.
pub open spec fn export_line(line: Seq<char>) -> Option<Seq<char>> {
    let t = trim(line);
    if t.len() == 0 || has_prefix(t, "#"@) {
        None
    } else if has_prefix(t, "export "@) {
        Some("export "@ + t.skip(7))
    } else {
        Some("export "@ + t)
    }
}

/// The `export` lines for the lines of an `env` file, in order.
pub open spec fn export_lines(ls: Seq<Seq<char>>) -> Seq<Seq<char>>
    decreases ls.len(),
{
    if ls.len() == 0 {
        Seq::empty()
    } else {
        let r = export_lines(ls.drop_last());
        match export_line(ls.last()) {
            Some(x) => r.push(x),
            None => r,
        }
    }
}

/// The items of `ls` with `sep` between each two (`[..].join(sep)`).
pub open spec fn join_sep(ls: Seq<Seq<char>>, sep: Seq<char>) -> Seq<char>
    decreases ls.len(),
{
    if ls.len() == 0 {
        Seq::empty()
    } else if ls.len() == 1 {
        ls[0]
    } else {
        join_sep(ls.drop_last(), sep) + sep + ls.last()
    }
}

/// The lines of `ls` joined with `\n`.
pub open spec fn join_lines(ls: Seq<Seq<char>>) -> Seq<char> {
    join_sep(ls, "\n"@)
}

/// The kinds of environment terminal.
#[derive(Debug, Clone, Copy, PartialEq, Eq, Structural)]
pub enum EnvTerminalOs {
    MacOs,
    Linux,
}

/// The line that sources a shell's start-up file where it exists.
pub open spec fn source_line(rc: Seq<char>) -> Seq<char> {
    "[ -f \"$HOME/"@ + rc + "\" ] && source \"$HOME/"@ + rc + "\" 2>/dev/null || true"@
}

/// The lines of the environment terminal's script: the start-up files of
/// the user's shells are sourced first (zsh first on macOS, bash first on
/// Linux) so that the OpenClaw directories put in front of `PATH` win; then
/// the user's variables; a greeting naming the configuration directory; and
/// finally the user's shell (`$SHELL` on macOS, the given shell on Linux).
pub open spec fn env_script_lines(
    os: EnvTerminalOs,
    config_dir: Seq<char>,
    env_content: Option<Seq<char>>,
    shell: Seq<char>,
) -> Seq<Seq<char>> {
    let rcs = match os {
        EnvTerminalOs::MacOs => seq![source_line(".zshrc"@), source_line(".bashrc"@)],
        EnvTerminalOs::Linux => seq![source_line(".bashrc"@), source_line(".zshrc"@)],
    };
    let head = seq!["#!/bin/bash"@] + rcs + seq![
        "export PATH=\""@ + config_dir + "/node:"@ + config_dir + "/bin:$PATH\""@,
    ];
    let exports = match env_content {
        Some(c) => export_lines(lines(c)),
        None => Seq::empty(),
    };
    let exec_line = match os {
        EnvTerminalOs::MacOs => "exec \"$SHELL\""@,
        EnvTerminalOs::Linux => "exec \""@ + shell + "\""@,
    };
    head + exports + seq![
        "echo -e '\\033[32mOpenClaw 环境已就绪\\033[0m'"@,
        "echo '配置目录: "@ + config_dir + "'"@,
        exec_line,
    ]
}

/// The `export` line for one `env` file line, if any.
fn export_line_exec(line: &Vec<char>) -> (r: Option<Vec<char>>)
    ensures
        match r {
            Some(x) => export_line(line@) == Some(x@),
            None => export_line(line@) is None,
        },
{
    let t = trim_chars(line);
    let hash = chars_of("#");
    let export = chars_of("export ");
    proof {
        reveal_strlit("export ");
    }
    if t.len() == 0 || crate::text::starts_with_chars(&t, &hash) {
        return None;
    }
    let mut out: Vec<char> = Vec::new();
    push_str_chars(&mut out, "export ");
    if crate::text::starts_with_chars(&t, &export) {
        let rest = crate::text::slice_chars(&t, 7, t.len());
        proof {
            assert(rest@ =~= t@.skip(7));
        }
        crate::text::append_chars(&mut out, &rest);
    } else {
        crate::text::append_chars(&mut out, &t);
    }
    Some(out)
}

/// The items of `ls` with `sep` between each two.
fn join_sep_exec(ls: &Vec<Vec<char>>, sep: &str) -> (r: Vec<char>)
    ensures
        r@ == join_sep(views(ls@), sep@),
{
    let ghost lv = views(ls@);
    let mut out: Vec<char> = Vec::new();
    let mut i: usize = 0;
    proof {
        assert(lv.take(0) =~= Seq::<Seq<char>>::empty());
    }
    while i < ls.len()
        invariant
            i <= ls.len(),
            lv == views(ls@),
            out@ == join_sep(lv.take(i as int), sep@),
        decreases ls.len() - i,
    {
        proof {
            assert(lv.take(i + 1).drop_last() =~= lv.take(i as int));
            assert(lv.take(i + 1).last() == ls@[i as int]@);
            assert(lv.take(i + 1).len() == i + 1);
        }
        if i > 0 {
            push_str_chars(&mut out, sep);
        }
        crate::text::append_chars(&mut out, &ls[i]);
        proof {
            if i == 0 {
                assert(lv.take(1)[0] == ls@[0]@);
                assert(out@ =~= join_sep(lv.take(1), sep@));
            }
        }
        i = i + 1;
    }
    proof {
        assert(lv.take(ls@.len() as int) =~= lv);
    }
    out
}

fn push_line(v: &mut Vec<Vec<char>>, l: Vec<char>)
    ensures
        views(final(v)@) == views(old(v)@).push(l@),
{
    v.push(l);
    proof {
        assert(views(final(v)@) =~= views(old(v)@).push(l@));
    }
}

fn source_line_exec(rc: &str) -> (r: Vec<char>)
    ensures
        r@ == source_line(rc@),
{
    let mut v: Vec<char> = Vec::new();
    push_str_chars(&mut v, "[ -f \"$HOME/");
    push_str_chars(&mut v, rc);
    push_str_chars(&mut v, "\" ] && source \"$HOME/");
    push_str_chars(&mut v, rc);
    push_str_chars(&mut v, "\" 2>/dev/null || true");
    v
}

/// The script of the environment terminal, its lines joined with `\n`,
/// given the configuration directory, the `env` file's content (where it
/// could be read) and the user's shell.
pub fn env_terminal_script(
    os: EnvTerminalOs,
    config_dir: &str,
    env_content: Option<String>,
    shell: &str,
) -> (s: String)
    ensures
        s@ == join_lines(
            env_script_lines(
                os,
                config_dir@,
                match env_content {
                    Some(c) => Some(c@),
                    None => None,
                },
                shell@,
            ),
        ),
{
    let mut ls: Vec<Vec<char>> = Vec::new();
    proof {
        assert(views(ls@) =~= Seq::<Seq<char>>::empty());
    }
    push_line(&mut ls, chars_of("#!/bin/bash"));
    match os {
        EnvTerminalOs::MacOs => {
            push_line(&mut ls, source_line_exec(".zshrc"));
            push_line(&mut ls, source_line_exec(".bashrc"));
        },
        EnvTerminalOs::Linux => {
            push_line(&mut ls, source_line_exec(".bashrc"));
            push_line(&mut ls, source_line_exec(".zshrc"));
        },
    }
    let mut path_line: Vec<char> = Vec::new();
    push_str_chars(&mut path_line, "export PATH=\"");
    push_str_chars(&mut path_line, config_dir);
    push_str_chars(&mut path_line, "/node:");
    push_str_chars(&mut path_line, config_dir);
    push_str_chars(&mut path_line, "/bin:$PATH\"");
    push_line(&mut ls, path_line);
    let ghost head = views(ls@);
    match &env_content {
        Some(c) => {
            let cv = chars_of(c.as_str());
            let cls = lines_chars(&cv);
            let ghost lv = views(cls@);
            let mut i: usize = 0;
            proof {
                assert(lv.take(0) =~= Seq::<Seq<char>>::empty());
                assert(views(ls@) =~= head + export_lines(lv.take(0)));
            }
            while i < cls.len()
                invariant
                    i <= cls.len(),
                    lv == views(cls@),
                    views(ls@) == head + export_lines(lv.take(i as int)),
                decreases cls.len() - i,
            {
                proof {
                    assert(lv.take(i + 1).drop_last() =~= lv.take(i as int));
                    assert(lv.take(i + 1).last() == cls@[i as int]@);
                }
                match export_line_exec(&cls[i]) {
                    Some(x) => {
                        let ghost before = views(ls@);
                        push_line(&mut ls, x);
                        proof {
                            assert(views(ls@) =~= head + export_lines(lv.take(i + 1)));
                        }
                    },
                    None => {},
                }
                i = i + 1;
            }
            proof {
                assert(lv.take(cls@.len() as int) =~= lv);
            }
        },
        None => {
            proof {
                assert(views(ls@) =~= head + Seq::<Seq<char>>::empty());
            }
        },
    }
    push_line(&mut ls, chars_of("echo -e '\\033[32mOpenClaw 环境已就绪\\033[0m'"));
    let mut dir_line: Vec<char> = Vec::new();
    push_str_chars(&mut dir_line, "echo '配置目录: ");
    push_str_chars(&mut dir_line, config_dir);
    push_str_chars(&mut dir_line, "'");
    push_line(&mut ls, dir_line);
    match os {
        EnvTerminalOs::MacOs => push_line(&mut ls, chars_of("exec \"$SHELL\"")),
        EnvTerminalOs::Linux => {
            let mut e: Vec<char> = Vec::new();
            push_str_chars(&mut e, "exec \"");
            push_str_chars(&mut e, shell);
            push_str_chars(&mut e, "\"");
            push_line(&mut ls, e);
        },
    }
    proof {
        assert(views(ls@) =~= env_script_lines(
            os,
            config_dir@,
            match env_content {
                Some(c) => Some(c@),
                None => None,
            },
            shell@,
        ));
    }
    let joined = join_sep_exec(&ls, "\n");
    string_of(&joined)
}

/// Where the environment terminal's script is written.
pub fn env_terminal_script_path(os: EnvTerminalOs) -> (p: String)
    ensures
        p@ == (match os {
            EnvTerminalOs::MacOs => "/tmp/openclaw_env_terminal.command"@,
            EnvTerminalOs::Linux => "/tmp/openclaw_env_terminal.sh"@,
        }),
{
    match os {
        EnvTerminalOs::MacOs => "/tmp/openclaw_env_terminal.command".to_string(),
        EnvTerminalOs::Linux => "/tmp/openclaw_env_terminal.sh".to_string(),
    }
}

/// The terminal emulators tried for the environment terminal on Linux, in
/// order, each with the arguments that go before the script.
pub open spec fn env_emulators() -> Seq<(Seq<char>, Seq<Seq<char>>)> {
    seq![
        ("gnome-terminal"@, seq!["--"@]),
        ("xterm"@, seq!["-e"@]),
        ("konsole"@, seq!["-e"@]),
        ("xfce4-terminal"@, seq!["-e"@]),
        ("tilix"@, seq!["-e"@]),
        ("alacritty"@, seq!["-e"@]),
        ("kitty"@, Seq::empty()),
    ]
}

/// An emulator and the arguments that go before the script.
#[derive(Debug)]
pub struct Emulator {
    pub program: String,
    pub args: Vec<String>,
}

/// The value of an emulator.
pub open spec fn emulator_view(e: Emulator) -> (Seq<char>, Seq<Seq<char>>) {
    (e.program@, e.args@.map_values(|s: String| s@))
}

fn emulator(program: &str, arg: Option<&str>) -> (e: Emulator)
    ensures
        emulator_view(e) == (program@, match arg {
            Some(a) => seq![a@],
            None => Seq::<Seq<char>>::empty(),
        }),
{
    let mut args: Vec<String> = Vec::new();
    if let Some(a) = arg {
        args.push(a.to_string());
    }
    let e = Emulator { program: program.to_string(), args };
    proof {
        assert(e.args@.map_values(|s: String| s@) =~= match arg {
            Some(a) => seq![a@],
            None => Seq::<Seq<char>>::empty(),
        });
    }
    e
}

/// The terminal emulators tried for the environment terminal on Linux.
pub fn env_terminal_emulators() -> (r: Vec<Emulator>)
    ensures
        r@.map_values(|e: Emulator| emulator_view(e)) == env_emulators(),
{
    let mut r: Vec<Emulator> = Vec::new();
    r.push(emulator("gnome-terminal", Some("--")));
    r.push(emulator("xterm", Some("-e")));
    r.push(emulator("konsole", Some("-e")));
    r.push(emulator("xfce4-terminal", Some("-e")));
    r.push(emulator("tilix", Some("-e")));
    r.push(emulator("alacritty", Some("-e")));
    r.push(emulator("kitty", None));
    proof {
        assert(r@.map_values(|e: Emulator| emulator_view(e)) =~= env_emulators());
    }
    r
}

/// The message once the environment terminal is open.
pub fn env_terminal_opened(os: EnvTerminalOs, emulator: &str) -> (m: String)
    ensures
        m@ == (match os {
            EnvTerminalOs::MacOs => "已打开终端（OpenClaw 环境已注入）"@,
            EnvTerminalOs::Linux => "已打开 "@ + emulator@ + "（OpenClaw 环境已注入）"@,
        }),
{
    match os {
        EnvTerminalOs::MacOs => "已打开终端（OpenClaw 环境已注入）".to_string(),
        EnvTerminalOs::Linux => {
            let mut v: Vec<char> = Vec::new();
            push_str_chars(&mut v, "已打开 ");
            push_str_chars(&mut v, emulator);
            push_str_chars(&mut v, "（OpenClaw 环境已注入）");
            string_of(&v)
        },
    }
}

/// The error where no emulator could open the environment terminal.
pub fn env_terminal_not_found(script_path: &str, shell: &str) -> (m: String)
    ensures
        m@ == "未找到可用终端，请手动运行：\nsource "@ + script_path@ + "\n然后执行 "@ + shell@,
{
    let mut v: Vec<char> = Vec::new();
    push_str_chars(&mut v, "未找到可用终端，请手动运行：\nsource ");
    push_str_chars(&mut v, script_path);
    push_str_chars(&mut v, "\n然后执行 ");
    push_str_chars(&mut v, shell);
    string_of(&v)
}

// ---------------------------------------------------------------------------
// The environment terminal on Windows
// ---------------------------------------------------------------------------

/// `s` inside a single-quoted PowerShell string: each `'` doubled.
pub open spec fn ps_quote(s: Seq<char>) -> Seq<char> {
    replace_char(s, '\'', "''"@)
}

/// The PowerShell assignment for one `env` file line, if any: blank lines,
/// comments and lines without `=` give none; a leading `export ` is
/// dropped, the name trimmed, and the value trimmed and stripped of
/// surrounding double, then single quotes.
pub open spec fn ps_env_line(line: Seq<char>) -> Option<Seq<char>> {
    let t = trim(line);
    if t.len() == 0 || has_prefix(t, "#"@) {
        None
    } else {
        let l = if has_prefix(t, "export "@) {
            t.skip(7)
        } else {
            t
        };
        match split_once_char(l, '=') {
            Some((k, v)) => Some(
                "$env:"@ + trim(k) + " = '"@ + ps_quote(
                    trim_matches_char(trim_matches_char(trim(v), '"'), '\''),
                ) + "'"@,
            ),
            None => None,
        }
    }
}

/// The PowerShell assignments for the lines of an `env` file, in order.
pub open spec fn ps_env_lines(ls: Seq<Seq<char>>) -> Seq<Seq<char>>
    decreases ls.len(),
{
    if ls.len() == 0 {
        Seq::empty()
    } else {
        let r = ps_env_lines(ls.drop_last());
        match ps_env_line(ls.last()) {
            Some(x) => r.push(x),
            None => r,
        }
    }
}

/// The statements run in the PowerShell window: the OpenClaw directories
/// (with `/` turned into `\`) put in front of `PATH`, the user's
/// variables, and a greeting naming the configuration directory.
pub open spec fn ps_statements(
    path_dirs: Seq<char>,
    config_dir: Seq<char>,
    env_content: Option<Seq<char>>,
) -> Seq<Seq<char>> {
    let env = match env_content {
        Some(c) => ps_env_lines(lines(c)),
        None => Seq::empty(),
    };
    seq![
        "$env:PATH = '"@ + ps_quote(replace_char(path_dirs, '/', "\\"@)) + "' + ';' + $env:PATH"@,
    ] + env + seq![
        "Write-Host 'OpenClaw 环境已就绪' -ForegroundColor Green"@,
        "Write-Host '配置目录: "@ + ps_quote(config_dir) + "' -ForegroundColor Cyan"@,
    ]
}

/// The `cmd /c` line that opens the PowerShell window: the statements
/// joined with `; `, as UTF-16LE in base64 for `-EncodedCommand`.
pub open spec fn ps_launch_line(
    path_dirs: Seq<char>,
    config_dir: Seq<char>,
    env_content: Option<Seq<char>>,
) -> Seq<char> {
    "start powershell -NoExit -EncodedCommand "@ + base64(
        le_bytes(utf16_units(join_sep(ps_statements(path_dirs, config_dir, env_content), "; "@))),
    )
}

/// The PowerShell assignment for one `env` file line, if any.
fn ps_env_line_exec(line: &Vec<char>) -> (r: Option<Vec<char>>)
    ensures
        match r {
            Some(x) => ps_env_line(line@) == Some(x@),
            None => ps_env_line(line@) is None,
        },
{
    let t = trim_chars(line);
    let hash = chars_of("#");
    let export = chars_of("export ");
    proof {
        reveal_strlit("export ");
    }
    if t.len() == 0 || crate::text::starts_with_chars(&t, &hash) {
        return None;
    }
    let l = if crate::text::starts_with_chars(&t, &export) {
        let rest = crate::text::slice_chars(&t, 7, t.len());
        proof {
            assert(rest@ =~= t@.skip(7));
        }
        rest
    } else {
        t
    };
    match split_once_chars(&l, '=') {
        Some((k, v)) => {
            let key = trim_chars(&k);
            let value = trim_chars(&v);
            let value = trim_matches_char_chars(&value, '"');
            let value = trim_matches_char_chars(&value, '\'');
            let mut out: Vec<char> = Vec::new();
            push_str_chars(&mut out, "$env:");
            crate::text::append_chars(&mut out, &key);
            push_str_chars(&mut out, " = '");
            push_replaced(&mut out, &value, '\'', "''");
            push_str_chars(&mut out, "'");
            Some(out)
        },
        None => None,
    }
}

/// The PowerShell statements, each as characters.
fn ps_statements_exec(path_dirs: &str, config_dir: &str, env_content: &Option<String>) -> (r: Vec<
    Vec<char>,
>)
    ensures
        views(r@) == ps_statements(
            path_dirs@,
            config_dir@,
            match env_content {
                Some(c) => Some(c@),
                None => None,
            },
        ),
{
    let mut ls: Vec<Vec<char>> = Vec::new();
    proof {
        assert(views(ls@) =~= Seq::<Seq<char>>::empty());
    }
    let mut first: Vec<char> = Vec::new();
    push_str_chars(&mut first, "$env:PATH = '");
    let dirs = chars_of(path_dirs);
    let mut win: Vec<char> = Vec::new();
    push_replaced(&mut win, &dirs, '/', "\\");
    proof {
        assert(win@ =~= replace_char(path_dirs@, '/', "\\"@));
    }
    push_replaced(&mut first, &win, '\'', "''");
    push_str_chars(&mut first, "' + ';' + $env:PATH");
    push_line(&mut ls, first);
    let ghost head = views(ls@);
    match env_content {
        Some(c) => {
            let cv = chars_of(c.as_str());
            let cls = lines_chars(&cv);
            let ghost lv = views(cls@);
            let mut i: usize = 0;
            proof {
                assert(lv.take(0) =~= Seq::<Seq<char>>::empty());
                assert(views(ls@) =~= head + ps_env_lines(lv.take(0)));
            }
            while i < cls.len()
                invariant
                    i <= cls.len(),
                    lv == views(cls@),
                    views(ls@) == head + ps_env_lines(lv.take(i as int)),
                decreases cls.len() - i,
            {
                proof {
                    assert(lv.take(i + 1).drop_last() =~= lv.take(i as int));
                    assert(lv.take(i + 1).last() == cls@[i as int]@);
                }
                match ps_env_line_exec(&cls[i]) {
                    Some(x) => {
                        push_line(&mut ls, x);
                        proof {
                            assert(views(ls@) =~= head + ps_env_lines(lv.take(i + 1)));
                        }
                    },
                    None => {},
                }
                i = i + 1;
            }
            proof {
                assert(lv.take(cls@.len() as int) =~= lv);
            }
        },
        None => {
            proof {
                assert(views(ls@) =~= head + Seq::<Seq<char>>::empty());
            }
        },
    }
    push_line(&mut ls, chars_of("Write-Host 'OpenClaw 环境已就绪' -ForegroundColor Green"));
    let mut dir_line: Vec<char> = Vec::new();
    push_str_chars(&mut dir_line, "Write-Host '配置目录: ");
    let cd = chars_of(config_dir);
    push_replaced(&mut dir_line, &cd, '\'', "''");
    push_str_chars(&mut dir_line, "' -ForegroundColor Cyan");
    push_line(&mut ls, dir_line);
    proof {
        assert(views(ls@) =~= ps_statements(
            path_dirs@,
            config_dir@,
            match env_content {
                Some(c) => Some(c@),
                None => None,
            },
        ));
    }
    ls
}

/// The `cmd /c` line that opens a PowerShell window whose environment has
/// `path_dirs` in front of `PATH` and the variables of the OpenClaw `env`
/// file (where it could be read), and that greets with the configuration
/// directory.
pub fn env_powershell_launch_line(
    path_dirs: &str,
    config_dir: &str,
    env_content: Option<String>,
) -> (s: String)
    ensures
        s@ == ps_launch_line(
            path_dirs@,
            config_dir@,
            match env_content {
                Some(c) => Some(c@),
                None => None,
            },
        ),
{
    let statements = ps_statements_exec(path_dirs, config_dir, &env_content);
    let command = join_sep_exec(&statements, "; ");
    let bytes = utf16le_bytes(&command);
    let encoded = base64_encode(&bytes);
    let mut line: Vec<char> = Vec::new();
    push_str_chars(&mut line, "start powershell -NoExit -EncodedCommand ");
    crate::text::append_chars(&mut line, &encoded);
    string_of(&line)
}

/// The message once the PowerShell window is open.
pub fn env_powershell_opened() -> (m: String)
    ensures
        m@ == "已打开 PowerShell（OpenClaw 环境已注入）"@,
{
    "已打开 PowerShell（OpenClaw 环境已注入）".to_string()
}

/// The directories put in front of `PATH` in the Windows environment
/// terminal: the bundled Node.js runtime and the OpenClaw launchers, `node`
/// and `bin` under the OpenClaw directory, separated by `;`.
pub fn windows_env_path_dirs(config_dir: &str) -> (p: String)
    ensures
        p@ == config_dir@ + "/node;"@ + config_dir@ + "/bin"@,
{
    let mut v: Vec<char> = Vec::new();
    push_str_chars(&mut v, config_dir);
    push_str_chars(&mut v, "/node;");
    push_str_chars(&mut v, config_dir);
    push_str_chars(&mut v, "/bin");
    string_of(&v)
}

} // verus!
