//! Finding the installed Node.js: the places it is usually installed on
//! Unix and on Windows, and the order in which the version commands are
//! tried.  A GUI application does not inherit the user's shell `PATH`, so
//! several candidates are probed.
use vstd::prelude::*;
use crate::text::{
    chars_of, has_prefix, lines, lines_chars, push_str_chars, string_of, trim, trim_chars,
    trim_str_chars, views,
};

verus! {

broadcast use vstd::string::group_string_axioms;

/// The views of a sequence of strings.
pub open spec fn strs(v: Seq<String>) -> Seq<Seq<char>> {
    v.map_values(|s: String| s@)
}

/// `a` followed by `b`, as a new string.
fn cat(a: &str, b: &str) -> (r: String)
    ensures
        r@ == a@ + b@,
{
    let mut v: Vec<char> = Vec::new();
    push_str_chars(&mut v, a);
    push_str_chars(&mut v, b);
    string_of(&v)
}

/// `a`, `b` and `c` in a row, as a new string.
fn cat3(a: &str, b: &str, c: &str) -> (r: String)
    ensures
        r@ == a@ + b@ + c@,
{
    let mut v: Vec<char> = Vec::new();
    push_str_chars(&mut v, a);
    push_str_chars(&mut v, b);
    push_str_chars(&mut v, c);
    string_of(&v)
}

fn push_s(v: &mut Vec<String>, s: String)
    ensures
        strs(final(v)@) == strs(old(v)@).push(s@),
{
    v.push(s);
    proof {
        assert(strs(final(v)@) =~= strs(old(v)@).push(s@));
    }
}

fn insert_front(v: &mut Vec<String>, s: String)
    ensures
        strs(final(v)@) == seq![s@] + strs(old(v)@),
{
    v.insert(0, s);
    proof {
        assert(strs(final(v)@) =~= seq![s@] + strs(old(v)@));
    }
}

// ---------------------------------------------------------------------------
// Unix
// ---------------------------------------------------------------------------

/// The file where nvm records its default version.
pub fn nvm_default_alias_file(home: &str) -> (r: String)
    ensures
        r@ == home@ + "/.nvm/alias/default"@,
{
    cat(home, "/.nvm/alias/default")
}

/// The usual Node.js locations on Unix: Homebrew and the system first; with
/// a home directory, the nvm versions (the nvm default, where its alias
/// file names one, in front of all), then fnm, volta, asdf and mise.
pub open spec fn unix_node_paths(home: Option<Seq<char>>, nvm_default: Option<Seq<char>>) -> Seq<
    Seq<char>,
> {
    let fixed = seq!["/opt/homebrew/bin/node"@, "/usr/local/bin/node"@, "/usr/bin/node"@];
    match home {
        None => fixed,
        Some(h) => {
            let nvm = seq![
                h + "/.nvm/versions/node/v22.0.0/bin/node"@,
                h + "/.nvm/versions/node/v22.1.0/bin/node"@,
                h + "/.nvm/versions/node/v22.2.0/bin/node"@,
                h + "/.nvm/versions/node/v22.11.0/bin/node"@,
                h + "/.nvm/versions/node/v22.12.0/bin/node"@,
                h + "/.nvm/versions/node/v23.0.0/bin/node"@,
            ];
            let base = fixed + nvm;
            let with_default = match nvm_default {
                Some(c) => if trim(c).len() > 0 {
                    seq![h + "/.nvm/versions/node/v"@ + trim(c) + "/bin/node"@] + base
                } else {
                    base
                },
                None => base,
            };
            with_default + seq![
                h + "/.fnm/aliases/default/bin/node"@,
                h + "/.volta/bin/node"@,
                h + "/.asdf/shims/node"@,
                h + "/.local/share/mise/shims/node"@,
            ]
        },
    }
}

/// The usual Node.js locations on Unix, given the home directory and the
/// content of nvm's default alias file (where it could be read).
pub fn get_unix_node_paths(home: Option<String>, nvm_default: Option<String>) -> (r: Vec<String>)
    ensures
        strs(r@) == unix_node_paths(
            match home {
                Some(h) => Some(h@),
                None => None,
            },
            match nvm_default {
                Some(c) => Some(c@),
                None => None,
            },
        ),
{
    let mut paths: Vec<String> = Vec::new();
    proof {
        assert(strs(paths@) =~= Seq::<Seq<char>>::empty());
    }
    push_s(&mut paths, "/opt/homebrew/bin/node".to_string());
    push_s(&mut paths, "/usr/local/bin/node".to_string());
    push_s(&mut paths, "/usr/bin/node".to_string());
    match &home {
        Some(h) => {
            let hs = h.as_str();
            push_s(&mut paths, cat(hs, "/.nvm/versions/node/v22.0.0/bin/node"));
            push_s(&mut paths, cat(hs, "/.nvm/versions/node/v22.1.0/bin/node"));
            push_s(&mut paths, cat(hs, "/.nvm/versions/node/v22.2.0/bin/node"));
            push_s(&mut paths, cat(hs, "/.nvm/versions/node/v22.11.0/bin/node"));
            push_s(&mut paths, cat(hs, "/.nvm/versions/node/v22.12.0/bin/node"));
            push_s(&mut paths, cat(hs, "/.nvm/versions/node/v23.0.0/bin/node"));
            if let Some(c) = &nvm_default {
                let t = trim_str_chars(c.as_str());
                if t.len() > 0 {
                    let ts = string_of(&t);
                    let p = cat3(hs, "/.nvm/versions/node/v", ts.as_str());
                    let mut pv = chars_of(p.as_str());
                    push_str_chars(&mut pv, "/bin/node");
                    insert_front(&mut paths, string_of(&pv));
                }
            }
            push_s(&mut paths, cat(hs, "/.fnm/aliases/default/bin/node"));
            push_s(&mut paths, cat(hs, "/.volta/bin/node"));
            push_s(&mut paths, cat(hs, "/.asdf/shims/node"));
            push_s(&mut paths, cat(hs, "/.local/share/mise/shims/node"));
        },
        None => {},
    }
    proof {
        let hv: Option<Seq<char>> = match home {
            Some(h) => Some(h@),
            None => None,
        };
        let cv: Option<Seq<char>> = match nvm_default {
            Some(c) => Some(c@),
            None => None,
        };
        assert(strs(paths@) =~= unix_node_paths(hv, cv));
    }
    paths
}

// ---------------------------------------------------------------------------
// Windows
// ---------------------------------------------------------------------------

/// The version that an nvm-windows `settings.txt` line names: the text after
/// `current:`, trimmed, where the line starts with it and that text is not
/// empty.
pub open spec fn nvm_current_version(line: Seq<char>) -> Option<Seq<char>> {
    if has_prefix(line, "current:"@) && trim(line.skip(8)).len() > 0 {
        Some(trim(line.skip(8)))
    } else {
        None
    }
}

/// The nvm-windows versions recorded in `settings.txt`, each put in front of
/// those found before it (so the last one recorded comes first).
pub open spec fn nvm_windows_paths(nvm_home: Seq<char>, ls: Seq<Seq<char>>) -> Seq<Seq<char>>
    decreases ls.len(),
{
    if ls.len() == 0 {
        Seq::empty()
    } else {
        let r = nvm_windows_paths(nvm_home, ls.drop_last());
        match nvm_current_version(ls.last()) {
            Some(v) => seq![nvm_home + "\\v"@ + v + "\\node.exe"@] + r,
            None => r,
        }
    }
}

/// The usual Node.js locations on Windows: Program Files and nvm4w; with a
/// home directory, the per-user installs of nvm, fnm, volta and scoop, and
/// chocolatey; the `ProgramFiles` and `ProgramFiles(x86)` directories; the
/// `NVM_SYMLINK` link in front; and the versions current in nvm's
/// `settings.txt` in front of all.
pub open spec fn windows_node_paths(
    home: Option<Seq<char>>,
    program_files: Option<Seq<char>>,
    program_files_x86: Option<Seq<char>>,
    nvm_symlink: Option<Seq<char>>,
    nvm: Option<(Seq<char>, Seq<char>)>,
) -> Seq<Seq<char>> {
    let fixed = seq![
        "C:\\Program Files\\nodejs\\node.exe"@,
        "C:\\Program Files (x86)\\nodejs\\node.exe"@,
        "C:\\nvm4w\\nodejs\\node.exe"@,
    ];
    let user = match home {
        Some(h) => seq![
            h + "\\AppData\\Roaming\\nvm\\current\\node.exe"@,
            h + "\\AppData\\Roaming\\fnm\\aliases\\default\\node.exe"@,
            h + "\\AppData\\Local\\fnm\\aliases\\default\\node.exe"@,
            h + "\\.fnm\\aliases\\default\\node.exe"@,
            h + "\\AppData\\Local\\Volta\\bin\\node.exe"@,
            h + "\\scoop\\apps\\nodejs\\current\\node.exe"@,
            h + "\\scoop\\apps\\nodejs-lts\\current\\node.exe"@,
            "C:\\ProgramData\\chocolatey\\lib\\nodejs\\tools\\node.exe"@,
        ],
        None => Seq::empty(),
    };
    let pf = match program_files {
        Some(p) => seq![p + "\\nodejs\\node.exe"@],
        None => Seq::empty(),
    };
    let pf86 = match program_files_x86 {
        Some(p) => seq![p + "\\nodejs\\node.exe"@],
        None => Seq::empty(),
    };
    let base = fixed + user + pf + pf86;
    let with_link = match nvm_symlink {
        Some(s) => seq![s + "\\node.exe"@] + base,
        None => base,
    };
    match nvm {
        Some((nvm_home, settings)) => nvm_windows_paths(nvm_home, lines(settings)) + with_link,
        None => with_link,
    }
}

/// nvm-windows' settings file under its home directory.
pub fn nvm_settings_file(nvm_home: &str) -> (r: String)
    ensures
        r@ == nvm_home@ + "\\settings.txt"@,
{
    cat(nvm_home, "\\settings.txt")
}

/// The version a `settings.txt` line names as current, if any.
fn nvm_current_version_exec(line: &Vec<char>) -> (r: Option<Vec<char>>)
    ensures
        match r {
            Some(v) => nvm_current_version(line@) == Some(v@),
            None => nvm_current_version(line@) is None,
        },
{
    let tag = chars_of("current:");
    proof {
        reveal_strlit("current:");
    }
    if !crate::text::starts_with_chars(line, &tag) {
        return None;
    }
    let rest = crate::text::slice_chars(line, 8, line.len());
    proof {
        assert(rest@ =~= line@.skip(8));
    }
    let t = trim_chars(&rest);
    if t.len() > 0 {
        Some(t)
    } else {
        None
    }
}

/// The usual Node.js locations on Windows, given the home directory, the
/// `ProgramFiles`, `ProgramFiles(x86)` and `NVM_SYMLINK` variables, and the
/// `NVM_HOME` variable with the content of its `settings.txt` (where both
/// could be read).
pub fn get_windows_node_paths(
    home: Option<String>,
    program_files: Option<String>,
    program_files_x86: Option<String>,
    nvm_symlink: Option<String>,
    nvm: Option<(String, String)>,
) -> (r: Vec<String>)
    ensures
        strs(r@) == windows_node_paths(
            match home {
                Some(h) => Some(h@),
                None => None,
            },
            match program_files {
                Some(h) => Some(h@),
                None => None,
            },
            match program_files_x86 {
                Some(h) => Some(h@),
                None => None,
            },
            match nvm_symlink {
                Some(h) => Some(h@),
                None => None,
            },
            match nvm {
                Some((a, b)) => Some((a@, b@)),
                None => None,
            },
        ),
{
    let mut paths: Vec<String> = Vec::new();
    proof {
        assert(strs(paths@) =~= Seq::<Seq<char>>::empty());
    }
    push_s(&mut paths, "C:\\Program Files\\nodejs\\node.exe".to_string());
    push_s(&mut paths, "C:\\Program Files (x86)\\nodejs\\node.exe".to_string());
    push_s(&mut paths, "C:\\nvm4w\\nodejs\\node.exe".to_string());
    if let Some(h) = &home {
        let hs = h.as_str();
        push_s(&mut paths, cat(hs, "\\AppData\\Roaming\\nvm\\current\\node.exe"));
        push_s(&mut paths, cat(hs, "\\AppData\\Roaming\\fnm\\aliases\\default\\node.exe"));
        push_s(&mut paths, cat(hs, "\\AppData\\Local\\fnm\\aliases\\default\\node.exe"));
        push_s(&mut paths, cat(hs, "\\.fnm\\aliases\\default\\node.exe"));
        push_s(&mut paths, cat(hs, "\\AppData\\Local\\Volta\\bin\\node.exe"));
        push_s(&mut paths, cat(hs, "\\scoop\\apps\\nodejs\\current\\node.exe"));
        push_s(&mut paths, cat(hs, "\\scoop\\apps\\nodejs-lts\\current\\node.exe"));
        push_s(&mut paths, "C:\\ProgramData\\chocolatey\\lib\\nodejs\\tools\\node.exe".to_string());
    }
    if let Some(p) = &program_files {
        push_s(&mut paths, cat(p.as_str(), "\\nodejs\\node.exe"));
    }
    if let Some(p) = &program_files_x86 {
        push_s(&mut paths, cat(p.as_str(), "\\nodejs\\node.exe"));
    }
    if let Some(s) = &nvm_symlink {
        insert_front(&mut paths, cat(s.as_str(), "\\node.exe"));
    }
    let ghost with_link = strs(paths@);
    if let Some((nvm_home, settings)) = &nvm {
        let sv = chars_of(settings.as_str());
        let ls = lines_chars(&sv);
        let ghost lv = views(ls@);
        let mut i: usize = 0;
        proof {
            assert(lv.take(0) =~= Seq::<Seq<char>>::empty());
            assert(strs(paths@) =~= nvm_windows_paths(nvm_home@, lv.take(0)) + with_link);
        }
        while i < ls.len()
            invariant
                i <= ls.len(),
                lv == views(ls@),
                strs(paths@) == nvm_windows_paths(nvm_home@, lv.take(i as int)) + with_link,
            decreases ls.len() - i,
        {
            proof {
                assert(lv.take(i + 1).drop_last() =~= lv.take(i as int));
                assert(lv.take(i + 1).last() == ls@[i as int]@);
            }
            match nvm_current_version_exec(&ls[i]) {
                Some(v) => {
                    let vs = string_of(&v);
                    let p = cat3(nvm_home.as_str(), "\\v", vs.as_str());
                    let mut pv = chars_of(p.as_str());
                    push_str_chars(&mut pv, "\\node.exe");
                    let ghost before = strs(paths@);
                    insert_front(&mut paths, string_of(&pv));
                    proof {
                        assert(seq![nvm_home@ + "\\v"@ + v@ + "\\node.exe"@] + before =~= seq![
                            nvm_home@ + "\\v"@ + v@ + "\\node.exe"@,
                        ] + (nvm_windows_paths(nvm_home@, lv.take(i as int)) + with_link));
                    }
                },
                None => {},
            }
            i = i + 1;
        }
        proof {
            assert(lv.take(ls@.len() as int) =~= lv);
        }
    }
    proof {
        assert(strs(paths@) =~= windows_node_paths(
            match home {
                Some(h) => Some(h@),
                None => None,
            },
            match program_files {
                Some(h) => Some(h@),
                None => None,
            },
            match program_files_x86 {
                Some(h) => Some(h@),
                None => None,
            },
            match nvm_symlink {
                Some(h) => Some(h@),
                None => None,
            },
            match nvm {
                Some((a, b)) => Some((a@, b@)),
                None => None,
            },
        ));
    }
    paths
}

// ---------------------------------------------------------------------------
// Probing for the installed version
// ---------------------------------------------------------------------------

/// How a probe command is run.
#[derive(Debug, Clone, Copy, PartialEq, Eq, Structural)]
pub enum CommandKind {
    /// The program, with the argument `--version`.
    Program,
    /// A command line for `cmd`.
    Cmd,
    /// A script for `bash`.
    Shell,
}

/// When a probe's output counts as the Node.js version.
#[derive(Debug, Clone, Copy, PartialEq, Eq, Structural)]
pub enum AcceptRule {
    /// The trimmed output, where it starts with `v`.
    TrimmedStartsWithV,
    /// The trimmed output, whatever it is.
    AnyOutput,
    /// The trimmed output, where the output as printed starts with `v`.
    RawStartsWithV,
}

/// One way of asking for the Node.js version.
#[derive(Debug)]
pub struct NodeProbe {
    pub kind: CommandKind,
    pub command: String,
    /// A file that must exist for the probe to be run.
    pub needs_path: Option<String>,
    pub rule: AcceptRule,
}

/// The value of a probe.
pub open spec fn probe_view(p: NodeProbe) -> (CommandKind, Seq<char>, Option<Seq<char>>, AcceptRule) {
    (
        p.kind,
        p.command@,
        match p.needs_path {
            Some(x) => Some(x@),
            None => None,
        },
        p.rule,
    )
}

/// The values of the probes.
pub open spec fn probes_view(ps: Seq<NodeProbe>) -> Seq<(CommandKind, Seq<char>, Option<Seq<char>>, AcceptRule)> {
    ps.map_values(|p: NodeProbe| probe_view(p))
}

/// The version a probe's output gives under a rule, if it counts.
pub open spec fn accepted_version(rule: AcceptRule, out: Seq<char>) -> Option<Seq<char>> {
    match rule {
        AcceptRule::TrimmedStartsWithV => if has_prefix(trim(out), "v"@) {
            Some(trim(out))
        } else {
            None
        },
        AcceptRule::AnyOutput => Some(trim(out)),
        AcceptRule::RawStartsWithV => if has_prefix(out, "v"@) {
            Some(trim(out))
        } else {
            None
        },
    }
}

/// The version that a probe found: none where its command failed or its
/// output does not count under the rule.
pub fn node_version_from_output(rule: AcceptRule, out: &Result<String, String>) -> (r: Option<
    String,
>)
    ensures
        match out {
            Ok(o) => match accepted_version(rule, o@) {
                Some(v) => r matches Some(x) && x@ == v,
                None => r is None,
            },
            Err(_) => r is None,
        },
{
    let v_tag = chars_of("v");
    match out {
        Ok(o) => {
            let raw = chars_of(o.as_str());
            let t = trim_chars(&raw);
            let counts = match rule {
                AcceptRule::TrimmedStartsWithV => crate::text::starts_with_chars(&t, &v_tag),
                AcceptRule::AnyOutput => true,
                AcceptRule::RawStartsWithV => crate::text::starts_with_chars(&raw, &v_tag),
            };
            if counts {
                Some(string_of(&t))
            } else {
                None
            }
        },
        Err(_) => None,
    }
}

/// `"` + path + `" --version`, the command line that runs a program on Windows.
pub open spec fn quoted_version_command(path: Seq<char>) -> Seq<char> {
    "\""@ + path + "\" --version"@
}

/// The script that asks a login shell for the Node.js version.
pub open spec fn shell_probe_script() -> Seq<char> {
    "source ~/.zshrc 2>/dev/null || source ~/.bashrc 2>/dev/null; node --version 2>/dev/null"@
}

/// The probes for the candidate locations, in order.
pub open spec fn candidate_probes(windows: bool, cs: Seq<Seq<char>>) -> Seq<(CommandKind, Seq<char>, Option<Seq<char>>, AcceptRule)>
    decreases cs.len(),
{
    if cs.len() == 0 {
        Seq::empty()
    } else {
        candidate_probes(windows, cs.drop_last()).push(
            if windows {
                (CommandKind::Cmd, quoted_version_command(cs.last()), Some(cs.last()), AcceptRule::TrimmedStartsWithV)
            } else {
                (CommandKind::Program, cs.last(), Some(cs.last()), AcceptRule::AnyOutput)
            },
        )
    }
}

/// The order in which the Node.js version is asked for: the runtime bundled
/// under `node` in the OpenClaw directory first (where that directory is
/// known, see `openclaw_root`); then
/// `node` on the `PATH`; then each usual location that exists; on Unix
/// finally a login shell.  On Windows every answer must start with `v`; on
/// Unix only the bundled runtime's and the shell's must.
pub open spec fn node_probe_plan_spec(windows: bool, bundled: Option<Seq<char>>, cs: Seq<Seq<char>>) -> Seq<(CommandKind, Seq<char>, Option<Seq<char>>, AcceptRule)> {
    let first = match bundled {
        Some(b) => seq![
            if windows {
                (CommandKind::Cmd, quoted_version_command(b), Some(b), AcceptRule::TrimmedStartsWithV)
            } else {
                (CommandKind::Program, b, Some(b), AcceptRule::TrimmedStartsWithV)
            },
        ],
        None => Seq::empty(),
    };
    let path = seq![
        if windows {
            (CommandKind::Cmd, "node --version"@, None, AcceptRule::TrimmedStartsWithV)
        } else {
            (CommandKind::Program, "node"@, None, AcceptRule::AnyOutput)
        },
    ];
    let last = if windows {
        Seq::empty()
    } else {
        seq![(CommandKind::Shell, shell_probe_script(), None, AcceptRule::RawStartsWithV)]
    };
    first + path + candidate_probes(windows, cs) + last
}

/// There is one candidate probe per usual location.
proof fn lemma_candidate_probes_len(windows: bool, cs: Seq<Seq<char>>)
    ensures
        candidate_probes(windows, cs).len() == cs.len(),
    decreases cs.len(),
{
    if cs.len() > 0 {
        lemma_candidate_probes_len(windows, cs.drop_last());
    }
}

/// The bundled runtime, where there is one, is asked first on every
/// platform: on Windows through `cmd` as `"<path>" --version`, elsewhere by
/// running it with `--version`, in both cases only where the file exists and
/// only an answer starting with `v` counting.  Then `node` on the `PATH` is
/// asked, then each usual location, and on Unix a login shell last.
pub proof fn law_node_probe_order(windows: bool, bundled: Option<Seq<char>>, cs: Seq<Seq<char>>)
    ensures
        node_probe_plan_spec(windows, bundled, cs).len() == (if bundled is Some {
            1int
        } else {
            0
        }) + 1 + cs.len() + (if windows {
            0int
        } else {
            1
        }),
        bundled matches Some(b) ==> node_probe_plan_spec(windows, bundled, cs)[0] == (if windows {
            (CommandKind::Cmd, "\""@ + b + "\" --version"@, Some(b), AcceptRule::TrimmedStartsWithV)
        } else {
            (CommandKind::Program, b, Some(b), AcceptRule::TrimmedStartsWithV)
        }),
        node_probe_plan_spec(windows, bundled, cs)[if bundled is Some {
            1int
        } else {
            0
        }].2 is None,
        node_probe_plan_spec(windows, bundled, cs)[if bundled is Some {
            1int
        } else {
            0
        }].0 == (if windows {
            CommandKind::Cmd
        } else {
            CommandKind::Program
        }),
{
    lemma_candidate_probes_len(windows, cs);
}

fn quoted_command(path: &str) -> (r: String)
    ensures
        r@ == quoted_version_command(path@),
{
    cat3("\"", path, "\" --version")
}

fn push_probe(v: &mut Vec<NodeProbe>, p: NodeProbe)
    ensures
        probes_view(final(v)@) == probes_view(old(v)@).push(probe_view(p)),
{
    v.push(p);
    proof {
        assert(probes_view(final(v)@) =~= probes_view(old(v)@).push(probe_view(p)));
    }
}

/// The probes for the Node.js version, in order, given whether this is
/// Windows, the bundled runtime's path (where there is a home directory)
/// and the usual locations.
pub fn node_probe_plan(windows: bool, bundled: Option<String>, candidates: &Vec<String>) -> (r: Vec<
    NodeProbe,
>)
    ensures
        probes_view(r@) == node_probe_plan_spec(
            windows,
            match bundled {
                Some(b) => Some(b@),
                None => None,
            },
            strs(candidates@),
        ),
{
    let mut plan: Vec<NodeProbe> = Vec::new();
    proof {
        assert(probes_view(plan@) =~= Seq::empty());
    }
    if let Some(b) = &bundled {
        if windows {
            push_probe(
                &mut plan,
                NodeProbe {
                    kind: CommandKind::Cmd,
                    command: quoted_command(b.as_str()),
                    needs_path: Some(b.clone()),
                    rule: AcceptRule::TrimmedStartsWithV,
                },
            );
        } else {
            push_probe(
                &mut plan,
                NodeProbe {
                    kind: CommandKind::Program,
                    command: b.clone(),
                    needs_path: Some(b.clone()),
                    rule: AcceptRule::TrimmedStartsWithV,
                },
            );
        }
    }
    if windows {
        push_probe(
            &mut plan,
            NodeProbe {
                kind: CommandKind::Cmd,
                command: "node --version".to_string(),
                needs_path: None,
                rule: AcceptRule::TrimmedStartsWithV,
            },
        );
    } else {
        push_probe(
            &mut plan,
            NodeProbe {
                kind: CommandKind::Program,
                command: "node".to_string(),
                needs_path: None,
                rule: AcceptRule::AnyOutput,
            },
        );
    }
    let ghost head = probes_view(plan@);
    let ghost cs = strs(candidates@);
    let mut i: usize = 0;
    proof {
        assert(cs.take(0) =~= Seq::<Seq<char>>::empty());
        assert(probes_view(plan@) =~= head + candidate_probes(windows, cs.take(0)));
    }
    while i < candidates.len()
        invariant
            i <= candidates.len(),
            cs == strs(candidates@),
            probes_view(plan@) == head + candidate_probes(windows, cs.take(i as int)),
        decreases candidates.len() - i,
    {
        proof {
            assert(cs.take(i + 1).drop_last() =~= cs.take(i as int));
            assert(cs.take(i + 1).last() == candidates@[i as int]@);
        }
        let c = &candidates[i];
        let ghost before = probes_view(plan@);
        if windows {
            push_probe(
                &mut plan,
                NodeProbe {
                    kind: CommandKind::Cmd,
                    command: quoted_command(c.as_str()),
                    needs_path: Some(c.clone()),
                    rule: AcceptRule::TrimmedStartsWithV,
                },
            );
        } else {
            push_probe(
                &mut plan,
                NodeProbe {
                    kind: CommandKind::Program,
                    command: c.clone(),
                    needs_path: Some(c.clone()),
                    rule: AcceptRule::AnyOutput,
                },
            );
        }
        proof {
            assert(probes_view(plan@) =~= head + candidate_probes(windows, cs.take(i + 1)));
        }
        i = i + 1;
    }
    proof {
        assert(cs.take(candidates@.len() as int) =~= cs);
    }
    if !windows {
        push_probe(
            &mut plan,
            NodeProbe {
                kind: CommandKind::Shell,
                command: "source ~/.zshrc 2>/dev/null || source ~/.bashrc 2>/dev/null; node --version 2>/dev/null".to_string(),
                needs_path: None,
                rule: AcceptRule::RawStartsWithV,
            },
        );
    }
    proof {
        assert(probes_view(plan@) =~= node_probe_plan_spec(
            windows,
            match bundled {
                Some(b) => Some(b@),
                None => None,
            },
            cs,
        ));
    }
    plan
}

/// What the search for the Node.js version does next.
#[derive(Debug)]
pub enum NodeSearch {
    /// The version was found.
    Found(String),
    /// Run probe number `i` of the plan.
    Probe(usize),
    /// No probe found a version.
    NotFound,
}

/// The next move of the search after probe `index` of a plan of `count`
/// probes gave `found` (none where it was skipped, failed or did not count):
/// the first version found ends the search.
pub fn node_search_step(count: usize, index: usize, found: Option<String>) -> (s: NodeSearch)
    requires
        index < count,
    ensures
        found matches Some(v) ==> (s matches NodeSearch::Found(x) && x == v),
        found is None && index + 1 < count ==> (s matches NodeSearch::Probe(j) && j == index + 1),
        found is None && index + 1 == count ==> s is NotFound,
{
    match found {
        Some(v) => NodeSearch::Found(v),
        None => {
            if index + 1 < count {
                NodeSearch::Probe(index + 1)
            } else {
                NodeSearch::NotFound
            }
        },
    }
}

} // verus!
