//! Decisions of the gateway service commands: the stop protocol (polite
//! termination, then a forced kill), the start-up poll, the kill command
//! lines, the log file locations, and the selection of log lines to show.
use vstd::prelude::*;
use crate::number::{decimal_chars, decimal_string};
use crate::text::{chars_of, push_str_chars, string_of, trim, trim_chars, views};

verus! {

broadcast use vstd::string::group_string_axioms;

/// The port the OpenClaw gateway listens on.
pub const SERVICE_PORT: u16 = 18789;

/// How many times the start-up poll looks for the gateway, one second apart.
pub const START_POLL_ATTEMPTS: u32 = 15;

/// How many log lines are shown when no count is asked for.
pub const DEFAULT_LOG_LINES: u32 = 100;

/// The views of a sequence of strings.
pub open spec fn string_views(v: Seq<String>) -> Seq<Seq<char>> {
    v.map_values(|s: String| s@)
}

// ---------------------------------------------------------------------------
// Debug text of a list of process numbers
// ---------------------------------------------------------------------------

/// The items of `ns` in decimal, separated by `", "`.
pub open spec fn joined_numbers(ns: Seq<u32>) -> Seq<char>
    decreases ns.len(),
{
    if ns.len() == 0 {
        Seq::empty()
    } else if ns.len() == 1 {
        decimal_string(ns[0] as nat)
    } else {
        joined_numbers(ns.drop_last()) + ", "@ + decimal_string(ns.last() as nat)
    }
}

/// `{:?}` of a `Vec<u32>`: `[1, 2, 3]`.
pub open spec fn debug_numbers(ns: Seq<u32>) -> Seq<char> {
    "["@ + joined_numbers(ns) + "]"@
}

/// The `{:?}` text of a list of process numbers.
pub fn debug_numbers_chars(ns: &Vec<u32>) -> (r: Vec<char>)
    ensures
        r@ == debug_numbers(ns@),
{
    let mut body: Vec<char> = Vec::new();
    let mut i: usize = 0;
    proof {
        assert(ns@.take(0) =~= Seq::<u32>::empty());
    }
    while i < ns.len()
        invariant
            i <= ns.len(),
            body@ == joined_numbers(ns@.take(i as int)),
        decreases ns.len() - i,
    {
        proof {
            assert(ns@.take(i + 1).drop_last() =~= ns@.take(i as int));
            assert(ns@.take(i + 1).last() == ns@[i as int]);
            assert(ns@.take(i + 1).len() == i + 1);
        }
        if i > 0 {
            push_str_chars(&mut body, ", ");
        }
        let d = decimal_chars(ns[i] as u64);
        crate::text::append_chars(&mut body, &d);
        proof {
            if i == 0 {
                assert(ns@.take(1)[0] == ns@[0]);
                assert(body@ =~= joined_numbers(ns@.take(1)));
            }
        }
        i = i + 1;
    }
    proof {
        assert(ns@.take(ns@.len() as int) =~= ns@);
    }
    let mut r: Vec<char> = Vec::new();
    push_str_chars(&mut r, "[");
    crate::text::append_chars(&mut r, &body);
    push_str_chars(&mut r, "]");
    r
}

// ---------------------------------------------------------------------------
// Stopping the service
// ---------------------------------------------------------------------------

/// Where the stop protocol stands.
#[derive(Debug, Clone, Copy, PartialEq, Eq, Structural)]
pub enum StopPhase {
    /// Nothing has been done yet.
    Start,
    /// The listed processes were asked to terminate.
    Terminated,
    /// The remaining processes were killed by force.
    Killed,
}

/// What the stop protocol does next.
#[derive(Debug)]
pub enum StopAction {
    /// Signal each of `pids` (by force where `force`), wait `wait_secs`
    /// seconds, list the processes on the port again and continue in `next`.
    Kill { pids: Vec<u32>, force: bool, wait_secs: u64, next: StopPhase },
    /// The protocol is over, with this result.
    Finish(Result<String, String>),
}

/// One step of stopping the service: given the processes now listening on
/// the service port, either signal them and wait, or finish.  From the
/// start, no process means the service was not running; otherwise they are
/// asked to terminate and, if any remain after two seconds, killed by force;
/// if any remain after one more second, stopping fails and names them.
pub fn stop_service_step(phase: StopPhase, listed: Vec<u32>) -> (a: StopAction)
    ensures
        phase == StopPhase::Start && listed@.len() == 0 ==> (a matches StopAction::Finish(Ok(m))
            && m@ == "服务未在运行"@),
        phase == StopPhase::Start && listed@.len() > 0 ==> (a matches StopAction::Kill {
            pids,
            force,
            wait_secs,
            next,
        } && pids@ == listed@ && !force && wait_secs == 2 && next == StopPhase::Terminated),
        phase == StopPhase::Terminated && listed@.len() == 0 ==> (a matches StopAction::Finish(
            Ok(m),
        ) && m@ == "服务已停止"@),
        phase == StopPhase::Terminated && listed@.len() > 0 ==> (a matches StopAction::Kill {
            pids,
            force,
            wait_secs,
            next,
        } && pids@ == listed@ && force && wait_secs == 1 && next == StopPhase::Killed),
        phase == StopPhase::Killed && listed@.len() == 0 ==> (a matches StopAction::Finish(Ok(m))
            && m@ == "服务已停止"@),
        phase == StopPhase::Killed && listed@.len() > 0 ==> (a matches StopAction::Finish(Err(e))
            && e@ == "无法停止服务，仍有进程: "@ + debug_numbers(listed@)),
        next_phase(a) == stop_next_phase(phase, listed@.len() == 0),
{
    match phase {
        StopPhase::Start => {
            if listed.len() == 0 {
                StopAction::Finish(Ok("服务未在运行".to_string()))
            } else {
                StopAction::Kill { pids: listed, force: false, wait_secs: 2, next: StopPhase::Terminated }
            }
        },
        StopPhase::Terminated => {
            if listed.len() == 0 {
                StopAction::Finish(Ok("服务已停止".to_string()))
            } else {
                StopAction::Kill { pids: listed, force: true, wait_secs: 1, next: StopPhase::Killed }
            }
        },
        StopPhase::Killed => {
            if listed.len() == 0 {
                StopAction::Finish(Ok("服务已停止".to_string()))
            } else {
                let mut m: Vec<char> = Vec::new();
                push_str_chars(&mut m, "无法停止服务，仍有进程: ");
                let d = debug_numbers_chars(&listed);
                crate::text::append_chars(&mut m, &d);
                StopAction::Finish(Err(string_of(&m)))
            }
        },
    }
}

/// The phase a step leads to, or none where the protocol finishes.
pub open spec fn next_phase(a: StopAction) -> Option<StopPhase> {
    match a {
        StopAction::Kill { next, .. } => Some(next),
        StopAction::Finish(_) => None,
    }
}

/// The rank of a phase: every step moves to a phase of higher rank.
pub open spec fn phase_rank(p: StopPhase) -> nat {
    match p {
        StopPhase::Start => 0,
        StopPhase::Terminated => 1,
        StopPhase::Killed => 2,
    }
}

/// The phase that follows `phase` when the listing is empty or not; none
/// where the protocol finishes.
pub open spec fn stop_next_phase(phase: StopPhase, none_listed: bool) -> Option<StopPhase> {
    if none_listed {
        None
    } else {
        match phase {
            StopPhase::Start => Some(StopPhase::Terminated),
            StopPhase::Terminated => Some(StopPhase::Killed),
            StopPhase::Killed => None,
        }
    }
}

/// The stop protocol always makes progress: a step that does not finish
/// moves to the next phase, and the last phase always finishes, so stopping
/// lists the processes on the port at most three times.
pub proof fn law_stop_protocol_terminates(phase: StopPhase, none_listed: bool)
    ensures
        stop_next_phase(phase, none_listed) matches Some(n) ==> phase_rank(n) == phase_rank(phase)
            + 1,
        stop_next_phase(StopPhase::Killed, none_listed) is None,
{
}

/// The arguments of `kill` for a process: `-9` where forced, else `-TERM`.
pub fn kill_args(pid: u32, force: bool) -> (args: Vec<String>)
    ensures
        args@.len() == 2,
        args@[0]@ == (if force {
            "-9"@
        } else {
            "-TERM"@
        }),
        args@[1]@ == decimal_string(pid as nat),
{
    let signal = if force {
        "-9".to_string()
    } else {
        "-TERM".to_string()
    };
    let d = decimal_chars(pid as u64);
    let mut args: Vec<String> = Vec::new();
    args.push(signal);
    args.push(string_of(&d));
    args
}

/// The arguments of `taskkill` for a process: `/F /PID n` where forced,
/// else `/PID n`.
pub fn taskkill_args(pid: u32, force: bool) -> (args: Vec<String>)
    ensures
        force ==> args@.len() == 3 && args@[0]@ == "/F"@ && args@[1]@ == "/PID"@ && args@[2]@
            == decimal_string(pid as nat),
        !force ==> args@.len() == 2 && args@[0]@ == "/PID"@ && args@[1]@ == decimal_string(
            pid as nat,
        ),
{
    let d = decimal_chars(pid as u64);
    let mut args: Vec<String> = Vec::new();
    if force {
        args.push("/F".to_string());
    }
    args.push("/PID".to_string());
    args.push(string_of(&d));
    args
}

// ---------------------------------------------------------------------------
// Starting the service
// ---------------------------------------------------------------------------

/// The checks made before the gateway is started: it must not be running
/// already, and the `openclaw` command must be found.
pub fn start_service_precheck(running: bool, openclaw_found: bool) -> (r: Result<(), String>)
    ensures
        running ==> (r matches Err(e) && e@ == "服务已在运行中"@),
        !running && !openclaw_found ==> (r matches Err(e) && e@
            == "找不到 openclaw 命令，请先通过 npm install -g openclaw 安装"@),
        !running && openclaw_found ==> r is Ok,
{
    if running {
        Err("服务已在运行中".to_string())
    } else if !openclaw_found {
        Err("找不到 openclaw 命令，请先通过 npm install -g openclaw 安装".to_string())
    } else {
        Ok(())
    }
}

/// The error for a gateway that could not be launched.
pub fn start_spawn_error(e: &str) -> (m: String)
    ensures
        m@ == "启动服务失败: "@ + e@,
{
    let mut v: Vec<char> = Vec::new();
    push_str_chars(&mut v, "启动服务失败: ");
    push_str_chars(&mut v, e);
    string_of(&v)
}

/// What the start-up poll does after a look at the service port.
#[derive(Debug)]
pub enum PollDecision {
    /// The gateway listens: starting succeeded with this message.
    Started(String),
    /// Wait one more second and look again.
    Wait,
    /// The gateway did not come up in time: this is the error.
    TimedOut(String),
}

/// The decision after look number `attempt` (from 1) at the service port
/// found `pid` listening or none.
pub fn start_poll_step(attempt: u32, pid: Option<u32>) -> (d: PollDecision)
    requires
        1 <= attempt <= START_POLL_ATTEMPTS,
    ensures
        pid matches Some(p) ==> (d matches PollDecision::Started(m) && m@ == "服务已启动，PID: "@
            + decimal_string(p as nat)),
        pid is None && attempt < START_POLL_ATTEMPTS ==> d is Wait,
        pid is None && attempt == START_POLL_ATTEMPTS ==> (d matches PollDecision::TimedOut(e)
            && e@ == "服务启动超时（15秒），请检查 openclaw 日志"@),
{
    match pid {
        Some(p) => {
            let mut v: Vec<char> = Vec::new();
            push_str_chars(&mut v, "服务已启动，PID: ");
            let d = decimal_chars(p as u64);
            crate::text::append_chars(&mut v, &d);
            PollDecision::Started(string_of(&v))
        },
        None => {
            if attempt < START_POLL_ATTEMPTS {
                PollDecision::Wait
            } else {
                PollDecision::TimedOut("服务启动超时（15秒），请检查 openclaw 日志".to_string())
            }
        },
    }
}

// ---------------------------------------------------------------------------
// Log files
// ---------------------------------------------------------------------------

/// `format!("{}/{}", a, b)`.
pub open spec fn slash_join(a: Seq<char>, b: Seq<char>) -> Seq<char> {
    a + "/"@ + b
}

/// `format!("{}/{}", a, b)` on strings.
pub fn slash_join_str(a: &str, b: &str) -> (r: String)
    ensures
        r@ == slash_join(a@, b@),
{
    let mut v: Vec<char> = Vec::new();
    push_str_chars(&mut v, a);
    push_str_chars(&mut v, "/");
    push_str_chars(&mut v, b);
    string_of(&v)
}

/// The gateway's log files under the configuration directory: its output
/// log, then its error log.
pub fn gateway_log_files(config_dir: &str) -> (r: Vec<String>)
    ensures
        r@.len() == 2,
        r@[0]@ == slash_join(config_dir@, "logs/gateway.log"@),
        r@[1]@ == slash_join(config_dir@, "logs/gateway.err.log"@),
{
    let mut r: Vec<String> = Vec::new();
    r.push(slash_join_str(config_dir, "logs/gateway.log"));
    r.push(slash_join_str(config_dir, "logs/gateway.err.log"));
    r
}

/// The line recorded in the gateway's error log when start-up times out,
/// stamped with the local time.
pub fn start_timeout_log_line(timestamp: &str) -> (m: String)
    ensures
        m@ == "["@ + timestamp@ + "] 服务启动超时（15秒），请检查配置"@,
{
    let mut v: Vec<char> = Vec::new();
    push_str_chars(&mut v, "[");
    push_str_chars(&mut v, timestamp);
    push_str_chars(&mut v, "] 服务启动超时（15秒），请检查配置");
    string_of(&v)
}

/// The gateway's error log, where a start-up timeout is recorded.
pub fn gateway_err_log_file(config_dir: &str) -> (r: String)
    ensures
        r@ == slash_join(slash_join(config_dir@, "logs"@), "gateway.err.log"@),
{
    let logs = slash_join_str(config_dir, "logs");
    slash_join_str(logs.as_str(), "gateway.err.log")
}

// ---------------------------------------------------------------------------
// Selecting log lines
// ---------------------------------------------------------------------------

/// Lexicographic order of character sequences, by code point (the order of
/// `String`).
pub open spec fn seq_less(a: Seq<char>, b: Seq<char>) -> bool
    decreases a.len(),
{
    if a.len() == 0 {
        b.len() > 0
    } else if b.len() == 0 {
        false
    } else if (a[0] as u32) < (b[0] as u32) {
        true
    } else if a[0] == b[0] {
        seq_less(a.drop_first(), b.drop_first())
    } else {
        false
    }
}

/// No sequence is less than itself.
pub proof fn lemma_less_irreflexive(a: Seq<char>)
    ensures
        !seq_less(a, a),
    decreases a.len(),
{
    if a.len() > 0 {
        lemma_less_irreflexive(a.drop_first());
    }
}

/// The order is transitive.
pub proof fn lemma_less_transitive(a: Seq<char>, b: Seq<char>, c: Seq<char>)
    requires
        seq_less(a, b),
        seq_less(b, c),
    ensures
        seq_less(a, c),
    decreases a.len(),
{
    if a.len() > 0 && b.len() > 0 && c.len() > 0 && a[0] == b[0] && b[0] == c[0] {
        lemma_less_transitive(a.drop_first(), b.drop_first(), c.drop_first());
    }
}

/// Of two different sequences, one is less than the other.
pub proof fn lemma_less_total(a: Seq<char>, b: Seq<char>)
    ensures
        a == b || seq_less(a, b) || seq_less(b, a),
    decreases a.len(),
{
    if a.len() > 0 && b.len() > 0 {
        if a[0] == b[0] {
            lemma_less_total(a.drop_first(), b.drop_first());
            if a.drop_first() == b.drop_first() {
                assert(a =~= seq![a[0]] + a.drop_first());
                assert(b =~= seq![b[0]] + b.drop_first());
            }
        } else {
            vstd::utf8::char_u32_cast(a[0], a[0] as u32);
            vstd::utf8::char_u32_cast(b[0], b[0] as u32);
            assert((a[0] as u32) != (b[0] as u32));
        }
    } else if a.len() == 0 && b.len() == 0 {
        assert(a =~= b);
    }
}

/// The order is asymmetric.
pub proof fn lemma_less_asymmetric(a: Seq<char>, b: Seq<char>)
    ensures
        !(seq_less(a, b) && seq_less(b, a)),
{
    if seq_less(a, b) && seq_less(b, a) {
        lemma_less_transitive(a, b, a);
        lemma_less_irreflexive(a);
    }
}

/// Each item is less than every later one: sorted, without repeats.
pub open spec fn strictly_sorted(s: Seq<Seq<char>>) -> bool {
    forall|i: int, j: int| 0 <= i < j < s.len() ==> seq_less(#[trigger] s[i], #[trigger] s[j])
}

/// `s` and `t` hold the same items.
pub open spec fn same_items(s: Seq<Seq<char>>, t: Seq<Seq<char>>) -> bool {
    forall|x: Seq<char>| s.contains(x) <==> t.contains(x)
}

/// The items of `items`, sorted and without repeats.
pub open spec fn sorted_distinct(items: Seq<Seq<char>>) -> Seq<Seq<char>> {
    choose|s: Seq<Seq<char>>| strictly_sorted(s) && same_items(s, items)
}

/// A strictly sorted sequence is determined by its items: sorting and
/// removing repeats has exactly one outcome.
pub proof fn law_sorted_distinct_unique(s: Seq<Seq<char>>, t: Seq<Seq<char>>)
    requires
        strictly_sorted(s),
        strictly_sorted(t),
        same_items(s, t),
    ensures
        s == t,
    decreases s.len(),
{
    if s.len() == 0 {
        if t.len() > 0 {
            assert(t.contains(t[0]));
        }
        assert(s =~= t);
    } else {
        assert(s.contains(s[0]));
        let m = choose|m: int| 0 <= m < t.len() && t[m] == s[0];
        assert(t.contains(t[0]));
        let k = choose|k: int| 0 <= k < s.len() && s[k] == t[0];
        if s[0] != t[0] {
            assert(m != 0 && k != 0);
            assert(seq_less(t[0], t[m]));
            assert(seq_less(s[0], s[k]));
            lemma_less_asymmetric(s[0], t[0]);
        }
        let s1 = s.drop_first();
        let t1 = t.drop_first();
        assert forall|x: Seq<char>| s1.contains(x) <==> t1.contains(x) by {
            if s1.contains(x) {
                let i = choose|i: int| 0 <= i < s1.len() && s1[i] == x;
                assert(s[i + 1] == x);
                assert(seq_less(s[0], s[i + 1]));
                lemma_less_irreflexive(x);
                assert(t.contains(x));
                let j = choose|j: int| 0 <= j < t.len() && t[j] == x;
                assert(j != 0);
                assert(t1[j - 1] == x);
            }
            if t1.contains(x) {
                let i = choose|i: int| 0 <= i < t1.len() && t1[i] == x;
                assert(t[i + 1] == x);
                assert(seq_less(t[0], t[i + 1]));
                lemma_less_irreflexive(x);
                assert(s.contains(x));
                let j = choose|j: int| 0 <= j < s.len() && s[j] == x;
                assert(j != 0);
                assert(s1[j - 1] == x);
            }
        }
        assert(strictly_sorted(s1)) by {
            assert forall|i: int, j: int| 0 <= i < j < s1.len() implies seq_less(
                #[trigger] s1[i],
                #[trigger] s1[j],
            ) by {
                assert(s1[i] == s[i + 1] && s1[j] == s[j + 1]);
            }
        }
        assert(strictly_sorted(t1)) by {
            assert forall|i: int, j: int| 0 <= i < j < t1.len() implies seq_less(
                #[trigger] t1[i],
                #[trigger] t1[j],
            ) by {
                assert(t1[i] == t[i + 1] && t1[j] == t[j + 1]);
            }
        }
        law_sorted_distinct_unique(s1, t1);
        assert(s =~= seq![s[0]] + s1);
        assert(t =~= seq![t[0]] + t1);
    }
}

/// A strictly sorted sequence with the items of `items` is `sorted_distinct(items)`.
pub proof fn lemma_sorted_distinct_is(s: Seq<Seq<char>>, items: Seq<Seq<char>>)
    requires
        strictly_sorted(s),
        same_items(s, items),
    ensures
        sorted_distinct(items) == s,
{
    let c = sorted_distinct(items);
    assert(strictly_sorted(c) && same_items(c, items));
    assert(same_items(c, s));
    law_sorted_distinct_unique(c, s);
}

/// Whether `a` comes before `b` in code-point order.
pub fn less_chars(a: &Vec<char>, b: &Vec<char>) -> (r: bool)
    ensures
        r == seq_less(a@, b@),
{
    let mut i: usize = 0;
    proof {
        assert(a@.skip(0) =~= a@);
        assert(b@.skip(0) =~= b@);
    }
    while i < a.len() && i < b.len() && a[i] == b[i]
        invariant
            i <= a.len(),
            i <= b.len(),
            seq_less(a@, b@) == seq_less(a@.skip(i as int), b@.skip(i as int)),
        decreases a.len() - i,
    {
        proof {
            assert(a@.skip(i as int).drop_first() =~= a@.skip(i + 1));
            assert(b@.skip(i as int).drop_first() =~= b@.skip(i + 1));
        }
        i = i + 1;
    }
    if i == a.len() {
        i < b.len()
    } else if i == b.len() {
        false
    } else {
        (a[i] as u32) < (b[i] as u32)
    }
}

/// Inserts `x` into the strictly sorted `out`, unless it is there already.
fn insert_sorted(out: &mut Vec<Vec<char>>, x: Vec<char>)
    requires
        strictly_sorted(views(old(out)@)),
    ensures
        strictly_sorted(views(final(out)@)),
        forall|y: Seq<char>| views(final(out)@).contains(y) <==> (views(old(out)@).contains(y)
            || y == x@),
{
    let ghost o = views(out@);
    let mut j: usize = 0;
    while j < out.len() && less_chars(&out[j], &x)
        invariant
            j <= out.len(),
            o == views(out@),
            forall|k: int| 0 <= k < j ==> seq_less(#[trigger] o[k], x@),
        decreases out.len() - j,
    {
        proof {
            assert(o[j as int] == out@[j as int]@);
        }
        j = j + 1;
    }
    if j < out.len() {
        proof {
            assert(o[j as int] == out@[j as int]@);
        }
        if crate::text::chars_eq(&out[j], &x) {
            proof {
                assert(o.contains(x@));
            }
            return;
        }
        proof {
            lemma_less_total(o[j as int], x@);
        }
    }
    let ghost xv = x@;
    out.insert(j, x);
    proof {
        let n = views(out@);
        assert(n =~= o.insert(j as int, xv));
        assert forall|a: int, b: int| 0 <= a < b < n.len() implies seq_less(
            #[trigger] n[a],
            #[trigger] n[b],
        ) by {
            if b < j {
                assert(n[a] == o[a] && n[b] == o[b]);
            } else if b == j {
                assert(n[a] == o[a]);
            } else if a < j {
                assert(n[a] == o[a] && n[b] == o[b - 1]);
            } else if a == j {
                assert(n[b] == o[b - 1]);
                if b - 1 > j {
                    assert(seq_less(o[j as int], o[b - 1]));
                    lemma_less_transitive(xv, o[j as int], o[b - 1]);
                }
            } else {
                assert(n[a] == o[a - 1] && n[b] == o[b - 1]);
            }
        }
        assert forall|y: Seq<char>| n.contains(y) <==> (o.contains(y) || y == xv) by {
            if n.contains(y) {
                let i = choose|i: int| 0 <= i < n.len() && n[i] == y;
                if i < j {
                    assert(o[i] == y);
                } else if i > j {
                    assert(o[i - 1] == y);
                }
            }
            if o.contains(y) {
                let i = choose|i: int| 0 <= i < o.len() && o[i] == y;
                if i < j {
                    assert(n[i] == y);
                } else {
                    assert(n[i + 1] == y);
                }
            }
            if y == xv {
                assert(n[j as int] == y);
            }
        }
    }
}

/// The lines kept for display: each trimmed, the empty ones dropped.
pub open spec fn kept_lines(raw: Seq<Seq<char>>) -> Seq<Seq<char>>
    decreases raw.len(),
{
    if raw.len() == 0 {
        Seq::empty()
    } else {
        let r = kept_lines(raw.drop_last());
        if trim(raw.last()).len() > 0 {
            r.push(trim(raw.last()))
        } else {
            r
        }
    }
}

/// The last `n` items of `s` (all of them where there are no more than `n`).
pub open spec fn last_n(s: Seq<Seq<char>>, n: nat) -> Seq<Seq<char>> {
    if s.len() > n {
        s.skip(s.len() - n)
    } else {
        s
    }
}

/// The log lines shown for the lines read from the gateway's log files:
/// trimmed, empty ones dropped, sorted, repeats removed, and the last
/// `lines` of them kept (100 where no count is given).
pub open spec fn shown_log_lines(raw: Seq<Seq<char>>, lines: Option<u32>) -> Seq<Seq<char>> {
    let n = match lines {
        Some(k) => k,
        None => DEFAULT_LOG_LINES,
    };
    last_n(sorted_distinct(kept_lines(raw)), n as nat)
}

/// Selects the log lines to show from the lines read out of the gateway's
/// log files.
pub fn get_logs(raw: &Vec<String>, lines: Option<u32>) -> (r: Vec<String>)
    ensures
        string_views(r@) == shown_log_lines(string_views(raw@), lines),
{
    let n: u32 = match lines {
        Some(k) => k,
        None => DEFAULT_LOG_LINES,
    };
    let ghost rv = string_views(raw@);
    let mut sorted: Vec<Vec<char>> = Vec::new();
    let ghost mut kept: Seq<Seq<char>> = Seq::empty();
    let mut i: usize = 0;
    proof {
        assert(rv.take(0) =~= Seq::<Seq<char>>::empty());
    }
    while i < raw.len()
        invariant
            i <= raw.len(),
            rv == string_views(raw@),
            kept == kept_lines(rv.take(i as int)),
            strictly_sorted(views(sorted@)),
            same_items(views(sorted@), kept),
        decreases raw.len() - i,
    {
        proof {
            assert(rv.take(i + 1).drop_last() =~= rv.take(i as int));
            assert(rv.take(i + 1).last() == raw@[i as int]@);
        }
        let v = chars_of(raw[i].as_str());
        let t = trim_chars(&v);
        if t.len() > 0 {
            let ghost tv = t@;
            insert_sorted(&mut sorted, t);
            proof {
                let old_kept = kept;
                kept = kept.push(tv);
                assert forall|y: Seq<char>| views(sorted@).contains(y) <==> kept.contains(y) by {
                    if kept.contains(y) {
                        let k = choose|k: int| 0 <= k < kept.len() && kept[k] == y;
                        if k < old_kept.len() {
                            assert(old_kept[k] == y);
                        }
                    }
                    if old_kept.contains(y) {
                        let k = choose|k: int| 0 <= k < old_kept.len() && old_kept[k] == y;
                        assert(kept[k] == y);
                    }
                    if y == tv {
                        assert(kept[old_kept.len() as int] == y);
                    }
                }
            }
        }
        i = i + 1;
    }
    proof {
        assert(rv.take(raw@.len() as int) =~= rv);
        lemma_sorted_distinct_is(views(sorted@), kept);
    }
    let total = sorted.len();
    let start: usize = if total > n as usize {
        total - n as usize
    } else {
        0
    };
    let mut out: Vec<String> = Vec::new();
    let mut k: usize = start;
    while k < total
        invariant
            start <= k <= total,
            total == sorted@.len(),
            string_views(out@) == views(sorted@).subrange(start as int, k as int),
        decreases total - k,
    {
        let s = string_of(&sorted[k]);
        proof {
            assert(sorted@[k as int]@ == views(sorted@)[k as int]);
        }
        let ghost before = string_views(out@);
        out.push(s);
        proof {
            assert(string_views(out@) =~= before.push(s@));
            assert(string_views(out@) =~= views(sorted@).subrange(start as int, k + 1));
        }
        k = k + 1;
    }
    proof {
        assert(views(sorted@).subrange(start as int, total as int) =~= last_n(
            views(sorted@),
            n as nat,
        ));
    }
    out
}

/// A strictly sorted sequence with one more item: `x` put in its place,
/// unless it is there already.
pub proof fn lemma_sorted_insert(s: Seq<Seq<char>>, x: Seq<char>) -> (n: Seq<Seq<char>>)
    requires
        strictly_sorted(s),
    ensures
        strictly_sorted(n),
        forall|y: Seq<char>| n.contains(y) <==> (s.contains(y) || y == x),
    decreases s.len(),
{
    if s.len() == 0 {
        let n = seq![x];
        assert forall|y: Seq<char>| n.contains(y) <==> (s.contains(y) || y == x) by {
            if y == x {
                assert(n[0] == y);
            }
        }
        n
    } else if s[0] == x {
        assert(s.contains(s[0]));
        s
    } else if seq_less(x, s[0]) {
        let n = seq![x] + s;
        assert forall|i: int, j: int| 0 <= i < j < n.len() implies seq_less(
            #[trigger] n[i],
            #[trigger] n[j],
        ) by {
            if i == 0 {
                if j > 1 {
                    assert(seq_less(s[0], s[j - 1]));
                    lemma_less_transitive(x, s[0], s[j - 1]);
                }
            } else {
                assert(n[i] == s[i - 1] && n[j] == s[j - 1]);
            }
        }
        assert forall|y: Seq<char>| n.contains(y) <==> (s.contains(y) || y == x) by {
            if n.contains(y) {
                let i = choose|i: int| 0 <= i < n.len() && n[i] == y;
                if i > 0 {
                    assert(s[i - 1] == y);
                }
            }
            if s.contains(y) {
                let i = choose|i: int| 0 <= i < s.len() && s[i] == y;
                assert(n[i + 1] == y);
            }
            if y == x {
                assert(n[0] == y);
            }
        }
        n
    } else {
        lemma_less_total(x, s[0]);
        let s1 = s.drop_first();
        assert(strictly_sorted(s1)) by {
            assert forall|i: int, j: int| 0 <= i < j < s1.len() implies seq_less(
                #[trigger] s1[i],
                #[trigger] s1[j],
            ) by {
                assert(s1[i] == s[i + 1] && s1[j] == s[j + 1]);
            }
        }
        let n1 = lemma_sorted_insert(s1, x);
        let n = seq![s[0]] + n1;
        assert forall|i: int, j: int| 0 <= i < j < n.len() implies seq_less(
            #[trigger] n[i],
            #[trigger] n[j],
        ) by {
            if i == 0 {
                assert(n[j] == n1[j - 1]);
                assert(n1.contains(n1[j - 1]));
                if n1[j - 1] != x {
                    assert(s1.contains(n1[j - 1]));
                    let k = choose|k: int| 0 <= k < s1.len() && s1[k] == n1[j - 1];
                    assert(s[k + 1] == n1[j - 1]);
                }
            } else {
                assert(n[i] == n1[i - 1] && n[j] == n1[j - 1]);
            }
        }
        assert forall|y: Seq<char>| n.contains(y) <==> (s.contains(y) || y == x) by {
            if n.contains(y) {
                let i = choose|i: int| 0 <= i < n.len() && n[i] == y;
                if i > 0 {
                    assert(n1[i - 1] == y);
                    assert(n1.contains(y));
                    if y != x {
                        let k = choose|k: int| 0 <= k < s1.len() && s1[k] == y;
                        assert(s[k + 1] == y);
                    }
                } else {
                    assert(s[0] == y);
                }
            }
            if s.contains(y) {
                let i = choose|i: int| 0 <= i < s.len() && s[i] == y;
                if i == 0 {
                    assert(n[0] == y);
                } else {
                    assert(s1[i - 1] == y);
                    assert(s1.contains(y));
                    let k = choose|k: int| 0 <= k < n1.len() && n1[k] == y;
                    assert(n[k + 1] == y);
                }
            }
            if y == x {
                assert(n1.contains(y));
                let k = choose|k: int| 0 <= k < n1.len() && n1[k] == y;
                assert(n[k + 1] == y);
            }
        }
        n
    }
}

/// Every sequence of items can be sorted with its repeats removed, so
/// `sorted_distinct` is strictly sorted and holds the same items.
pub proof fn lemma_sorted_distinct(items: Seq<Seq<char>>)
    ensures
        strictly_sorted(sorted_distinct(items)),
        same_items(sorted_distinct(items), items),
    decreases items.len(),
{
    if items.len() == 0 {
        let e = Seq::<Seq<char>>::empty();
        assert(strictly_sorted(e) && same_items(e, items));
    } else {
        let rest = items.drop_last();
        lemma_sorted_distinct(rest);
        let w = lemma_sorted_insert(sorted_distinct(rest), items.last());
        assert forall|y: Seq<char>| w.contains(y) <==> items.contains(y) by {
            if items.contains(y) {
                let i = choose|i: int| 0 <= i < items.len() && items[i] == y;
                if i < rest.len() {
                    assert(rest[i] == y);
                    assert(rest.contains(y));
                }
            }
            if rest.contains(y) {
                let i = choose|i: int| 0 <= i < rest.len() && rest[i] == y;
                assert(items[i] == y);
            }
            if y == items.last() {
                assert(items[items.len() - 1] == y);
            }
        }
        assert(strictly_sorted(w) && same_items(w, items));
    }
}

/// Each kept line is the trimmed text of a line read, and not empty.
pub proof fn lemma_kept_lines(raw: Seq<Seq<char>>)
    ensures
        forall|x: Seq<char>| #[trigger] kept_lines(raw).contains(x) ==> x.len() > 0 && exists|
            j: int,
        | 0 <= j < raw.len() && x == trim(raw[j]),
    decreases raw.len(),
{
    if raw.len() > 0 {
        let rest = raw.drop_last();
        lemma_kept_lines(rest);
        assert forall|x: Seq<char>| #[trigger] kept_lines(raw).contains(x) implies x.len() > 0
            && exists|j: int| 0 <= j < raw.len() && x == trim(raw[j]) by {
            let k = kept_lines(rest);
            if trim(raw.last()).len() > 0 && x == trim(raw.last()) {
                assert(x == trim(raw[raw.len() - 1]));
            } else {
                let i = choose|i: int| 0 <= i < kept_lines(raw).len() && kept_lines(raw)[i] == x;
                assert(k[i] == x);
                assert(k.contains(x));
                let j = choose|j: int| 0 <= j < rest.len() && x == trim(rest[j]);
                assert(raw[j] == rest[j]);
            }
        }
    }
}

/// What the log view shows: lines sorted without repeats, at most the
/// number asked for (100 by default), each the trimmed text of a line read
/// from the log files and not empty; and every such line left out comes
/// before all those shown, so the view shows the last ones in order.
pub proof fn law_shown_log_lines(raw: Seq<Seq<char>>, lines: Option<u32>)
    ensures
        strictly_sorted(shown_log_lines(raw, lines)),
        shown_log_lines(raw, lines).len() <= (match lines {
            Some(k) => k,
            None => DEFAULT_LOG_LINES,
        }),
        forall|i: int|
            0 <= i < shown_log_lines(raw, lines).len() ==> (#[trigger] shown_log_lines(raw, lines)[i]).len()
                > 0 && exists|j: int|
                0 <= j < raw.len() && shown_log_lines(raw, lines)[i] == trim(raw[j]),
        forall|x: Seq<char>, i: int|
            #![trigger kept_lines(raw).contains(x), shown_log_lines(raw, lines)[i]]
            kept_lines(raw).contains(x) && !shown_log_lines(raw, lines).contains(x) && 0 <= i
                < shown_log_lines(raw, lines).len() ==> seq_less(x, shown_log_lines(raw, lines)[i]),
{
    let n: nat = match lines {
        Some(k) => k as nat,
        None => DEFAULT_LOG_LINES as nat,
    };
    let kept = kept_lines(raw);
    let sd = sorted_distinct(kept);
    lemma_sorted_distinct(kept);
    lemma_kept_lines(raw);
    let off: int = if sd.len() > n {
        sd.len() - n
    } else {
        0
    };
    let shown = shown_log_lines(raw, lines);
    assert(shown =~= sd.skip(off));
    assert forall|i: int, j: int| 0 <= i < j < shown.len() implies seq_less(
        #[trigger] shown[i],
        #[trigger] shown[j],
    ) by {
        assert(shown[i] == sd[i + off] && shown[j] == sd[j + off]);
    }
    assert forall|i: int| 0 <= i < shown.len() implies (#[trigger] shown[i]).len() > 0 && exists|
        j: int,
    | 0 <= j < raw.len() && shown[i] == trim(raw[j]) by {
        assert(shown[i] == sd[i + off]);
        assert(sd.contains(sd[i + off]));
        assert(kept.contains(shown[i]));
    }
    assert forall|x: Seq<char>, i: int|
        #![trigger kept.contains(x), shown[i]]
        kept.contains(x) && !shown.contains(x) && 0 <= i < shown.len() implies seq_less(
        x,
        shown[i],
    ) by {
        assert(sd.contains(x));
        let k = choose|k: int| 0 <= k < sd.len() && sd[k] == x;
        if k >= off {
            assert(shown[k - off] == x);
        }
        assert(shown[i] == sd[i + off]);
    }
}

} // verus!
