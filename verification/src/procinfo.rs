//! Reading process information out of the text that `ps`, `lsof` and
//! `netstat` print.
use vstd::prelude::*;
use vstd::string::StringSliceAdditionalSpecFns;
use crate::number::{
    lemma_zero_padded, zero_padded, decimal_string, decimal_chars, parse_i32, parse_i32_chars, parse_u32, parse_u32_chars,
    parse_u64, parse_u64_chars,
};
use crate::text::{
    chars_of, has_prefix, is_whitespace_char, is_ws, lines, lines_chars, split_char, split_chars,
    split_once_char, split_once_chars, starts_with_chars, string_of, trim, trim_chars,
    trim_start_seq, trim_start_seq_chars, views, lemma_split_cons, lemma_split_no_sep,
    lemma_split_once_none, lemma_trim_plain,
};

verus! {

broadcast use vstd::string::group_string_axioms;

// ---------------------------------------------------------------------------
// Whitespace-separated tokens
// ---------------------------------------------------------------------------

/// The maximal runs of non-whitespace characters of `s`, in order
/// (`str::split_whitespace`).
pub open spec fn ws_tokens(s: Seq<char>) -> Seq<Seq<char>>
    decreases s.len(),
{
    if s.len() == 0 {
        Seq::empty()
    } else {
        let r = ws_tokens(s.drop_last());
        if is_ws(s.last()) {
            r
        } else if s.len() >= 2 && !is_ws(s[s.len() - 2]) && r.len() > 0 {
            r.update(r.len() - 1, r.last().push(s.last()))
        } else {
            r.push(seq![s.last()])
        }
    }
}

/// The whitespace-separated tokens of `v`.
pub fn split_whitespace_chars(v: &Vec<char>) -> (r: Vec<Vec<char>>)
    ensures
        views(r@) == ws_tokens(v@),
{
    let mut out: Vec<Vec<char>> = Vec::new();
    let mut cur: Vec<char> = Vec::new();
    let mut i: usize = 0;
    proof {
        assert(v@.take(0) =~= Seq::<char>::empty());
    }
    while i < v.len()
        invariant
            i <= v.len(),
            cur@.len() == 0 ==> views(out@) == ws_tokens(v@.take(i as int)),
            cur@.len() > 0 ==> views(out@).push(cur@) == ws_tokens(v@.take(i as int)),
            cur@.len() > 0 ==> i > 0 && !is_ws(v@[i - 1]),
            cur@.len() == 0 ==> (i == 0 || is_ws(v@[i - 1])),
        decreases v.len() - i,
    {
        let ghost prefix = v@.take(i + 1);
        proof {
            assert(prefix.drop_last() =~= v@.take(i as int));
            assert(prefix.last() == v@[i as int]);
            if i >= 1 {
                assert(prefix[prefix.len() - 2] == v@[i - 1]);
            }
        }
        let c = v[i];
        if is_whitespace_char(c) {
            if cur.len() > 0 {
                let done = cur;
                let ghost before = views(out@);
                out.push(done);
                cur = Vec::new();
                proof {
                    assert(views(out@) =~= before.push(done@));
                }
            }
        } else {
            let ghost before = views(out@);
            let ghost cur_before = cur@;
            cur.push(c);
            proof {
                if cur_before.len() > 0 {
                    assert(views(out@).push(cur@) =~= before.push(cur_before).update(
                        before.len() as int,
                        cur_before.push(c),
                    ));
                } else {
                    assert(cur@ =~= seq![c]);
                    assert(views(out@).push(cur@) =~= before.push(seq![c]));
                }
            }
        }
        i = i + 1;
    }
    proof {
        assert(v@.take(v@.len() as int) =~= v@);
    }
    if cur.len() > 0 {
        let ghost before = views(out@);
        let done = cur;
        out.push(done);
        proof {
            assert(views(out@) =~= before.push(done@));
        }
    }
    out
}

// ---------------------------------------------------------------------------
// Elapsed time as `ps -o etime=` prints it
// ---------------------------------------------------------------------------

/// `n` where it reads as a number, else 0 (`parse().unwrap_or(0)`).
pub open spec fn u64_or_zero(s: Seq<char>) -> nat {
    match parse_u64(s) {
        Some(n) => n as nat,
        None => 0,
    }
}

/// The number of seconds an elapsed-time text names, in unbounded
/// arithmetic: `[[DD-]HH:]MM:SS`, surrounding whitespace ignored, the day
/// count before the first `-`; a field that is not a number counts as 0;
/// anything but two or three `:`-separated fields is no time.
pub open spec fn etime_value(s: Seq<char>) -> Option<nat> {
    let t = trim(s);
    let (days, rest) = match split_once_char(t, '-') {
        Some((d, r)) => (u64_or_zero(d), r),
        None => (0nat, t),
    };
    let parts = split_char(rest, ':');
    if parts.len() == 2 {
        Some(days * 86400 + u64_or_zero(parts[0]) * 60 + u64_or_zero(parts[1]))
    } else if parts.len() == 3 {
        Some(days * 86400 + u64_or_zero(parts[0]) * 3600 + u64_or_zero(parts[1]) * 60
            + u64_or_zero(parts[2]))
    } else {
        None
    }
}

/// The elapsed-time text `h:m:s` of three numbers, each after the given
/// number of leading zeros (`ps` prints `12:00:05`).
pub open spec fn clock_text(kh: nat, h: u64, km: nat, m: u64, ks: nat, sec: u64) -> Seq<char> {
    zero_padded(kh, h as nat) + seq![':'] + zero_padded(km, m as nat) + seq![':'] + zero_padded(
        ks,
        sec as nat,
    )
}

/// The elapsed-time text `m:s` of two numbers, each after the given number
/// of leading zeros.
pub open spec fn minutes_text(km: nat, m: u64, ks: nat, sec: u64) -> Seq<char> {
    zero_padded(km, m as nat) + seq![':'] + zero_padded(ks, sec as nat)
}

proof fn lemma_clock_pieces(kh: nat, h: u64, km: nat, m: u64, ks: nat, sec: u64)
    ensures
        clock_text(kh, h, km, m, ks, sec).len() > 0,
        forall|i: int|
            0 <= i < clock_text(kh, h, km, m, ks, sec).len() ==> #[trigger] clock_text(
                kh,
                h,
                km,
                m,
                ks,
                sec,
            )[i] != '-',
        !is_ws(clock_text(kh, h, km, m, ks, sec)[0]),
        !is_ws(clock_text(kh, h, km, m, ks, sec).last()),
        split_char(clock_text(kh, h, km, m, ks, sec), ':') == seq![
            zero_padded(kh, h as nat),
            zero_padded(km, m as nat),
            zero_padded(ks, sec as nat),
        ],
{
    let (dh, dm, ds) = (zero_padded(kh, h as nat), zero_padded(km, m as nat), zero_padded(
        ks,
        sec as nat,
    ));
    lemma_zero_padded(kh, h);
    lemma_zero_padded(km, m);
    lemma_zero_padded(ks, sec);
    let t = clock_text(kh, h, km, m, ks, sec);
    assert(t[0] == dh[0]);
    assert(t.last() == ds[ds.len() - 1]);
    assert forall|i: int| 0 <= i < t.len() implies #[trigger] t[i] != '-' by {
        if i < dh.len() {
            assert(t[i] == dh[i]);
        } else if i == dh.len() {
        } else if i < dh.len() + 1 + dm.len() {
            assert(t[i] == dm[i - dh.len() - 1]);
        } else if i == dh.len() + 1 + dm.len() {
        } else {
            assert(t[i] == ds[i - dh.len() - 2 - dm.len()]);
        }
    }
    let tail = dm + seq![':'] + ds;
    assert(t =~= dh + seq![':'] + tail);
    lemma_split_cons(dh, tail, ':');
    lemma_split_cons(dm, ds, ':');
    lemma_split_no_sep(ds, ':');
    assert(split_char(t, ':') =~= seq![dh, dm, ds]);
}

proof fn lemma_minutes_pieces(km: nat, m: u64, ks: nat, sec: u64)
    ensures
        minutes_text(km, m, ks, sec).len() > 0,
        forall|i: int|
            0 <= i < minutes_text(km, m, ks, sec).len() ==> #[trigger] minutes_text(
                km,
                m,
                ks,
                sec,
            )[i] != '-',
        !is_ws(minutes_text(km, m, ks, sec)[0]),
        !is_ws(minutes_text(km, m, ks, sec).last()),
        split_char(minutes_text(km, m, ks, sec), ':') == seq![
            zero_padded(km, m as nat),
            zero_padded(ks, sec as nat),
        ],
{
    let (dm, ds) = (zero_padded(km, m as nat), zero_padded(ks, sec as nat));
    lemma_zero_padded(km, m);
    lemma_zero_padded(ks, sec);
    let t = minutes_text(km, m, ks, sec);
    assert(t[0] == dm[0]);
    assert(t.last() == ds[ds.len() - 1]);
    assert forall|i: int| 0 <= i < t.len() implies #[trigger] t[i] != '-' by {
        if i < dm.len() {
            assert(t[i] == dm[i]);
        } else if i > dm.len() {
            assert(t[i] == ds[i - dm.len() - 1]);
        }
    }
    lemma_split_cons(dm, ds, ':');
    lemma_split_no_sep(ds, ':');
    assert(split_char(t, ':') =~= seq![dm, ds]);
}

/// `h:m:s` is `h` hours, `m` minutes and `s` seconds, for numbers of any
/// size and with any leading zeros (`12:00:05` is twelve hours and five
/// seconds), and `m:s` is `m` minutes and `s` seconds.
pub proof fn law_etime_clock(kh: nat, h: u64, km: nat, m: u64, ks: nat, sec: u64)
    ensures
        etime_value(clock_text(kh, h, km, m, ks, sec)) == Some((h * 3600 + m * 60 + sec) as nat),
        etime_value(minutes_text(km, m, ks, sec)) == Some((m * 60 + sec) as nat),
{
    lemma_zero_padded(kh, h);
    lemma_zero_padded(km, m);
    lemma_zero_padded(ks, sec);
    let t = clock_text(kh, h, km, m, ks, sec);
    lemma_clock_pieces(kh, h, km, m, ks, sec);
    lemma_trim_plain(t);
    lemma_split_once_none(t, '-');
    let u = minutes_text(km, m, ks, sec);
    lemma_minutes_pieces(km, m, ks, sec);
    lemma_trim_plain(u);
    lemma_split_once_none(u, '-');
}

/// `d-h:m:s` adds `d` days to `h:m:s`.
pub proof fn law_etime_days(kd: nat, d: u64, kh: nat, h: u64, km: nat, m: u64, ks: nat, sec: u64)
    ensures
        etime_value(zero_padded(kd, d as nat) + seq!['-'] + clock_text(kh, h, km, m, ks, sec))
            == Some((d * 86400 + h * 3600 + m * 60 + sec) as nat),
{
    lemma_zero_padded(kd, d);
    lemma_zero_padded(kh, h);
    lemma_zero_padded(km, m);
    lemma_zero_padded(ks, sec);
    let dd = zero_padded(kd, d as nat);
    let c = clock_text(kh, h, km, m, ks, sec);
    let t = dd + seq!['-'] + c;
    lemma_clock_pieces(kh, h, km, m, ks, sec);
    assert(t[0] == dd[0]);
    assert(t.last() == c.last());
    lemma_trim_plain(t);
    assert forall|j: int| 0 <= j < dd.len() implies t[j] != '-' by {
        assert(t[j] == dd[j]);
    }
    crate::text::lemma_find_char(t, '-', dd.len() as int);
    assert(t.take(dd.len() as int) =~= dd);
    assert(t.skip(dd.len() as int + 1) =~= c);
}

/// The elapsed time fits in 64 bits (the computation does not overflow).
pub open spec fn etime_fits(s: Seq<char>) -> bool {
    etime_value(s) matches Some(n) ==> n <= u64::MAX
}

fn u64_or_zero_exec(v: &Vec<char>) -> (r: u64)
    ensures
        r as nat == u64_or_zero(v@),
{
    match parse_u64_chars(v) {
        Some(n) => n,
        None => 0,
    }
}

/// The elapsed time in seconds, computed without overflow in 128 bits.
fn etime_value_exec(s: &str) -> (r: Option<u128>)
    ensures
        match r {
            Some(n) => etime_value(s@) == Some(n as nat),
            None => etime_value(s@) is None,
        },
{
    let v = chars_of(s);
    let t = trim_chars(&v);
    let (days, rest) = match split_once_chars(&t, '-') {
        Some((d, r)) => (u64_or_zero_exec(&d), r),
        None => (0u64, t),
    };
    let parts = split_chars(&rest, ':');
    proof {
        assert(views(parts@).len() == parts@.len());
    }
    let d = days as u128;
    if parts.len() == 2 {
        let mm = u64_or_zero_exec(&parts[0]) as u128;
        let ss = u64_or_zero_exec(&parts[1]) as u128;
        proof {
            assert(parts@[0]@ == views(parts@)[0]);
            assert(parts@[1]@ == views(parts@)[1]);
            assert(d * 86400 <= 0xffff_ffff_ffff_ffff * 86400) by (nonlinear_arith)
                requires
                    d <= 0xffff_ffff_ffff_ffffu128,
            ;
            assert(mm * 60 <= 0xffff_ffff_ffff_ffff * 60) by (nonlinear_arith)
                requires
                    mm <= 0xffff_ffff_ffff_ffffu128,
            ;
        }
        Some(d * 86400 + mm * 60 + ss)
    } else if parts.len() == 3 {
        let hh = u64_or_zero_exec(&parts[0]) as u128;
        let mm = u64_or_zero_exec(&parts[1]) as u128;
        let ss = u64_or_zero_exec(&parts[2]) as u128;
        proof {
            assert(parts@[0]@ == views(parts@)[0]);
            assert(parts@[1]@ == views(parts@)[1]);
            assert(parts@[2]@ == views(parts@)[2]);
            assert(d * 86400 <= 0xffff_ffff_ffff_ffff * 86400) by (nonlinear_arith)
                requires
                    d <= 0xffff_ffff_ffff_ffffu128,
            ;
            assert(hh * 3600 <= 0xffff_ffff_ffff_ffff * 3600) by (nonlinear_arith)
                requires
                    hh <= 0xffff_ffff_ffff_ffffu128,
            ;
            assert(mm * 60 <= 0xffff_ffff_ffff_ffff * 60) by (nonlinear_arith)
                requires
                    mm <= 0xffff_ffff_ffff_ffffu128,
            ;
        }
        Some(d * 86400 + hh * 3600 + mm * 60 + ss)
    } else {
        None
    }
}

/// Whether the elapsed-time text `s` can be read without overflow.
pub fn etime_in_range(s: &str) -> (b: bool)
    ensures
        b == etime_fits(s@),
{
    match etime_value_exec(s) {
        Some(n) => n <= 0xffff_ffff_ffff_ffffu128,
        None => true,
    }
}

/// Reads an elapsed time as `ps -o etime=` prints it (`MM:SS`, `HH:MM:SS`
/// or `DD-HH:MM:SS`) into seconds.
pub fn parse_etime(s: &str) -> (r: Option<u64>)
    requires
        etime_fits(s@),
    ensures
        match r {
            Some(n) => etime_value(s@) == Some(n as nat),
            None => etime_value(s@) is None,
        },
{
    match etime_value_exec(s) {
        Some(n) => Some(n as u64),
        None => None,
    }
}

/// The uptime that `ps -o rss=,etime= -p PID` reports: its second
/// whitespace-separated field, read as an elapsed time.
pub open spec fn ps_uptime(out: Seq<char>) -> Option<nat> {
    let tokens = ws_tokens(out);
    if tokens.len() >= 2 {
        etime_value(tokens[1])
    } else {
        None
    }
}

/// Whether the uptime in the output of `ps` can be read without overflow.
pub open spec fn ps_uptime_fits(out: Seq<char>) -> bool {
    ps_uptime(out) matches Some(n) ==> n <= u64::MAX
}

/// Whether the uptime field in the output of `ps` can be read without
/// overflow.
pub fn ps_uptime_in_range(out: &str) -> (b: bool)
    ensures
        b == ps_uptime_fits(out@),
{
    let v = chars_of(out);
    let tokens = split_whitespace_chars(&v);
    if tokens.len() >= 2 {
        proof {
            assert(tokens@[1]@ == views(tokens@)[1]);
        }
        let t = string_of(&tokens[1]);
        etime_in_range(t.as_str())
    } else {
        true
    }
}

/// The uptime in seconds from the output of `ps -o rss=,etime= -p PID`.
pub fn ps_uptime_seconds(out: &str) -> (r: Option<u64>)
    requires
        ps_uptime_fits(out@),
    ensures
        match r {
            Some(n) => ps_uptime(out@) == Some(n as nat),
            None => ps_uptime(out@) is None,
        },
{
    let v = chars_of(out);
    let tokens = split_whitespace_chars(&v);
    if tokens.len() >= 2 {
        proof {
            assert(tokens@[1]@ == views(tokens@)[1]);
        }
        let t = string_of(&tokens[1]);
        parse_etime(t.as_str())
    } else {
        None
    }
}

// ---------------------------------------------------------------------------
// Listening processes as `lsof -ti :PORT` reports them
// ---------------------------------------------------------------------------

/// The numbers on the lines of `ls`, each trimmed; lines that are not
/// numbers are dropped.
pub open spec fn numbers_on_lines(ls: Seq<Seq<char>>) -> Seq<u32>
    decreases ls.len(),
{
    if ls.len() == 0 {
        Seq::empty()
    } else {
        let r = numbers_on_lines(ls.drop_last());
        match parse_u32(trim(ls.last())) {
            Some(n) => r.push(n),
            None => r,
        }
    }
}

/// The process on the first line of the output of `lsof -ti :PORT`.
pub open spec fn lsof_first_pid(out: Seq<char>) -> Option<u32> {
    let ls = lines(out);
    if ls.len() > 0 {
        parse_u32(trim(ls[0]))
    } else {
        None
    }
}

/// The process listening on a port, from the output of `lsof -ti :PORT`:
/// the number on its first line.
pub fn pid_from_lsof(out: &str) -> (r: Option<u32>)
    ensures
        r == lsof_first_pid(out@),
{
    let v = chars_of(out);
    let ls = lines_chars(&v);
    if ls.len() > 0 {
        proof {
            assert(ls@[0]@ == views(ls@)[0]);
        }
        let t = trim_chars(&ls[0]);
        parse_u32_chars(&t)
    } else {
        None
    }
}

/// Every process listening on a port, from the output of `lsof -ti :PORT`:
/// the number on each of its lines.
pub fn pids_from_lsof(out: &str) -> (r: Vec<u32>)
    ensures
        r@ == numbers_on_lines(lines(out@)),
{
    let v = chars_of(out);
    let ls = lines_chars(&v);
    let ghost lv = views(ls@);
    let mut res: Vec<u32> = Vec::new();
    let mut i: usize = 0;
    proof {
        assert(lv.take(0) =~= Seq::<Seq<char>>::empty());
    }
    while i < ls.len()
        invariant
            i <= ls.len(),
            lv == views(ls@),
            lv == lines(out@),
            res@ == numbers_on_lines(lv.take(i as int)),
        decreases ls.len() - i,
    {
        proof {
            assert(lv.take(i + 1).drop_last() =~= lv.take(i as int));
            assert(lv.take(i + 1).last() == ls@[i as int]@);
        }
        let t = trim_chars(&ls[i]);
        match parse_u32_chars(&t) {
            Some(n) => {
                res.push(n);
            },
            None => {},
        }
        i = i + 1;
    }
    proof {
        assert(lv.take(ls@.len() as int) =~= lv);
    }
    res
}

/// The first line of `lsof`'s output names the first process listed.
pub proof fn law_lsof_first_pid_is_first_listed(out: Seq<char>)
    ensures
        lsof_first_pid(out) matches Some(p) ==> numbers_on_lines(lines(out)).len() > 0
            && numbers_on_lines(lines(out))[0] == p,
{
    let ls = lines(out);
    if lsof_first_pid(out) is Some {
        lemma_numbers_first(ls);
    }
}

proof fn lemma_numbers_first(ls: Seq<Seq<char>>)
    requires
        ls.len() > 0,
        parse_u32(trim(ls[0])) is Some,
    ensures
        numbers_on_lines(ls).len() > 0,
        numbers_on_lines(ls)[0] == parse_u32(trim(ls[0]))->0,
    decreases ls.len(),
{
    if ls.len() > 1 {
        assert(ls.drop_last()[0] == ls[0]);
        lemma_numbers_first(ls.drop_last());
        let r = numbers_on_lines(ls.drop_last());
        match parse_u32(trim(ls.last())) {
            Some(n) => {
                assert(numbers_on_lines(ls) == r.push(n));
                assert(r.push(n)[0] == r[0]);
            },
            None => {},
        }
    } else {
        assert(ls.drop_last() =~= Seq::<Seq<char>>::empty());
        assert(numbers_on_lines(ls.drop_last()) =~= Seq::<u32>::empty());
        assert(ls.last() == ls[0]);
        let n = parse_u32(trim(ls[0]))->0;
        assert(numbers_on_lines(ls) == Seq::<u32>::empty().push(n));
    }
}

// ---------------------------------------------------------------------------
// Listening processes as `netstat -ano` reports them
// ---------------------------------------------------------------------------

/// `p` occurs in `s` as a contiguous run.
pub open spec fn contains_seq(s: Seq<char>, p: Seq<char>) -> bool {
    exists|i: int| 0 <= i && i + p.len() <= s.len() && #[trigger] s.subrange(i, i + p.len()) == p
}

/// Whether `p` occurs in `s`.
pub fn contains_chars(s: &Vec<char>, p: &Vec<char>) -> (r: bool)
    ensures
        r == contains_seq(s@, p@),
{
    if p.len() > s.len() {
        return false;
    }
    if p.len() == 0 {
        proof {
            assert(s@.subrange(0int, 0int + p@.len()) =~= p@);
        }
        return true;
    }
    let mut i: usize = 0;
    while i <= s.len() - p.len()
        invariant
            1 <= p.len() <= s.len(),
            i <= s.len() - p.len() + 1,
            forall|j: int| 0 <= j < i ==> #[trigger] s@.subrange(j, j + p@.len()) != p@,
        decreases s.len() - i,
    {
        let seg = crate::text::slice_chars(s, i, i + p.len());
        if crate::text::chars_eq(&seg, p) {
            return true;
        }
        i = i + 1;
    }
    proof {
        assert forall|j: int|
            0 <= j && j + p@.len() <= s@.len() implies #[trigger] s@.subrange(j, j + p@.len())
            != p@ by {
            assert(j < i);
        }
    }
    false
}

/// The text `:PORT`.
pub open spec fn port_tag(port: u16) -> Seq<char> {
    seq![':'] + decimal_string(port as nat)
}

/// A `netstat -ano` line for a socket listening on `port`.
pub open spec fn netstat_listening(line: Seq<char>, port: u16) -> bool {
    contains_seq(line, port_tag(port)) && contains_seq(line, "LISTENING"@)
}

/// The process a listening line names: its last field, read as a number.
pub open spec fn netstat_line_pid(line: Seq<char>) -> Option<u32> {
    let tokens = ws_tokens(line);
    if tokens.len() > 0 {
        parse_u32(tokens.last())
    } else {
        None
    }
}

/// The processes that the lines of `netstat -ano` name as listening on `port`.
pub open spec fn netstat_pids(ls: Seq<Seq<char>>, port: u16) -> Seq<u32>
    decreases ls.len(),
{
    if ls.len() == 0 {
        Seq::empty()
    } else {
        let r = netstat_pids(ls.drop_last(), port);
        if netstat_listening(ls.last(), port) && netstat_line_pid(ls.last()) is Some {
            r.push(netstat_line_pid(ls.last())->0)
        } else {
            r
        }
    }
}

/// The process named by the first line of `ls` that shows a socket
/// listening on `port` with a readable process number.
pub open spec fn netstat_first_pid(ls: Seq<Seq<char>>, port: u16) -> Option<u32>
    decreases ls.len(),
{
    if ls.len() == 0 {
        None
    } else if netstat_listening(ls[0], port) && netstat_line_pid(ls[0]) is Some {
        netstat_line_pid(ls[0])
    } else {
        netstat_first_pid(ls.drop_first(), port)
    }
}

/// The characters of `:PORT`.
fn port_tag_chars(port: u16) -> (r: Vec<char>)
    ensures
        r@ == port_tag(port),
{
    let mut r: Vec<char> = Vec::new();
    r.push(':');
    let d = decimal_chars(port as u64);
    crate::text::append_chars(&mut r, &d);
    proof {
        assert(r@ =~= port_tag(port));
    }
    r
}

/// The process number on a `netstat` line if the line shows a socket
/// listening on `port`.
fn netstat_line_match(line: &Vec<char>, tag: &Vec<char>, listening: &Vec<char>, port: u16) -> (r:
    Option<u32>)
    requires
        tag@ == port_tag(port),
        listening@ == "LISTENING"@,
    ensures
        r == (if netstat_listening(line@, port) {
            netstat_line_pid(line@)
        } else {
            None
        }),
{
    if contains_chars(line, tag) && contains_chars(line, listening) {
        let tokens = split_whitespace_chars(line);
        if tokens.len() > 0 {
            proof {
                assert(tokens@[tokens@.len() - 1]@ == views(tokens@).last());
            }
            parse_u32_chars(&tokens[tokens.len() - 1])
        } else {
            None
        }
    } else {
        None
    }
}

/// The process listening on `port`, from the output of `netstat -ano`: the
/// last field of the first line that shows `:PORT` and `LISTENING` and
/// ends in a number.
pub fn pid_from_netstat(out: &str, port: u16) -> (r: Option<u32>)
    ensures
        r == netstat_first_pid(lines(out@), port),
{
    let v = chars_of(out);
    let ls = lines_chars(&v);
    let tag = port_tag_chars(port);
    let listening = chars_of("LISTENING");
    let ghost lv = views(ls@);
    let mut i: usize = 0;
    proof {
        assert(lv.skip(0) =~= lv);
    }
    while i < ls.len()
        invariant
            i <= ls.len(),
            lv == views(ls@),
            lv == lines(out@),
            tag@ == port_tag(port),
            listening@ == "LISTENING"@,
            netstat_first_pid(lv, port) == netstat_first_pid(lv.skip(i as int), port),
        decreases ls.len() - i,
    {
        proof {
            assert(lv.skip(i as int)[0] == ls@[i as int]@);
            assert(lv.skip(i as int).drop_first() =~= lv.skip(i + 1));
        }
        match netstat_line_match(&ls[i], &tag, &listening, port) {
            Some(p) => {
                return Some(p);
            },
            None => {},
        }
        i = i + 1;
    }
    None
}

/// Every process listening on `port`, from the output of `netstat -ano`.
pub fn pids_from_netstat(out: &str, port: u16) -> (r: Vec<u32>)
    ensures
        r@ == netstat_pids(lines(out@), port),
{
    let v = chars_of(out);
    let ls = lines_chars(&v);
    let tag = port_tag_chars(port);
    let listening = chars_of("LISTENING");
    let ghost lv = views(ls@);
    let mut res: Vec<u32> = Vec::new();
    let mut i: usize = 0;
    proof {
        assert(lv.take(0) =~= Seq::<Seq<char>>::empty());
    }
    while i < ls.len()
        invariant
            i <= ls.len(),
            lv == views(ls@),
            lv == lines(out@),
            tag@ == port_tag(port),
            listening@ == "LISTENING"@,
            res@ == netstat_pids(lv.take(i as int), port),
        decreases ls.len() - i,
    {
        proof {
            assert(lv.take(i + 1).drop_last() =~= lv.take(i as int));
            assert(lv.take(i + 1).last() == ls@[i as int]@);
        }
        match netstat_line_match(&ls[i], &tag, &listening, port) {
            Some(p) => {
                res.push(p);
            },
            None => {},
        }
        i = i + 1;
    }
    proof {
        assert(lv.take(ls@.len() as int) =~= lv);
    }
    res
}

/// The process that `pid_from_netstat` reports is the first of those that
/// `pids_from_netstat` lists, and it reports none exactly where the list is
/// empty.
pub proof fn law_netstat_first_is_first_listed(ls: Seq<Seq<char>>, port: u16)
    ensures
        netstat_first_pid(ls, port) is None <==> netstat_pids(ls, port).len() == 0,
        netstat_first_pid(ls, port) matches Some(p) ==> netstat_pids(ls, port)[0] == p,
    decreases ls.len(),
{
    if ls.len() > 0 {
        law_netstat_first_is_first_listed(ls.drop_first(), port);
        lemma_netstat_pids_front(ls, port);
    }
}

/// `netstat_pids` read from the front.
proof fn lemma_netstat_pids_front(ls: Seq<Seq<char>>, port: u16)
    requires
        ls.len() > 0,
    ensures
        netstat_pids(ls, port) == (if netstat_listening(ls[0], port) && netstat_line_pid(ls[0]) is Some {
            seq![netstat_line_pid(ls[0])->0] + netstat_pids(ls.drop_first(), port)
        } else {
            netstat_pids(ls.drop_first(), port)
        }),
    decreases ls.len(),
{
    if ls.len() == 1 {
        assert(ls.drop_first() =~= Seq::<Seq<char>>::empty());
        assert(ls.drop_last() =~= Seq::<Seq<char>>::empty());
        assert(ls.last() == ls[0]);
    } else {
        lemma_netstat_pids_front(ls.drop_last(), port);
        assert(ls.drop_last().drop_first() =~= ls.drop_first().drop_last());
        assert(ls.drop_last()[0] == ls[0]);
        assert(ls.drop_first().last() == ls.last());
        let a = netstat_pids(ls.drop_first().drop_last(), port);
        if netstat_listening(ls[0], port) && netstat_line_pid(ls[0]) is Some {
            let h = seq![netstat_line_pid(ls[0])->0];
            if netstat_listening(ls.last(), port) && netstat_line_pid(ls.last()) is Some {
                assert((h + a).push(netstat_line_pid(ls.last())->0) =~= h + a.push(
                    netstat_line_pid(ls.last())->0,
                ));
            }
        }
    }
}

// ---------------------------------------------------------------------------
// Process start time as WMIC reports it
// ---------------------------------------------------------------------------

/// Bytes read as characters one by one (what `str::parse` of integers sees:
/// any byte outside ASCII is no digit).
pub open spec fn bytes_as_chars(b: Seq<u8>) -> Seq<char> {
    b.map_values(|x: u8| x as char)
}

/// The text of bytes `a..e`.
pub open spec fn field(b: Seq<u8>, a: int, e: int) -> Seq<char> {
    bytes_as_chars(b.subrange(a, e))
}

/// The date and time fields of a WMIC `CreationDate` value
/// (`yyyymmddHHMMSS.ffffff+zzz`): year, month, day, hour, minute, second
/// from its first fourteen bytes; none where it is shorter or a field is
/// not a number.
pub open spec fn wmic_fields(b: Seq<u8>) -> Option<(i32, u32, u32, u32, u32, u32)> {
    if b.len() < 14 {
        None
    } else {
        match (
            parse_i32(field(b, 0, 4)),
            parse_u32(field(b, 4, 6)),
            parse_u32(field(b, 6, 8)),
            parse_u32(field(b, 8, 10)),
            parse_u32(field(b, 10, 12)),
            parse_u32(field(b, 12, 14)),
        ) {
            (Some(y), Some(mo), Some(d), Some(h), Some(mi), Some(s)) => Some((y, mo, d, h, mi, s)),
            _ => None,
        }
    }
}

/// Cutting a long enough value into its fields does not panic.  The fields
/// are cut one after another, each read before the next is cut, and reading
/// stops at the first field that is not a number; cutting a `str` where no
/// character starts panics.
pub open spec fn wmic_slices_ok(b: Seq<u8>) -> bool {
    let cut = |i: int| vstd::utf8::is_char_boundary(b, i);
    b.len() < 14 || (cut(4) && (parse_i32(field(b, 0, 4)) is None || (cut(6) && (parse_u32(
        field(b, 4, 6),
    ) is None || (cut(8) && (parse_u32(field(b, 6, 8)) is None || (cut(10) && (parse_u32(
        field(b, 8, 10),
    ) is None || (cut(12) && (parse_u32(field(b, 10, 12)) is None || cut(14)))))))))))
}

/// Whether a WMIC `CreationDate` value can be cut into its fields: the
/// check to make before `parse_wmic_date`.
pub fn wmic_date_in_range(s: &str) -> (ok: bool)
    ensures
        ok == wmic_slices_ok(s.spec_bytes()),
{
    let b = s.as_bytes();
    if b.len() < 14 {
        return true;
    }
    if !s.is_char_boundary(4) {
        return false;
    }
    if parse_i32_chars(&field_chars(b, 0, 4)).is_none() {
        return true;
    }
    if !s.is_char_boundary(6) {
        return false;
    }
    if parse_u32_chars(&field_chars(b, 4, 6)).is_none() {
        return true;
    }
    if !s.is_char_boundary(8) {
        return false;
    }
    if parse_u32_chars(&field_chars(b, 6, 8)).is_none() {
        return true;
    }
    if !s.is_char_boundary(10) {
        return false;
    }
    if parse_u32_chars(&field_chars(b, 8, 10)).is_none() {
        return true;
    }
    if !s.is_char_boundary(12) {
        return false;
    }
    if parse_u32_chars(&field_chars(b, 10, 12)).is_none() {
        return true;
    }
    s.is_char_boundary(14)
}

fn field_chars(b: &[u8], a: usize, e: usize) -> (r: Vec<char>)
    requires
        a <= e <= b@.len(),
    ensures
        r@ == field(b@, a as int, e as int),
{
    let mut r: Vec<char> = Vec::new();
    let mut i: usize = a;
    while i < e
        invariant
            a <= i <= e <= b@.len(),
            r@ == field(b@, a as int, i as int),
        decreases e - i,
    {
        r.push(b[i] as char);
        proof {
            assert(field(b@, a as int, i + 1) =~= field(b@, a as int, i as int).push(b@[i as int] as char));
        }
        i = i + 1;
    }
    r
}

/// The date and time fields of a WMIC `CreationDate` value.
pub fn wmic_date_fields(s: &str) -> (r: Option<(i32, u32, u32, u32, u32, u32)>)
    ensures
        r == wmic_fields(s.spec_bytes()),
{
    let b = s.as_bytes();
    if b.len() < 14 {
        return None;
    }
    let y = parse_i32_chars(&field_chars(b, 0, 4));
    let mo = parse_u32_chars(&field_chars(b, 4, 6));
    let d = parse_u32_chars(&field_chars(b, 6, 8));
    let h = parse_u32_chars(&field_chars(b, 8, 10));
    let mi = parse_u32_chars(&field_chars(b, 10, 12));
    let sec = parse_u32_chars(&field_chars(b, 12, 14));
    match (y, mo, d, h, mi, sec) {
        (Some(y), Some(mo), Some(d), Some(h), Some(mi), Some(sec)) => Some((y, mo, d, h, mi, sec)),
        _ => None,
    }
}

/// A leap year of the proleptic Gregorian calendar.
pub open spec fn is_leap_year(y: int) -> bool {
    y % 4 == 0 && (y % 100 != 0 || y % 400 == 0)
}

/// The number of days of month `m` of year `y`.
pub open spec fn days_in_month(y: int, m: int) -> int {
    if m == 2 {
        if is_leap_year(y) {
            29
        } else {
            28
        }
    } else if m == 4 || m == 6 || m == 9 || m == 11 {
        30
    } else {
        31
    }
}

/// A date and time that `chrono` can represent: a calendar date with the
/// year within -262143..=262142, and a time of day without a leap second.
pub open spec fn valid_utc_datetime(y: i32, mo: u32, d: u32, h: u32, mi: u32, s: u32) -> bool {
    &&& -262143 <= y <= 262142
    &&& 1 <= mo <= 12
    &&& 1 <= d <= days_in_month(y as int, mo as int)
    &&& h < 24
    &&& mi < 60
    &&& s < 60
}

/// The number of days of year `y`.
pub open spec fn days_in_year(y: int) -> int {
    if is_leap_year(y) {
        366
    } else {
        365
    }
}

/// The days from 1970-01-01 to January 1 of year `y` (negative before 1970).
pub open spec fn days_to_year(y: int) -> int
    decreases (if y >= 1970 {
        y - 1970
    } else {
        1970 - y
    }),
{
    if y == 1970 {
        0
    } else if y > 1970 {
        days_to_year(y - 1) + days_in_year(y - 1)
    } else {
        days_to_year(y + 1) - days_in_year(y)
    }
}

/// The days of year `y` before the first of month `m`.
pub open spec fn days_before_month(y: int, m: int) -> int
    decreases m,
{
    if m <= 1 {
        0
    } else {
        days_before_month(y, m - 1) + days_in_month(y, m - 1)
    }
}

/// The Unix timestamp of a date and time taken as UTC: the seconds since
/// 1970-01-01T00:00:00Z, without leap seconds, in the proleptic Gregorian
/// calendar.
pub open spec fn unix_timestamp(y: i32, mo: u32, d: u32, h: u32, mi: u32, s: u32) -> int {
    (days_to_year(y as int) + days_before_month(y as int, mo as int) + d - 1) * 86400 + h * 3600
        + mi * 60 + s
}

/// `chrono::NaiveDate::from_ymd_opt(y, mo, d)?.and_hms_opt(h, mi, s)?`, taken
/// as UTC, and its `timestamp()`.  The contract claims that chrono accepts
/// exactly the valid calendar dates of its year range and the times of day
/// without a leap second, and that the timestamp is the Unix time of that
/// date and time.
#[verifier::external_body]
fn utc_timestamp(y: i32, mo: u32, d: u32, h: u32, mi: u32, s: u32) -> (r: Option<i64>)
    ensures
        r is Some <==> valid_utc_datetime(y, mo, d, h, mi, s),
        r matches Some(t) ==> t == unix_timestamp(y, mo, d, h, mi, s),
{
    let dt = chrono::NaiveDate::from_ymd_opt(y, mo, d)?.and_hms_opt(h, mi, s)?;
    Some(chrono::DateTime::<chrono::Utc>::from_naive_utc_and_offset(dt, chrono::Utc).timestamp())
}

/// `SystemTime::now().duration_since(UNIX_EPOCH)` in whole seconds: the
/// clock reading that `chrono::Utc::now().timestamp()` is made of, read
/// without chrono's panic for a clock set before 1970, which gives none
/// here.  Nothing is claimed of the value (it is the clock's).
#[verifier::external_body]
fn unix_now_seconds() -> (r: Option<u64>) {
    std::time::SystemTime::now().duration_since(std::time::UNIX_EPOCH).ok().map(|d| d.as_secs())
}

/// The seconds a process has run, from its creation and the current Unix
/// time: never negative.
pub open spec fn uptime_from(created: int, now: int) -> nat {
    if now - created > 0 {
        (now - created) as nat
    } else {
        0
    }
}

/// The seconds a process has run, from its creation and the current Unix time.
pub fn wmic_uptime(created: i64, now: i64) -> (r: u64)
    ensures
        r as nat == uptime_from(created as int, now as int),
{
    let d = now as i128 - created as i128;
    if d > 0 {
        d as u64
    } else {
        0
    }
}

/// The creation time that a WMIC `CreationDate` value gives, read as UTC,
/// as a Unix timestamp: none where it is not a date and time that chrono
/// represents.
pub open spec fn wmic_creation_time(b: Seq<u8>) -> Option<int> {
    match wmic_fields(b) {
        Some((y, mo, d, h, mi, sec)) => if valid_utc_datetime(y, mo, d, h, mi, sec) {
            Some(unix_timestamp(y, mo, d, h, mi, sec))
        } else {
            None
        },
        None => None,
    }
}

/// The Unix timestamp of a WMIC `CreationDate` value, read as UTC.
pub fn wmic_creation_timestamp(s: &str) -> (r: Option<i64>)
    requires
        wmic_slices_ok(s.spec_bytes()),
    ensures
        match r {
            Some(t) => wmic_creation_time(s.spec_bytes()) == Some(t as int),
            None => wmic_creation_time(s.spec_bytes()) is None,
        },
{
    match wmic_date_fields(s) {
        Some((y, mo, d, h, mi, sec)) => utc_timestamp(y, mo, d, h, mi, sec),
        None => None,
    }
}

/// The uptime from a creation time and a clock reading in seconds since
/// 1970: none where the reading is beyond what an `i64` of seconds holds.
pub open spec fn uptime_since(created: int, now_secs: nat) -> Option<nat> {
    if now_secs > i64::MAX {
        None
    } else {
        Some(uptime_from(created, now_secs as int))
    }
}

/// The seconds a process has run, from its creation time and a clock
/// reading in seconds since 1970.
pub fn uptime_since_reading(created: i64, now_secs: u64) -> (r: Option<u64>)
    ensures
        match r {
            Some(u) => uptime_since(created as int, now_secs as nat) == Some(u as nat),
            None => uptime_since(created as int, now_secs as nat) is None,
        },
{
    if now_secs <= 0x7fff_ffff_ffff_ffffu64 {
        Some(wmic_uptime(created, now_secs as i64))
    } else {
        None
    }
}

/// How long a process has run, from its WMIC `CreationDate` (read as UTC)
/// and the current time: none where the value is not a date and time that
/// chrono represents, where the system clock reads before 1970, or where
/// the reading is beyond what an `i64` of seconds holds.
pub fn parse_wmic_date(s: &str) -> (r: Option<u64>)
    requires
        wmic_slices_ok(s.spec_bytes()),
    ensures
        wmic_creation_time(s.spec_bytes()) is None ==> r is None,
        r matches Some(u) ==> wmic_creation_time(s.spec_bytes()) is Some && exists|now: u64|
            uptime_since(wmic_creation_time(s.spec_bytes())->0, now as nat) == Some(u as nat),
{
    match wmic_creation_timestamp(s) {
        Some(created) => match unix_now_seconds() {
            Some(now) => {
                let r = uptime_since_reading(created, now);
                proof {
                    if let Some(u) = r {
                        assert(uptime_since(wmic_creation_time(s.spec_bytes())->0, now as nat)
                            == Some(u as nat));
                    }
                }
                r
            },
            None => None,
        },
        None => None,
    }
}

// ---------------------------------------------------------------------------
// `Key=value` lines as `wmic ... get KEY /value` prints them
// ---------------------------------------------------------------------------

/// The first of `ls` that begins with `p`.
pub open spec fn first_with_prefix(ls: Seq<Seq<char>>, p: Seq<char>) -> Option<Seq<char>>
    decreases ls.len(),
{
    if ls.len() == 0 {
        None
    } else if has_prefix(ls[0], p) {
        Some(ls[0])
    } else {
        first_with_prefix(ls.drop_first(), p)
    }
}

/// The value after `key` (such as `CreationDate=`) on the first line of the
/// output that begins with it: every leading copy of `key` removed, then
/// trimmed.
pub open spec fn wmic_value(out: Seq<char>, key: Seq<char>) -> Option<Seq<char>> {
    match first_with_prefix(lines(out), key) {
        Some(l) => Some(trim(trim_start_seq(l, key))),
        None => None,
    }
}

/// The value after `key` on the first line of WMIC's output that begins
/// with it.
pub fn wmic_value_of(out: &str, key: &str) -> (r: Option<String>)
    ensures
        match r {
            Some(v) => wmic_value(out@, key@) == Some(v@),
            None => wmic_value(out@, key@) is None,
        },
{
    let v = chars_of(out);
    let k = chars_of(key);
    let ls = lines_chars(&v);
    let ghost lv = views(ls@);
    let mut i: usize = 0;
    proof {
        assert(lv.skip(0) =~= lv);
    }
    while i < ls.len()
        invariant
            i <= ls.len(),
            lv == views(ls@),
            lv == lines(out@),
            k@ == key@,
            first_with_prefix(lv, k@) == first_with_prefix(lv.skip(i as int), k@),
        decreases ls.len() - i,
    {
        proof {
            assert(lv.skip(i as int)[0] == ls@[i as int]@);
            assert(lv.skip(i as int).drop_first() =~= lv.skip(i + 1));
        }
        if starts_with_chars(&ls[i], &k) {
            let stripped = trim_start_seq_chars(&ls[i], &k);
            let t = trim_chars(&stripped);
            return Some(string_of(&t));
        }
        i = i + 1;
    }
    proof {
        assert(lv.skip(i as int) =~= Seq::<Seq<char>>::empty());
    }
    None
}

} // verus!
