//! Version strings: the Node.js major-version requirement, the version that
//! `openclaw --version` and `npm view openclaw version` report, and the
//! comparison that decides whether an update is available.
use vstd::prelude::*;
use crate::number::{
    decimal_string, is_digit, lemma_decimal_plain, lemma_decimal_string, lemma_parse_decimal_u32,
    parse_u32, parse_u32_chars,
};
use crate::text::{
    chars_of, is_ws, split_char, split_chars, string_of, trim, trim_end,
    trim_start, trim_start_char, trim_start_char_chars, trim_str_chars, views,
    lemma_split_nonempty, lemma_split_first, lemma_split_cons, lemma_split_no_sep,
    lemma_trim_plain,
};

verus! {

broadcast use vstd::string::group_string_axioms;

/// The lowest Node.js major version that OpenClaw runs on.
pub const MIN_NODE_MAJOR: u32 = 22;

// ---------------------------------------------------------------------------
// Node.js version requirement
// ---------------------------------------------------------------------------

/// The major version that a Node.js version string names (`"v22.1.0"` gives
/// 22): the text before the first `.`, after the leading `v`s, read as a
/// number, or 0 where it is none.
pub open spec fn node_major(v: Seq<char>) -> u32 {
    match parse_u32(split_char(trim_start_char(v, 'v'), '.')[0]) {
        Some(n) => n,
        None => 0,
    }
}

/// The version text `v{major}.{rest}`, as `node --version` prints it.
pub open spec fn node_version_text(major: u32, rest: Seq<char>) -> Seq<char> {
    seq!['v'] + decimal_string(major as nat) + seq!['.'] + rest
}

/// The major version read from `v{major}.{rest}` is `major`.
pub proof fn lemma_node_major_of_text(major: u32, rest: Seq<char>)
    ensures
        node_major(node_version_text(major, rest)) == major,
{
    let d = decimal_string(major as nat);
    lemma_decimal_string(major as nat);
    lemma_parse_decimal_u32(major);
    let s = node_version_text(major, rest);
    let body = d + seq!['.'] + rest;
    assert(s.drop_first() =~= body);
    assert(body[0] == d[0]);
    assert(is_digit(d[0]));
    assert(trim_start_char(body, 'v') == body);
    assert(trim_start_char(s, 'v') == body);
    assert forall|i: int| 0 <= i < d.len() implies d[i] != '.' by {
        assert(is_digit(d[i]));
    }
    lemma_split_first(d, rest, '.');
}

/// The requirement is monotone in the major version: where `v{m1}.{t1}`
/// meets it and `m1 <= m2`, so does `v{m2}.{t2}`, whatever follows the
/// major version.
pub proof fn law_node_requirement_monotone(m1: u32, m2: u32, t1: Seq<char>, t2: Seq<char>)
    requires
        m1 <= m2,
    ensures
        node_major(node_version_text(m1, t1)) >= MIN_NODE_MAJOR ==> node_major(
            node_version_text(m2, t2),
        ) >= MIN_NODE_MAJOR,
{
    lemma_node_major_of_text(m1, t1);
    lemma_node_major_of_text(m2, t2);
}

/// Whether the Node.js version, if any, meets the requirement (major >= 22).
pub fn check_node_version_requirement(version: &Option<String>) -> (ok: bool)
    ensures
        ok == (version matches Some(v) && node_major(v@) >= MIN_NODE_MAJOR),
{
    match version {
        Some(v) => {
            let chars = chars_of(v.as_str());
            let stripped = trim_start_char_chars(&chars, 'v');
            let pieces = split_chars(&stripped, '.');
            proof {
                lemma_split_nonempty(stripped@, '.');
                assert(pieces@[0]@ == views(pieces@)[0]);
            }
            let major = match parse_u32_chars(&pieces[0]) {
                Some(n) => n,
                None => 0,
            };
            major >= MIN_NODE_MAJOR
        },
        None => false,
    }
}

// ---------------------------------------------------------------------------
// Reported versions
// ---------------------------------------------------------------------------

/// The installed OpenClaw version, from the outcome of running
/// `openclaw --version`: its output without surrounding whitespace, or none
/// where the command failed.
pub fn get_openclaw_version(output: &Result<String, String>) -> (r: Option<String>)
    ensures
        output is Ok <==> r is Some,
        r matches Some(v) ==> v@ == trim(output->Ok_0@),
{
    match output {
        Ok(text) => {
            let t = trim_str_chars(text.as_str());
            Some(string_of(&t))
        },
        Err(_) => None,
    }
}

/// The latest published OpenClaw version, from the outcome of running
/// `npm view openclaw version`: its output without surrounding whitespace,
/// or none where the command failed or printed nothing but whitespace.
pub fn get_latest_openclaw_version(output: &Result<String, String>) -> (r: Option<String>)
    ensures
        r is Some <==> (output is Ok && trim(output->Ok_0@).len() > 0),
        r matches Some(v) ==> v@ == trim(output->Ok_0@),
{
    match output {
        Ok(text) => {
            let t = trim_str_chars(text.as_str());
            if t.len() == 0 {
                None
            } else {
                Some(string_of(&t))
            }
        },
        Err(_) => None,
    }
}

// ---------------------------------------------------------------------------
// Version comparison
// ---------------------------------------------------------------------------

/// The pieces that read as numbers, in order; the others are dropped.
pub open spec fn parsed_numbers(pieces: Seq<Seq<char>>) -> Seq<u32>
    decreases pieces.len(),
{
    if pieces.len() == 0 {
        Seq::empty()
    } else {
        let r = parsed_numbers(pieces.drop_last());
        match parse_u32(pieces.last()) {
            Some(n) => r.push(n),
            None => r,
        }
    }
}

/// The numeric components of a version string: trimmed, leading `v`s
/// dropped, split at `.`, and the pieces that are numbers kept.
pub open spec fn version_numbers(s: Seq<char>) -> Seq<u32> {
    parsed_numbers(split_char(trim_start_char(trim(s), 'v'), '.'))
}

/// Component `i` of a version, 0 where the version has fewer components.
pub open spec fn component(p: Seq<u32>, i: int) -> u32 {
    if 0 <= i < p.len() {
        p[i]
    } else {
        0
    }
}

/// The first three components of a version string.
pub open spec fn version_key(s: Seq<char>) -> (u32, u32, u32) {
    let p = version_numbers(s);
    (component(p, 0), component(p, 1), component(p, 2))
}

/// `a` comes before `b` in the order of (major, minor, patch).
pub open spec fn key_less(a: (u32, u32, u32), b: (u32, u32, u32)) -> bool {
    a.0 < b.0 || (a.0 == b.0 && (a.1 < b.1 || (a.1 == b.1 && a.2 < b.2)))
}

/// `latest` names a later version than `current`.
pub open spec fn version_newer(current: Seq<char>, latest: Seq<char>) -> bool {
    key_less(version_key(current), version_key(latest))
}

/// The numeric components of the version string in `s`.
fn version_numbers_exec(s: &str) -> (r: Vec<u32>)
    ensures
        r@ == version_numbers(s@),
{
    let t = trim_str_chars(s);
    let stripped = trim_start_char_chars(&t, 'v');
    let pieces = split_chars(&stripped, '.');
    let ghost ps = split_char(stripped@, '.');
    let mut out: Vec<u32> = Vec::new();
    let mut i: usize = 0;
    proof {
        assert(ps.take(0) =~= Seq::<Seq<char>>::empty());
    }
    while i < pieces.len()
        invariant
            i <= pieces.len(),
            ps == views(pieces@),
            ps == split_char(stripped@, '.'),
            stripped@ == trim_start_char(trim(s@), 'v'),
            out@ == parsed_numbers(ps.take(i as int)),
        decreases pieces.len() - i,
    {
        proof {
            assert(ps.take(i + 1).drop_last() =~= ps.take(i as int));
            assert(ps.take(i + 1).last() == pieces@[i as int]@);
        }
        match parse_u32_chars(&pieces[i]) {
            Some(n) => {
                out.push(n);
            },
            None => {},
        }
        i = i + 1;
    }
    proof {
        assert(ps.take(pieces@.len() as int) =~= ps);
    }
    out
}

/// Whether `latest` names a later version than `current`, comparing major,
/// minor and patch numbers in turn (missing ones count as 0; a leading `v`
/// and surrounding whitespace are ignored).
pub fn compare_versions(current: &str, latest: &str) -> (newer: bool)
    ensures
        newer == version_newer(current@, latest@),
{
    let c = version_numbers_exec(current);
    let l = version_numbers_exec(latest);
    let mut i: usize = 0;
    while i < 3
        invariant
            i <= 3,
            c@ == version_numbers(current@),
            l@ == version_numbers(latest@),
            forall|j: int| 0 <= j < i ==> component(c@, j) == component(l@, j),
        decreases 3 - i,
    {
        let cv: u32 = if i < c.len() {
            c[i]
        } else {
            0
        };
        let lv: u32 = if i < l.len() {
            l[i]
        } else {
            0
        };
        proof {
            assert(cv == component(c@, i as int));
            assert(lv == component(l@, i as int));
        }
        if lv > cv {
            return true;
        } else if lv < cv {
            return false;
        }
        i = i + 1;
    }
    false
}

// ---------------------------------------------------------------------------
// Laws of the comparison
// ---------------------------------------------------------------------------

/// A version is never newer than itself.
pub proof fn law_version_not_newer_than_itself(v: Seq<char>)
    ensures
        !version_newer(v, v),
{
}

/// Of two versions, at most one is newer than the other.
pub proof fn law_version_newer_asymmetric(a: Seq<char>, b: Seq<char>)
    ensures
        !(version_newer(a, b) && version_newer(b, a)),
{
}

/// Newer-than is transitive.
pub proof fn law_version_newer_transitive(a: Seq<char>, b: Seq<char>, c: Seq<char>)
    requires
        version_newer(a, b),
        version_newer(b, c),
    ensures
        version_newer(a, c),
{
}

/// Any two versions are ordered one way or the other, or have the same
/// (major, minor, patch).
pub proof fn law_version_newer_total(a: Seq<char>, b: Seq<char>)
    ensures
        version_newer(a, b) || version_newer(b, a) || version_key(a) == version_key(b),
{
}

/// Prepending whitespace to a text that starts with whitespace does not
/// change its trim; `trim_start` drops exactly the leading whitespace.
proof fn lemma_trim_start_non_ws(s: Seq<char>)
    requires
        s.len() == 0 || !is_ws(s[0]),
    ensures
        trim_start(s) == s,
{
}

/// `trim_end` of a text with a non-whitespace first character keeps that
/// character first.
proof fn lemma_trim_end_prepend(c: char, s: Seq<char>)
    requires
        !is_ws(c),
    ensures
        trim_end(seq![c] + s) == seq![c] + trim_end(s),
    decreases s.len(),
{
    if s.len() > 0 {
        assert((seq![c] + s).drop_last() =~= seq![c] + s.drop_last());
        assert((seq![c] + s).last() == s.last());
        lemma_trim_end_prepend(c, s.drop_last());
    } else {
        assert(seq![c] + s =~= seq![c]);
    }
}

/// A leading `v` on a version string is ignored: `"v1.2.3"` and `"1.2.3"`
/// have the same components (for a text that does not start with whitespace).
pub proof fn law_version_v_prefix_ignored(s: Seq<char>)
    requires
        s.len() == 0 || !is_ws(s[0]),
    ensures
        version_key(seq!['v'] + s) == version_key(s),
        version_numbers(seq!['v'] + s) == version_numbers(s),
{
    let vs = seq!['v'] + s;
    assert(!is_ws('v'));
    lemma_trim_start_non_ws(vs);
    lemma_trim_start_non_ws(s);
    lemma_trim_end_prepend('v', s);
    assert(trim(vs) == seq!['v'] + trim(s));
    assert((seq!['v'] + trim(s)).drop_first() =~= trim(s));
    assert(trim_start_char(seq!['v'] + trim(s), 'v') == trim_start_char(trim(s), 'v'));
}

// ---------------------------------------------------------------------------
// Update check
// ---------------------------------------------------------------------------

/// What an update check found.
#[derive(Debug, Clone)]
pub struct UpdateInfo {
    /// Whether a newer version is available.
    pub update_available: bool,
    /// The installed version.
    pub current_version: Option<String>,
    /// The latest published version.
    pub latest_version: Option<String>,
    /// Why the check could not be completed.
    pub error: Option<String>,
}

/// Decides the outcome of an update check from the installed version and
/// the latest published one.  `latest` is consulted only where OpenClaw is
/// installed: with no current version the check reports that it is not
/// installed.
pub fn check_openclaw_update(current: Option<String>, latest: Option<String>) -> (info:
    UpdateInfo)
    ensures
        current is None ==> {
            &&& !info.update_available
            &&& info.current_version is None
            &&& info.latest_version is None
            &&& info.error matches Some(e) && e@ == "OpenClaw 未安装"@
        },
        current is Some && latest is None ==> {
            &&& !info.update_available
            &&& info.current_version == current
            &&& info.latest_version is None
            &&& info.error matches Some(e) && e@ == "无法获取最新版本信息"@
        },
        current is Some && latest is Some ==> {
            &&& info.update_available == version_newer(current->0@, latest->0@)
            &&& info.current_version == current
            &&& info.latest_version == latest
            &&& info.error is None
        },
{
    match current {
        None => UpdateInfo {
            update_available: false,
            current_version: None,
            latest_version: None,
            error: Some("OpenClaw 未安装".to_string()),
        },
        Some(c) => match latest {
            None => UpdateInfo {
                update_available: false,
                current_version: Some(c),
                latest_version: None,
                error: Some("无法获取最新版本信息".to_string()),
            },
            Some(l) => {
                let update_available = compare_versions(c.as_str(), l.as_str());
                UpdateInfo {
                    update_available,
                    current_version: Some(c),
                    latest_version: Some(l),
                    error: None,
                }
            },
        },
    }
}

/// The version text `a.b.c` of three numbers, as npm prints versions.
pub open spec fn version_text(a: u32, b: u32, c: u32) -> Seq<char> {
    decimal_string(a as nat) + seq!['.'] + decimal_string(b as nat) + seq!['.'] + decimal_string(
        c as nat,
    )
}

/// A version `a.b.c` is read as the numbers `a`, `b` and `c`, each whole
/// (`1.10.0` has minor version 10).
pub proof fn law_version_numbers_read(a: u32, b: u32, c: u32)
    ensures
        version_numbers(version_text(a, b, c)) == seq![a, b, c],
        version_key(version_text(a, b, c)) == (a, b, c),
{
    let (da, db, dc) = (decimal_string(a as nat), decimal_string(b as nat), decimal_string(c as nat));
    lemma_decimal_plain(a as nat);
    lemma_decimal_plain(b as nat);
    lemma_decimal_plain(c as nat);
    lemma_parse_decimal_u32(a);
    lemma_parse_decimal_u32(b);
    lemma_parse_decimal_u32(c);
    let s = version_text(a, b, c);
    assert(s[0] == da[0]);
    assert(s.last() == dc[dc.len() - 1]);
    lemma_trim_plain(s);
    assert(trim_start_char(s, 'v') == s);
    let tail = db + seq!['.'] + dc;
    assert(s =~= da + seq!['.'] + tail);
    lemma_split_cons(da, tail, '.');
    lemma_split_cons(db, dc, '.');
    lemma_split_no_sep(dc, '.');
    let pieces = split_char(s, '.');
    assert(pieces =~= seq![da, db, dc]);
    assert(pieces.drop_last() =~= seq![da, db]);
    assert(pieces.drop_last().drop_last() =~= seq![da]);
    assert(pieces.drop_last().drop_last().drop_last() =~= Seq::<Seq<char>>::empty());
    assert(seq![da].drop_last() =~= Seq::<Seq<char>>::empty());
    assert(seq![da].last() == da);
    assert(parsed_numbers(Seq::<Seq<char>>::empty()) =~= Seq::<u32>::empty());
    assert(parsed_numbers(seq![da]) =~= seq![a]);
    assert(seq![da, db].drop_last() =~= seq![da]);
    assert(parsed_numbers(seq![da, db]) =~= seq![a, b]);
    assert(parsed_numbers(pieces) =~= seq![a, b, c]);
}

/// Versions `a.b.c` are ordered by their numbers: `d.e.f` is newer exactly
/// where its major number is greater, or the major numbers agree and its
/// minor number is greater, or both agree and its patch number is greater.
pub proof fn law_version_newer_numeric(a: u32, b: u32, c: u32, d: u32, e: u32, f: u32)
    ensures
        version_newer(version_text(a, b, c), version_text(d, e, f)) <==> (a < d || (a == d && (b
            < e || (b == e && c < f)))),
{
    law_version_numbers_read(a, b, c);
    law_version_numbers_read(d, e, f);
}

} // verus!
