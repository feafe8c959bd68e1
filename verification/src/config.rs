//! The OpenClaw configuration file (`openclaw.json`): the defaults that
//! initialisation writes, and the update that makes an existing file run
//! the gateway locally and allow the DingTalk plugin.
use vstd::prelude::*;

verus! {

broadcast use vstd::string::group_string_axioms;

/// A JSON document, as the configuration file holds it.  Object members
/// are kept in order, each key once.
#[derive(Debug)]
pub enum JsonValue {
    Null,
    Bool(bool),
    /// A number, in the text that JSON writes for it.
    Number(String),
    Str(String),
    Array(Vec<JsonValue>),
    Object(Vec<(String, JsonValue)>),
}

/// The mathematical value of a JSON document: texts as character sequences.
pub enum JsonView {
    Null,
    Bool(bool),
    Number(Seq<char>),
    Str(Seq<char>),
    Array(Seq<JsonView>),
    Object(Seq<(Seq<char>, JsonView)>),
}

/// The value of a JSON document.
pub open spec fn json_view(v: JsonValue) -> JsonView
    decreases v, 0nat,
{
    match v {
        JsonValue::Null => JsonView::Null,
        JsonValue::Bool(b) => JsonView::Bool(b),
        JsonValue::Number(n) => JsonView::Number(n@),
        JsonValue::Str(s) => JsonView::Str(s@),
        JsonValue::Array(items) => JsonView::Array(items_view(items@, items@.len())),
        JsonValue::Object(members) => JsonView::Object(members_view(members@, members@.len())),
    }
}

/// The values of the first `n` items.
pub open spec fn items_view(items: Seq<JsonValue>, n: nat) -> Seq<JsonView>
    decreases items, n,
{
    if n == 0 || n > items.len() {
        Seq::empty()
    } else {
        items_view(items, (n - 1) as nat).push(json_view(items[n - 1]))
    }
}

/// The values of the first `n` members.
pub open spec fn members_view(members: Seq<(String, JsonValue)>, n: nat) -> Seq<(Seq<char>, JsonView)>
    decreases members, n,
{
    if n == 0 || n > members.len() {
        Seq::empty()
    } else {
        members_view(members, (n - 1) as nat).push(
            (members[n - 1].0@, json_view(members[n - 1].1)),
        )
    }
}

/// The values of all the items.
pub open spec fn iv(items: Seq<JsonValue>) -> Seq<JsonView> {
    items_view(items, items.len())
}

/// The values of all the members.
pub open spec fn mv(members: Seq<(String, JsonValue)>) -> Seq<(Seq<char>, JsonView)> {
    members_view(members, members.len())
}

/// `items_view` has one value per item, in order.
pub proof fn lemma_items_view(items: Seq<JsonValue>, n: nat)
    requires
        n <= items.len(),
    ensures
        items_view(items, n).len() == n,
        forall|i: int| 0 <= i < n ==> #[trigger] items_view(items, n)[i] == json_view(items[i]),
    decreases n,
{
    if n > 0 {
        lemma_items_view(items, (n - 1) as nat);
    }
}

/// `members_view` has one member value per member, in order.
pub proof fn lemma_members_view(members: Seq<(String, JsonValue)>, n: nat)
    requires
        n <= members.len(),
    ensures
        members_view(members, n).len() == n,
        forall|i: int|
            0 <= i < n ==> #[trigger] members_view(members, n)[i] == (
                members[i].0@,
                json_view(members[i].1),
            ),
    decreases n,
{
    if n > 0 {
        lemma_members_view(members, (n - 1) as nat);
    }
}

// ---------------------------------------------------------------------------
// Objects as ordered member lists
// ---------------------------------------------------------------------------

/// The position of the first member named `k`.
pub open spec fn member_index(es: Seq<(Seq<char>, JsonView)>, k: Seq<char>) -> Option<nat>
    decreases es.len(),
{
    if es.len() == 0 {
        None
    } else if es[0].0 == k {
        Some(0)
    } else {
        match member_index(es.drop_first(), k) {
            Some(i) => Some(i + 1),
            None => None,
        }
    }
}

/// `member_index` names the first member with that name, or none where no
/// member has it.
pub proof fn lemma_member_index(es: Seq<(Seq<char>, JsonView)>, k: Seq<char>, i: int)
    requires
        0 <= i <= es.len(),
        forall|j: int| 0 <= j < i ==> es[j].0 != k,
    ensures
        i < es.len() && es[i].0 == k ==> member_index(es, k) == Some(i as nat),
        i == es.len() ==> member_index(es, k) is None,
    decreases i,
{
    if i > 0 {
        lemma_member_index(es.drop_first(), k, i - 1);
    }
}

/// `member_index` names a member with that name.
pub proof fn lemma_member_index_bound(es: Seq<(Seq<char>, JsonView)>, k: Seq<char>)
    ensures
        member_index(es, k) matches Some(i) ==> i < es.len() && es[i as int].0 == k,
        member_index(es, k) is None ==> forall|j: int| 0 <= j < es.len() ==> es[j].0 != k,
    decreases es.len(),
{
    if es.len() > 0 {
        lemma_member_index_bound(es.drop_first(), k);
        if es[0].0 != k && member_index(es.drop_first(), k) is None {
            assert forall|j: int| 0 <= j < es.len() implies es[j].0 != k by {
                if j > 0 {
                    assert(es[j] == es.drop_first()[j - 1]);
                }
            }
        }
    }
}

/// The value of the member named `k`, if any (`Map::get`).
pub open spec fn member(es: Seq<(Seq<char>, JsonView)>, k: Seq<char>) -> Option<JsonView> {
    match member_index(es, k) {
        Some(i) => Some(es[i as int].1),
        None => None,
    }
}

/// The members with the member named `k` set to `x`: replaced in place, or
/// added at the end.
pub open spec fn set_member(es: Seq<(Seq<char>, JsonView)>, k: Seq<char>, x: JsonView) -> Seq<
    (Seq<char>, JsonView),
> {
    match member_index(es, k) {
        Some(i) => es.update(i as int, (k, x)),
        None => es.push((k, x)),
    }
}

/// The members of an object; none for anything else (a `null` becomes an
/// empty object where it is indexed for writing).
pub open spec fn members_of(v: JsonView) -> Seq<(Seq<char>, JsonView)> {
    match v {
        JsonView::Object(es) => es,
        _ => Seq::empty(),
    }
}

/// `Value::get(k)`: the member named `k` of an object; none for anything else.
pub open spec fn get(v: JsonView, k: Seq<char>) -> Option<JsonView> {
    match v {
        JsonView::Object(es) => member(es, k),
        _ => None,
    }
}

/// The member named `k`, or `null` where there is none (what indexing for
/// writing inserts).
pub open spec fn member_or_null(es: Seq<(Seq<char>, JsonView)>, k: Seq<char>) -> JsonView {
    match member(es, k) {
        Some(x) => x,
        None => JsonView::Null,
    }
}

/// A value that can be indexed for writing: an object, or `null` (which
/// becomes an empty object).  Indexing anything else for writing panics.
pub open spec fn writable(v: JsonView) -> bool {
    v is Null || v is Object
}

// ---------------------------------------------------------------------------
// The configuration update
// ---------------------------------------------------------------------------

/// The plugin that the configuration must allow.
pub open spec fn dingtalk() -> Seq<char> {
    "@openclaw-china/dingtalk"@
}

/// The configuration sets `gateway.mode`.
pub open spec fn has_gateway_mode(v: JsonView) -> bool {
    match get(v, "gateway"@) {
        Some(g) => get(g, "mode"@) is Some,
        None => false,
    }
}

/// The configuration with `gateway.mode` set to `"local"` where it is not set.
pub open spec fn with_gateway_mode(v: JsonView) -> JsonView {
    if has_gateway_mode(v) {
        v
    } else {
        let es = members_of(v);
        let g = member_or_null(es, "gateway"@);
        JsonView::Object(
            set_member(
                es,
                "gateway"@,
                JsonView::Object(set_member(members_of(g), "mode"@, JsonView::Str("local"@))),
            ),
        )
    }
}

/// The allow list that results from an existing `plugins.allow` value:
/// an array gains the DingTalk plugin where it lacks it; anything else is
/// replaced by an array of just that plugin.
pub open spec fn allow_with_dingtalk(allow: Option<JsonView>) -> JsonView {
    match allow {
        Some(JsonView::Array(items)) => if items.contains(JsonView::Str(dingtalk())) {
            JsonView::Array(items)
        } else {
            JsonView::Array(items.push(JsonView::Str(dingtalk())))
        },
        _ => JsonView::Array(seq![JsonView::Str(dingtalk())]),
    }
}

/// The configuration with the DingTalk plugin in `plugins.allow`.
pub open spec fn with_dingtalk_allowed(v: JsonView) -> JsonView {
    let es = members_of(v);
    let p = members_of(member_or_null(es, "plugins"@));
    JsonView::Object(
        set_member(
            es,
            "plugins"@,
            JsonView::Object(set_member(p, "allow"@, allow_with_dingtalk(member(p, "allow"@)))),
        ),
    )
}

/// The update made to an existing configuration file: `gateway.mode` set to
/// `"local"` where unset, then the DingTalk plugin allowed.
pub open spec fn config_defaults(v: JsonView) -> JsonView {
    with_dingtalk_allowed(with_gateway_mode(v))
}

/// The configurations on which the update panics: one that needs
/// `gateway.mode` but is neither an object nor `null`, or whose `gateway`
/// is neither; or one whose `plugins` is neither an object nor `null`.
pub open spec fn config_update_panics(v: JsonView) -> bool {
    if !has_gateway_mode(v) && (!writable(v) || !writable(member_or_null(members_of(v), "gateway"@))) {
        true
    } else {
        !writable(member_or_null(members_of(with_gateway_mode(v)), "plugins"@))
    }
}

/// The DingTalk plugin is in `plugins.allow`.
pub open spec fn allows_dingtalk(v: JsonView) -> bool {
    match get(v, "plugins"@) {
        Some(p) => match get(p, "allow"@) {
            Some(JsonView::Array(items)) => items.contains(JsonView::Str(dingtalk())),
            _ => false,
        },
        None => false,
    }
}

// ---------------------------------------------------------------------------
// Member lemmas
// ---------------------------------------------------------------------------

/// Setting a member and reading it back gives the value set.
pub proof fn lemma_set_then_get(es: Seq<(Seq<char>, JsonView)>, k: Seq<char>, x: JsonView)
    ensures
        member(set_member(es, k, x), k) == Some(x),
{
    lemma_member_index_bound(es, k);
    let s = set_member(es, k, x);
    match member_index(es, k) {
        Some(i) => {
            assert forall|j: int| 0 <= j < i implies s[j].0 != k by {
                if s[j].0 == k {
                    lemma_member_index_first(es, k, j);
                }
            }
            lemma_member_index(s, k, i as int);
        },
        None => {
            lemma_member_index(s, k, es.len() as int);
        },
    }
}

/// No member before the first one named `k` has that name.
pub proof fn lemma_member_index_first(es: Seq<(Seq<char>, JsonView)>, k: Seq<char>, j: int)
    requires
        0 <= j < es.len(),
        es[j].0 == k,
    ensures
        member_index(es, k) matches Some(i) && i <= j,
    decreases j,
{
    if j > 0 && es[0].0 != k {
        lemma_member_index_first(es.drop_first(), k, j - 1);
    }
}

/// Setting a member leaves the other members as they were.
pub proof fn lemma_set_then_get_other(
    es: Seq<(Seq<char>, JsonView)>,
    k: Seq<char>,
    x: JsonView,
    k2: Seq<char>,
)
    requires
        k2 != k,
    ensures
        member(set_member(es, k, x), k2) == member(es, k2),
{
    lemma_member_index_bound(es, k);
    lemma_member_index_bound(es, k2);
    let s = set_member(es, k, x);
    match member_index(es, k2) {
        Some(i) => {
            assert forall|j: int| 0 <= j < i implies s[j].0 != k2 by {
                if es[j].0 == k2 {
                    lemma_member_index_first(es, k2, j);
                }
            }
            lemma_member_index(s, k2, i as int);
        },
        None => {
            lemma_member_index(s, k2, s.len() as int);
        },
    }
}

/// Setting a member to the value it has changes nothing.
pub proof fn lemma_set_same(es: Seq<(Seq<char>, JsonView)>, k: Seq<char>, x: JsonView)
    requires
        member(es, k) == Some(x),
    ensures
        set_member(es, k, x) == es,
{
    lemma_member_index_bound(es, k);
    let i = member_index(es, k)->0;
    assert(es[i as int] == (k, x));
    assert(es.update(i as int, (k, x)) =~= es);
}

/// Setting a member twice keeps the last value.
pub proof fn lemma_set_set(es: Seq<(Seq<char>, JsonView)>, k: Seq<char>, x: JsonView, y: JsonView)
    ensures
        set_member(set_member(es, k, x), k, y) == set_member(es, k, y),
{
    lemma_member_index_bound(es, k);
    let s = set_member(es, k, x);
    match member_index(es, k) {
        Some(i) => {
            assert forall|j: int| 0 <= j < i implies s[j].0 != k by {
                if es[j].0 == k {
                    lemma_member_index_first(es, k, j);
                }
            }
            lemma_member_index(s, k, i as int);
            assert(s.update(i as int, (k, y)) =~= es.update(i as int, (k, y)));
        },
        None => {
            lemma_member_index(s, k, es.len() as int);
            assert(s.update(es.len() as int, (k, y)) =~= es.push((k, y)));
        },
    }
}

// ---------------------------------------------------------------------------
// Laws of the update
// ---------------------------------------------------------------------------

/// After the update, `gateway.mode` is set and the DingTalk plugin is allowed.
pub proof fn law_config_defaults_established(v: JsonView)
    requires
        !config_update_panics(v),
    ensures
        has_gateway_mode(config_defaults(v)),
        allows_dingtalk(config_defaults(v)),
{
    let w = with_gateway_mode(v);
    lemma_with_gateway_mode(v);
    let es = members_of(w);
    let p = members_of(member_or_null(es, "plugins"@));
    let a = allow_with_dingtalk(member(p, "allow"@));
    let pp = JsonView::Object(set_member(p, "allow"@, a));
    lemma_set_then_get(es, "plugins"@, pp);
    lemma_set_then_get(p, "allow"@, a);
    assert("gateway"@ != "plugins"@) by {
        reveal_strlit("gateway");
        reveal_strlit("plugins");
        assert("gateway"@[0] != "plugins"@[0]);
    }
    lemma_set_then_get_other(es, "plugins"@, pp, "gateway"@);
    if let Some(JsonView::Array(items)) = member(p, "allow"@) {
        if !items.contains(JsonView::Str(dingtalk())) {
            assert(items.push(JsonView::Str(dingtalk()))[items.len() as int] == JsonView::Str(
                dingtalk(),
            ));
        }
    } else {
        assert(seq![JsonView::Str(dingtalk())][0] == JsonView::Str(dingtalk()));
    }
}

/// Setting `gateway.mode` gives an object with the mode set.
proof fn lemma_with_gateway_mode(v: JsonView)
    ensures
        with_gateway_mode(v) is Object,
        has_gateway_mode(with_gateway_mode(v)),
        !has_gateway_mode(v) ==> forall|k: Seq<char>|
            k != "gateway"@ ==> member(members_of(with_gateway_mode(v)), k) == member(
                members_of(v),
                k,
            ),
{
    if !has_gateway_mode(v) {
        let es = members_of(v);
        let g = member_or_null(es, "gateway"@);
        let gm = set_member(members_of(g), "mode"@, JsonView::Str("local"@));
        lemma_set_then_get(es, "gateway"@, JsonView::Object(gm));
        lemma_set_then_get(members_of(g), "mode"@, JsonView::Str("local"@));
        assert forall|k: Seq<char>| k != "gateway"@ implies member(
            members_of(with_gateway_mode(v)),
            k,
        ) == member(members_of(v), k) by {
            lemma_set_then_get_other(es, "gateway"@, JsonView::Object(gm), k);
        }
    }
}

/// The update is idempotent: applied to its own result it changes nothing
/// (and does not panic).
pub proof fn law_config_defaults_idempotent(v: JsonView)
    requires
        !config_update_panics(v),
    ensures
        !config_update_panics(config_defaults(v)),
        config_defaults(config_defaults(v)) == config_defaults(v),
{
    let r = config_defaults(v);
    law_config_defaults_established(v);
    let w = with_gateway_mode(v);
    lemma_with_gateway_mode(v);
    let es = members_of(w);
    let p = members_of(member_or_null(es, "plugins"@));
    let a = allow_with_dingtalk(member(p, "allow"@));
    let pm = set_member(p, "allow"@, a);
    let rs = set_member(es, "plugins"@, JsonView::Object(pm));
    assert(r == JsonView::Object(rs));
    lemma_set_then_get(es, "plugins"@, JsonView::Object(pm));
    lemma_set_then_get(p, "allow"@, a);
    // the second application
    assert(with_gateway_mode(r) == r);
    assert(member_or_null(members_of(r), "plugins"@) == JsonView::Object(pm));
    assert(members_of(JsonView::Object(pm)) == pm);
    assert(member(pm, "allow"@) == Some(a));
    assert(a is Array);
    let items = a->Array_0;
    assert(items.contains(JsonView::Str(dingtalk()))) by {
        if let Some(JsonView::Array(old_items)) = member(p, "allow"@) {
            if !old_items.contains(JsonView::Str(dingtalk())) {
                assert(old_items.push(JsonView::Str(dingtalk()))[old_items.len() as int]
                    == JsonView::Str(dingtalk()));
            }
        } else {
            assert(seq![JsonView::Str(dingtalk())][0] == JsonView::Str(dingtalk()));
        }
    }
    assert(allow_with_dingtalk(member(pm, "allow"@)) == a);
    lemma_set_same(pm, "allow"@, a);
    lemma_set_same(rs, "plugins"@, JsonView::Object(pm));
}

/// The update leaves every top-level member other than `gateway` and
/// `plugins` as it was.
pub proof fn law_config_defaults_keeps_other_members(v: JsonView, k: Seq<char>)
    requires
        !config_update_panics(v),
        v is Object,
        k != "gateway"@,
        k != "plugins"@,
    ensures
        get(config_defaults(v), k) == get(v, k),
{
    let w = with_gateway_mode(v);
    lemma_with_gateway_mode(v);
    let es = members_of(w);
    let p = members_of(member_or_null(es, "plugins"@));
    let a = allow_with_dingtalk(member(p, "allow"@));
    lemma_set_then_get_other(es, "plugins"@, JsonView::Object(set_member(p, "allow"@, a)), k);
}

/// The `plugins.allow` value of a configuration, if any.
pub open spec fn allow_list(v: JsonView) -> Option<JsonView> {
    match get(v, "plugins"@) {
        Some(p) => get(p, "allow"@),
        None => None,
    }
}

/// A member read through `members_of` is what `get` reads.
proof fn lemma_get_members(x: JsonView, k: Seq<char>)
    ensures
        member(members_of(x), k) == get(x, k),
{
    if !(x is Object) {
        assert(member_index(Seq::<(Seq<char>, JsonView)>::empty(), k) is None);
    }
}

/// The update's effect on `plugins.allow`: an array that already holds the
/// DingTalk plugin, wherever in it, stays exactly as it was (the plugin is
/// never added twice); an array without it gains it once, at the end; and
/// anything else, or no list at all, becomes the list of just that plugin.
pub proof fn law_allow_list_update(v: JsonView)
    ensures
        allow_list(v) matches Some(JsonView::Array(items)) ==> (items.contains(
            JsonView::Str(dingtalk()),
        ) ==> allow_list(config_defaults(v)) == allow_list(v)),
        allow_list(v) matches Some(JsonView::Array(items)) ==> (!items.contains(
            JsonView::Str(dingtalk()),
        ) ==> allow_list(config_defaults(v)) == Some(
            JsonView::Array(items.push(JsonView::Str(dingtalk()))),
        )),
        !(allow_list(v) matches Some(JsonView::Array(_))) ==> allow_list(config_defaults(v))
            == Some(JsonView::Array(seq![JsonView::Str(dingtalk())])),
{
    assert("gateway"@ != "plugins"@) by {
        reveal_strlit("gateway");
        reveal_strlit("plugins");
        assert("gateway"@[0] != "plugins"@[0]);
    }
    let w = with_gateway_mode(v);
    lemma_with_gateway_mode(v);
    let es = members_of(w);
    lemma_get_members(w, "plugins"@);
    lemma_get_members(v, "plugins"@);
    let pv = member_or_null(es, "plugins"@);
    let p = members_of(pv);
    lemma_get_members(pv, "allow"@);
    // what the update reads is the allow list of `v`
    assert(member(p, "allow"@) == allow_list(v)) by {
        match member(es, "plugins"@) {
            Some(x) => {},
            None => {
                assert(member_index(Seq::<(Seq<char>, JsonView)>::empty(), "allow"@) is None);
            },
        }
    }
    let a = allow_with_dingtalk(member(p, "allow"@));
    let pm = set_member(p, "allow"@, a);
    lemma_set_then_get(es, "plugins"@, JsonView::Object(pm));
    lemma_set_then_get(p, "allow"@, a);
    assert(allow_list(config_defaults(v)) == Some(a));
}

/// The configuration written to a new file.
pub open spec fn default_config_view() -> JsonView {
    JsonView::Object(
        seq![
            ("gateway"@, JsonView::Object(seq![("mode"@, JsonView::Str("local"@))])),
            ("plugins"@, JsonView::Object(seq![("allow"@, JsonView::Array(seq![JsonView::Str(dingtalk())]))])),
        ],
    )
}

/// A new configuration file needs no update.
pub proof fn law_default_config_is_stable()
    ensures
        !config_update_panics(default_config_view()),
        config_defaults(default_config_view()) == default_config_view(),
{
    let d = default_config_view();
    let es = members_of(d);
    assert("gateway"@ != "plugins"@) by {
        reveal_strlit("gateway");
        reveal_strlit("plugins");
        assert("gateway"@[0] != "plugins"@[0]);
    }
    lemma_member_index(es, "gateway"@, 0);
    assert(es[1].0 == "plugins"@);
    lemma_member_index(es, "plugins"@, 1);
    let g = seq![("mode"@, JsonView::Str("local"@))];
    lemma_member_index(g, "mode"@, 0);
    assert(has_gateway_mode(d));
    let p = seq![("allow"@, JsonView::Array(seq![JsonView::Str(dingtalk())]))];
    lemma_member_index(p, "allow"@, 0);
    let items = seq![JsonView::Str(dingtalk())];
    assert(items[0] == JsonView::Str(dingtalk()));
    assert(items.contains(JsonView::Str(dingtalk())));
    lemma_set_same(p, "allow"@, JsonView::Array(items));
    lemma_set_same(es, "plugins"@, JsonView::Object(p));
}

// ---------------------------------------------------------------------------
// Executable update
// ---------------------------------------------------------------------------

/// `mv` of an updated member list.
proof fn lemma_mv_update(es: Seq<(String, JsonValue)>, i: int, m: (String, JsonValue))
    requires
        0 <= i < es.len(),
    ensures
        mv(es.update(i, m)) == mv(es).update(i, (m.0@, json_view(m.1))),
{
    lemma_members_view(es, es.len());
    lemma_members_view(es.update(i, m), es.len());
    assert(mv(es.update(i, m)) =~= mv(es).update(i, (m.0@, json_view(m.1))));
}

/// `mv` of an extended member list.
proof fn lemma_mv_push(es: Seq<(String, JsonValue)>, m: (String, JsonValue))
    ensures
        mv(es.push(m)) == mv(es).push((m.0@, json_view(m.1))),
{
    lemma_members_view(es, es.len());
    lemma_members_view(es.push(m), es.len() + 1);
    assert(mv(es.push(m)) =~= mv(es).push((m.0@, json_view(m.1))));
}

/// `iv` of an extended item list.
proof fn lemma_iv_push(items: Seq<JsonValue>, x: JsonValue)
    ensures
        iv(items.push(x)) == iv(items).push(json_view(x)),
{
    lemma_items_view(items, items.len());
    lemma_items_view(items.push(x), items.len() + 1);
    assert(iv(items.push(x)) =~= iv(items).push(json_view(x)));
}

/// The position of the first member named `k`.
fn find_member(es: &Vec<(String, JsonValue)>, k: &str) -> (r: Option<usize>)
    ensures
        match r {
            Some(i) => member_index(mv(es@), k@) == Some(i as nat) && i < es@.len(),
            None => member_index(mv(es@), k@) is None,
        },
{
    let ks = k.to_string();
    let ghost m = mv(es@);
    proof {
        lemma_members_view(es@, es@.len());
    }
    let mut i: usize = 0;
    while i < es.len()
        invariant
            i <= es.len(),
            m == mv(es@),
            m.len() == es@.len(),
            ks@ == k@,
            forall|j: int| 0 <= j < es@.len() ==> #[trigger] m[j] == (es@[j].0@, json_view(es@[j].1)),
            forall|j: int| 0 <= j < i ==> m[j].0 != k@,
        decreases es.len() - i,
    {
        if es[i].0 == ks {
            proof {
                assert(m[i as int].0 == k@);
                lemma_member_index(m, k@, i as int);
            }
            return Some(i);
        }
        proof {
            assert(m[i as int].0 != k@);
        }
        i = i + 1;
    }
    proof {
        lemma_member_index(m, k@, i as int);
    }
    None
}

/// The value of the member named `k`, if any.
fn get_member<'a>(es: &'a Vec<(String, JsonValue)>, k: &str) -> (r: Option<&'a JsonValue>)
    ensures
        match r {
            Some(x) => member(mv(es@), k@) == Some(json_view(*x)),
            None => member(mv(es@), k@) is None,
        },
{
    proof {
        lemma_members_view(es@, es@.len());
    }
    match find_member(es, k) {
        Some(i) => Some(&es[i].1),
        None => None,
    }
}

/// `Value::get(k)`.
fn get_exec<'a>(v: &'a JsonValue, k: &str) -> (r: Option<&'a JsonValue>)
    ensures
        match r {
            Some(x) => get(json_view(*v), k@) == Some(json_view(*x)),
            None => get(json_view(*v), k@) is None,
        },
{
    match v {
        JsonValue::Object(es) => get_member(es, k),
        _ => None,
    }
}

/// Whether the configuration sets `gateway.mode`.
fn has_gateway_mode_exec(v: &JsonValue) -> (b: bool)
    ensures
        b == has_gateway_mode(json_view(*v)),
{
    match get_exec(v, "gateway") {
        Some(g) => get_exec(g, "mode").is_some(),
        None => false,
    }
}

/// Whether a value can be indexed for writing.
fn writable_exec(v: &JsonValue) -> (b: bool)
    ensures
        b == writable(json_view(*v)),
{
    match v {
        JsonValue::Null => true,
        JsonValue::Object(_) => true,
        _ => false,
    }
}

/// The members of an object, or none for `null`.
fn into_members(v: JsonValue) -> (es: Vec<(String, JsonValue)>)
    requires
        writable(json_view(v)),
    ensures
        mv(es@) == members_of(json_view(v)),
{
    match v {
        JsonValue::Object(es) => es,
        _ => {
            let es: Vec<(String, JsonValue)> = Vec::new();
            proof {
                assert(mv(es@) =~= Seq::<(Seq<char>, JsonView)>::empty());
            }
            es
        },
    }
}

/// Sets the member named `k` to `x`.
fn set_member_exec(es: &mut Vec<(String, JsonValue)>, k: &str, x: JsonValue)
    ensures
        mv(final(es)@) == set_member(mv(old(es)@), k@, json_view(x)),
{
    let ghost xv = json_view(x);
    match find_member(es, k) {
        Some(i) => {
            let mut m = (k.to_string(), x);
            let ghost mm = m;
            es.set_and_swap(i, &mut m);
            proof {
                lemma_mv_update(old(es)@, i as int, mm);
            }
        },
        None => {
            let m = (k.to_string(), x);
            let ghost mm = m;
            es.push(m);
            proof {
                lemma_mv_push(old(es)@, mm);
            }
        },
    }
}

/// Takes the value of the member named `k` out, leaving `null` in its
/// place; `null` where there is no such member.
fn take_member(es: &mut Vec<(String, JsonValue)>, k: &str) -> (r: JsonValue)
    ensures
        json_view(r) == member_or_null(mv(old(es)@), k@),
        member_index(mv(old(es)@), k@) is Some ==> mv(final(es)@) == set_member(
            mv(old(es)@),
            k@,
            JsonView::Null,
        ),
        member_index(mv(old(es)@), k@) is None ==> final(es)@ == old(es)@,
{
    proof {
        lemma_members_view(es@, es@.len());
    }
    match find_member(es, k) {
        Some(i) => {
            let mut m = (k.to_string(), JsonValue::Null);
            let ghost mm = m;
            es.set_and_swap(i, &mut m);
            proof {
                lemma_mv_update(old(es)@, i as int, mm);
                assert(json_view(m.1) == mv(old(es)@)[i as int].1);
            }
            m.1
        },
        None => JsonValue::Null,
    }
}

/// Whether the items hold the DingTalk plugin as a string.
fn contains_dingtalk(items: &Vec<JsonValue>) -> (b: bool)
    ensures
        b == iv(items@).contains(JsonView::Str(dingtalk())),
{
    let d = "@openclaw-china/dingtalk".to_string();
    proof {
        lemma_items_view(items@, items@.len());
    }
    let mut i: usize = 0;
    while i < items.len()
        invariant
            i <= items.len(),
            d@ == dingtalk(),
            iv(items@).len() == items@.len(),
            forall|j: int| 0 <= j < items@.len() ==> #[trigger] iv(items@)[j] == json_view(items@[j]),
            forall|j: int| 0 <= j < i ==> iv(items@)[j] != JsonView::Str(dingtalk()),
        decreases items.len() - i,
    {
        let found = match &items[i] {
            JsonValue::Str(s) => *s == d,
            _ => false,
        };
        if found {
            proof {
                assert(iv(items@)[i as int] == JsonView::Str(dingtalk()));
            }
            return true;
        }
        i = i + 1;
    }
    false
}

/// Whether the configuration update panics on `v`.
pub fn config_update_would_panic(v: &JsonValue) -> (b: bool)
    ensures
        b == config_update_panics(json_view(*v)),
{
    let has_mode = has_gateway_mode_exec(v);
    if !has_mode {
        if !writable_exec(v) {
            return true;
        }
        let gateway_ok = match v {
            JsonValue::Object(es) => match get_member(es, "gateway") {
                Some(g) => writable_exec(g),
                None => true,
            },
            _ => true,
        };
        if !gateway_ok {
            return true;
        }
        proof {
            lemma_with_gateway_mode(json_view(*v));
            assert("plugins"@ != "gateway"@) by {
                reveal_strlit("gateway");
                reveal_strlit("plugins");
                assert("gateway"@[0] != "plugins"@[0]);
            }
        }
    }
    let plugins_ok = match v {
        JsonValue::Object(es) => match get_member(es, "plugins") {
            Some(p) => writable_exec(p),
            None => true,
        },
        _ => true,
    };
    !plugins_ok
}

/// Updates an existing configuration: sets `gateway.mode` to `"local"`
/// where it is not set, and adds `"@openclaw-china/dingtalk"` to
/// `plugins.allow` (making it an array where it is not one).
pub fn ensure_config_defaults(v: JsonValue) -> (r: JsonValue)
    requires
        !config_update_panics(json_view(v)),
    ensures
        json_view(r) == config_defaults(json_view(v)),
{
    let ghost v0 = json_view(v);
    let v1 = if has_gateway_mode_exec(&v) {
        v
    } else {
        let mut es = into_members(v);
        let g = take_member(&mut es, "gateway");
        let mut ges = into_members(g);
        set_member_exec(&mut ges, "mode", JsonValue::Str("local".to_string()));
        let gv = JsonValue::Object(ges);
        set_member_exec(&mut es, "gateway", gv);
        proof {
            let e0 = members_of(v0);
            if member_index(e0, "gateway"@) is Some {
                lemma_set_set(e0, "gateway"@, JsonView::Null, json_view(gv));
            }
        }
        JsonValue::Object(es)
    };
    proof {
        lemma_with_gateway_mode(v0);
        assert(json_view(v1) == with_gateway_mode(v0));
    }
    let mut es = into_members(v1);
    let ghost e1 = mv(es@);
    let p = take_member(&mut es, "plugins");
    let ghost e1_taken = mv(es@);
    let mut pes = into_members(p);
    let ghost p0 = mv(pes@);
    let allow = take_member(&mut pes, "allow");
    let ghost p_taken = mv(pes@);
    let new_allow = match allow {
        JsonValue::Array(mut items) => {
            if contains_dingtalk(&items) {
                JsonValue::Array(items)
            } else {
                let x = JsonValue::Str("@openclaw-china/dingtalk".to_string());
                let ghost before = items@;
                let ghost xx = x;
                items.push(x);
                proof {
                    lemma_iv_push(before, xx);
                }
                JsonValue::Array(items)
            }
        },
        _ => {
            let mut items: Vec<JsonValue> = Vec::new();
            let x = JsonValue::Str("@openclaw-china/dingtalk".to_string());
            let ghost xx = x;
            items.push(x);
            proof {
                lemma_iv_push(Seq::empty(), xx);
                assert(iv(Seq::<JsonValue>::empty()) =~= Seq::<JsonView>::empty());
                assert(Seq::<JsonView>::empty().push(json_view(xx)) =~= seq![JsonView::Str(dingtalk())]);
                assert(items@ =~= Seq::<JsonValue>::empty().push(xx));
            }
            JsonValue::Array(items)
        },
    };
    proof {
        assert(json_view(new_allow) == allow_with_dingtalk(member(p0, "allow"@)));
    }
    let ghost av = json_view(new_allow);
    set_member_exec(&mut pes, "allow", new_allow);
    proof {
        if member_index(p0, "allow"@) is Some {
            lemma_set_set(p0, "allow"@, JsonView::Null, av);
        }
    }
    let pv = JsonValue::Object(pes);
    let ghost pvv = json_view(pv);
    set_member_exec(&mut es, "plugins", pv);
    proof {
        if member_index(e1, "plugins"@) is Some {
            lemma_set_set(e1, "plugins"@, JsonView::Null, pvv);
        }
    }
    JsonValue::Object(es)
}

/// The configuration written to a new file:
/// `{"gateway": {"mode": "local"}, "plugins": {"allow": ["@openclaw-china/dingtalk"]}}`.
pub fn default_config() -> (r: JsonValue)
    ensures
        json_view(r) == default_config_view(),
{
    let mut gateway: Vec<(String, JsonValue)> = Vec::new();
    proof {
        assert(mv(gateway@) =~= Seq::<(Seq<char>, JsonView)>::empty());
    }
    set_member_exec(&mut gateway, "mode", JsonValue::Str("local".to_string()));
    proof {
        assert(mv(gateway@) =~= seq![("mode"@, JsonView::Str("local"@))]);
    }
    let mut items: Vec<JsonValue> = Vec::new();
    let x = JsonValue::Str("@openclaw-china/dingtalk".to_string());
    let ghost xx = x;
    items.push(x);
    proof {
        lemma_iv_push(Seq::empty(), xx);
        assert(iv(Seq::<JsonValue>::empty()) =~= Seq::<JsonView>::empty());
        assert(items@ =~= Seq::<JsonValue>::empty().push(xx));
    }
    let mut plugins: Vec<(String, JsonValue)> = Vec::new();
    proof {
        assert(mv(plugins@) =~= Seq::<(Seq<char>, JsonView)>::empty());
    }
    set_member_exec(&mut plugins, "allow", JsonValue::Array(items));
    proof {
        assert(mv(plugins@) =~= seq![("allow"@, JsonView::Array(seq![JsonView::Str(dingtalk())]))]);
    }
    let mut top: Vec<(String, JsonValue)> = Vec::new();
    proof {
        assert(mv(top@) =~= Seq::<(Seq<char>, JsonView)>::empty());
    }
    let gw = JsonValue::Object(gateway);
    let ghost gwv = json_view(gw);
    set_member_exec(&mut top, "gateway", gw);
    proof {
        assert(mv(top@) =~= seq![("gateway"@, gwv)]);
        assert("gateway"@ != "plugins"@) by {
            reveal_strlit("gateway");
            reveal_strlit("plugins");
            assert("gateway"@[0] != "plugins"@[0]);
        }
        lemma_member_index(mv(top@), "plugins"@, 1);
    }
    let pl = JsonValue::Object(plugins);
    let ghost plv = json_view(pl);
    set_member_exec(&mut top, "plugins", pl);
    proof {
        let t = mv(top@);
        assert(t =~= seq![("gateway"@, gwv), ("plugins"@, plv)]);
        assert(t =~= members_of(default_config_view()));
    }
    JsonValue::Object(top)
}

// ---------------------------------------------------------------------------
// The configuration file's text, read and written with serde_json
// ---------------------------------------------------------------------------

/// `serde_json::Value`, which only passes through the conversions below.
#[verifier::external_type_specification]
#[verifier::external_body]
pub struct ExSerdeJsonValue(serde_json::Value);

/// A `serde_json::Value` in the library's form, member for member (a number
/// as the text serde_json writes for it).  Nothing is claimed of it.
#[verifier::external_body]
fn from_serde(v: serde_json::Value) -> JsonValue {
    match v {
        serde_json::Value::Null => JsonValue::Null,
        serde_json::Value::Bool(b) => JsonValue::Bool(b),
        serde_json::Value::Number(n) => JsonValue::Number(n.to_string()),
        serde_json::Value::String(t) => JsonValue::Str(t),
        serde_json::Value::Array(a) => JsonValue::Array(a.into_iter().map(from_serde).collect()),
        serde_json::Value::Object(m) => JsonValue::Object(
            m.into_iter().map(|(k, x)| (k, from_serde(x))).collect(),
        ),
    }
}

/// A document of the library as a `serde_json::Value` (a number text that
/// serde_json does not read becomes `null`).  Nothing is claimed of it.
#[verifier::external_body]
fn to_serde(v: JsonValue) -> serde_json::Value {
    match v {
        JsonValue::Null => serde_json::Value::Null,
        JsonValue::Bool(b) => serde_json::Value::Bool(b),
        JsonValue::Number(n) => n.parse().map(serde_json::Value::Number).unwrap_or_default(),
        JsonValue::Str(t) => serde_json::Value::String(t),
        JsonValue::Array(a) => serde_json::Value::Array(a.into_iter().map(to_serde).collect()),
        JsonValue::Object(m) => serde_json::Value::Object(
            m.into_iter().map(|(k, x)| (k, to_serde(x))).collect(),
        ),
    }
}

/// The document that `serde_json::from_str` reads from a text; none where
/// the text is not JSON.
pub uninterp spec fn json_read(text: Seq<char>) -> Option<JsonView>;

/// The text that `serde_json::to_string_pretty` writes for a document.
pub uninterp spec fn json_pretty(v: JsonView) -> Seq<char>;

/// `serde_json::from_str::<serde_json::Value>(text).ok()`, in the library's
/// form.  The contract claims that what is read depends on the text alone.
#[verifier::external_body]
fn parse_json(text: &str) -> (r: Option<JsonValue>)
    ensures
        match r {
            Some(v) => json_read(text@) == Some(json_view(v)),
            None => json_read(text@) is None,
        },
{
    serde_json::from_str::<serde_json::Value>(text).ok().map(from_serde)
}

/// `serde_json::to_string_pretty` of a document.  The contract claims that
/// serde_json always writes a text for a `serde_json::Value` (its keys are
/// strings and it is written into memory, so serialising cannot fail), and
/// that the text depends on the document alone.
#[verifier::external_body]
fn to_pretty_json(v: JsonValue) -> (r: Option<String>)
    ensures
        r is Some,
        r matches Some(t) ==> t@ == json_pretty(json_view(v)),
{
    serde_json::to_string_pretty(&to_serde(v)).ok()
}

/// The text written to a new configuration file.
pub fn default_config_text() -> (r: Option<String>)
    ensures
        r matches Some(t) && t@ == json_pretty(default_config_view()),
{
    to_pretty_json(default_config())
}

/// What becomes of an existing configuration file's text.
#[derive(Debug)]
pub enum ConfigFileUpdate {
    /// The text is not JSON: the file is left as it is.
    NotJson,
    /// The document cannot be updated: indexing it for writing panics.
    Unwritable,
    /// The updated document's text.
    Updated(String),
}

/// Reads an existing configuration file's text, updates the document (see
/// `ensure_config_defaults`) and writes it out again.
pub fn update_config_text(content: &str) -> (r: ConfigFileUpdate)
    ensures
        json_read(content@) is None ==> r is NotJson,
        json_read(content@) matches Some(v) ==> (if config_update_panics(v) {
            r is Unwritable
        } else {
            r matches ConfigFileUpdate::Updated(x) && x@ == json_pretty(config_defaults(v))
        }),
{
    match parse_json(content) {
        None => ConfigFileUpdate::NotJson,
        Some(doc) => {
            if config_update_would_panic(&doc) {
                ConfigFileUpdate::Unwritable
            } else {
                ConfigFileUpdate::Updated(to_pretty_json(ensure_config_defaults(doc)).unwrap())
            }
        },
    }
}

} // verus!
