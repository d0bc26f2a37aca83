//! The node list of the picker, built from the proxies Mihomo reports, and
//! the choice of the main selectable group.
//!
//! A proxies table is the `GET /proxies` map given as `(name, info)` pairs in
//! the order the map was walked; group lookups that fall back to "the first
//! selector group" follow that order.

use vstd::prelude::*;
use crate::api::{latest_delay_spec, ProxyInfo};
use crate::config::Subscription;
use crate::text::{ascii_lower, chars_of, str_eq};
use crate::tui::NodeEntry;
use crate::url::strings_view;

verus! {

/// Abstract view of a node row.
pub struct NodeView {
    pub name: Seq<char>,
    pub delay: u64,
    pub is_current: bool,
    pub subscription: Seq<char>,
}

/// The views of node rows.
pub open spec fn nodes_view(v: Seq<NodeEntry>) -> Seq<NodeView> {
    Seq::new(
        v.len(),
        |i: int|
            NodeView {
                name: v[i].name@,
                delay: v[i].delay,
                is_current: v[i].is_current,
                subscription: v[i].subscription@,
            },
    )
}

/// Index of the first entry of `t` named `name`, or -1.
pub open spec fn proxy_index(t: Seq<(String, ProxyInfo)>, name: Seq<char>) -> int
    decreases t.len(),
{
    if t.len() == 0 {
        -1
    } else {
        let k = proxy_index(t.drop_last(), name);
        if k >= 0 {
            k
        } else if t.last().0@ == name {
            t.len() - 1
        } else {
            -1
        }
    }
}

proof fn lemma_proxy_index(t: Seq<(String, ProxyInfo)>, name: Seq<char>)
    ensures
        -1 <= proxy_index(t, name) < t.len(),
        proxy_index(t, name) >= 0 ==> t[proxy_index(t, name)].0@ == name,
        proxy_index(t, name) >= 0 ==> forall|j: int|
            0 <= j < proxy_index(t, name) ==> (#[trigger] t[j]).0@ != name,
        proxy_index(t, name) == -1 ==> forall|j: int| 0 <= j < t.len() ==> (#[trigger] t[j]).0@ != name,
    decreases t.len(),
{
    if t.len() > 0 {
        lemma_proxy_index(t.drop_last(), name);
        assert forall|j: int| 0 <= j < t.len() - 1 implies t.drop_last()[j] == t[j] by {}
    }
}

proof fn lemma_proxy_index_unique(t: Seq<(String, ProxyInfo)>, name: Seq<char>, k: int)
    requires
        0 <= k < t.len(),
        t[k].0@ == name,
        forall|j: int| 0 <= j < k ==> (#[trigger] t[j]).0@ != name,
    ensures
        proxy_index(t, name) == k,
{
    lemma_proxy_index(t, name);
}

/// No two entries of the table share a name, as in the map keyed by proxy
/// name that Mihomo's `GET /proxies` returns.
pub open spec fn distinct_names(t: Seq<(String, ProxyInfo)>) -> bool {
    forall|i: int, j: int| 0 <= i < j < t.len() ==> (#[trigger] t[i]).0@ != (#[trigger] t[j]).0@
}

/// The info of the proxy named `name`.
pub open spec fn proxy_get(t: Seq<(String, ProxyInfo)>, name: Seq<char>) -> Option<ProxyInfo> {
    let k = proxy_index(t, name);
    if k >= 0 {
        Some(t[k].1)
    } else {
        None
    }
}

/// The latest delay of the proxy named `name` (0 when unknown).
pub open spec fn node_delay(t: Seq<(String, ProxyInfo)>, name: Seq<char>) -> u64 {
    match proxy_get(t, name) {
        Some(p) => latest_delay_spec(p),
        None => 0,
    }
}

/// Proxy group types Mihomo treats as selectable groups.
pub open spec fn group_types() -> Seq<Seq<char>> {
    seq![
        "Selector"@,
        "URLTest"@,
        "Fallback"@,
        "LoadBalance"@,
        "select"@,
        "url-test"@,
        "fallback"@,
        "load-balance"@,
    ]
}

/// ASCII case-insensitive equality, as `str::eq_ignore_ascii_case`.
pub open spec fn eq_ignore_case(a: Seq<char>, b: Seq<char>) -> bool {
    ascii_lower(a) == ascii_lower(b)
}

/// Whether a proxy type names a group.
pub open spec fn is_group_type_spec(ty: Seq<char>) -> bool {
    exists|k: int| 0 <= k < group_types().len() && eq_ignore_case(group_types()[k], ty)
}

/// Built-in proxy names that are not real nodes.
pub open spec fn reserved_names() -> Seq<Seq<char>> {
    seq!["DIRECT"@, "REJECT"@, "REJECT-DROP"@, "COMPATIBLE"@, "PASS"@, "GLOBAL"@]
}

/// Whether `name` is a built-in proxy.
pub open spec fn is_reserved_spec(name: Seq<char>) -> bool {
    exists|k: int| 0 <= k < reserved_names().len() && reserved_names()[k] == name
}

fn literal_list_group_types() -> (v: Vec<String>)
    ensures
        strings_view(v@) == group_types(),
{
    let mut v: Vec<String> = Vec::new();
    v.push(String::from_str("Selector"));
    v.push(String::from_str("URLTest"));
    v.push(String::from_str("Fallback"));
    v.push(String::from_str("LoadBalance"));
    v.push(String::from_str("select"));
    v.push(String::from_str("url-test"));
    v.push(String::from_str("fallback"));
    v.push(String::from_str("load-balance"));
    assert(strings_view(v@) =~= group_types());
    v
}

/// ASCII case-insensitive equality of two strings.
pub fn eq_ignore_ascii_case(a: &str, b: &str) -> (res: bool)
    ensures
        res == eq_ignore_case(a@, b@),
{
    let x = chars_of(a);
    let y = chars_of(b);
    if x.len() != y.len() {
        assert(ascii_lower(a@).len() != ascii_lower(b@).len());
        return false;
    }
    let mut i: usize = 0;
    while i < x.len()
        invariant
            x@ == a@,
            y@ == b@,
            x.len() == y.len(),
            i <= x.len(),
            forall|k: int| 0 <= k < i ==> ascii_lower(a@)[k] == ascii_lower(b@)[k],
        decreases x.len() - i,
    {
        if crate::config::to_ascii_lower_char(x[i]) != crate::config::to_ascii_lower_char(y[i]) {
            assert(ascii_lower(a@)[i as int] != ascii_lower(b@)[i as int]);
            return false;
        }
        i = i + 1;
    }
    assert(ascii_lower(a@) =~= ascii_lower(b@));
    true
}

/// Whether a proxy type names a selectable group.
pub fn is_group_type(t: &str) -> (res: bool)
    ensures
        res == is_group_type_spec(t@),
{
    let types = literal_list_group_types();
    let mut k: usize = 0;
    while k < types.len()
        invariant
            k <= types.len(),
            strings_view(types@) == group_types(),
            forall|j: int| 0 <= j < k ==> !eq_ignore_case(#[trigger] group_types()[j], t@),
        decreases types.len() - k,
    {
        assert(group_types()[k as int] == types@[k as int]@);
        if eq_ignore_ascii_case(types[k].as_str(), t) {
            return true;
        }
        k = k + 1;
    }
    false
}

/// Whether `name` is a built-in proxy (`DIRECT`, `REJECT`, …) rather than a node.
pub fn is_reserved_proxy(name: &str) -> (res: bool)
    ensures
        res == is_reserved_spec(name@),
{
    let r = str_eq(name, "DIRECT") || str_eq(name, "REJECT") || str_eq(name, "REJECT-DROP")
        || str_eq(name, "COMPATIBLE") || str_eq(name, "PASS") || str_eq(name, "GLOBAL");
    proof {
        if r {
            let rn = reserved_names();
            if name@ == rn[0] {
                assert(rn[0] == name@);
            } else if name@ == rn[1] {
                assert(rn[1] == name@);
            } else if name@ == rn[2] {
                assert(rn[2] == name@);
            } else if name@ == rn[3] {
                assert(rn[3] == name@);
            } else if name@ == rn[4] {
                assert(rn[4] == name@);
            } else {
                assert(rn[5] == name@);
            }
        } else {
            assert forall|k: int| 0 <= k < reserved_names().len() implies reserved_names()[k]
                != name@ by {}
        }
    }
    r
}

/// Position of the proxy named `name`.
fn find_proxy(t: &Vec<(String, ProxyInfo)>, name: &str) -> (r: Option<usize>)
    ensures
        match r {
            Some(k) => k as int == proxy_index(t@, name@) && k < t@.len(),
            None => proxy_index(t@, name@) == -1,
        },
{
    let mut i: usize = 0;
    while i < t.len()
        invariant
            i <= t@.len(),
            forall|j: int| 0 <= j < i ==> (#[trigger] t@[j]).0@ != name@,
        decreases t.len() - i,
    {
        if str_eq(t[i].0.as_str(), name) {
            proof {
                lemma_proxy_index_unique(t@, name@, i as int);
            }
            return Some(i);
        }
        i = i + 1;
    }
    proof {
        lemma_proxy_index(t@, name@);
    }
    None
}

/// The latest delay of the proxy named `name` (0 when unknown).
fn delay_of(t: &Vec<(String, ProxyInfo)>, name: &str) -> (d: u64)
    ensures
        d == node_delay(t@, name@),
{
    match find_proxy(t, name) {
        Some(k) => t[k].1.latest_delay(),
        None => 0,
    }
}

// ─── Main group ─────────────────────────────────────────────────────────────

/// Whether a proxy is a `Selector` group with a member list.
pub open spec fn is_selector_group(p: ProxyInfo) -> bool {
    eq_ignore_case(p.proxy_type@, "Selector"@) && p.all is Some
}

/// Index of the first selector group with members, or -1.
pub open spec fn first_selector(t: Seq<(String, ProxyInfo)>) -> int
    decreases t.len(),
{
    if t.len() == 0 {
        -1
    } else {
        let k = first_selector(t.drop_last());
        if k >= 0 {
            k
        } else if is_selector_group(t.last().1) {
            t.len() - 1
        } else {
            -1
        }
    }
}

proof fn lemma_first_selector(t: Seq<(String, ProxyInfo)>)
    ensures
        -1 <= first_selector(t) < t.len(),
        first_selector(t) >= 0 ==> is_selector_group(t[first_selector(t)].1),
        first_selector(t) >= 0 ==> forall|j: int|
            0 <= j < first_selector(t) ==> !is_selector_group((#[trigger] t[j]).1),
        first_selector(t) == -1 ==> forall|j: int| 0 <= j < t.len() ==> !is_selector_group((#[trigger] t[j]).1),
    decreases t.len(),
{
    if t.len() > 0 {
        lemma_first_selector(t.drop_last());
        assert forall|j: int| 0 <= j < t.len() - 1 implies t.drop_last()[j] == t[j] by {}
    }
}

/// Index of the first proxy named by one of `cands` (candidates tried in
/// order), or -1.
pub open spec fn candidate_index(t: Seq<(String, ProxyInfo)>, cands: Seq<Seq<char>>) -> int
    decreases cands.len(),
{
    if cands.len() == 0 {
        -1
    } else {
        let k = proxy_index(t, cands[0]);
        if k >= 0 {
            k
        } else {
            candidate_index(t, cands.drop_first())
        }
    }
}

/// Index of the main group: the first candidate present, else the first
/// selector group; -1 when there is none.
pub open spec fn main_group_index_spec(t: Seq<(String, ProxyInfo)>, cands: Seq<Seq<char>>) -> int {
    let c = candidate_index(t, cands);
    if c >= 0 {
        c
    } else {
        first_selector(t)
    }
}

/// Group names tried when picking the group to switch nodes in.
pub open spec fn switch_candidates() -> Seq<Seq<char>> {
    seq!["PROXY"@, "🔰 节点选择"@, "节点选择"@, "Proxy"@]
}

/// Group names tried when listing nodes of a full configuration.
pub open spec fn list_candidates() -> Seq<Seq<char>> {
    seq!["PROXY"@, "🔰 节点选择"@, "节点选择"@, "Proxy"@, "proxy"@]
}

fn switch_candidate_list() -> (v: Vec<String>)
    ensures
        strings_view(v@) == switch_candidates(),
{
    let mut v: Vec<String> = Vec::new();
    v.push(String::from_str("PROXY"));
    v.push(String::from_str("🔰 节点选择"));
    v.push(String::from_str("节点选择"));
    v.push(String::from_str("Proxy"));
    assert(strings_view(v@) =~= switch_candidates());
    v
}

fn list_candidate_list() -> (v: Vec<String>)
    ensures
        strings_view(v@) == list_candidates(),
{
    let mut v: Vec<String> = Vec::new();
    v.push(String::from_str("PROXY"));
    v.push(String::from_str("🔰 节点选择"));
    v.push(String::from_str("节点选择"));
    v.push(String::from_str("Proxy"));
    v.push(String::from_str("proxy"));
    assert(strings_view(v@) =~= list_candidates());
    v
}

/// Index of the main group among `t` (see [`main_group_index_spec`]).
fn main_group_index(t: &Vec<(String, ProxyInfo)>, cands: &Vec<String>) -> (r: Option<usize>)
    ensures
        match r {
            Some(k) => k as int == main_group_index_spec(t@, strings_view(cands@)) && k < t@.len(),
            None => main_group_index_spec(t@, strings_view(cands@)) == -1,
        },
{
    let ghost cv = strings_view(cands@);
    let mut c: usize = 0;
    assert(cv.subrange(0, cv.len() as int) =~= cv);
    while c < cands.len()
        invariant
            c <= cands@.len(),
            cv == strings_view(cands@),
            candidate_index(t@, cv) == candidate_index(t@, cv.subrange(c as int, cv.len() as int)),
        decreases cands.len() - c,
    {
        let ghost rest = cv.subrange(c as int, cv.len() as int);
        proof {
            assert(rest.drop_first() =~= cv.subrange(c + 1, cv.len() as int));
            assert(rest[0] == cands@[c as int]@);
        }
        match find_proxy(t, cands[c].as_str()) {
            Some(k) => {
                return Some(k);
            },
            None => {},
        }
        c = c + 1;
    }
    assert(cv.subrange(c as int, cv.len() as int) =~= Seq::<Seq<char>>::empty());
    let mut i: usize = 0;
    while i < t.len()
        invariant
            i <= t@.len(),
            cv == strings_view(cands@),
            candidate_index(t@, cv) == -1,
            forall|j: int| 0 <= j < i ==> !is_selector_group((#[trigger] t@[j]).1),
        decreases t.len() - i,
    {
        let info = &t[i].1;
        if eq_ignore_ascii_case(info.proxy_type.as_str(), "Selector") && info.all.is_some() {
            proof {
                lemma_first_selector(t@);
                assert(is_selector_group(t@[i as int].1));
            }
            return Some(i);
        }
        i = i + 1;
    }
    proof {
        lemma_first_selector(t@);
    }
    None
}

/// The name of the main selectable group: `PROXY`, `🔰 节点选择`, `节点选择`
/// or `Proxy` (first present), else the first `Selector` group with members.
pub fn main_group_name(t: &Vec<(String, ProxyInfo)>) -> (res: Option<String>)
    requires
        distinct_names(t@),
    ensures
        ({
            let k = main_group_index_spec(t@, switch_candidates());
            match res {
                Some(n) => k >= 0 && n@ == t@[k].0@,
                None => k == -1,
            }
        }),
{
    let cands = switch_candidate_list();
    match main_group_index(t, &cands) {
        Some(k) => Some(t[k].0.clone()),
        None => None,
    }
}

/// The group best-node selection switches in: the main group, else `PROXY`.
pub fn auto_best_group(t: &Vec<(String, ProxyInfo)>) -> (g: String)
    requires
        distinct_names(t@),
    ensures
        ({
            let k = main_group_index_spec(t@, switch_candidates());
            if k >= 0 {
                g@ == t@[k].0@
            } else {
                g@ == "PROXY"@
            }
        }),
{
    match main_group_name(t) {
        Some(n) => n,
        None => String::from_str("PROXY"),
    }
}

/// The node selected in the main group.
pub fn current_node_of(t: &Vec<(String, ProxyInfo)>) -> (res: Option<String>)
    requires
        distinct_names(t@),
    ensures
        ({
            let k = main_group_index_spec(t@, switch_candidates());
            if k >= 0 {
                match t@[k].1.now {
                    Some(n) => res matches Some(r) && r@ == n@,
                    None => res is None,
                }
            } else {
                res is None
            }
        }),
{
    let cands = switch_candidate_list();
    match main_group_index(t, &cands) {
        Some(k) => t[k].1.now.clone(),
        None => None,
    }
}


// ─── Node list ──────────────────────────────────────────────────────────────

/// The nodes of a subscription's provider group (proxy-provider mode).
pub open spec fn sub_nodes(t: Seq<(String, ProxyInfo)>, sub: Subscription) -> Seq<NodeView> {
    match proxy_get(t, sub.name@) {
        Some(g) => match g.all {
            Some(all) => Seq::new(
                all@.len(),
                |i: int|
                    NodeView {
                        name: all@[i]@,
                        delay: node_delay(t, all@[i]@),
                        is_current: false,
                        subscription: sub.name@,
                    },
            ),
            None => Seq::empty(),
        },
        None => Seq::empty(),
    }
}

/// The nodes of every subscription's provider group, subscription by subscription.
pub open spec fn provider_nodes(t: Seq<(String, ProxyInfo)>, subs: Seq<Subscription>) -> Seq<NodeView>
    decreases subs.len(),
{
    if subs.len() == 0 {
        Seq::empty()
    } else {
        provider_nodes(t, subs.drop_last()) + sub_nodes(t, subs.last())
    }
}

/// Whether `name` is the name of a proxy group.
pub open spec fn is_group_name(t: Seq<(String, ProxyInfo)>, name: Seq<char>) -> bool {
    exists|j: int| 0 <= j < t.len() && t[j].0@ == name && is_group_type_spec(t[j].1.proxy_type@)
}

/// The subscription shown for a node of a full configuration: its non-empty
/// provider name, else the first configured subscription, else `default`.
pub open spec fn fallback_sub_name(
    t: Seq<(String, ProxyInfo)>,
    subs: Seq<Subscription>,
    node: Seq<char>,
) -> Seq<char> {
    let first = if subs.len() > 0 {
        subs[0].name@
    } else {
        "default"@
    };
    match proxy_get(t, node) {
        Some(p) => match p.provider_name {
            Some(pn) => if pn@.len() > 0 {
                pn@
            } else {
                first
            },
            None => first,
        },
        None => first,
    }
}

/// The members of the main group that are real nodes (neither groups nor
/// built-in proxies).
pub open spec fn member_nodes(
    t: Seq<(String, ProxyInfo)>,
    subs: Seq<Subscription>,
    all: Seq<String>,
) -> Seq<NodeView>
    decreases all.len(),
{
    if all.len() == 0 {
        Seq::empty()
    } else {
        let rest = member_nodes(t, subs, all.drop_last());
        let n = all.last()@;
        if is_group_name(t, n) || is_reserved_spec(n) {
            rest
        } else {
            rest.push(
                NodeView {
                    name: n,
                    delay: node_delay(t, n),
                    is_current: false,
                    subscription: fallback_sub_name(t, subs, n),
                },
            )
        }
    }
}

/// The node list: the nodes of the subscriptions' provider groups; when
/// there are none (a full configuration), the real nodes of the main group.
pub open spec fn node_list_spec(t: Seq<(String, ProxyInfo)>, subs: Seq<Subscription>) -> Seq<NodeView> {
    let p = provider_nodes(t, subs);
    if p.len() > 0 {
        p
    } else {
        let k = main_group_index_spec(t, list_candidates());
        if k >= 0 {
            match t[k].1.all {
                Some(all) => member_nodes(t, subs, all@),
                None => Seq::empty(),
            }
        } else {
            Seq::empty()
        }
    }
}

/// In a full configuration every listed node is a real node: neither a
/// proxy group nor a built-in proxy.
pub proof fn law_member_nodes_are_real(
    t: Seq<(String, ProxyInfo)>,
    subs: Seq<Subscription>,
    all: Seq<String>,
)
    ensures
        forall|i: int|
            0 <= i < member_nodes(t, subs, all).len() ==> !is_group_name(
                t,
                (#[trigger] member_nodes(t, subs, all)[i]).name,
            ) && !is_reserved_spec(member_nodes(t, subs, all)[i].name),
    decreases all.len(),
{
    if all.len() > 0 {
        law_member_nodes_are_real(t, subs, all.drop_last());
        let rest = member_nodes(t, subs, all.drop_last());
        let m = member_nodes(t, subs, all);
        assert forall|i: int| 0 <= i < m.len() implies !is_group_name(t, (#[trigger] m[i]).name)
            && !is_reserved_spec(m[i].name) by {
            if i < rest.len() {
                assert(m[i] == rest[i]);
            }
        }
    }
}

/// In proxy-provider mode every node is listed under the subscription whose
/// provider group holds it.
pub proof fn law_provider_nodes_belong_to_subscriptions(
    t: Seq<(String, ProxyInfo)>,
    subs: Seq<Subscription>,
)
    ensures
        forall|i: int|
            0 <= i < provider_nodes(t, subs).len() ==> exists|k: int|
                0 <= k < subs.len() && (#[trigger] provider_nodes(t, subs)[i]).subscription
                    == subs[k].name@,
    decreases subs.len(),
{
    if subs.len() > 0 {
        law_provider_nodes_belong_to_subscriptions(t, subs.drop_last());
        let rest = provider_nodes(t, subs.drop_last());
        let last = sub_nodes(t, subs.last());
        let p = provider_nodes(t, subs);
        assert forall|i: int| 0 <= i < p.len() implies exists|k: int|
            0 <= k < subs.len() && (#[trigger] p[i]).subscription == subs[k].name@ by {
            if i < rest.len() {
                assert(p[i] == rest[i]);
                let k = choose|k: int|
                    0 <= k < subs.drop_last().len() && rest[i].subscription
                        == subs.drop_last()[k].name@;
                assert(subs.drop_last()[k] == subs[k]);
            } else {
                assert(p[i] == last[i - rest.len()]);
                assert(p[i].subscription == subs[subs.len() - 1].name@);
            }
        }
    }
}

/// The members listed by the group named `name` (none when there is no such
/// group or it lists none).
pub open spec fn group_members(t: Seq<(String, ProxyInfo)>, name: Seq<char>) -> Seq<String> {
    match proxy_get(t, name) {
        Some(g) => match g.all {
            Some(all) => all@,
            None => Seq::empty(),
        },
        None => Seq::empty(),
    }
}

/// How many members the provider groups of the first `k` subscriptions list
/// together.
pub open spec fn members_before(t: Seq<(String, ProxyInfo)>, subs: Seq<Subscription>, k: int) -> nat
    decreases k,
{
    if k <= 0 {
        0
    } else {
        members_before(t, subs, k - 1) + group_members(t, subs[k - 1].name@).len()
    }
}

proof fn lemma_members_before_prefix(t: Seq<(String, ProxyInfo)>, subs: Seq<Subscription>, k: int)
    requires
        0 <= k < subs.len(),
    ensures
        members_before(t, subs, k) == members_before(t, subs.drop_last(), k),
    decreases k,
{
    if k > 0 {
        lemma_members_before_prefix(t, subs, k - 1);
        assert(subs[k - 1] == subs.drop_last()[k - 1]);
    }
}

proof fn lemma_members_before_monotonic(t: Seq<(String, ProxyInfo)>, subs: Seq<Subscription>, j: int, k: int)
    requires
        0 <= j <= k,
    ensures
        members_before(t, subs, j) <= members_before(t, subs, k),
    decreases k,
{
    if j < k {
        lemma_members_before_monotonic(t, subs, j, k - 1);
    }
}

/// Provider-group nodes: the members of every subscription's provider group,
/// subscription after subscription in configuration order, each member in
/// its group's order and listed under its own subscription. The list is as
/// long as all those groups' member lists together.
proof fn lemma_provider_nodes_layout(t: Seq<(String, ProxyInfo)>, subs: Seq<Subscription>)
    ensures
        provider_nodes(t, subs).len() == members_before(t, subs, subs.len() as int),
        forall|k: int, m: int|
            0 <= k < subs.len() && 0 <= m < group_members(t, subs[k].name@).len() ==> {
                let n = #[trigger] provider_nodes(t, subs)[members_before(t, subs, k) + m];
                &&& n.name == group_members(t, subs[k].name@)[m]@
                &&& n.subscription == subs[k].name@
                &&& !n.is_current
            },
    decreases subs.len(),
{
    if subs.len() > 0 {
        let init = subs.drop_last();
        lemma_provider_nodes_layout(t, init);
        let rest = provider_nodes(t, init);
        let last = sub_nodes(t, subs.last());
        let p = provider_nodes(t, subs);
        let kl = subs.len() - 1;
        lemma_members_before_prefix(t, subs, kl);
        assert(last.len() == group_members(t, subs[kl].name@).len());
        assert forall|k: int, m: int|
            0 <= k < subs.len() && 0 <= m < group_members(t, subs[k].name@).len() implies {
                let n = #[trigger] p[members_before(t, subs, k) + m];
                &&& n.name == group_members(t, subs[k].name@)[m]@
                &&& n.subscription == subs[k].name@
                &&& !n.is_current
            } by {
            if k < kl {
                lemma_members_before_prefix(t, subs, k);
                lemma_members_before_prefix(t, subs, k + 1);
                lemma_members_before_monotonic(t, init, k + 1, kl);
                assert(init[k] == subs[k]);
                assert(p[members_before(t, subs, k) + m] == rest[members_before(t, init, k) + m]);
            } else {
                assert(p[members_before(t, subs, k) + m] == last[m]);
            }
        }
    }
}

/// In proxy-provider mode (some subscription's provider group lists members)
/// the node list is the members of every subscription's provider group,
/// subscription after subscription in configuration order: the member `m`
/// of subscription `k`'s group stands at position `members_before(k) + m`,
/// listed under subscription `k`, and the list is exactly as long as all
/// those member lists together. No subscription's nodes are left out.
pub proof fn law_provider_mode_lists_every_subscription(
    t: Seq<(String, ProxyInfo)>,
    subs: Seq<Subscription>,
)
    requires
        members_before(t, subs, subs.len() as int) > 0,
    ensures
        node_list_spec(t, subs).len() == members_before(t, subs, subs.len() as int),
        forall|k: int, m: int|
            0 <= k < subs.len() && 0 <= m < group_members(t, subs[k].name@).len() ==> {
                let n = #[trigger] node_list_spec(t, subs)[members_before(t, subs, k) + m];
                &&& n.name == group_members(t, subs[k].name@)[m]@
                &&& n.subscription == subs[k].name@
                &&& !n.is_current
            },
{
    lemma_provider_nodes_layout(t, subs);
}

/// Whether `name` names a proxy group.
fn group_name_in(t: &Vec<(String, ProxyInfo)>, name: &str) -> (res: bool)
    ensures
        res == is_group_name(t@, name@),
{
    let mut j: usize = 0;
    while j < t.len()
        invariant
            j <= t@.len(),
            forall|k: int|
                0 <= k < j ==> !((#[trigger] t@[k]).0@ == name@ && is_group_type_spec(
                    t@[k].1.proxy_type@,
                )),
        decreases t.len() - j,
    {
        if str_eq(t[j].0.as_str(), name) && is_group_type(t[j].1.proxy_type.as_str()) {
            return true;
        }
        j = j + 1;
    }
    false
}

fn fallback_sub(t: &Vec<(String, ProxyInfo)>, subs: &Vec<Subscription>, node: &str) -> (s: String)
    ensures
        s@ == fallback_sub_name(t@, subs@, node@),
{
    let first = if subs.len() > 0 {
        subs[0].name.clone()
    } else {
        String::from_str("default")
    };
    match find_proxy(t, node) {
        Some(k) => match &t[k].1.provider_name {
            Some(pn) => if pn.unicode_len() > 0 {
                pn.clone()
            } else {
                first
            },
            None => first,
        },
        None => first,
    }
}

/// In a table without repeated names, a name is a group's name exactly when
/// the lookup by that name finds a group.
pub proof fn law_group_name_is_lookup(t: Seq<(String, ProxyInfo)>, name: Seq<char>)
    requires
        distinct_names(t),
    ensures
        is_group_name(t, name) <==> (proxy_get(t, name) matches Some(p) && is_group_type_spec(
            p.proxy_type@,
        )),
{
    lemma_proxy_index(t, name);
    if is_group_name(t, name) {
        let j = choose|j: int| 0 <= j < t.len() && t[j].0@ == name && is_group_type_spec(t[j].1.proxy_type@);
        let k = proxy_index(t, name);
        if k != j {
            if k < j {
                assert(t[k].0@ != t[j].0@);
            } else if k >= 0 {
                assert(t[j].0@ != name);
            }
        }
    }
}

/// Builds the node table from the proxies Mihomo reports (see [`node_list_spec`]).
pub fn build_node_list(proxies: &Vec<(String, ProxyInfo)>, cfg: &crate::config::LadderConfig) -> (res: Vec<NodeEntry>)
    requires
        distinct_names(proxies@),
    ensures
        nodes_view(res@) == node_list_spec(proxies@, cfg.subscriptions@),
{
    let subs = &cfg.subscriptions;
    let mut result: Vec<NodeEntry> = Vec::new();
    let mut s: usize = 0;
    while s < subs.len()
        invariant
            s <= subs@.len(),
            nodes_view(result@) == provider_nodes(proxies@, subs@.subrange(0, s as int)),
        decreases subs.len() - s,
    {
        let sub = &subs[s];
        let ghost before = nodes_view(result@);
        proof {
            assert(subs@.subrange(0, s + 1).drop_last() =~= subs@.subrange(0, s as int));
        }
        match find_proxy(proxies, sub.name.as_str()) {
            Some(g) => {
                match &proxies[g].1.all {
                    Some(all) => {
                        let mut i: usize = 0;
                        while i < all.len()
                            invariant
                                i <= all@.len(),
                                proxies@[g as int].1.all == Some(*all),
                                proxy_get(proxies@, sub.name@) == Some(proxies@[g as int].1),
                                *sub == subs@[s as int],
                                nodes_view(result@) =~= before + Seq::new(
                                    i as nat,
                                    |k: int|
                                        NodeView {
                                            name: all@[k]@,
                                            delay: node_delay(proxies@, all@[k]@),
                                            is_current: false,
                                            subscription: sub.name@,
                                        },
                                ),
                            decreases all.len() - i,
                        {
                            let d = delay_of(proxies, all[i].as_str());
                            let ghost b2 = nodes_view(result@);
                            let ghost nv = NodeView {
                                name: all@[i as int]@,
                                delay: d,
                                is_current: false,
                                subscription: sub.name@,
                            };
                            result.push(
                                NodeEntry {
                                    name: all[i].clone(),
                                    delay: d,
                                    is_current: false,
                                    subscription: sub.name.clone(),
                                },
                            );
                            assert(nodes_view(result@) =~= b2.push(nv));
                            i = i + 1;
                        }
                        assert(nodes_view(result@) =~= before + sub_nodes(proxies@, *sub));
                    },
                    None => {
                        assert(sub_nodes(proxies@, *sub) =~= Seq::<NodeView>::empty());
                        assert(nodes_view(result@) =~= before + sub_nodes(proxies@, *sub));
                    },
                }
            },
            None => {
                assert(sub_nodes(proxies@, *sub) =~= Seq::<NodeView>::empty());
                assert(nodes_view(result@) =~= before + sub_nodes(proxies@, *sub));
            },
        }
        s = s + 1;
    }
    assert(subs@.subrange(0, subs@.len() as int) =~= subs@);
    if result.len() > 0 {
        return result;
    }
    let cands = list_candidate_list();
    match main_group_index(proxies, &cands) {
        Some(g) => match &proxies[g].1.all {
            Some(all) => {
                let mut i: usize = 0;
                while i < all.len()
                    invariant
                        i <= all@.len(),
                        nodes_view(result@) == member_nodes(
                            proxies@,
                            subs@,
                            all@.subrange(0, i as int),
                        ),
                    decreases all.len() - i,
                {
                    let name = all[i].as_str();
                    proof {
                        assert(all@.subrange(0, i + 1).drop_last() =~= all@.subrange(0, i as int));
                    }
                    if !group_name_in(proxies, name) && !is_reserved_proxy(name) {
                        let ghost before = nodes_view(result@);
                        let d = delay_of(proxies, name);
                        let sn = fallback_sub(proxies, subs, name);
                        result.push(
                            NodeEntry {
                                name: all[i].clone(),
                                delay: d,
                                is_current: false,
                                subscription: sn,
                            },
                        );
                        assert(nodes_view(result@) =~= before.push(
                            NodeView {
                                name: all@[i as int]@,
                                delay: d,
                                is_current: false,
                                subscription: sn@,
                            },
                        ));
                    }
                    i = i + 1;
                }
                assert(all@.subrange(0, all@.len() as int) =~= all@);
                result
            },
            None => result,
        },
        None => result,
    }
}


/// Node views with exactly the nodes named `name` marked current.
pub open spec fn mark_views(v: Seq<NodeView>, name: Option<Seq<char>>) -> Seq<NodeView> {
    Seq::new(v.len(), |i: int| NodeView { is_current: name == Some(v[i].name), ..v[i] })
}

} // verus!
