//! The ladder configuration: proxy ports, the Mihomo controller, and the
//! list of subscriptions with name-based lookup.

use vstd::prelude::*;
pub use crate::url::{default_subscription_name_from_url, validate_subscription_url};
use crate::text::{
    ascii_lower, ascii_lower_char, chars_of, ends_with, push_char, str_eq, string_from_range, trim,
    trim_bounds,
};

verus! {

/// Default HTTP (mixed) proxy port.
pub const DEFAULT_PORT: u16 = 7890;
/// Default SOCKS5 proxy port.
pub const DEFAULT_SOCKS_PORT: u16 = 7891;
/// Default Mihomo RESTful controller port.
pub const DEFAULT_CONTROL_PORT: u16 = 9090;
/// Default subscription refresh interval in seconds (24 hours).
pub const DEFAULT_INTERVAL: u64 = 86400;

pub fn default_port() -> (p: u16)
    ensures
        p == DEFAULT_PORT,
{
    DEFAULT_PORT
}

pub fn default_socks_port() -> (p: u16)
    ensures
        p == DEFAULT_SOCKS_PORT,
{
    DEFAULT_SOCKS_PORT
}

pub fn default_control_port() -> (p: u16)
    ensures
        p == DEFAULT_CONTROL_PORT,
{
    DEFAULT_CONTROL_PORT
}

pub fn default_interval() -> (i: u64)
    ensures
        i == DEFAULT_INTERVAL,
{
    DEFAULT_INTERVAL
}

/// Global settings of the `[ladder]` table.
#[derive(Debug, Clone)]
pub struct LadderSettings {
    /// HTTP (mixed) proxy port.
    pub port: u16,
    /// SOCKS5 proxy port.
    pub socks_port: u16,
    /// Mihomo RESTful API port.
    pub control_port: u16,
    /// Optional Mihomo API secret.
    pub api_secret: Option<String>,
    /// Optional path of an external mihomo binary.
    pub mihomo_bin: Option<String>,
}

impl Default for LadderSettings {
    fn default() -> (s: Self)
        ensures
            s.port == DEFAULT_PORT,
            s.socks_port == DEFAULT_SOCKS_PORT,
            s.control_port == DEFAULT_CONTROL_PORT,
            s.api_secret is None,
            s.mihomo_bin is None,
    {
        LadderSettings {
            port: default_port(),
            socks_port: default_socks_port(),
            control_port: default_control_port(),
            api_secret: None,
            mihomo_bin: None,
        }
    }
}

/// One subscription; its name identifies it.
#[derive(Debug, Clone)]
pub struct Subscription {
    /// Display name (unique identifier).
    pub name: String,
    /// Subscription URL.
    pub url: String,
    /// Refresh interval in seconds.
    pub interval: u64,
}

/// The main configuration file contents.
#[derive(Debug, Clone)]
pub struct LadderConfig {
    pub ladder: LadderSettings,
    pub subscriptions: Vec<Subscription>,
}

impl Default for LadderConfig {
    fn default() -> (c: Self)
        ensures
            c.ladder.port == DEFAULT_PORT,
            c.ladder.socks_port == DEFAULT_SOCKS_PORT,
            c.ladder.control_port == DEFAULT_CONTROL_PORT,
            c.ladder.api_secret is None,
            c.ladder.mihomo_bin is None,
            c.subscriptions@.len() == 0,
    {
        LadderConfig { ladder: LadderSettings::default(), subscriptions: Vec::new() }
    }
}

// ─── Subscription names ─────────────────────────────────────────────────────

/// `name` without a trailing `.yaml`, else without a trailing `.yml`.
pub open spec fn strip_yaml_suffix_spec(name: Seq<char>) -> Seq<char> {
    if ends_with(name, seq!['.', 'y', 'a', 'm', 'l']) {
        name.subrange(0, name.len() - 5)
    } else if ends_with(name, seq!['.', 'y', 'm', 'l']) {
        name.subrange(0, name.len() - 4)
    } else {
        name
    }
}

/// The form under which two subscription names are compared.
pub open spec fn normalize_name(name: Seq<char>) -> Seq<char> {
    ascii_lower(strip_yaml_suffix_spec(trim(name)))
}

/// Whether two subscription names denote the same subscription.
pub open spec fn names_match(left: Seq<char>, right: Seq<char>) -> bool {
    left == right || normalize_name(left) == normalize_name(right)
}

/// Whether `cs[..end]` ends with `suffix`.
fn ends_with_at(cs: &Vec<char>, end: usize, suffix: &Vec<char>) -> (res: bool)
    requires
        end <= cs.len(),
    ensures
        res == ends_with(cs@.subrange(0, end as int), suffix@),
{
    if suffix.len() > end {
        return false;
    }
    let start: usize = end - suffix.len();
    let mut i: usize = 0;
    while i < suffix.len()
        invariant
            start + suffix.len() == end <= cs.len(),
            i <= suffix.len(),
            forall|k: int| 0 <= k < i ==> cs@[start + k] == suffix@[k],
        decreases suffix.len() - i,
    {
        if cs[start + i] != suffix[i] {
            assert(cs@.subrange(0, end as int).subrange(start as int, end as int)[i as int]
                != suffix@[i as int]);
            return false;
        }
        i = i + 1;
    }
    assert(cs@.subrange(0, end as int).subrange(start as int, end as int) =~= suffix@);
    true
}

/// End index `e` such that `cs[from..e]` is `strip_yaml_suffix_spec(cs[from..to])`.
fn strip_yaml_suffix_end(cs: &Vec<char>, from: usize, to: usize) -> (e: usize)
    requires
        from <= to <= cs.len(),
    ensures
        from <= e <= to,
        cs@.subrange(from as int, e as int) == strip_yaml_suffix_spec(
            cs@.subrange(from as int, to as int),
        ),
{
    let ghost s = cs@.subrange(from as int, to as int);
    let yaml: Vec<char> = vec!['.', 'y', 'a', 'm', 'l'];
    let yml: Vec<char> = vec!['.', 'y', 'm', 'l'];
    assert(yaml@ =~= seq!['.', 'y', 'a', 'm', 'l']);
    assert(yml@ =~= seq!['.', 'y', 'm', 'l']);
    let a = ends_with_at(cs, to, &yaml);
    let b = ends_with_at(cs, to, &yml);
    proof {
        let p = cs@.subrange(0, to as int);
        assert(s =~= p.subrange(from as int, to as int));
        if a {
            if to - from >= 5 {
                assert(s.subrange(s.len() - 5, s.len() as int) =~= p.subrange(
                    p.len() - 5,
                    p.len() as int,
                ));
            }
        }
        if ends_with(s, yaml@) {
            assert(s.subrange(s.len() - 5, s.len() as int) =~= p.subrange(
                p.len() - 5,
                p.len() as int,
            ));
        }
        if b {
            if to - from >= 4 {
                assert(s.subrange(s.len() - 4, s.len() as int) =~= p.subrange(
                    p.len() - 4,
                    p.len() as int,
                ));
            }
        }
        if ends_with(s, yml@) {
            assert(s.subrange(s.len() - 4, s.len() as int) =~= p.subrange(
                p.len() - 4,
                p.len() as int,
            ));
        }
    }
    if a && to - from >= 5 {
        proof {
            assert(cs@.subrange(from as int, (to - 5) as int) =~= s.subrange(0, s.len() - 5));
        }
        to - 5
    } else if b && to - from >= 4 {
        proof {
            assert(cs@.subrange(from as int, (to - 4) as int) =~= s.subrange(0, s.len() - 4));
        }
        to - 4
    } else {
        to
    }
}

/// `name` without a trailing `.yaml` or `.yml`.
pub fn strip_yaml_suffix(name: &str) -> (res: String)
    ensures
        res@ == strip_yaml_suffix_spec(name@),
{
    let cs = chars_of(name);
    let e = strip_yaml_suffix_end(&cs, 0, cs.len());
    assert(cs@.subrange(0, cs.len() as int) =~= cs@);
    string_from_range(&cs, 0, e)
}

/// ASCII lower-casing of one character.
pub fn to_ascii_lower_char(c: char) -> (r: char)
    ensures
        r == ascii_lower_char(c),
{
    if 'A' <= c && c <= 'Z' {
        let u: u8 = (c as u8) + 32;
        u as char
    } else {
        c
    }
}

/// The normalized form of a subscription name.
pub fn normalize_subscription_name(name: &str) -> (res: String)
    ensures
        res@ == normalize_name(name@),
{
    let cs = chars_of(name);
    let (a, b) = trim_bounds(&cs);
    let e = strip_yaml_suffix_end(&cs, a, b);
    let mut out = String::new();
    let mut i: usize = a;
    while i < e
        invariant
            a <= i <= e <= cs.len(),
            out@ =~= ascii_lower(cs@.subrange(a as int, i as int)),
        decreases e - i,
    {
        push_char(&mut out, to_ascii_lower_char(cs[i]));
        i = i + 1;
    }
    out
}

/// Whether two subscription names denote the same subscription: equal, or
/// equal after trimming, dropping a `.yaml`/`.yml` suffix and ASCII lower-casing.
pub fn subscription_name_matches(left: &str, right: &str) -> (res: bool)
    ensures
        res == names_match(left@, right@),
{
    if str_eq(left, right) {
        return true;
    }
    let l = normalize_subscription_name(left);
    let r = normalize_subscription_name(right);
    l == r
}


/// Two names match exactly when their normalized forms agree.
pub proof fn law_names_match_normalized(left: Seq<char>, right: Seq<char>)
    ensures
        names_match(left, right) <==> normalize_name(left) == normalize_name(right),
{
}

/// Name matching is an equivalence: reflexive, symmetric and transitive.
pub proof fn law_names_match_equivalence(a: Seq<char>, b: Seq<char>, c: Seq<char>)
    ensures
        names_match(a, a),
        names_match(a, b) ==> names_match(b, a),
        names_match(a, b) && names_match(b, c) ==> names_match(a, c),
{
}

// ─── Lookup, insertion, removal, selection ──────────────────────────────────

/// Index of the first subscription whose name matches `name`, or -1.
pub open spec fn find_index(subs: Seq<Subscription>, name: Seq<char>) -> int
    decreases subs.len(),
{
    if subs.len() == 0 {
        -1
    } else {
        let k = find_index(subs.drop_last(), name);
        if k >= 0 {
            k
        } else if names_match(subs.last().name@, name) {
            subs.len() - 1
        } else {
            -1
        }
    }
}

/// `find_index` is the first matching position, or -1 when nothing matches.
pub proof fn lemma_find_index(subs: Seq<Subscription>, name: Seq<char>)
    ensures
        -1 <= find_index(subs, name) < subs.len(),
        find_index(subs, name) == -1 ==> forall|j: int|
            0 <= j < subs.len() ==> !names_match(#[trigger] subs[j].name@, name),
        find_index(subs, name) >= 0 ==> names_match(subs[find_index(subs, name)].name@, name),
        find_index(subs, name) >= 0 ==> forall|j: int|
            0 <= j < find_index(subs, name) ==> !names_match(#[trigger] subs[j].name@, name),
    decreases subs.len(),
{
    if subs.len() > 0 {
        lemma_find_index(subs.drop_last(), name);
        assert forall|j: int| 0 <= j < subs.len() - 1 implies subs.drop_last()[j] == subs[j] by {}
    }
}

/// A position that matches and is preceded by no match is the `find_index`.
pub proof fn lemma_find_index_unique(subs: Seq<Subscription>, name: Seq<char>, k: int)
    requires
        0 <= k < subs.len(),
        names_match(subs[k].name@, name),
        forall|j: int| 0 <= j < k ==> !names_match(#[trigger] subs[j].name@, name),
    ensures
        find_index(subs, name) == k,
{
    lemma_find_index(subs, name);
}

/// Subscriptions whose name matches none of `name`.
pub open spec fn without_name(subs: Seq<Subscription>, name: Seq<char>) -> Seq<Subscription>
    decreases subs.len(),
{
    if subs.len() == 0 {
        Seq::empty()
    } else {
        let rest = without_name(subs.drop_last(), name);
        if names_match(subs.last().name@, name) {
            rest
        } else {
            rest.push(subs.last())
        }
    }
}

/// Whether `name` matches one of `names`.
pub open spec fn matches_any(name: Seq<char>, names: Seq<String>) -> bool {
    exists|k: int| 0 <= k < names.len() && names_match(name, #[trigger] names[k]@)
}

/// The subscriptions, in order, whose name matches one of `names`.
pub open spec fn select_named(subs: Seq<Subscription>, names: Seq<String>) -> Seq<Subscription>
    decreases subs.len(),
{
    if subs.len() == 0 {
        Seq::empty()
    } else {
        let rest = select_named(subs.drop_last(), names);
        if matches_any(subs.last().name@, names) {
            rest.push(subs.last())
        } else {
            rest
        }
    }
}

/// What `filter_subscriptions` selects: everything for an empty list of names.
pub open spec fn filtered(subs: Seq<Subscription>, names: Seq<String>) -> Seq<Subscription> {
    if names.len() == 0 {
        subs
    } else {
        select_named(subs, names)
    }
}

/// The subscriptions a sequence of references points to.
pub open spec fn deref_all(v: Seq<&Subscription>) -> Seq<Subscription> {
    Seq::new(v.len(), |i: int| *v[i])
}

/// The subscription list after `add_subscription(sub)`.
pub open spec fn added(subs: Seq<Subscription>, sub: Subscription) -> Seq<Subscription> {
    let k = find_index(subs, sub.name@);
    if k >= 0 {
        subs.update(k, sub)
    } else {
        subs.push(sub)
    }
}

/// The result of looking `name` up in `subs`.
pub open spec fn lookup(subs: Seq<Subscription>, name: Seq<char>) -> Option<Subscription> {
    let k = find_index(subs, name);
    if k >= 0 {
        Some(subs[k])
    } else {
        None
    }
}

/// Position of the first subscription matching `name`, if any.
fn position_of(subs: &Vec<Subscription>, name: &str) -> (r: Option<usize>)
    ensures
        match r {
            Some(k) => k as int == find_index(subs@, name@) && k < subs.len(),
            None => find_index(subs@, name@) == -1,
        },
{
    let mut i: usize = 0;
    while i < subs.len()
        invariant
            i <= subs.len(),
            forall|j: int| 0 <= j < i ==> !names_match(#[trigger] subs@[j].name@, name@),
        decreases subs.len() - i,
    {
        if subscription_name_matches(subs[i].name.as_str(), name) {
            proof {
                lemma_find_index_unique(subs@, name@, i as int);
                lemma_find_index(subs@, name@);
            }
            return Some(i);
        }
        i = i + 1;
    }
    proof {
        lemma_find_index(subs@, name@);
    }
    None
}

impl LadderConfig {
    /// The first subscription whose name matches `name`.
    pub fn get_subscription(&self, name: &str) -> (res: Option<&Subscription>)
        ensures
            match res {
                Some(s) => lookup(self.subscriptions@, name@) == Some(*s),
                None => lookup(self.subscriptions@, name@) is None,
            },
    {
        match position_of(&self.subscriptions, name) {
            Some(k) => Some(&self.subscriptions[k]),
            None => None,
        }
    }

    /// Adds `sub`; when a subscription with a matching name exists, the first
    /// such one is replaced by `sub` (name, URL and interval).
    pub fn add_subscription(&mut self, sub: Subscription)
        ensures
            final(self).subscriptions@ == added(old(self).subscriptions@, sub),
            final(self).ladder == old(self).ladder,
    {
        match position_of(&self.subscriptions, sub.name.as_str()) {
            Some(k) => {
                self.subscriptions.set(k, sub);
            },
            None => {
                self.subscriptions.push(sub);
            },
        }
    }

    /// Removes every subscription whose name matches `name`; returns whether
    /// any was removed.
    pub fn remove_subscription(&mut self, name: &str) -> (removed: bool)
        ensures
            final(self).subscriptions@ == without_name(old(self).subscriptions@, name@),
            final(self).ladder == old(self).ladder,
            removed == (find_index(old(self).subscriptions@, name@) >= 0),
    {
        let ghost orig = self.subscriptions@;
        let ghost settings = self.ladder;
        let mut rest: Vec<Subscription> = Vec::new();
        std::mem::swap(&mut rest, &mut self.subscriptions);
        let n: usize = rest.len();
        let mut i: usize = 0;
        let mut removed = false;
        while rest.len() > 0
            invariant
                n == orig.len(),
                self.ladder == settings,
                i + rest.len() == n,
                rest@ == orig.subrange(i as int, n as int),
                self.subscriptions@ == without_name(orig.subrange(0, i as int), name@),
                removed == (find_index(orig.subrange(0, i as int), name@) >= 0),
            decreases rest.len(),
        {
            let s = rest.remove(0);
            proof {
                let pre = orig.subrange(0, i as int);
                let post = orig.subrange(0, i + 1);
                assert(post.drop_last() =~= pre);
                assert(post.last() == s);
                assert(rest@ =~= orig.subrange(i + 1, n as int));
                lemma_find_index(pre, name@);
            }
            if subscription_name_matches(s.name.as_str(), name) {
                removed = true;
            } else {
                self.subscriptions.push(s);
            }
            i = i + 1;
        }
        assert(orig.subrange(0, n as int) =~= orig);
        removed
    }

    /// The subscriptions named in `names` (each matched by name), in
    /// configuration order; all of them when `names` is empty.
    pub fn filter_subscriptions(&self, names: &[String]) -> (res: Vec<&Subscription>)
        ensures
            deref_all(res@) == filtered(self.subscriptions@, names@),
    {
        let subs = &self.subscriptions;
        let mut res: Vec<&Subscription> = Vec::new();
        let mut i: usize = 0;
        let all = names.len() == 0;
        while i < subs.len()
            invariant
                i <= subs.len(),
                all == (names@.len() == 0),
                deref_all(res@) == (if all {
                    subs@.subrange(0, i as int)
                } else {
                    select_named(subs@.subrange(0, i as int), names@)
                }),
            decreases subs.len() - i,
        {
            let keep = all || name_in(subs[i].name.as_str(), names);
            let ghost before = res@;
            proof {
                let post = subs@.subrange(0, i + 1);
                assert(post.drop_last() =~= subs@.subrange(0, i as int));
            }
            if keep {
                res.push(&subs[i]);
                assert(deref_all(res@) =~= deref_all(before).push(subs@[i as int]));
            }
            assert(deref_all(res@) =~= (if all {
                subs@.subrange(0, i + 1)
            } else {
                select_named(subs@.subrange(0, i + 1), names@)
            }));
            i = i + 1;
        }
        assert(subs@.subrange(0, subs.len() as int) =~= subs@);
        res
    }
}

/// Whether `name` matches one of `names`.
fn name_in(name: &str, names: &[String]) -> (res: bool)
    ensures
        res == matches_any(name@, names@),
{
    let mut k: usize = 0;
    while k < names.len()
        invariant
            k <= names.len(),
            forall|j: int| 0 <= j < k ==> !names_match(name@, #[trigger] names@[j]@),
        decreases names.len() - k,
    {
        if subscription_name_matches(name, names[k].as_str()) {
            return true;
        }
        k = k + 1;
    }
    false
}


// ─── Laws ───────────────────────────────────────────────────────────────────

proof fn lemma_added_position(subs: Seq<Subscription>, sub: Subscription)
    ensures
        ({
            let k = find_index(added(subs, sub), sub.name@);
            &&& 0 <= k < added(subs, sub).len()
            &&& added(subs, sub)[k] == sub
        }),
{
    lemma_find_index(subs, sub.name@);
    let k = find_index(subs, sub.name@);
    let new = added(subs, sub);
    if k >= 0 {
        assert forall|j: int| 0 <= j < k implies !names_match(#[trigger] new[j].name@, sub.name@) by {
            assert(new[j] == subs[j]);
        }
        lemma_find_index_unique(new, sub.name@, k);
    } else {
        assert forall|j: int| 0 <= j < subs.len() implies !names_match(
            #[trigger] new[j].name@,
            sub.name@,
        ) by {
            assert(new[j] == subs[j]);
        }
        lemma_find_index_unique(new, sub.name@, subs.len() as int);
    }
}

/// Reading back a subscription just added under its own name gives it back.
pub proof fn law_get_after_add(subs: Seq<Subscription>, sub: Subscription)
    ensures
        lookup(added(subs, sub), sub.name@) == Some(sub),
{
    lemma_added_position(subs, sub);
}

/// Adding the same subscription twice has the effect of adding it once.
pub proof fn law_add_idempotent(subs: Seq<Subscription>, sub: Subscription)
    ensures
        added(added(subs, sub), sub) == added(subs, sub),
{
    lemma_added_position(subs, sub);
    let new = added(subs, sub);
    let k = find_index(new, sub.name@);
    assert(new.update(k, sub) =~= new);
}

/// No two subscriptions of `subs` have matching names.
pub open spec fn names_pairwise_distinct(subs: Seq<Subscription>) -> bool {
    forall|i: int, j: int|
        0 <= i < subs.len() && 0 <= j < subs.len() && i != j ==> !names_match(
            #[trigger] subs[i].name@,
            #[trigger] subs[j].name@,
        )
}

/// Adding a subscription keeps a list without matching names free of them.
pub proof fn law_add_keeps_names_distinct(subs: Seq<Subscription>, sub: Subscription)
    requires
        names_pairwise_distinct(subs),
    ensures
        names_pairwise_distinct(added(subs, sub)),
{
    lemma_find_index(subs, sub.name@);
    let k = find_index(subs, sub.name@);
    let new = added(subs, sub);
    assert forall|i: int, j: int|
        0 <= i < new.len() && 0 <= j < new.len() && i != j implies !names_match(
            #[trigger] new[i].name@,
            #[trigger] new[j].name@,
        ) by {
        if k >= 0 {
            if i == k {
                law_names_match_equivalence(subs[k].name@, sub.name@, subs[j].name@);
                law_names_match_equivalence(sub.name@, subs[k].name@, subs[j].name@);
                assert(!names_match(subs[k].name@, subs[j].name@));
            } else if j == k {
                law_names_match_equivalence(subs[i].name@, sub.name@, subs[k].name@);
                law_names_match_equivalence(subs[k].name@, sub.name@, subs[k].name@);
                assert(!names_match(subs[i].name@, subs[k].name@));
            } else {
                assert(new[i] == subs[i] && new[j] == subs[j]);
            }
        } else {
            if i == subs.len() {
                assert(!names_match(subs[j].name@, sub.name@));
                law_names_match_equivalence(sub.name@, subs[j].name@, sub.name@);
            } else if j == subs.len() {
                assert(!names_match(subs[i].name@, sub.name@));
            } else {
                assert(new[i] == subs[i] && new[j] == subs[j]);
            }
        }
    }
}

/// Adding a subscription grows the list by one exactly when no subscription
/// with a matching name was there; otherwise the length is unchanged.
pub proof fn law_add_length(subs: Seq<Subscription>, sub: Subscription)
    ensures
        added(subs, sub).len() == subs.len() + (if find_index(subs, sub.name@) >= 0 {
            0int
        } else {
            1int
        }),
{
    lemma_find_index(subs, sub.name@);
}

/// No remaining subscription matches a name that was just removed.
pub proof fn law_removed_none_match(subs: Seq<Subscription>, name: Seq<char>)
    ensures
        forall|j: int|
            0 <= j < without_name(subs, name).len() ==> !names_match(
                #[trigger] without_name(subs, name)[j].name@,
                name,
            ),
    decreases subs.len(),
{
    if subs.len() > 0 {
        law_removed_none_match(subs.drop_last(), name);
        let rest = without_name(subs.drop_last(), name);
        let all = without_name(subs, name);
        assert forall|j: int| 0 <= j < all.len() implies !names_match(
            #[trigger] all[j].name@,
            name,
        ) by {
            if j < rest.len() {
                assert(all[j] == rest[j]);
            }
        }
    }
}

/// After removing a name, looking it up finds nothing.
pub proof fn law_get_after_remove(subs: Seq<Subscription>, name: Seq<char>)
    ensures
        lookup(without_name(subs, name), name) is None,
{
    law_removed_none_match(subs, name);
    lemma_find_index(without_name(subs, name), name);
}

/// Removal keeps exactly the subscriptions whose names do not match, so the
/// list shrinks exactly when some subscription matched.
pub proof fn law_remove_shrinks_iff_found(subs: Seq<Subscription>, name: Seq<char>)
    ensures
        without_name(subs, name).len() <= subs.len(),
        (without_name(subs, name).len() < subs.len()) == (find_index(subs, name) >= 0),
    decreases subs.len(),
{
    lemma_find_index(subs, name);
    if subs.len() > 0 {
        law_remove_shrinks_iff_found(subs.drop_last(), name);
        lemma_find_index(subs.drop_last(), name);
        let k = find_index(subs.drop_last(), name);
        if k >= 0 {
            assert(subs.drop_last()[k] == subs[k]);
        }
        if find_index(subs, name) >= 0 && find_index(subs, name) < subs.len() - 1 {
            assert(subs.drop_last()[find_index(subs, name)] == subs[find_index(subs, name)]);
        }
    }
}

/// Filtering with no names selects every subscription, in order.
pub proof fn law_filter_empty_is_all(subs: Seq<Subscription>)
    ensures
        filtered(subs, Seq::<String>::empty()) == subs,
{
}

/// Every subscription selected by name matches one of the requested names,
/// and none is selected more often than it occurs.
pub proof fn law_filter_selects_named(subs: Seq<Subscription>, names: Seq<String>)
    ensures
        select_named(subs, names).len() <= subs.len(),
        forall|j: int|
            0 <= j < select_named(subs, names).len() ==> matches_any(
                #[trigger] select_named(subs, names)[j].name@,
                names,
            ),
    decreases subs.len(),
{
    if subs.len() > 0 {
        law_filter_selects_named(subs.drop_last(), names);
    }
}

/// The test "the subscription's name matches one of `names`".
pub open spec fn named_in(names: Seq<String>) -> spec_fn(Subscription) -> bool {
    |s: Subscription| exists|k: int| 0 <= k < names.len() && names_match(s.name@, #[trigger] names[k]@)
}

/// Filtering by a non-empty list of names keeps exactly the subscriptions
/// whose name matches one of the names, in configuration order; in
/// particular, when none matches, nothing is kept.
pub proof fn law_filter_by_names_is_exact(subs: Seq<Subscription>, names: Seq<String>)
    requires
        names.len() > 0,
    ensures
        filtered(subs, names) == subs.filter(named_in(names)),
        (forall|i: int, k: int|
            0 <= i < subs.len() && 0 <= k < names.len() ==> !names_match(
                #[trigger] subs[i].name@,
                #[trigger] names[k]@,
            )) ==> filtered(subs, names).len() == 0,
{
    lemma_select_is_filter(subs, names);
    if forall|i: int, k: int|
        0 <= i < subs.len() && 0 <= k < names.len() ==> !names_match(
            #[trigger] subs[i].name@,
            #[trigger] names[k]@,
        ) {
        law_filter_selects_named(subs, names);
        if select_named(subs, names).len() > 0 {
            lemma_selected_come_from(subs, names, 0);
        }
    }
}

proof fn lemma_selected_come_from(subs: Seq<Subscription>, names: Seq<String>, j: int)
    requires
        0 <= j < select_named(subs, names).len(),
    ensures
        exists|i: int| 0 <= i < subs.len() && subs[i] == select_named(subs, names)[j],
    decreases subs.len(),
{
    let rest = select_named(subs.drop_last(), names);
    if j < rest.len() {
        lemma_selected_come_from(subs.drop_last(), names, j);
        let i = choose|i: int| 0 <= i < subs.drop_last().len() && subs.drop_last()[i] == rest[j];
        assert(subs[i] == subs.drop_last()[i]);
    } else {
        assert(subs[subs.len() - 1] == select_named(subs, names)[j]);
    }
}

proof fn lemma_select_is_filter(subs: Seq<Subscription>, names: Seq<String>)
    ensures
        select_named(subs, names) == subs.filter(named_in(names)),
    decreases subs.len(),
{
    reveal(Seq::filter);
    if subs.len() > 0 {
        lemma_select_is_filter(subs.drop_last(), names);
        assert(named_in(names)(subs.last()) == matches_any(subs.last().name@, names));
    }
}

} // verus!
