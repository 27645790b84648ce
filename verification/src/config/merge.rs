//! Merging the global and project config layers into a [`ResolvedConfig`].
//!
//! Merge rules (project always wins on conflicts):
//!
//! - `network.allowed_hosts`: union, deduplicated, sorted.
//! - `env`: per-key override. Project entries replace global entries with
//!   the same key; non-overlapping keys from both layers survive.
//! - `secrets`: per `(host, header)` override, case-insensitive on both.
//!   A project rule with the same key as a global rule replaces it. Output
//!   is sorted by that key.
//! - `network.proxy`: project, else global, else Squid.

use vstd::prelude::*;

use crate::config::schema::{
    env_map_of, lemma_env_map_insert, EnvMap, EnvVar, GlobalConfig, GlobalDefaults, Host,
    ProjectCastor, ProjectConfig, ProxyMode, SecretInjection,
};
use crate::config::ResolvedConfig;
use crate::sorted::{
    as_map, has_key, key_lt, last_with_key, lemma_as_map_at, lemma_as_map_push,
    lemma_empty_sorted, lemma_key_asymmetric, lemma_key_irreflexive, lemma_key_total,
    lemma_overlay_append, lemma_overlay_last, lemma_sorted_map_determines, overlay, overlay_into,
    sorted_by_key, Keyed, SpecKey,
};
use crate::text::{lower, lower_str};

verus! {

/// The override key of a secret rule: host and header, ASCII-lowercased.
pub open spec fn secret_key(s: SecretInjection) -> SpecKey {
    (lower(s.host@), lower(s.header@))
}

/// `j` is the last index of `xs` whose rule has override key `k`.
pub open spec fn last_secret(xs: Seq<SecretInjection>, k: SpecKey, j: int) -> bool {
    &&& 0 <= j < xs.len()
    &&& secret_key(xs[j]) == k
    &&& forall|i: int| j < i < xs.len() ==> secret_key(#[trigger] xs[i]) != k
}

/// Some rule of `xs` has override key `k`.
pub open spec fn has_secret_key(xs: Seq<SecretInjection>, k: SpecKey) -> bool {
    exists|j: int| 0 <= j < xs.len() && secret_key(#[trigger] xs[j]) == k
}

/// `r` is the secret section merged from the rules `xs` (global rules, then
/// project rules): one rule per override key occurring in `xs`, the last
/// one given, sorted by key.
pub open spec fn secrets_merged(xs: Seq<SecretInjection>, r: Seq<SecretInjection>) -> bool {
    &&& forall|i: int, j: int|
        0 <= i < j < r.len() ==> key_lt(secret_key(#[trigger] r[i]), secret_key(#[trigger] r[j]))
    &&& forall|k: SpecKey| #[trigger] has_secret_key(r, k) <==> has_secret_key(xs, k)
    &&& forall|i: int|
        0 <= i < r.len() ==> exists|j: int| last_secret(xs, secret_key(#[trigger] r[i]), j) && r[i] == xs[j]
}

/// The host strings of an allowlist.
pub open spec fn host_views(s: Seq<Host>) -> Set<Seq<char>> {
    Set::new(|h: Seq<char>| exists|i: int| 0 <= i < s.len() && #[trigger] s[i]@ == h)
}

/// The proxy mode a merge picks: project, else global, else Squid.
pub open spec fn merged_proxy(global: Option<ProxyMode>, project: Option<ProxyMode>) -> ProxyMode {
    match project {
        Some(m) => m,
        None => match global {
            Some(m) => m,
            None => ProxyMode::Squid,
        },
    }
}

/// A copy of an allowlist.
pub fn clone_hosts(v: &Vec<Host>) -> (r: Vec<Host>)
    ensures
        r@ == v@,
{
    let mut r: Vec<Host> = Vec::new();
    let mut i: usize = 0;
    while i < v.len()
        invariant
            i <= v@.len(),
            r@ == v@.take(i as int),
        decreases v.len() - i,
    {
        r.push(v[i].clone());
        assert(r@ =~= v@.take(i + 1));
        i = i + 1;
    }
    assert(r@ =~= v@);
    r
}

/// A copy of a list of secret rules.
pub fn clone_secrets(v: &Vec<SecretInjection>) -> (r: Vec<SecretInjection>)
    ensures
        r@ == v@,
{
    let mut r: Vec<SecretInjection> = Vec::new();
    let mut i: usize = 0;
    while i < v.len()
        invariant
            i <= v@.len(),
            r@ == v@.take(i as int),
        decreases v.len() - i,
    {
        r.push(v[i].clone());
        assert(r@ =~= v@.take(i + 1));
        i = i + 1;
    }
    assert(r@ =~= v@);
    r
}

/// Union of two allowlists, deduplicated and sorted.
pub fn merge_allowed_hosts(global: Vec<Host>, project: Vec<Host>) -> (r: Vec<Host>)
    ensures
        sorted_by_key(r@),
        as_map(r@) == overlay(Map::<SpecKey, Host>::empty(), global@ + project@),
        host_views(r@) == host_views(global@) + host_views(project@),
{
    let ghost all = global@ + project@;
    let mut out: Vec<Host> = Vec::new();
    proof {
        lemma_empty_sorted(out@);
    }
    overlay_into(&mut out, global);
    overlay_into(&mut out, project);
    proof {
        lemma_overlay_append(Map::<SpecKey, Host>::empty(), global@, project@);
        let m = overlay(Map::<SpecKey, Host>::empty(), all);
        assert forall|h: Seq<char>| #[trigger] host_views(out@).contains(h) == (host_views(
            global@,
        ) + host_views(project@)).contains(h) by {
            let k = (h, Seq::<char>::empty());
            lemma_overlay_last(all, k);
            if host_views(out@).contains(h) {
                let i = choose|i: int| 0 <= i < out@.len() && #[trigger] out@[i]@ == h;
                lemma_as_map_at(out@, i);
                assert(out@[i].key_spec() == k);
                let j = choose|j: int| 0 <= j < all.len() && #[trigger] all[j].key_spec() == k;
                if j < global@.len() {
                    assert(all[j] == global@[j]);
                } else {
                    assert(all[j] == project@[j - global@.len()]);
                }
            }
            if host_views(global@).contains(h) {
                let i = choose|i: int| 0 <= i < global@.len() && #[trigger] global@[i]@ == h;
                assert(all[i] == global@[i]);
                assert(all[i].key_spec() == k);
                assert(m.contains_key(k));
                let o = crate::sorted::index_of_key(out@, k);
                assert(out@[o].key_spec() == k);
            }
            if host_views(project@).contains(h) {
                let i = choose|i: int| 0 <= i < project@.len() && #[trigger] project@[i]@ == h;
                assert(all[global@.len() + i] == project@[i]);
                assert(all[global@.len() + i].key_spec() == k);
                assert(m.contains_key(k));
                let o = crate::sorted::index_of_key(out@, k);
                assert(out@[o].key_spec() == k);
            }
        }
        assert(host_views(out@) =~= host_views(global@) + host_views(project@));
    }
    out
}

/// Per-key union of two variable sets; `project` wins on shared keys.
pub fn merge_env(global: &EnvMap, project: &EnvMap) -> (r: EnvMap)
    ensures
        r.as_map() == global.as_map().union_prefer_right(project.as_map()),
{
    let mut out = global.clone();
    let entries = project.entries();
    let mut i: usize = 0;
    assert(entries@.take(0) =~= Seq::<EnvVar>::empty());
    assert(env_map_of(Seq::<EnvVar>::empty()) =~= Map::<Seq<char>, Seq<char>>::empty());
    assert(global.as_map().union_prefer_right(Map::<Seq<char>, Seq<char>>::empty())
        =~= global.as_map());
    while i < entries.len()
        invariant
            i <= entries@.len(),
            entries@ == project@,
            sorted_by_key(entries@),
            out.as_map() == global.as_map().union_prefer_right(
                env_map_of(entries@.take(i as int)),
            ),
        decreases entries.len() - i,
    {
        let e = &entries[i];
        let ghost pre = entries@.take(i as int);
        proof {
            let next = entries@.take(i + 1);
            assert(next =~= pre.push(entries@[i as int]));
            assert(sorted_by_key(next)) by {
                assert forall|a: int, b: int| 0 <= a < b < next.len() implies key_lt(
                    #[trigger] next[a].key_spec(),
                    #[trigger] next[b].key_spec(),
                ) by {
                    assert(next[a] == entries@[a] && next[b] == entries@[b]);
                }
            }
            lemma_as_map_push(pre, entries@[i as int]);
            lemma_env_map_insert(pre, next, entries@[i as int]);
        }
        out.insert(e.key.clone(), e.value.clone());
        proof {
            let a = global.as_map().union_prefer_right(env_map_of(pre)).insert(e.key@, e.value@);
            let b = global.as_map().union_prefer_right(env_map_of(pre).insert(e.key@, e.value@));
            assert(a =~= b);
        }
        i = i + 1;
    }
    assert(entries@.take(entries@.len() as int) =~= entries@);
    out
}

/// A secret rule together with its override key.
struct SecretSlot {
    k0: String,
    k1: String,
    rule: SecretInjection,
}

impl Keyed for SecretSlot {
    closed spec fn key_spec(&self) -> SpecKey {
        (self.k0@, self.k1@)
    }

    fn key_first(&self) -> (r: &str) {
        self.k0.as_str()
    }

    fn key_second(&self) -> (r: &str) {
        self.k1.as_str()
    }
}

spec fn slot_of(s: SecretInjection, slot: SecretSlot) -> bool {
    slot.rule == s && slot.key_spec() == secret_key(s)
}

/// One rule per `(host, header)` override key, the last one given winning,
/// sorted by key.
pub fn merge_secrets(global: &Vec<SecretInjection>, project: &Vec<SecretInjection>) -> (r: Vec<
    SecretInjection,
>)
    ensures
        secrets_merged(global@ + project@, r@),
{
    let ghost all = global@ + project@;
    let mut slots: Vec<SecretSlot> = Vec::new();
    let mut i: usize = 0;
    while i < global.len()
        invariant
            i <= global@.len(),
            slots@.len() == i,
            forall|j: int| 0 <= j < i ==> slot_of(#[trigger] all[j], slots@[j]),
            all == global@ + project@,
        decreases global.len() - i,
    {
        let s = global[i].clone();
        let k0 = lower_str(s.host.as_str());
        let k1 = lower_str(s.header.as_str());
        slots.push(SecretSlot { k0, k1, rule: s });
        assert(all[i as int] == global@[i as int]);
        i = i + 1;
    }
    let mut j: usize = 0;
    while j < project.len()
        invariant
            j <= project@.len(),
            slots@.len() == global@.len() + j,
            forall|x: int| 0 <= x < global@.len() + j ==> slot_of(#[trigger] all[x], slots@[x]),
            all == global@ + project@,
        decreases project.len() - j,
    {
        let s = project[j].clone();
        let k0 = lower_str(s.host.as_str());
        let k1 = lower_str(s.header.as_str());
        slots.push(SecretSlot { k0, k1, rule: s });
        assert(all[global@.len() + j] == project@[j as int]);
        j = j + 1;
    }
    let ghost input = slots@;
    let mut merged: Vec<SecretSlot> = Vec::new();
    proof {
        lemma_empty_sorted(merged@);
    }
    overlay_into(&mut merged, slots);
    let mut out: Vec<SecretInjection> = Vec::new();
    let mut m: usize = 0;
    while m < merged.len()
        invariant
            m <= merged@.len(),
            out@.len() == m,
            forall|x: int| 0 <= x < m ==> out@[x] == #[trigger] merged@[x].rule,
        decreases merged.len() - m,
    {
        out.push(merged[m].rule.clone());
        m = m + 1;
    }
    proof {
        lemma_slots_to_rules(all, input, merged@, out@);
    }
    out
}

proof fn lemma_slots_to_rules(
    all: Seq<SecretInjection>,
    input: Seq<SecretSlot>,
    merged: Seq<SecretSlot>,
    out: Seq<SecretInjection>,
)
    requires
        input.len() == all.len(),
        forall|x: int| 0 <= x < all.len() ==> slot_of(#[trigger] all[x], input[x]),
        sorted_by_key(merged),
        as_map(merged) == overlay(Map::<SpecKey, SecretSlot>::empty(), input),
        out.len() == merged.len(),
        forall|x: int| 0 <= x < out.len() ==> out[x] == #[trigger] merged[x].rule,
    ensures
        secrets_merged(all, out),
{
    let mm = overlay(Map::<SpecKey, SecretSlot>::empty(), input);
    // each output rule carries its slot's key
    assert forall|x: int| 0 <= x < out.len() implies secret_key(#[trigger] out[x])
        == merged[x].key_spec() by {
        lemma_as_map_at(merged, x);
        let k = merged[x].key_spec();
        lemma_overlay_last(input, k);
        let j = choose|j: int| last_with_key(input, k, j) && mm[k] == input[j];
        assert(slot_of(all[j], input[j]));
    }
    assert forall|a: int, b: int| 0 <= a < b < out.len() implies key_lt(
        secret_key(#[trigger] out[a]),
        secret_key(#[trigger] out[b]),
    ) by {
        assert(key_lt(merged[a].key_spec(), merged[b].key_spec()));
    }
    assert forall|k: SpecKey| #[trigger] has_secret_key(out, k) <==> has_secret_key(all, k) by {
        lemma_overlay_last(input, k);
        if exists|i: int| 0 <= i < out.len() && secret_key(#[trigger] out[i]) == k {
            let i = choose|i: int| 0 <= i < out.len() && secret_key(#[trigger] out[i]) == k;
            lemma_as_map_at(merged, i);
            let j = choose|j: int| 0 <= j < input.len() && #[trigger] input[j].key_spec() == k;
            assert(slot_of(all[j], input[j]));
        }
        if exists|j: int| 0 <= j < all.len() && secret_key(#[trigger] all[j]) == k {
            let j = choose|j: int| 0 <= j < all.len() && secret_key(#[trigger] all[j]) == k;
            assert(slot_of(all[j], input[j]));
            assert(has_key(input, k));
            let o = crate::sorted::index_of_key(merged, k);
            assert(merged[o].key_spec() == k);
            assert(secret_key(out[o]) == k);
        }
    }
    assert forall|i: int| 0 <= i < out.len() implies exists|j: int|
        last_secret(all, secret_key(#[trigger] out[i]), j) && out[i] == all[j] by {
        let k = merged[i].key_spec();
        lemma_as_map_at(merged, i);
        lemma_overlay_last(input, k);
        let j = choose|j: int| last_with_key(input, k, j) && mm[k] == input[j];
        assert(slot_of(all[j], input[j]));
        assert forall|t: int| j < t < all.len() implies secret_key(#[trigger] all[t]) != k by {
            assert(slot_of(all[t], input[t]));
            assert(input[t].key_spec() != k);
        }
        assert(last_secret(all, k, j));
    }
}

/// `r` is the effective configuration of the global and project documents:
/// the allowlists joined (sorted, each host once), the environment with the
/// project's values winning, the last secret rule for each host and header,
/// and the project's proxy mode, else the global one, else Squid.
pub open spec fn is_merge(global: GlobalConfig, project: ProjectConfig, r: ResolvedConfig) -> bool {
    &&& sorted_by_key(r.allowed_hosts@)
    &&& as_map(r.allowed_hosts@) == overlay(
        Map::<SpecKey, Host>::empty(),
        global.network.allowed_hosts@ + project.network.allowed_hosts@,
    )
    &&& r.env.as_map() == global.env.as_map().union_prefer_right(project.env.as_map())
    &&& r.proxy == merged_proxy(global.network.proxy, project.network.proxy)
    &&& secrets_merged(global.secrets@ + project.secrets@, r.secrets@)
}

/// Two rule lists sorted by override key, with the same keys and the same
/// rule for each key, are the same list.
proof fn lemma_sorted_secrets_equal(a: Seq<SecretInjection>, b: Seq<SecretInjection>)
    requires
        forall|i: int, j: int|
            0 <= i < j < a.len() ==> key_lt(secret_key(#[trigger] a[i]), secret_key(#[trigger] a[j])),
        forall|i: int, j: int|
            0 <= i < j < b.len() ==> key_lt(secret_key(#[trigger] b[i]), secret_key(#[trigger] b[j])),
        forall|k: SpecKey|
            #![trigger has_secret_key(a, k)]
            #![trigger has_secret_key(b, k)]
            has_secret_key(a, k) <==> has_secret_key(b, k),
        forall|i: int, j: int|
            0 <= i < a.len() && 0 <= j < b.len() && secret_key(#[trigger] a[i]) == secret_key(
                #[trigger] b[j],
            ) ==> a[i] == b[j],
    ensures
        a == b,
    decreases a.len(),
{
    if a.len() == 0 {
        if b.len() > 0 {
            assert(has_secret_key(b, secret_key(b[0])));
        }
        assert(a =~= b);
    } else if b.len() == 0 {
        assert(has_secret_key(a, secret_key(a[0])));
    } else {
        let la = a.len() - 1;
        let lb = b.len() - 1;
        let ka = secret_key(a[la]);
        let kb = secret_key(b[lb]);
        assert(has_secret_key(a, ka));
        assert(has_secret_key(b, kb));
        let i = choose|i: int| 0 <= i < b.len() && secret_key(#[trigger] b[i]) == ka;
        let j = choose|j: int| 0 <= j < a.len() && secret_key(#[trigger] a[j]) == kb;
        lemma_key_total(ka, kb);
        if key_lt(ka, kb) {
            if j < la {
                assert(key_lt(secret_key(a[j]), secret_key(a[la])));
                lemma_key_asymmetric(kb, ka);
            } else {
                lemma_key_irreflexive(ka);
            }
        } else if key_lt(kb, ka) {
            if i < lb {
                assert(key_lt(secret_key(b[i]), secret_key(b[lb])));
                lemma_key_asymmetric(ka, kb);
            } else {
                lemma_key_irreflexive(kb);
            }
        }
        assert(ka == kb);
        assert(a[la] == b[lb]);
        let a2 = a.drop_last();
        let b2 = b.drop_last();
        assert forall|k: SpecKey|
            #![trigger has_secret_key(a2, k)]
            #![trigger has_secret_key(b2, k)]
            has_secret_key(a2, k) <==> has_secret_key(b2, k) by {
            if has_secret_key(a2, k) {
                let x = choose|x: int| 0 <= x < a2.len() && secret_key(#[trigger] a2[x]) == k;
                assert(a2[x] == a[x]);
                assert(key_lt(secret_key(a[x]), secret_key(a[la])));
                lemma_key_irreflexive(ka);
                assert(has_secret_key(a, k));
                let y = choose|y: int| 0 <= y < b.len() && secret_key(#[trigger] b[y]) == k;
                if y == lb {
                    assert(false);
                }
                assert(b2[y] == b[y]);
            }
            if has_secret_key(b2, k) {
                let x = choose|x: int| 0 <= x < b2.len() && secret_key(#[trigger] b2[x]) == k;
                assert(b2[x] == b[x]);
                assert(key_lt(secret_key(b[x]), secret_key(b[lb])));
                lemma_key_irreflexive(kb);
                assert(has_secret_key(b, k));
                let y = choose|y: int| 0 <= y < a.len() && secret_key(#[trigger] a[y]) == k;
                if y == la {
                    assert(false);
                }
                assert(a2[y] == a[y]);
            }
        }
        assert forall|x: int, y: int|
            0 <= x < a2.len() && 0 <= y < b2.len() && secret_key(#[trigger] a2[x]) == secret_key(
                #[trigger] b2[y],
            ) implies a2[x] == b2[y] by {
            assert(a2[x] == a[x] && b2[y] == b[y]);
        }
        assert forall|x: int, y: int| 0 <= x < y < a2.len() implies key_lt(
            secret_key(#[trigger] a2[x]),
            secret_key(#[trigger] a2[y]),
        ) by {
            assert(a2[x] == a[x] && a2[y] == a[y]);
        }
        assert forall|x: int, y: int| 0 <= x < y < b2.len() implies key_lt(
            secret_key(#[trigger] b2[x]),
            secret_key(#[trigger] b2[y]),
        ) by {
            assert(b2[x] == b[x] && b2[y] == b[y]);
        }
        lemma_sorted_secrets_equal(a2, b2);
        assert(a =~= a2.push(a[la]));
        assert(b =~= b2.push(b[lb]));
    }
}

/// The effective configuration is determined by the two documents: any two
/// merges of the same documents agree on the allowlist, the environment,
/// the proxy mode and the secret rules.
pub proof fn law_merge_unique(
    global: GlobalConfig,
    project: ProjectConfig,
    r1: ResolvedConfig,
    r2: ResolvedConfig,
)
    requires
        is_merge(global, project, r1),
        is_merge(global, project, r2),
    ensures
        r1.allowed_hosts@ == r2.allowed_hosts@,
        r1.env.as_map() == r2.env.as_map(),
        r1.proxy == r2.proxy,
        r1.secrets@ == r2.secrets@,
{
    lemma_sorted_map_determines(r1.allowed_hosts@, r2.allowed_hosts@);
    let xs = global.secrets@ + project.secrets@;
    let a = r1.secrets@;
    let b = r2.secrets@;
    assert forall|i: int, j: int|
        0 <= i < a.len() && 0 <= j < b.len() && secret_key(#[trigger] a[i]) == secret_key(
            #[trigger] b[j],
        ) implies a[i] == b[j] by {
        let k = secret_key(a[i]);
        let x = choose|x: int| last_secret(xs, secret_key(a[i]), x) && a[i] == xs[x];
        let y = choose|y: int| last_secret(xs, secret_key(b[j]), y) && b[j] == xs[y];
        if x < y {
            assert(secret_key(xs[y]) == k);
        } else if y < x {
            assert(secret_key(xs[x]) == k);
        }
    }
    lemma_sorted_secrets_equal(a, b);
}

/// Merging ignores the identity sections: documents that differ only in
/// the global `defaults` and the project `castor` settings merge to the
/// same allowlist, environment, proxy mode and secret rules.
pub proof fn law_merge_ignores_identity(
    global: GlobalConfig,
    project: ProjectConfig,
    r: ResolvedConfig,
    defaults: GlobalDefaults,
    castor: ProjectCastor,
    r2: ResolvedConfig,
)
    requires
        is_merge(global, project, r),
        is_merge((GlobalConfig { defaults, ..global }), (ProjectConfig { castor, ..project }), r2),
    ensures
        r.allowed_hosts@ == r2.allowed_hosts@,
        r.env.as_map() == r2.env.as_map(),
        r.proxy == r2.proxy,
        r.secrets@ == r2.secrets@,
{
    assert(is_merge(global, project, r2));
    law_merge_unique(global, project, r, r2);
}

/// Combines the shared sections of the global and project documents into
/// the effective per-castor configuration.
pub fn merge(global: &GlobalConfig, project: &ProjectConfig) -> (r: ResolvedConfig)
    ensures
        sorted_by_key(r.allowed_hosts@),
        as_map(r.allowed_hosts@) == overlay(
            Map::<SpecKey, Host>::empty(),
            global.network.allowed_hosts@ + project.network.allowed_hosts@,
        ),
        host_views(r.allowed_hosts@) == host_views(global.network.allowed_hosts@) + host_views(
            project.network.allowed_hosts@,
        ),
        r.env.as_map() == global.env.as_map().union_prefer_right(project.env.as_map()),
        r.proxy == merged_proxy(global.network.proxy, project.network.proxy),
        secrets_merged(global.secrets@ + project.secrets@, r.secrets@),
        is_merge(*global, *project, r),
{
    let allowed_hosts = merge_allowed_hosts(
        clone_hosts(&global.network.allowed_hosts),
        clone_hosts(&project.network.allowed_hosts),
    );
    let env = merge_env(&global.env, &project.env);
    let proxy = match project.network.proxy {
        Some(m) => m,
        None => match global.network.proxy {
            Some(m) => m,
            None => ProxyMode::Squid,
        },
    };
    let secrets = merge_secrets(&global.secrets, &project.secrets);
    ResolvedConfig { allowed_hosts, env, proxy, secrets }
}

} // verus!
