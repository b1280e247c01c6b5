//! The TUN section of the runtime configuration and the DNS settings that TUN mode
//! needs.
use vstd::prelude::*;
use crate::merge::{equiv, lemma_equiv_refl, same_value};
use crate::text::{eq_ignore_ascii_case, str_eq_ignore_ascii_case};
use crate::yaml::{
    Entries, Mapping, Yaml, YamlV, has_key, lemma_insert_same, lemma_insert_wf, lemma_lookup_wf, lookup, map_insert,
    map_remove, mwf, views, wf, yaml_str,
};

verus! {

// ---------------------------------------------------------------------------
// The mathematical meaning
// ---------------------------------------------------------------------------

/// The TUN settings that are taken from the default TUN section when the
/// configuration's own TUN section lacks them, in this order.
pub open spec fn tun_default_keys() -> Seq<Seq<char>> {
    seq![
        "dns-hijack"@,
        "stack"@,
        "auto-route"@,
        "strict-route"@,
        "auto-detect-interface"@,
        "mtu"@,
        "inet4-address"@,
    ]
}

/// The nameservers used to resolve proxy server names when TUN, fake-ip and DNS
/// hijacking are all on and the configuration names none.
pub open spec fn default_proxy_server_nameservers() -> Seq<YamlV> {
    seq![yaml_str("https://223.5.5.5/dns-query"@), yaml_str("https://223.6.6.6/dns-query"@)]
}

pub open spec fn default_nameservers() -> YamlV {
    YamlV::Sequence(seq![yaml_str("114.114.114.114"@), yaml_str("223.5.5.5"@), yaml_str("8.8.8.8"@)])
}

pub open spec fn windows_fake_ip_filter() -> YamlV {
    YamlV::Sequence(
        seq![yaml_str("dns.msftncsi.com"@), yaml_str("www.msftncsi.com"@), yaml_str("www.msftconnecttest.com"@)],
    )
}

/// Some item of `s` equals `v`, as the configuration compares values.
pub open spec fn has_equiv(s: Seq<YamlV>, v: YamlV) -> bool {
    exists|i: int| 0 <= i < s.len() && equiv(#[trigger] s[i], v)
}

/// `v` appended to `s` unless `s` already holds an equal value.
pub open spec fn push_unique(s: Seq<YamlV>, v: YamlV) -> Seq<YamlV> {
    if has_equiv(s, v) {
        s
    } else {
        s.push(v)
    }
}

/// The values appended one by one, each unless already present.
pub open spec fn merge_unique(s: Seq<YamlV>, values: Seq<YamlV>) -> Seq<YamlV>
    decreases values.len(),
{
    if values.len() == 0 {
        s
    } else {
        push_unique(merge_unique(s, values.drop_last()), values.last())
    }
}

/// Stores `v` under `k` unless `k` is present.
pub open spec fn insert_if_missing(m: Entries, k: YamlV, v: YamlV) -> Entries {
    if has_key(m, k) {
        m
    } else {
        map_insert(m, k, v)
    }
}

/// The TUN section with each missing key of `keys` taken from `default_tun`.
pub open spec fn fill_missing(tun: Entries, default_tun: Entries, keys: Seq<Seq<char>>) -> Entries
    decreases keys.len(),
{
    if keys.len() == 0 {
        tun
    } else {
        let prev = fill_missing(tun, default_tun, keys.drop_last());
        let k = yaml_str(keys.last());
        if !has_key(prev, k) && has_key(default_tun, k) {
            map_insert(prev, k, lookup(default_tun, k)->0)
        } else {
            prev
        }
    }
}

/// The mapping stored under `k`, or `fallback` when `k` holds no mapping.
pub open spec fn mapping_or(m: Entries, k: YamlV, fallback: Entries) -> Entries {
    match lookup(m, k) {
        Some(YamlV::Mapping(e)) => e,
        _ => fallback,
    }
}

/// The TUN section has a non-empty `dns-hijack` list.
pub open spec fn tun_hijacks_dns(config: Entries) -> bool {
    match lookup(config, yaml_str("tun"@)) {
        Some(YamlV::Mapping(t)) => match lookup(t, yaml_str("dns-hijack"@)) {
            Some(YamlV::Sequence(s)) => s.len() > 0,
            _ => false,
        },
        _ => false,
    }
}

/// The DNS section's `enhanced-mode` is `fake-ip`, in any ASCII case.
pub open spec fn dns_is_fake_ip(dns: Entries) -> bool {
    match lookup(dns, yaml_str("enhanced-mode"@)) {
        Some(YamlV::Str(s)) => eq_ignore_ascii_case(s, "fake-ip"@),
        _ => false,
    }
}

/// `proxy-server-nameserver` is absent, an empty list, or not a list.
pub open spec fn proxy_server_nameserver_missing(dns: Entries) -> bool {
    match lookup(dns, yaml_str("proxy-server-nameserver"@)) {
        None => true,
        Some(YamlV::Sequence(s)) => s.len() == 0,
        Some(_) => true,
    }
}

/// The DNS section after the default proxy server nameservers are put in when
/// TUN hijacks DNS in fake-ip mode and none are configured.
pub open spec fn inject_proxy_server_nameserver(config: Entries, dns: Entries) -> Entries {
    if tun_hijacks_dns(config) && dns_is_fake_ip(dns) && proxy_server_nameserver_missing(dns) {
        map_insert(
            dns,
            yaml_str("proxy-server-nameserver"@),
            YamlV::Sequence(merge_unique(Seq::empty(), default_proxy_server_nameservers())),
        )
    } else {
        dns
    }
}

/// The configuration's DNS section with DNS on and the defaults of fake-ip mode
/// put in where missing.
pub open spec fn dns_with_defaults(config: Entries) -> Entries {
    let d0 = mapping_or(config, yaml_str("dns"@), Seq::empty());
    let d1 = map_insert(d0, yaml_str("enable"@), YamlV::Bool(true));
    let d2 = insert_if_missing(d1, yaml_str("enhanced-mode"@), yaml_str("fake-ip"@));
    let d3 = insert_if_missing(d2, yaml_str("fake-ip-range"@), yaml_str("198.18.0.1/16"@));
    let d4 = insert_if_missing(d3, yaml_str("nameserver"@), default_nameservers());
    insert_if_missing(d4, yaml_str("fallback"@), YamlV::Sequence(Seq::empty()))
}

/// The DNS section that TUN mode uses.
pub open spec fn dns_for_tun(config: Entries, windows: bool) -> Entries {
    let d6 = inject_proxy_server_nameserver(config, dns_with_defaults(config));
    if windows {
        insert_if_missing(d6, yaml_str("fake-ip-filter"@), windows_fake_ip_filter())
    } else {
        d6
    }
}

/// The configuration with the DNS section that TUN mode uses.
pub open spec fn use_dns_for_tun_spec(config: Entries, windows: bool) -> Entries {
    map_insert(config, yaml_str("dns"@), YamlV::Mapping(dns_for_tun(config, windows)))
}

/// The configuration after the TUN section is brought in line with the switch
/// `enable`:
/// - on: the TUN section (the configuration's own mapping, else the default one)
///   gets the missing default keys and `enable: true`, and DNS is set up for TUN;
/// - off, where the configuration or its source had a TUN section: the section is
///   kept with `enable: false`;
/// - off otherwise: the TUN section is removed.
pub open spec fn use_tun_spec(
    config: Entries,
    enable: bool,
    source_has_tun: bool,
    default_tun: Entries,
    windows: bool,
) -> Entries {
    let tk = yaml_str("tun"@);
    let t0 = mapping_or(config, tk, default_tun);
    if enable {
        let t1 = map_insert(
            fill_missing(t0, default_tun, tun_default_keys()),
            yaml_str("enable"@),
            YamlV::Bool(true),
        );
        use_dns_for_tun_spec(map_insert(config, tk, YamlV::Mapping(t1)), windows)
    } else if has_key(config, tk) || source_has_tun {
        map_insert(config, tk, YamlV::Mapping(map_insert(t0, yaml_str("enable"@), YamlV::Bool(false))))
    } else {
        map_remove(config, tk)
    }
}


/// No two items of the list are equal, as the configuration compares values.
pub open spec fn no_equal_items(s: Seq<YamlV>) -> bool {
    forall|i: int, j: int| 0 <= i < j < s.len() ==> !equiv(#[trigger] s[i], #[trigger] s[j])
}

/// Appending values one by one, each unless an equal one is there, keeps the
/// values already there in front, leaves an equal of each appended value in the
/// list, adds nothing else, and leaves no two equal values when there were none
/// before.
pub proof fn merge_unique_deduplicates(s: Seq<YamlV>, values: Seq<YamlV>)
    requires
        no_equal_items(s),
        forall|i: int| 0 <= i < values.len() ==> wf(#[trigger] values[i]),
    ensures
        no_equal_items(merge_unique(s, values)),
        merge_unique(s, values).len() >= s.len(),
        merge_unique(s, values).take(s.len() as int) == s,
        forall|j: int| 0 <= j < values.len() ==> has_equiv(merge_unique(s, values), #[trigger] values[j]),
        forall|i: int|
            0 <= i < merge_unique(s, values).len() ==> s.contains(#[trigger] merge_unique(s, values)[i])
                || values.contains(merge_unique(s, values)[i]),
    decreases values.len(),
{
    if values.len() == 0 {
        assert(s.take(s.len() as int) =~= s);
    } else {
        let vs = values.drop_last();
        let v = values.last();
        assert forall|i: int| 0 <= i < vs.len() implies wf(#[trigger] vs[i]) by {
            assert(vs[i] == values[i]);
        }
        merge_unique_deduplicates(s, vs);
        let prev = merge_unique(s, vs);
        let r = merge_unique(s, values);
        assert(r == push_unique(prev, v));
        assert(wf(values[values.len() - 1]));
        if !has_equiv(prev, v) {
            assert(r.take(s.len() as int) =~= prev.take(s.len() as int));
            assert forall|i: int, j: int| 0 <= i < j < r.len() implies !equiv(#[trigger] r[i], #[trigger] r[j]) by {
                if j == prev.len() {
                    assert(r[i] == prev[i]);
                    assert(!equiv(prev[i], v));
                } else {
                    assert(r[i] == prev[i] && r[j] == prev[j]);
                }
            }
        }
        assert forall|j: int| 0 <= j < values.len() implies has_equiv(r, #[trigger] values[j]) by {
            if j < vs.len() {
                assert(vs[j] == values[j]);
                assert(has_equiv(prev, vs[j]));
                let i = choose|i: int| 0 <= i < prev.len() && equiv(#[trigger] prev[i], vs[j]);
                assert(r[i] == prev[i]);
            } else {
                if !has_equiv(prev, v) {
                    lemma_equiv_refl(v);
                    assert(r[prev.len() as int] == v);
                } else {
                    let i = choose|i: int| 0 <= i < prev.len() && equiv(#[trigger] prev[i], v);
                    assert(r[i] == prev[i]);
                }
            }
        }
        assert forall|i: int| 0 <= i < r.len() implies s.contains(#[trigger] r[i]) || values.contains(r[i]) by {
            if i < prev.len() {
                assert(r[i] == prev[i]);
                if vs.contains(prev[i]) {
                    let j = choose|j: int| 0 <= j < vs.len() && vs[j] == prev[i];
                    assert(values[j] == vs[j]);
                }
            } else {
                assert(r[i] == v);
                assert(values[values.len() - 1] == v);
            }
        }
    }
}

/// A sequence of strings is well-formed.
pub proof fn lemma_strings_wf(s: Seq<YamlV>)
    requires
        forall|i: int| 0 <= i < s.len() ==> #[trigger] s[i] is Str,
    ensures
        wf(YamlV::Sequence(s)),
{
    assert forall|i: int| 0 <= i < s.len() implies wf(#[trigger] s[i]) by {
        assert(s[i] is Str);
    }
}

/// The default proxy server nameservers are two distinct values.
pub proof fn lemma_default_proxy_server_nameservers()
    ensures
        merge_unique(Seq::empty(), default_proxy_server_nameservers()) == default_proxy_server_nameservers(),
        wf(YamlV::Sequence(default_proxy_server_nameservers())),
{
    reveal_strlit("https://223.5.5.5/dns-query");
    reveal_strlit("https://223.6.6.6/dns-query");
    let d = default_proxy_server_nameservers();
    assert(d[0] != d[1]) by {
        assert(d[0]->Str_0[12] != d[1]->Str_0[12]);
    }
    assert(d.drop_last().drop_last() =~= Seq::<YamlV>::empty());
    let d1 = d.drop_last();
    assert(merge_unique(Seq::empty(), d1.drop_last()) == Seq::<YamlV>::empty());
    assert(d1.last() == d[0]);
    assert(!has_equiv(Seq::<YamlV>::empty(), d[0]));
    assert(Seq::<YamlV>::empty().push(d[0]) =~= d1);
    assert(merge_unique(Seq::empty(), d1) == d1);
    assert(!equiv(d[0], d[1]));
    assert(!has_equiv(d1, d[1])) by {
        if has_equiv(d1, d[1]) {
            let i = choose|i: int| 0 <= i < d1.len() && equiv(#[trigger] d1[i], d[1]);
            assert(d1[i] == d[0]);
        }
    }
    assert(d.drop_last().push(d[1]) =~= d);
    lemma_strings_wf(d);
}


/// The configuration keys that TUN mode touches are distinct.
pub proof fn lemma_tun_keys_distinct()
    ensures
        yaml_str("tun"@) != yaml_str("dns"@),
        yaml_str("enable"@) != yaml_str("enhanced-mode"@),
        yaml_str("enable"@) != yaml_str("fake-ip-range"@),
        yaml_str("enable"@) != yaml_str("nameserver"@),
        yaml_str("enable"@) != yaml_str("fallback"@),
        yaml_str("enable"@) != yaml_str("proxy-server-nameserver"@),
        yaml_str("enable"@) != yaml_str("fake-ip-filter"@),
        yaml_str("enhanced-mode"@) != yaml_str("fake-ip-range"@),
        yaml_str("enhanced-mode"@) != yaml_str("nameserver"@),
        yaml_str("enhanced-mode"@) != yaml_str("fallback"@),
        yaml_str("enhanced-mode"@) != yaml_str("proxy-server-nameserver"@),
        yaml_str("enhanced-mode"@) != yaml_str("fake-ip-filter"@),
        yaml_str("fake-ip-range"@) != yaml_str("nameserver"@),
        yaml_str("fake-ip-range"@) != yaml_str("fallback"@),
        yaml_str("fake-ip-range"@) != yaml_str("proxy-server-nameserver"@),
        yaml_str("fake-ip-range"@) != yaml_str("fake-ip-filter"@),
        yaml_str("nameserver"@) != yaml_str("fallback"@),
        yaml_str("nameserver"@) != yaml_str("proxy-server-nameserver"@),
        yaml_str("nameserver"@) != yaml_str("fake-ip-filter"@),
        yaml_str("fallback"@) != yaml_str("proxy-server-nameserver"@),
        yaml_str("fallback"@) != yaml_str("fake-ip-filter"@),
        yaml_str("proxy-server-nameserver"@) != yaml_str("fake-ip-filter"@),
{
    reveal_strlit("tun");
    reveal_strlit("dns");
    reveal_strlit("enable");
    reveal_strlit("enhanced-mode");
    reveal_strlit("fake-ip-range");
    reveal_strlit("nameserver");
    reveal_strlit("fallback");
    reveal_strlit("proxy-server-nameserver");
    reveal_strlit("fake-ip-filter");
    assert("tun"@[0] != "dns"@[0]);
    assert("enable"@.len() != "enhanced-mode"@.len());
    assert("enable"@.len() != "fake-ip-range"@.len());
    assert("enable"@.len() != "nameserver"@.len());
    assert("enable"@.len() != "fallback"@.len());
    assert("enable"@.len() != "proxy-server-nameserver"@.len());
    assert("enable"@.len() != "fake-ip-filter"@.len());
    assert("enhanced-mode"@.len() != "nameserver"@.len());
    assert("enhanced-mode"@.len() != "fallback"@.len());
    assert("enhanced-mode"@.len() != "proxy-server-nameserver"@.len());
    assert("enhanced-mode"@.len() != "fake-ip-filter"@.len());
    assert("fake-ip-range"@.len() != "nameserver"@.len());
    assert("fake-ip-range"@.len() != "fallback"@.len());
    assert("fake-ip-range"@.len() != "proxy-server-nameserver"@.len());
    assert("nameserver"@.len() != "fallback"@.len());
    assert("nameserver"@.len() != "proxy-server-nameserver"@.len());
    assert("nameserver"@.len() != "fake-ip-filter"@.len());
    assert("fallback"@.len() != "proxy-server-nameserver"@.len());
    assert("fallback"@.len() != "fake-ip-filter"@.len());
    assert("proxy-server-nameserver"@.len() != "fake-ip-filter"@.len());
    assert("enhanced-mode"@[0] != "fake-ip-range"@[0]);
    assert("fake-ip-range"@[8] != "fake-ip-filter"@[8]);
}

/// A key present before `insert_if_missing` is untouched by it, and the key
/// inserted is present after it.
pub proof fn lemma_insert_if_missing(m: Entries, k: YamlV, v: YamlV)
    requires
        mwf(m),
        wf(k),
        wf(v),
    ensures
        mwf(insert_if_missing(m, k, v)),
        has_key(insert_if_missing(m, k, v), k),
        forall|k2: YamlV| k2 != k ==> #[trigger] lookup(insert_if_missing(m, k, v), k2) == lookup(m, k2),
        forall|k2: YamlV| #[trigger] has_key(m, k2) ==> has_key(insert_if_missing(m, k, v), k2),
        has_key(m, k) ==> insert_if_missing(m, k, v) == m,
{
    if !has_key(m, k) {
        lemma_insert_wf(m, k, v);
    }
}

/// What filling missing TUN keys keeps and adds.
pub proof fn lemma_fill_missing(t: Entries, d: Entries, keys: Seq<Seq<char>>)
    requires
        mwf(t),
        mwf(d),
    ensures
        mwf(fill_missing(t, d, keys)),
        forall|k2: YamlV| #[trigger] has_key(t, k2) ==> has_key(fill_missing(t, d, keys), k2),
        forall|k2: YamlV| has_key(t, k2) ==> #[trigger] lookup(fill_missing(t, d, keys), k2) == lookup(t, k2),
        forall|j: int|
            0 <= j < keys.len() && has_key(d, yaml_str(#[trigger] keys[j])) ==> has_key(
                fill_missing(t, d, keys),
                yaml_str(keys[j]),
            ),
        (forall|j: int|
            0 <= j < keys.len() && has_key(d, yaml_str(#[trigger] keys[j])) ==> has_key(t, yaml_str(keys[j])))
            ==> fill_missing(t, d, keys) == t,
    decreases keys.len(),
{
    if keys.len() > 0 {
        let ks = keys.drop_last();
        lemma_fill_missing(t, d, ks);
        let prev = fill_missing(t, d, ks);
        let k = yaml_str(keys.last());
        assert forall|j: int| 0 <= j < ks.len() implies #[trigger] ks[j] == keys[j] by {}
        if !has_key(prev, k) && has_key(d, k) {
            lemma_lookup_wf(d, k);
            lemma_insert_wf(prev, k, lookup(d, k)->0);
        }
        let r = fill_missing(t, d, keys);
        assert forall|j: int|
            0 <= j < keys.len() && has_key(d, yaml_str(#[trigger] keys[j])) implies has_key(r, yaml_str(keys[j])) by {
            if j < ks.len() {
                assert(ks[j] == keys[j]);
                assert(has_key(prev, yaml_str(ks[j])));
            } else {
                assert(keys[j] == keys.last());
            }
        }
        if forall|j: int|
            0 <= j < keys.len() && has_key(d, yaml_str(#[trigger] keys[j])) ==> has_key(t, yaml_str(keys[j])) {
            assert forall|j: int| 0 <= j < ks.len() && has_key(d, yaml_str(#[trigger] ks[j])) implies has_key(t, yaml_str(ks[j])) by {
                assert(ks[j] == keys[j]);
            }
            assert(prev == t);
            if has_key(d, k) {
                assert(keys[keys.len() - 1] == keys.last());
            }
        }
    }
}

/// The DNS section `dns` is what TUN mode leaves behind for `config`: DNS is on,
/// every key that TUN mode fills in is present, and no proxy server nameserver
/// is still owed.
pub open spec fn dns_settled(config: Entries, dns: Entries, windows: bool) -> bool {
    &&& lookup(dns, yaml_str("enable"@)) == Some(YamlV::Bool(true))
    &&& has_key(dns, yaml_str("enhanced-mode"@))
    &&& has_key(dns, yaml_str("fake-ip-range"@))
    &&& has_key(dns, yaml_str("nameserver"@))
    &&& has_key(dns, yaml_str("fallback"@))
    &&& windows ==> has_key(dns, yaml_str("fake-ip-filter"@))
    &&& !(tun_hijacks_dns(config) && dns_is_fake_ip(dns) && proxy_server_nameserver_missing(dns))
}

/// DNS with its defaults is well-formed, on, and holds each default key.
pub proof fn lemma_dns_with_defaults(config: Entries)
    requires
        mwf(config),
    ensures
        mwf(dns_with_defaults(config)),
        lookup(dns_with_defaults(config), yaml_str("enable"@)) == Some(YamlV::Bool(true)),
        has_key(dns_with_defaults(config), yaml_str("enhanced-mode"@)),
        has_key(dns_with_defaults(config), yaml_str("fake-ip-range"@)),
        has_key(dns_with_defaults(config), yaml_str("nameserver"@)),
        has_key(dns_with_defaults(config), yaml_str("fallback"@)),
{
    lemma_tun_keys_distinct();
    let dk = yaml_str("dns"@);
    let ek = yaml_str("enable"@);
    let mk = yaml_str("enhanced-mode"@);
    let rk = yaml_str("fake-ip-range"@);
    let nk = yaml_str("nameserver"@);
    let fk = yaml_str("fallback"@);
    let d0 = mapping_or(config, dk, Seq::empty());
    assert(mwf(d0)) by {
        if has_key(config, dk) {
            lemma_lookup_wf(config, dk);
        }
    }
    lemma_insert_wf(d0, ek, YamlV::Bool(true));
    let d1 = map_insert(d0, ek, YamlV::Bool(true));
    lemma_insert_if_missing(d1, mk, yaml_str("fake-ip"@));
    let d2 = insert_if_missing(d1, mk, yaml_str("fake-ip"@));
    lemma_insert_if_missing(d2, rk, yaml_str("198.18.0.1/16"@));
    let d3 = insert_if_missing(d2, rk, yaml_str("198.18.0.1/16"@));
    lemma_strings_wf(seq![yaml_str("114.114.114.114"@), yaml_str("223.5.5.5"@), yaml_str("8.8.8.8"@)]);
    lemma_insert_if_missing(d3, nk, default_nameservers());
    let d4 = insert_if_missing(d3, nk, default_nameservers());
    lemma_strings_wf(Seq::empty());
    lemma_insert_if_missing(d4, fk, YamlV::Sequence(Seq::empty()));
}

/// The DNS section that TUN mode builds is well-formed and settled.
pub proof fn lemma_dns_for_tun(config: Entries, windows: bool)
    requires
        mwf(config),
    ensures
        mwf(dns_for_tun(config, windows)),
        dns_settled(config, dns_for_tun(config, windows), windows),
{
    lemma_tun_keys_distinct();
    let ek = yaml_str("enable"@);
    let mk = yaml_str("enhanced-mode"@);
    let pk = yaml_str("proxy-server-nameserver"@);
    let xk = yaml_str("fake-ip-filter"@);
    lemma_dns_with_defaults(config);
    let d5 = dns_with_defaults(config);
    let d6 = inject_proxy_server_nameserver(config, d5);
    lemma_default_proxy_server_nameservers();
    if tun_hijacks_dns(config) && dns_is_fake_ip(d5) && proxy_server_nameserver_missing(d5) {
        let psn = YamlV::Sequence(merge_unique(Seq::empty(), default_proxy_server_nameservers()));
        lemma_insert_wf(d5, pk, psn);
        assert(lookup(d6, pk) == Some(psn));
        assert(!proxy_server_nameserver_missing(d6));
        assert(lookup(d6, mk) == lookup(d5, mk));
    } else {
        assert(d6 == d5);
    }
    assert(mwf(d6));
    assert(dns_settled(config, d6, false));
    if windows {
        lemma_strings_wf(
            seq![yaml_str("dns.msftncsi.com"@), yaml_str("www.msftncsi.com"@), yaml_str("www.msftconnecttest.com"@)],
        );
        lemma_insert_if_missing(d6, xk, windows_fake_ip_filter());
        let d7 = insert_if_missing(d6, xk, windows_fake_ip_filter());
        assert(lookup(d7, mk) == lookup(d6, mk));
        assert(lookup(d7, pk) == lookup(d6, pk));
        assert(lookup(d7, ek) == lookup(d6, ek));
    }
}

/// Building the DNS section again from a settled one changes nothing.
pub proof fn lemma_dns_for_tun_settled(config: Entries, dns: Entries, windows: bool)
    requires
        mwf(dns),
        lookup(config, yaml_str("dns"@)) == Some(YamlV::Mapping(dns)),
        dns_settled(config, dns, windows),
    ensures
        dns_for_tun(config, windows) == dns,
{
    let ek = yaml_str("enable"@);
    assert(mapping_or(config, yaml_str("dns"@), Seq::empty()) == dns);
    lemma_insert_same(dns, ek, YamlV::Bool(true));
    assert(map_insert(dns, ek, YamlV::Bool(true)) == dns);
    assert(inject_proxy_server_nameserver(config, dns) == dns);
}

/// Turning TUN on twice gives what turning it on once gives.
pub proof fn use_tun_enable_is_idempotent(
    config: Entries,
    source_has_tun: bool,
    source_has_tun_again: bool,
    default_tun: Entries,
    windows: bool,
)
    requires
        mwf(config),
        mwf(default_tun),
    ensures
        use_tun_spec(
            use_tun_spec(config, true, source_has_tun, default_tun, windows),
            true,
            source_has_tun_again,
            default_tun,
            windows,
        ) == use_tun_spec(config, true, source_has_tun, default_tun, windows),
{
    lemma_tun_keys_distinct();
    let tk = yaml_str("tun"@);
    let dk = yaml_str("dns"@);
    let ek = yaml_str("enable"@);
    let keys = tun_default_keys();
    // the first run
    let t0 = mapping_or(config, tk, default_tun);
    assert(mwf(t0)) by {
        if has_key(config, tk) {
            lemma_lookup_wf(config, tk);
        }
    }
    lemma_fill_missing(t0, default_tun, keys);
    let f = fill_missing(t0, default_tun, keys);
    lemma_insert_wf(f, ek, YamlV::Bool(true));
    let t1 = map_insert(f, ek, YamlV::Bool(true));
    lemma_insert_wf(config, tk, YamlV::Mapping(t1));
    let c = map_insert(config, tk, YamlV::Mapping(t1));
    lemma_dns_for_tun(c, windows);
    let dns = dns_for_tun(c, windows);
    lemma_insert_wf(c, dk, YamlV::Mapping(dns));
    let c1 = map_insert(c, dk, YamlV::Mapping(dns));
    assert(c1 == use_tun_spec(config, true, source_has_tun, default_tun, windows));
    // the second run finds everything in place
    assert(lookup(c1, tk) == Some(YamlV::Mapping(t1)));
    assert(mapping_or(c1, tk, default_tun) == t1);
    assert forall|j: int|
        0 <= j < keys.len() && has_key(default_tun, yaml_str(#[trigger] keys[j])) implies has_key(
            t1,
            yaml_str(keys[j]),
        ) by {
        assert(has_key(f, yaml_str(keys[j])));
    }
    lemma_fill_missing(t1, default_tun, keys);
    lemma_insert_same(t1, ek, YamlV::Bool(true));
    lemma_insert_same(c1, tk, YamlV::Mapping(t1));
    assert(tun_hijacks_dns(c1) == tun_hijacks_dns(c));
    lemma_dns_for_tun_settled(c1, dns, windows);
    lemma_insert_same(c1, dk, YamlV::Mapping(dns));
}

/// Turning TUN off twice, with the same source configuration, gives what turning
/// it off once gives.
pub proof fn use_tun_disable_is_idempotent(
    config: Entries,
    source_has_tun: bool,
    default_tun: Entries,
    windows: bool,
)
    requires
        mwf(config),
        mwf(default_tun),
    ensures
        use_tun_spec(
            use_tun_spec(config, false, source_has_tun, default_tun, windows),
            false,
            source_has_tun,
            default_tun,
            windows,
        ) == use_tun_spec(config, false, source_has_tun, default_tun, windows),
{
    let tk = yaml_str("tun"@);
    let ek = yaml_str("enable"@);
    let c1 = use_tun_spec(config, false, source_has_tun, default_tun, windows);
    if has_key(config, tk) || source_has_tun {
        let t0 = mapping_or(config, tk, default_tun);
        assert(mwf(t0)) by {
            if has_key(config, tk) {
                lemma_lookup_wf(config, tk);
            }
        }
        lemma_insert_wf(t0, ek, YamlV::Bool(false));
        let t1 = map_insert(t0, ek, YamlV::Bool(false));
        lemma_insert_wf(config, tk, YamlV::Mapping(t1));
        assert(mapping_or(c1, tk, default_tun) == t1);
        lemma_insert_same(t1, ek, YamlV::Bool(false));
        lemma_insert_same(c1, tk, YamlV::Mapping(t1));
    } else {
        assert(c1 == config);
    }
}

/// Turning TUN on keeps every setting of the configuration's own TUN section
/// (but the switch, which is turned on), takes each missing default from the
/// default TUN section, and turns DNS on.
pub proof fn use_tun_on_keeps_tun_settings(
    config: Entries,
    source_has_tun: bool,
    default_tun: Entries,
    windows: bool,
    t: Entries,
)
    requires
        mwf(config),
        mwf(default_tun),
        lookup(config, yaml_str("tun"@)) == Some(YamlV::Mapping(t)),
    ensures
        ({
            let r = use_tun_spec(config, true, source_has_tun, default_tun, windows);
            &&& lookup(r, yaml_str("tun"@)) matches Some(YamlV::Mapping(t1)) && {
                &&& lookup(t1, yaml_str("enable"@)) == Some(YamlV::Bool(true))
                &&& forall|k: YamlV| k != yaml_str("enable"@) && has_key(t, k) ==> #[trigger] lookup(t1, k) == lookup(t, k)
                &&& forall|j: int|
                    0 <= j < tun_default_keys().len() && has_key(default_tun, yaml_str(#[trigger] tun_default_keys()[j]))
                        ==> has_key(t1, yaml_str(tun_default_keys()[j]))
            }
            &&& lookup(r, yaml_str("dns"@)) matches Some(YamlV::Mapping(d)) && lookup(d, yaml_str("enable"@)) == Some(
                YamlV::Bool(true),
            )
        }),
{
    lemma_tun_keys_distinct();
    let tk = yaml_str("tun"@);
    let dk = yaml_str("dns"@);
    let ek = yaml_str("enable"@);
    let keys = tun_default_keys();
    lemma_lookup_wf(config, tk);
    assert(mapping_or(config, tk, default_tun) == t);
    lemma_fill_missing(t, default_tun, keys);
    let f = fill_missing(t, default_tun, keys);
    lemma_insert_wf(f, ek, YamlV::Bool(true));
    let t1 = map_insert(f, ek, YamlV::Bool(true));
    lemma_insert_wf(config, tk, YamlV::Mapping(t1));
    let c = map_insert(config, tk, YamlV::Mapping(t1));
    lemma_dns_for_tun(c, windows);
    let dns = dns_for_tun(c, windows);
    lemma_insert_wf(c, dk, YamlV::Mapping(dns));
    let r = map_insert(c, dk, YamlV::Mapping(dns));
    assert(r == use_tun_spec(config, true, source_has_tun, default_tun, windows));
    assert(lookup(r, tk) == Some(YamlV::Mapping(t1)));
    assert forall|k: YamlV| k != ek && has_key(t, k) implies #[trigger] lookup(t1, k) == lookup(t, k) by {
        assert(lookup(f, k) == lookup(t, k));
    }
    assert forall|j: int|
        0 <= j < keys.len() && has_key(default_tun, yaml_str(#[trigger] keys[j])) implies has_key(t1, yaml_str(keys[j])) by {
        assert(has_key(f, yaml_str(keys[j])));
    }
}

// ---------------------------------------------------------------------------
// The code
// ---------------------------------------------------------------------------

/// Appends `value` unless `seq` already holds an equal value, as the
/// configuration compares values.
pub fn push_unique_sequence_value(seq: &mut Vec<Yaml>, value: Yaml)
    requires
        wf(value@),
        forall|j: int| 0 <= j < old(seq)@.len() ==> wf(#[trigger] old(seq)@[j]@),
    ensures
        views(final(seq)@) == push_unique(views(old(seq)@), value@),
        forall|j: int| 0 <= j < final(seq)@.len() ==> wf(#[trigger] final(seq)@[j]@),
{
    let mut i: usize = 0;
    while i < seq.len()
        invariant
            i <= seq@.len(),
            wf(value@),
            forall|j: int| 0 <= j < seq@.len() ==> wf(#[trigger] seq@[j]@),
            forall|j: int| 0 <= j < i ==> !equiv(#[trigger] views(seq@)[j], value@),
        decreases seq.len() - i,
    {
        assert(views(seq@)[i as int] == seq@[i as int]@);
        if same_value(&seq[i], &value) {
            assert(has_equiv(views(seq@), value@));
            return;
        }
        i = i + 1;
    }
    let ghost old_seq = seq@;
    seq.push(value);
    assert(views(seq@) =~= views(old_seq).push(value@));
    assert forall|j: int| 0 <= j < seq@.len() implies wf(#[trigger] seq@[j]@) by {
        if j < old_seq.len() {
            assert(seq@[j] == old_seq[j]);
        }
    }
}

/// Appends each of `values`, in order, unless `seq` already holds an equal value.
pub fn merge_unique_sequence_values(seq: &mut Vec<Yaml>, values: Vec<Yaml>)
    requires
        forall|j: int| 0 <= j < old(seq)@.len() ==> wf(#[trigger] old(seq)@[j]@),
        forall|j: int| 0 <= j < values@.len() ==> wf(#[trigger] values@[j]@),
    ensures
        views(final(seq)@) == merge_unique(views(old(seq)@), views(values@)),
        forall|j: int| 0 <= j < final(seq)@.len() ==> wf(#[trigger] final(seq)@[j]@),
{
    let ghost start = views(seq@);
    let ghost all = views(values@);
    let mut i: usize = 0;
    assert(all.take(0) =~= Seq::<YamlV>::empty());
    while i < values.len()
        invariant
            i <= values@.len(),
            all == views(values@),
            forall|j: int| 0 <= j < values@.len() ==> wf(#[trigger] values@[j]@),
            forall|j: int| 0 <= j < seq@.len() ==> wf(#[trigger] seq@[j]@),
            views(seq@) == merge_unique(start, all.take(i as int)),
        decreases values.len() - i,
    {
        let v = values[i].deep_clone();
        proof {
            assert(all.take(i + 1).drop_last() =~= all.take(i as int));
            assert(all.take(i + 1).last() == v@);
        }
        push_unique_sequence_value(seq, v);
        i = i + 1;
    }
    assert(all.take(values@.len() as int) =~= all);
}

/// The mapping stored under `key` in `config`, or a copy of `fallback` when
/// `key` holds no mapping.
pub(crate) fn mapping_or_clone(config: &Mapping, key: &Yaml, fallback: &Mapping) -> (r: Mapping)
    requires
        mwf(config@),
        mwf(fallback@),
    ensures
        r@ == mapping_or(config@, key@, fallback@),
        mwf(r@),
{
    match config.get(key) {
        Some(v) => {
            proof { lemma_lookup_wf(config@, key@); }
            match v.as_mapping() {
                Some(m) => m.deep_clone(),
                None => fallback.deep_clone(),
            }
        },
        None => fallback.deep_clone(),
    }
}

/// Stores `value` under `key` unless `key` is present.
fn insert_if_missing_str(m: &mut Mapping, key: &str, value: Yaml)
    requires
        mwf(old(m)@),
        wf(value@),
    ensures
        final(m)@ == insert_if_missing(old(m)@, yaml_str(key@), value@),
        mwf(final(m)@),
{
    let k = Yaml::string(key);
    if !m.contains_key(&k) {
        m.insert(k, value);
    }
}

/// Takes each missing key of [`tun_default_keys`] from `default_tun`.
fn fill_missing_tun_defaults(tun_val: &mut Mapping, default_tun: &Mapping)
    requires
        mwf(old(tun_val)@),
        mwf(default_tun@),
    ensures
        final(tun_val)@ == fill_missing(old(tun_val)@, default_tun@, tun_default_keys()),
        mwf(final(tun_val)@),
{
    let keys: [&str; 7] = [
        "dns-hijack",
        "stack",
        "auto-route",
        "strict-route",
        "auto-detect-interface",
        "mtu",
        "inet4-address",
    ];
    let ghost t0 = tun_val@;
    let ghost all = tun_default_keys();
    assert(all.take(0) =~= Seq::<Seq<char>>::empty());
    let mut i: usize = 0;
    while i < 7
        invariant
            i <= 7,
            all == tun_default_keys(),
            forall|j: int| 0 <= j < 7 ==> #[trigger] keys@[j]@ == all[j],
            mwf(tun_val@),
            mwf(default_tun@),
            tun_val@ == fill_missing(t0, default_tun@, all.take(i as int)),
        decreases 7 - i,
    {
        let key_val = Yaml::string(keys[i]);
        proof {
            assert(all.take(i + 1).drop_last() =~= all.take(i as int));
            assert(all.take(i + 1).last() == keys@[i as int]@);
        }
        if !tun_val.contains_key(&key_val) {
            match default_tun.get(&key_val) {
                Some(d) => {
                    proof { lemma_lookup_wf(default_tun@, key_val@); }
                    let dv = d.deep_clone();
                    tun_val.insert(key_val, dv);
                },
                None => {},
            }
        }
        i = i + 1;
    }
    assert(all.take(7) =~= all);
}

/// Puts the default proxy server nameservers into `dns_val` when the TUN section
/// hijacks DNS, the DNS mode is fake-ip and no proxy server nameserver is set.
fn inject_default_proxy_server_nameserver_if_needed(config: &Mapping, dns_val: &mut Mapping)
    requires
        mwf(config@),
        mwf(old(dns_val)@),
    ensures
        final(dns_val)@ == inject_proxy_server_nameserver(config@, old(dns_val)@),
        mwf(final(dns_val)@),
{
    let tun_key = Yaml::string("tun");
    let hijack_key = Yaml::string("dns-hijack");
    let tun_hijack_non_empty = match config.get(&tun_key) {
        Some(t) => {
            proof { lemma_lookup_wf(config@, tun_key@); }
            match t.as_mapping() {
                Some(tm) => match tm.get(&hijack_key) {
                    Some(h) => match h.as_sequence() {
                        Some(seq) => seq.len() > 0,
                        None => false,
                    },
                    None => false,
                },
                None => false,
            }
        },
        None => false,
    };
    let mode_key = Yaml::string("enhanced-mode");
    let enhanced_fake_ip = match dns_val.get(&mode_key) {
        Some(v) => match v.as_str() {
            Some(s) => str_eq_ignore_ascii_case(s.as_str(), "fake-ip"),
            None => false,
        },
        None => false,
    };
    if !(tun_hijack_non_empty && enhanced_fake_ip) {
        return;
    }
    let psn_key = Yaml::string("proxy-server-nameserver");
    let should_inject = match dns_val.get(&psn_key) {
        None => true,
        Some(v) => match v.as_sequence() {
            Some(seq) => seq.len() == 0,
            None => true,
        },
    };
    if should_inject {
        let mut seq: Vec<Yaml> = Vec::new();
        let defaults = vec![
            Yaml::string("https://223.5.5.5/dns-query"),
            Yaml::string("https://223.6.6.6/dns-query"),
        ];
        assert(views(defaults@) =~= default_proxy_server_nameservers());
        assert(views(seq@) =~= Seq::<YamlV>::empty());
        proof {
            reveal_strlit("https://223.5.5.5/dns-query");
            assert(defaults@[0]@ == default_proxy_server_nameservers()[0]);
            assert(defaults@[1]@ == default_proxy_server_nameservers()[1]);
        }
        merge_unique_sequence_values(&mut seq, defaults);
        proof {
            crate::yaml::lemma_sequence_view(seq);
            lemma_default_proxy_server_nameservers();
        }
        dns_val.insert(psn_key, Yaml::Sequence(seq));
    }
}

/// The configuration with the DNS section that TUN mode uses: DNS on, fake-ip
/// mode, a fake-ip range, nameservers and an empty fallback list unless set, the
/// default proxy server nameservers where needed, and on Windows a fake-ip filter.
pub fn use_dns_for_tun(config: Mapping, windows: bool) -> (r: Mapping)
    requires
        mwf(config@),
    ensures
        r@ == use_dns_for_tun_spec(config@, windows),
        mwf(r@),
{
    let mut config = config;
    let dns_key = Yaml::string("dns");
    let empty = Mapping::new();
    let mut dns_val = mapping_or_clone(&config, &dns_key, &empty);
    dns_val.insert(Yaml::string("enable"), Yaml::Bool(true));
    insert_if_missing_str(&mut dns_val, "enhanced-mode", Yaml::string("fake-ip"));
    insert_if_missing_str(&mut dns_val, "fake-ip-range", Yaml::string("198.18.0.1/16"));
    let nameservers = vec![
        Yaml::string("114.114.114.114"),
        Yaml::string("223.5.5.5"),
        Yaml::string("8.8.8.8"),
    ];
    proof { crate::yaml::lemma_sequence_view(nameservers); }
    assert(views(nameservers@) =~= seq![yaml_str("114.114.114.114"@), yaml_str("223.5.5.5"@), yaml_str("8.8.8.8"@)]);
    proof { lemma_strings_wf(views(nameservers@)); }
    insert_if_missing_str(&mut dns_val, "nameserver", Yaml::Sequence(nameservers));
    let fallback: Vec<Yaml> = Vec::new();
    proof { crate::yaml::lemma_sequence_view(fallback); }
    assert(views(fallback@) =~= Seq::<YamlV>::empty());
    insert_if_missing_str(&mut dns_val, "fallback", Yaml::Sequence(fallback));
    inject_default_proxy_server_nameserver_if_needed(&config, &mut dns_val);
    if windows {
        let filter = vec![
            Yaml::string("dns.msftncsi.com"),
            Yaml::string("www.msftncsi.com"),
            Yaml::string("www.msftconnecttest.com"),
        ];
        proof { crate::yaml::lemma_sequence_view(filter); }
        assert(views(filter@) =~= seq![yaml_str("dns.msftncsi.com"@), yaml_str("www.msftncsi.com"@), yaml_str("www.msftconnecttest.com"@)]);
        proof { lemma_strings_wf(views(filter@)); }
        insert_if_missing_str(&mut dns_val, "fake-ip-filter", Yaml::Sequence(filter));
    }
    config.insert(dns_key, Yaml::Mapping(dns_val));
    config
}

/// Brings the TUN section in line with the TUN switch, as [`use_tun_spec`]
/// states; `windows` selects the Windows-only DNS fake-ip filter.
pub fn use_tun_on(
    config: Mapping,
    enable: bool,
    source_has_tun: bool,
    default_tun: Mapping,
    windows: bool,
) -> (r: Mapping)
    requires
        mwf(config@),
        mwf(default_tun@),
    ensures
        r@ == use_tun_spec(config@, enable, source_has_tun, default_tun@, windows),
        mwf(r@),
{
    let mut config = config;
    let tun_key = Yaml::string("tun");
    let tun_existed = config.contains_key(&tun_key);
    if enable {
        let mut tun_val = mapping_or_clone(&config, &tun_key, &default_tun);
        fill_missing_tun_defaults(&mut tun_val, &default_tun);
        tun_val.insert(Yaml::string("enable"), Yaml::Bool(true));
        config.insert(tun_key, Yaml::Mapping(tun_val));
        use_dns_for_tun(config, windows)
    } else if tun_existed || source_has_tun {
        let mut tun_val = mapping_or_clone(&config, &tun_key, &default_tun);
        tun_val.insert(Yaml::string("enable"), Yaml::Bool(false));
        config.insert(tun_key, Yaml::Mapping(tun_val));
        config
    } else {
        let _ = config.remove(&tun_key);
        config
    }
}

/// [`use_tun_on`] for a system other than Windows.
pub fn use_tun(config: Mapping, enable: bool, source_has_tun: bool, default_tun: Mapping) -> (r: Mapping)
    requires
        mwf(config@),
        mwf(default_tun@),
    ensures
        r@ == use_tun_spec(config@, enable, source_has_tun, default_tun@, false),
        mwf(r@),
{
    use_tun_on(config, enable, source_has_tun, default_tun, false)
}

} // verus!
