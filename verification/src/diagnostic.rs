//! Diagnosis of TUN mode: how the route to the outside resolves through proxy
//! groups, whether an address is one of the core's fake IPs, and what the system
//! DNS answers and the service log say.
use vstd::prelude::*;
use crate::yaml::{Entries, Mapping, Yaml, YamlV, lookup, mwf, yaml_str};
use crate::help::{decimal_value, is_digit, is_unsigned_decimal, parse_unsigned, unsigned_digits};
use crate::text::{
    chars_contain, chars_of, contains_str, find_char, lemma_split_on_len, slice_chars, split_chars, split_on,
    split_once, string_views, strings_contain, trim, trim_string, char_views, strictly_sorted, string_of,
    to_lowercase, trim_chars, unicode_lowercase, append_chars, append_str, find_str, lemma_str_index_bound, str_index,
};

verus! {

// ---------------------------------------------------------------------------
// The route through proxy groups
// ---------------------------------------------------------------------------

/// The views of a list of string pairs.
pub open spec fn pair_views(v: Seq<(String, String)>) -> Seq<(Seq<char>, Seq<char>)> {
    v.map_values(|p: (String, String)| (p.0@, p.1@))
}

/// The proxy that group `g` has selected now: the last entry for `g`, as a map
/// filled entry by entry keeps it.
pub open spec fn now_of(now: Seq<(Seq<char>, Seq<char>)>, g: Seq<char>) -> Option<Seq<char>>
    decreases now.len(),
{
    if now.len() == 0 {
        None
    } else if now.last().0 == g {
        Some(now.last().1)
    } else {
        now_of(now.drop_last(), g)
    }
}

/// Each name of the list, trimmed.
pub open spec fn trim_all(v: Seq<Seq<char>>) -> Seq<Seq<char>> {
    v.map_values(|x: Seq<char>| trim(x))
}

/// `chain` follows the selections from `start`: each hop but the last is a group,
/// the next hop is what that group has selected, and no group is passed twice.
pub open spec fn route_follows(
    start: Seq<char>,
    groups: Seq<Seq<char>>,
    now: Seq<(Seq<char>, Seq<char>)>,
    chain: Seq<Seq<char>>,
) -> bool {
    &&& chain.len() >= 1
    &&& chain[0] == start
    &&& forall|i: int|
        0 <= i < chain.len() - 1 ==> groups.contains(trim(#[trigger] chain[i])) && now_of(now, trim(chain[i]))
            == Some(chain[i + 1])
    &&& trim_all(chain.drop_last()).no_duplicates()
}

/// Where a route that follows the selections stops, and what it reports: a loop
/// back to a group already passed (no final hop, looped), a hop that is not a
/// group (the final hop), or a group that has selected nothing (no final hop).
pub open spec fn route_ends(
    groups: Seq<Seq<char>>,
    now: Seq<(Seq<char>, Seq<char>)>,
    chain: Seq<Seq<char>>,
    final_hop: Option<Seq<char>>,
    looped: bool,
) -> bool {
    let last = trim(chain.last());
    if trim_all(chain.drop_last()).contains(last) {
        final_hop is None && looped
    } else if !groups.contains(last) {
        final_hop == Some(last) && !looped
    } else {
        now_of(now, last) is None && final_hop is None && !looped
    }
}

/// The selected proxy of group `g`.
fn now_lookup(now: &Vec<(String, String)>, g: &String) -> (r: Option<String>)
    ensures
        match r {
            Some(v) => now_of(pair_views(now@), g@) == Some(v@),
            None => now_of(pair_views(now@), g@) is None,
        },
{
    let ghost all = pair_views(now@);
    let mut i: usize = now.len();
    assert(all.take(i as int) =~= all);
    while i > 0
        invariant
            i <= now@.len(),
            all == pair_views(now@),
            now_of(all, g@) == now_of(all.take(i as int), g@),
        decreases i,
    {
        let ghost part = all.take(i as int);
        assert(part.last() == (now@[i - 1].0@, now@[i - 1].1@));
        assert(part.drop_last() =~= all.take(i - 1));
        if now[i - 1].0.eq(g) {
            return Some(now[i - 1].1.clone());
        }
        i = i - 1;
    }
    assert(all.take(0).len() == 0);
    None
}

proof fn lemma_distinct_groups_bound(visited: Seq<Seq<char>>, groups: Seq<Seq<char>>)
    requires
        visited.no_duplicates(),
        forall|i: int| 0 <= i < visited.len() ==> groups.contains(#[trigger] visited[i]),
    ensures
        visited.len() <= groups.len(),
{
    visited.unique_seq_to_set();
    groups.lemma_cardinality_of_set();
    assert(visited.to_set().subset_of(groups.to_set())) by {
        assert forall|x: Seq<char>| visited.to_set().contains(x) implies groups.to_set().contains(x) by {
            let i = choose|i: int| 0 <= i < visited.len() && visited[i] == x;
            assert(groups.contains(visited[i]));
        }
    }
    vstd::set_lib::lemma_len_subset(visited.to_set(), groups.to_set());
}

/// What group `group` has selected now, as the proxies' `now` fields report it
/// in `proxies_now_map` (where a group occurs twice, the last pair counts).
pub fn group_selection(proxies_now_map: &Vec<(String, String)>, group: &str) -> (r: Option<String>)
    ensures
        opt_view_string(r) == now_of(pair_views(proxies_now_map@), group@),
{
    now_lookup(proxies_now_map, &string_of_str(group))
}

/// Follows the selections of proxy groups from `start` until a hop that is not a
/// group, a group with no selection, or a group already passed.  Returns the
/// hops, the final hop when the route reaches one, and whether it looped.
/// `group_names` lists the names of the proxy groups; `proxies_now_map` pairs each
/// group with the name it has selected (where a name occurs twice, the last pair
/// counts).
pub fn resolve_route_chain(
    start: &str,
    group_names: &Vec<String>,
    proxies_now_map: &Vec<(String, String)>,
) -> (r: (Vec<String>, Option<String>, bool))
    ensures
        route_follows(start@, string_views(group_names@), pair_views(proxies_now_map@), string_views(r.0@)),
        route_ends(
            string_views(group_names@),
            pair_views(proxies_now_map@),
            string_views(r.0@),
            match r.1 {
                Some(s) => Some(s@),
                None => None,
            },
            r.2,
        ),
        r.0@.len() <= group_names@.len() + 1,
{
    let ghost groups = string_views(group_names@);
    let ghost now = pair_views(proxies_now_map@);
    let mut chain: Vec<String> = Vec::new();
    chain.push(string_of_str(start));
    let mut visited: Vec<String> = Vec::new();
    let mut current = trim_string(start);
    assert(string_views(chain@) =~= seq![start@]);
    assert(string_views(visited@) =~= trim_all(string_views(chain@).drop_last()));
    loop
        invariant
            groups == string_views(group_names@),
            now == pair_views(proxies_now_map@),
            string_views(chain@).len() >= 1,
            string_views(chain@)[0] == start@,
            current@ == trim(string_views(chain@).last()),
            string_views(visited@) == trim_all(string_views(chain@).drop_last()),
            string_views(visited@).no_duplicates(),
            forall|i: int|
                0 <= i < string_views(chain@).len() - 1 ==> groups.contains(trim(#[trigger] string_views(chain@)[i]))
                    && now_of(now, trim(string_views(chain@)[i])) == Some(string_views(chain@)[i + 1]),
        decreases group_names@.len() - visited@.len(),
    {
        let ghost ch = string_views(chain@);
        proof {
            let vs = string_views(visited@);
            assert forall|i: int| 0 <= i < vs.len() implies groups.contains(#[trigger] vs[i]) by {
                assert(vs[i] == trim(ch[i]));
            }
            lemma_distinct_groups_bound(vs, groups);
        }
        if strings_contain(&visited, &current) {
            return (chain, None, true);
        }
        if !strings_contain(group_names, &current) {
            let hop = current.clone();
            return (chain, Some(hop), false);
        }
        let next = match now_lookup(proxies_now_map, &current) {
            Some(n) => n,
            None => {
                return (chain, None, false);
            },
        };
        let ghost old_visited = string_views(visited@);
        let ghost old_chain = string_views(chain@);
        visited.push(current.clone());
        chain.push(next.clone());
        current = trim_string(next.as_str());
        proof {
            assert(string_views(visited@) =~= old_visited.push(trim(old_chain.last())));
            assert(string_views(chain@) =~= old_chain.push(next@));
            assert(string_views(chain@).drop_last() =~= old_chain);
            assert(trim_all(old_chain) =~= trim_all(old_chain.drop_last()).push(trim(old_chain.last())));
            assert forall|i: int, j: int|
                0 <= i < j < string_views(visited@).len() implies string_views(visited@)[i] != string_views(
                visited@,
            )[j] by {
                if j == old_visited.len() {
                    assert(old_visited[i] != trim(old_chain.last()));
                } else {
                    assert(old_visited[i] != old_visited[j]);
                }
            }
            let nv = string_views(visited@);
            assert forall|i: int| 0 <= i < nv.len() implies groups.contains(#[trigger] nv[i]) by {
                if i < old_visited.len() {
                    assert(old_visited[i] == trim(old_chain[i]));
                }
            }
            lemma_distinct_groups_bound(nv, groups);
            let nc = string_views(chain@);
            assert forall|i: int| 0 <= i < nc.len() - 1 implies groups.contains(trim(#[trigger] nc[i])) && now_of(
                now,
                trim(nc[i]),
            ) == Some(nc[i + 1]) by {
                if i < old_chain.len() - 1 {
                    assert(nc[i] == old_chain[i]);
                    assert(nc[i + 1] == old_chain[i + 1]);
                } else {
                    assert(nc[i] == old_chain.last());
                }
            }
        }
    }
}

/// A copy of `s` as a `String`.
fn string_of_str(s: &str) -> (r: String)
    ensures
        r@ == s@,
{
    s.to_owned()
}

/// The final hop of a route that follows the selections, as [`route_ends`]
/// fixes it: none where the route loops or stops at a group with no selection,
/// else the last hop, trimmed.
pub open spec fn route_final_hop(groups: Seq<Seq<char>>, chain: Seq<Seq<char>>) -> Option<Seq<char>> {
    let last = trim(chain.last());
    if trim_all(chain.drop_last()).contains(last) {
        None
    } else if !groups.contains(last) {
        Some(last)
    } else {
        None
    }
}

/// What the diagnosis reads of the route to the outside: the group that the
/// final `MATCH` rule sends to, the hops from there, and the proxy at the end.
pub struct RouteSelection {
    pub outbound_group: Option<String>,
    pub selected_node_group: Option<String>,
    pub proxy_group_now: Option<String>,
    pub route_chain: Vec<String>,
    pub route_chain_loop: bool,
    pub route_decision_for_test_target: Option<String>,
    pub selected_proxy: Option<String>,
    /// The reason to report when no route could be read.
    pub reason: Option<String>,
}

/// Reads the route to the outside from the outbound of the final `MATCH` rule
/// (`match_outbound`) of the runtime configuration: the route is `MATCH`
/// followed by the hops of [`resolve_route_chain`] from that outbound; the
/// proxy selected is the final hop, or the last hop where there is none; the
/// target of the delay test is the final hop, or `unknown`.  Without the
/// runtime configuration or such a rule, nothing is read and the reason says
/// so.
pub fn select_route(
    match_outbound: Option<&str>,
    runtime_config_present: bool,
    group_names: &Vec<String>,
    now_map: &Vec<(String, String)>,
) -> (r: RouteSelection)
    ensures
        runtime_config_present && match_outbound is Some ==> {
            let m = match_outbound.unwrap()@;
            let groups = string_views(group_names@);
            let now = pair_views(now_map@);
            let chain = string_views(r.route_chain@);
            let tail = chain.drop_first();
            let fin = route_final_hop(groups, tail);
            &&& chain.len() >= 2
            &&& chain[0] == "MATCH"@
            &&& route_follows(m, groups, now, tail)
            &&& route_ends(groups, now, tail, fin, r.route_chain_loop)
            &&& r.route_chain@.len() <= group_names@.len() + 2
            &&& opt_view_string(r.outbound_group) == Some("MATCH"@)
            &&& opt_view_string(r.selected_node_group) == Some(m)
            &&& opt_view_string(r.proxy_group_now) == now_of(now, m)
            &&& opt_view_string(r.route_decision_for_test_target) == Some(
                match fin {
                    Some(h) => h,
                    None => "unknown"@,
                },
            )
            &&& opt_view_string(r.selected_proxy) == Some(
                match fin {
                    Some(h) => h,
                    None => tail.last(),
                },
            )
            &&& r.reason is None
        },
        !(runtime_config_present && match_outbound is Some) ==> {
            &&& r.outbound_group is None
            &&& r.selected_node_group is None
            &&& r.proxy_group_now is None
            &&& r.route_chain@.len() == 0
            &&& !r.route_chain_loop
            &&& opt_view_string(r.route_decision_for_test_target) == Some("unknown"@)
            &&& r.selected_proxy is None
            &&& opt_view_string(r.reason) == Some("unable to infer external route from runtime rules"@)
        },
{
    if runtime_config_present && match_outbound.is_some() {
        let m = match_outbound.unwrap();
        let (mut chain, final_hop, looped) = resolve_route_chain(m, group_names, now_map);
        let ghost old_chain = chain@;
        let last = chain[chain.len() - 1].clone();
        let mut route_chain: Vec<String> = Vec::new();
        route_chain.push(string_of_str("MATCH"));
        let ghost head = route_chain@;
        route_chain.append(&mut chain);
        proof {
            assert(route_chain@ == head + old_chain);
            assert(string_views(route_chain@).drop_first() =~= string_views(old_chain));
        }
        let test_target = match &final_hop {
            Some(h) => h.clone(),
            None => string_of_str("unknown"),
        };
        let selected = match final_hop {
            Some(h) => h,
            None => last,
        };
        RouteSelection {
            outbound_group: Some(string_of_str("MATCH")),
            selected_node_group: Some(string_of_str(m)),
            proxy_group_now: now_lookup(now_map, &string_of_str(m)),
            route_chain,
            route_chain_loop: looped,
            route_decision_for_test_target: Some(test_target),
            selected_proxy: Some(selected),
            reason: None,
        }
    } else {
        RouteSelection {
            outbound_group: None,
            selected_node_group: None,
            proxy_group_now: None,
            route_chain: Vec::new(),
            route_chain_loop: false,
            route_decision_for_test_target: Some(string_of_str("unknown")),
            selected_proxy: None,
            reason: Some(string_of_str("unable to infer external route from runtime rules")),
        }
    }
}

// ---------------------------------------------------------------------------
// IPv4 addresses and ranges
// ---------------------------------------------------------------------------

/// One octet of a dotted IPv4 address as the standard library reads it: one to
/// three decimal digits, no leading zero, at most 255.
pub open spec fn is_octet(p: Seq<char>) -> bool {
    &&& 1 <= p.len() <= 3
    &&& forall|i: int| 0 <= i < p.len() ==> is_digit(#[trigger] p[i])
    &&& (p.len() == 1 || p[0] != '0')
    &&& decimal_value(p) <= 255
}

/// The address that dotted-decimal text spells, as a number in network order.
pub open spec fn ipv4_value(s: Seq<char>) -> Option<u32> {
    let parts = split_on(s, '.');
    if parts.len() == 4 && is_octet(parts[0]) && is_octet(parts[1]) && is_octet(parts[2]) && is_octet(
        parts[3],
    ) {
        Some(
            (((decimal_value(parts[0]) * 256 + decimal_value(parts[1])) * 256 + decimal_value(parts[2])) * 256
                + decimal_value(parts[3])) as u32,
        )
    } else {
        None
    }
}

/// Reads one octet.
fn parse_octet(p: &Vec<char>) -> (r: Option<u64>)
    ensures
        match r {
            Some(v) => is_octet(p@) && v == decimal_value(p@),
            None => !is_octet(p@),
        },
{
    if p.len() == 0 || p.len() > 3 {
        return None;
    }
    if !('0' <= p[0] && p[0] <= '9') {
        return None;
    }
    if p.len() > 1 && p[0] == '0' {
        return None;
    }
    assert(unsigned_digits(p@) == p@);
    parse_unsigned(p, 255)
}

/// Reads a dotted-decimal IPv4 address.
pub fn parse_ipv4(s: &Vec<char>) -> (r: Option<u32>)
    ensures
        r == ipv4_value(s@),
{
    let parts = split_chars(s, '.');
    if parts.len() != 4 {
        return None;
    }
    assert(char_views(parts@)[0] == parts@[0]@);
    assert(char_views(parts@)[1] == parts@[1]@);
    assert(char_views(parts@)[2] == parts@[2]@);
    assert(char_views(parts@)[3] == parts@[3]@);
    let a = match parse_octet(&parts[0]) {
        Some(v) => v,
        None => return None,
    };
    let b = match parse_octet(&parts[1]) {
        Some(v) => v,
        None => return None,
    };
    let c = match parse_octet(&parts[2]) {
        Some(v) => v,
        None => return None,
    };
    let d = match parse_octet(&parts[3]) {
        Some(v) => v,
        None => return None,
    };
    assert(((a * 256 + b) * 256 + c) * 256 + d <= 0xffff_ffff) by (nonlinear_arith)
        requires
            a <= 255,
            b <= 255,
            c <= 255,
            d <= 255,
    ;
    let v: u64 = ((a * 256 + b) * 256 + c) * 256 + d;
    Some(v as u32)
}

/// The network mask of a prefix length.
pub open spec fn cidr_mask(prefix: u32) -> u32 {
    if prefix == 0 {
        0
    } else {
        u32::MAX << ((32 - prefix) as u32)
    }
}

/// `ip` lies in the range `cidr`, written `base/prefix`: both addresses read,
/// the prefix is a number no greater than 32, and they agree on the masked bits.
pub open spec fn in_cidr(ip: Seq<char>, cidr: Seq<char>) -> bool {
    match split_once(cidr, '/') {
        None => false,
        Some((base, p)) => match (ipv4_value(ip), ipv4_value(base)) {
            (Some(x), Some(y)) => is_unsigned_decimal(p, 32) && (x & cidr_mask(
                decimal_value(unsigned_digits(p)) as u32,
            )) == (y & cidr_mask(decimal_value(unsigned_digits(p)) as u32)),
            _ => false,
        },
    }
}

/// Whether `ip` lies in the IPv4 range `cidr`.
pub fn is_ipv4_in_cidr(ip: &str, cidr: &str) -> (r: bool)
    ensures
        r == in_cidr(ip@, cidr@),
{
    let cs = chars_of(cidr);
    let slash = match find_char(&cs, '/') {
        Some(i) => i,
        None => return false,
    };
    let base = slice_chars(&cs, 0, slash);
    assert(slash < cs.len());
    let prefix_text = slice_chars(&cs, slash + 1, cs.len());
    assert(base@ =~= cs@.take(slash as int));
    assert(prefix_text@ =~= cs@.skip(slash + 1));
    let ip_value = match parse_ipv4(&chars_of(ip)) {
        Some(v) => v,
        None => return false,
    };
    let base_value = match parse_ipv4(&base) {
        Some(v) => v,
        None => return false,
    };
    let prefix = match parse_unsigned(&prefix_text, 32) {
        Some(v) => v as u32,
        None => return false,
    };
    let mask: u32 = if prefix == 0 {
        0
    } else {
        u32::MAX << (32 - prefix)
    };
    (ip_value & mask) == (base_value & mask)
}

/// The range of fake IPs that the core hands out when the configuration names
/// none.
pub open spec fn default_fake_ip_range() -> Seq<char> {
    "198.18.0.0/15"@
}

/// `ip` is likely one of the core's fake IPs: it lies in the configured fake-ip
/// range (when one is set) or in the default one.
pub open spec fn likely_fake_ip(ip: Seq<char>, range: Option<Seq<char>>) -> bool {
    ||| (range matches Some(r) && trim(r).len() > 0 && in_cidr(ip, trim(r)))
    ||| in_cidr(ip, default_fake_ip_range())
}

/// Whether `ip` is likely a fake IP of the core.
pub fn is_likely_fake_ip(ip: &str, config_fake_ip_range: Option<&str>) -> (r: bool)
    ensures
        r == likely_fake_ip(
            ip@,
            match config_fake_ip_range {
                Some(s) => Some(s@),
                None => None,
            },
        ),
{
    match config_fake_ip_range {
        Some(range) => {
            let t = trim_string(range);
            if !t.as_str().is_empty() && is_ipv4_in_cidr(ip, t.as_str()) {
                return true;
            }
        },
        None => {},
    }
    is_ipv4_in_cidr(ip, "198.18.0.0/15")
}

// ---------------------------------------------------------------------------
// System DNS answers
// ---------------------------------------------------------------------------

/// What the system resolver answered for a host: its addresses and, for each,
/// whether it is likely a fake IP.
pub struct SystemDnsResolvedHost {
    pub host: String,
    pub ips: Vec<String>,
    pub fake_ip_flags: Vec<bool>,
}

/// Some answer carries the flag `b`.
pub open spec fn has_flag(hosts: Seq<SystemDnsResolvedHost>, b: bool) -> bool {
    has_flag_before(hosts, hosts.len() as int, b)
}

/// Some answer among the first `n` hosts carries the flag `b`.
pub open spec fn has_flag_before(hosts: Seq<SystemDnsResolvedHost>, n: int, b: bool) -> bool {
    exists|i: int, j: int|
        0 <= i < n && 0 <= j < hosts[i].fake_ip_flags@.len() && #[trigger] hosts[i].fake_ip_flags@[j] == b
}

proof fn lemma_has_flag_step(hosts: Seq<SystemDnsResolvedHost>, n: int, b: bool)
    requires
        0 <= n < hosts.len(),
    ensures
        has_flag_before(hosts, n + 1, b) == (has_flag_before(hosts, n, b) || exists|j: int|
            0 <= j < hosts[n].fake_ip_flags@.len() && #[trigger] hosts[n].fake_ip_flags@[j] == b),
{
    if has_flag_before(hosts, n + 1, b) {
        let (i, j) = choose|i: int, j: int|
            0 <= i < n + 1 && 0 <= j < hosts[i].fake_ip_flags@.len() && #[trigger] hosts[i].fake_ip_flags@[j] == b;
        if i < n {
            assert(has_flag_before(hosts, n, b));
        } else {
            assert(hosts[n].fake_ip_flags@[j] == b);
        }
    }
    if exists|j: int| 0 <= j < hosts[n].fake_ip_flags@.len() && #[trigger] hosts[n].fake_ip_flags@[j] == b {
        let j = choose|j: int| 0 <= j < hosts[n].fake_ip_flags@.len() && #[trigger] hosts[n].fake_ip_flags@[j] == b;
        assert(hosts[n].fake_ip_flags@[j] == b);
    }
    if has_flag_before(hosts, n, b) {
        let (i, j) = choose|i: int, j: int|
            0 <= i < n && 0 <= j < hosts[i].fake_ip_flags@.len() && #[trigger] hosts[i].fake_ip_flags@[j] == b;
        assert(hosts[i].fake_ip_flags@[j] == b);
    }
}

/// The verdict on the system resolver's answers: `failed` when nothing was
/// answered, else `mixed`, `fake-ip` or `resolved` as fake and real addresses
/// occur among them.
pub open spec fn system_dns_verdict(hosts: Seq<SystemDnsResolvedHost>) -> Seq<char> {
    if hosts.len() == 0 {
        "failed"@
    } else if has_flag(hosts, true) && has_flag(hosts, false) {
        "mixed"@
    } else if has_flag(hosts, true) {
        "fake-ip"@
    } else if has_flag(hosts, false) {
        "resolved"@
    } else {
        "failed"@
    }
}

pub fn classify_system_dns_status(system_dns_resolved_hosts: &[SystemDnsResolvedHost]) -> (r: String)
    ensures
        r@ == system_dns_verdict(system_dns_resolved_hosts@),
{
    let hosts = system_dns_resolved_hosts;
    if hosts.len() == 0 {
        return "failed".to_owned();
    }
    let mut has_fake = false;
    let mut has_real = false;
    let mut i: usize = 0;
    while i < hosts.len()
        invariant
            i <= hosts@.len(),
            has_fake == has_flag_before(hosts@, i as int, true),
            has_real == has_flag_before(hosts@, i as int, false),
        decreases hosts.len() - i,
    {
        let flags = &hosts[i].fake_ip_flags;
        let mut j: usize = 0;
        while j < flags.len()
            invariant
                i < hosts@.len(),
                flags == hosts@[i as int].fake_ip_flags,
                j <= flags@.len(),
                has_fake == (has_flag_before(hosts@, i as int, true) || exists|b: int|
                    0 <= b < j && #[trigger] flags@[b] == true),
                has_real == (has_flag_before(hosts@, i as int, false) || exists|b: int|
                    0 <= b < j && #[trigger] flags@[b] == false),
            decreases flags.len() - j,
        {
            if flags[j] {
                has_fake = true;
            } else {
                has_real = true;
            }
            j = j + 1;
        }
        proof {
            lemma_has_flag_step(hosts@, i as int, true);
            lemma_has_flag_step(hosts@, i as int, false);
        }
        i = i + 1;
    }
    if has_fake && has_real {
        "mixed".to_owned()
    } else if has_fake {
        "fake-ip".to_owned()
    } else if has_real {
        "resolved".to_owned()
    } else {
        "failed".to_owned()
    }
}

// ---------------------------------------------------------------------------
// The service log
// ---------------------------------------------------------------------------

/// The log line that the system prints when it runs out of local ports.
pub open spec fn port_exhaustion_marker() -> Seq<char> {
    "Only one usage of each socket address"@
}

/// How many lines report running out of local ports.
pub open spec fn port_exhaustion_count(lines: Seq<Seq<char>>) -> nat
    decreases lines.len(),
{
    if lines.len() == 0 {
        0
    } else {
        port_exhaustion_count(lines.drop_last()) + if contains_str(lines.last(), port_exhaustion_marker()) {
            1nat
        } else {
            0nat
        }
    }
}

/// The warning given when outbound connections storm while `tcp-concurrent` is on.
pub open spec fn tcp_concurrent_warning() -> Seq<char> {
    "当前出口节点连接风暴，tcp-concurrent 可能放大本机端口耗尽。"@
}

/// Whether the log shows a storm of outbound connections (five or more lines
/// that report running out of local ports), and the warning to show when it does
/// while `tcp-concurrent` is on.
pub fn tcp_concurrent_warning_from_logs(service_log_summary: &[String], tcp_concurrent: Option<bool>) -> (r: (
    bool,
    Option<String>,
))
    ensures
        r.0 == (port_exhaustion_count(string_views(service_log_summary@)) >= 5),
        match r.1 {
            Some(w) => r.0 && tcp_concurrent == Some(true) && w@ == tcp_concurrent_warning(),
            None => !(r.0 && tcp_concurrent == Some(true)),
        },
{
    let lines = service_log_summary;
    let marker = chars_of("Only one usage of each socket address");
    let ghost all = string_views(lines@);
    let mut count: usize = 0;
    let mut i: usize = 0;
    assert(all.take(0) =~= Seq::<Seq<char>>::empty());
    while i < lines.len()
        invariant
            i <= lines@.len(),
            all == string_views(lines@),
            marker@ == port_exhaustion_marker(),
            count == port_exhaustion_count(all.take(i as int)),
            count <= i,
        decreases lines.len() - i,
    {
        proof {
            assert(all.take(i + 1).drop_last() =~= all.take(i as int));
            assert(all.take(i + 1).last() == lines@[i as int]@);
        }
        if chars_contain(&chars_of(lines[i].as_str()), &marker) {
            count = count + 1;
        }
        i = i + 1;
    }
    assert(all.take(lines@.len() as int) =~= all);
    let storm = count >= 5;
    let warning = if storm && tcp_concurrent == Some(true) {
        Some("当前出口节点连接风暴，tcp-concurrent 可能放大本机端口耗尽。".to_owned())
    } else {
        None
    };
    (storm, warning)
}

// ---------------------------------------------------------------------------
// The report
// ---------------------------------------------------------------------------

/// What the TUN diagnosis found.
pub struct TunDiagnosticReport {
    pub tun_enabled: bool,
    pub service_core_managed: bool,
    pub core_api_ready: bool,
    pub dns_hijack_ok: bool,
    pub route_injected: bool,
    pub multiple_tun_adapters_detected: bool,
    pub adapter_candidates: Vec<String>,
    pub mode: Option<String>,
    pub selected_node_group: Option<String>,
    pub proxy_group_now: Option<String>,
    pub outbound_group: Option<String>,
    pub selected_proxy: Option<String>,
    pub selected_proxy_type: Option<String>,
    pub route_decision: Option<String>,
    pub route_decision_type: Option<String>,
    pub route_chain: Vec<String>,
    pub route_decision_for_test_target: Option<String>,
    pub selected_proxy_server_host: Option<String>,
    pub selected_proxy_server_port: Option<u16>,
    pub selected_proxy_is_direct: bool,
    pub selected_proxy_delay: Option<i64>,
    pub selected_proxy_reachable: Option<bool>,
    pub selected_proxy_delay_error: Option<String>,
    pub proxy_dns_failed: bool,
    pub proxy_dns_failed_hosts: Vec<String>,
    pub proxy_dns_failed_targets: Vec<String>,
    pub proxy_dns_failure_hint: Option<String>,
    pub system_dns_resolved_hosts: Vec<SystemDnsResolvedHost>,
    pub system_dns_status: Option<String>,
    pub dns_proxy_server_nameserver_status: Option<String>,
    pub dns_fake_ip_range: Option<String>,
    pub proxy_server_nameserver: Vec<String>,
    pub dns_nameserver: Vec<String>,
    pub dns_respect_rules: Option<bool>,
    pub dns_enhanced_mode: Option<String>,
    pub tcp_concurrent: Option<bool>,
    pub tcp_concurrent_warning: Option<String>,
    pub runtime_dns_source: Option<String>,
    pub final_config_path: Option<String>,
    pub config_read_error: Option<String>,
    pub service_log_file: Option<String>,
    pub service_log_summary: Vec<String>,
    pub reasons: Vec<String>,
}

/// The view of an optional string.
pub open spec fn opt_str(s: Option<&str>) -> Option<Seq<char>> {
    match s {
        Some(x) => Some(x@),
        None => None,
    }
}

/// DNS hijacking works when one of the TUN section's hijack entries names port 53.
pub open spec fn hijacks_port_53(entries: Seq<Seq<char>>) -> bool {
    exists|i: int| 0 <= i < entries.len() && contains_str(#[trigger] entries[i], ":53"@)
}

pub fn dns_hijack_works(dns_hijack: &Vec<String>) -> (r: bool)
    ensures
        r == hijacks_port_53(string_views(dns_hijack@)),
{
    let pat = chars_of(":53");
    let mut i: usize = 0;
    while i < dns_hijack.len()
        invariant
            i <= dns_hijack@.len(),
            pat@ == ":53"@,
            forall|j: int| 0 <= j < i ==> !contains_str(#[trigger] string_views(dns_hijack@)[j], ":53"@),
        decreases dns_hijack.len() - i,
    {
        if chars_contain(&chars_of(dns_hijack[i].as_str()), &pat) {
            assert(contains_str(string_views(dns_hijack@)[i as int], ":53"@));
            return true;
        }
        i = i + 1;
    }
    false
}

/// The routing table sends traffic to TUN: it names one of the TUN gateway
/// addresses.
pub fn route_is_injected(route_text: &str) -> (r: bool)
    ensures
        r == (contains_str(route_text@, "198.18.0.2"@) || contains_str(route_text@, "198.18.0.1"@)),
{
    let cs = chars_of(route_text);
    chars_contain(&cs, &chars_of("198.18.0.2")) || chars_contain(&cs, &chars_of("198.18.0.1"))
}

/// The route ends at the direct outbound: by the proxy's type when known, else
/// by its name.
pub open spec fn is_direct_route(proxy_type: Option<Seq<char>>, proxy: Option<Seq<char>>) -> bool {
    match proxy_type {
        Some(t) => crate::text::eq_ignore_ascii_case(t, "Direct"@),
        None => match proxy {
            Some(p) => crate::text::eq_ignore_ascii_case(p, "DIRECT"@),
            None => false,
        },
    }
}

pub fn selected_proxy_is_direct(proxy_type: Option<&str>, proxy: Option<&str>) -> (r: bool)
    ensures
        r == is_direct_route(opt_str(proxy_type), opt_str(proxy)),
{
    match proxy_type {
        Some(t) => crate::text::str_eq_ignore_ascii_case(t, "Direct"),
        None => match proxy {
            Some(p) => crate::text::str_eq_ignore_ascii_case(p, "DIRECT"),
            None => false,
        },
    }
}

/// A proxy is reachable when its delay test gave a delay above 0 and below the
/// 8000 ms time-out.
pub fn proxy_reachable(delay: Option<i64>) -> (r: Option<bool>)
    ensures
        r == match delay {
            Some(d) => Some(d > 0 && d < 8000),
            None => None,
        },
{
    match delay {
        Some(d) => Some(d > 0 && d < 8000),
        None => None,
    }
}

/// The nameservers that TUN mode puts in by itself.
pub open spec fn injected_nameservers() -> Seq<Seq<char>> {
    seq!["https://223.5.5.5/dns-query"@, "https://223.6.6.6/dns-query"@]
}

/// Where the proxy server nameservers come from: `unknown` without the runtime
/// configuration or when the proxy's server is no domain; `runtime_injected` when
/// they are the ones TUN mode puts in under working TUN, DNS hijacking and
/// fake-ip mode; `implicit_fallback` when there are none; `configured` otherwise.
pub open spec fn nameserver_status(
    config_read_failed: bool,
    host_is_domain: bool,
    tun_enabled: bool,
    dns_hijack_ok: bool,
    enhanced_mode: Option<Seq<char>>,
    psn: Seq<Seq<char>>,
) -> Seq<char> {
    if config_read_failed || !host_is_domain {
        "unknown"@
    } else if tun_enabled && dns_hijack_ok && enhanced_mode == Some("fake-ip"@) && psn == injected_nameservers() {
        "runtime_injected"@
    } else if psn.len() == 0 {
        "implicit_fallback"@
    } else {
        "configured"@
    }
}

pub fn dns_proxy_server_nameserver_status(
    config_read_failed: bool,
    host_is_domain: bool,
    tun_enabled: bool,
    dns_hijack_ok: bool,
    enhanced_mode: Option<&str>,
    proxy_server_nameserver: &Vec<String>,
) -> (r: String)
    ensures
        r@ == nameserver_status(
            config_read_failed,
            host_is_domain,
            tun_enabled,
            dns_hijack_ok,
            opt_str(enhanced_mode),
            string_views(proxy_server_nameserver@),
        ),
{
    if config_read_failed || !host_is_domain {
        return "unknown".to_owned();
    }
    let fake_ip = match enhanced_mode {
        Some(m) => crate::text::str_equal(m, "fake-ip"),
        None => false,
    };
    let psn = proxy_server_nameserver;
    let mut injected = false;
    if psn.len() == 2 {
        let a = crate::text::str_equal(psn[0].as_str(), "https://223.5.5.5/dns-query");
        let b = crate::text::str_equal(psn[1].as_str(), "https://223.6.6.6/dns-query");
        injected = a && b;
        proof {
            let v = string_views(psn@);
            assert(v[0] == psn@[0]@);
            assert(v[1] == psn@[1]@);
            if injected {
                assert(v =~= injected_nameservers());
            }
            if v == injected_nameservers() {
                assert(v[0] == injected_nameservers()[0]);
                assert(v[1] == injected_nameservers()[1]);
            }
        }
    }
    assert(injected == (string_views(psn@) == injected_nameservers())) by {
        if psn@.len() != 2 {
            assert(string_views(psn@).len() != injected_nameservers().len());
        }
    }
    if tun_enabled && dns_hijack_ok && fake_ip && injected {
        "runtime_injected".to_owned()
    } else if psn.len() == 0 {
        "implicit_fallback".to_owned()
    } else {
        "configured".to_owned()
    }
}

/// The verdict on the system resolver: `not_tested` unless the proxy's DNS failed
/// and is worth checking, else the verdict on its answers.
pub fn system_dns_status(
    proxy_dns_failed: bool,
    should_check_proxy_dns: bool,
    hosts: &[SystemDnsResolvedHost],
) -> (r: String)
    ensures
        r@ == (if !proxy_dns_failed || !should_check_proxy_dns {
            "not_tested"@
        } else {
            system_dns_verdict(hosts@)
        }),
{
    if !proxy_dns_failed || !should_check_proxy_dns {
        "not_tested".to_owned()
    } else {
        classify_system_dns_status(hosts)
    }
}

/// The hints given when the proxy's DNS failed, by what the system resolver
/// said, and when the route is direct.
pub open spec fn hint_fake_ip() -> Seq<char> {
    "系统 DNS 返回了 fake-ip，这通常来自 Mihomo fake-ip/TUN DNS hijack，不代表代理节点域名已解析到真实公网地址。代理节点域名应通过 proxy-server-nameserver 或 Mihomo 内部 DNS 解析。请检查 dns.proxy-server-nameserver、nameserver、fake-ip-filter、respect-rules 以及 DNS 出站路径。"@
}

pub open spec fn hint_mixed() -> Seq<char> {
    "系统 DNS 返回了 fake-ip 与真实 IP 的混合结果。fake-ip 可能来自 Mihomo fake-ip/TUN DNS hijack，不能单独作为代理节点真实解析成功的依据。请优先检查 dns.proxy-server-nameserver、nameserver、fake-ip-filter、respect-rules 与 DNS 出站路径。"@
}

pub open spec fn hint_no_answer() -> Seq<char> {
    "当前选中代理节点的服务器域名在 Mihomo 内部解析失败，但这不一定代表域名本身失效。请检查 proxy-server-nameserver、respect-rules、DNS 出站路径或 TUN 回环。"@
}

pub open spec fn hint_real_ip() -> Seq<char> {
    "系统 DNS 解析到了真实 IP，但 Mihomo 内部 DNS 对代理节点域名解析失败。请检查 dns.proxy-server-nameserver、nameserver、respect-rules 与 DNS 出站路径。"@
}

pub open spec fn hint_direct() -> Seq<char> {
    "当前路由选择为 DIRECT；DIRECT 不是代理节点，因此跳过节点延迟测试和节点 DNS 诊断。"@
}

/// The hint on a failed proxy DNS lookup, by the system resolver's verdict and
/// whether it answered at all; for a direct route, the note that proxy checks
/// were skipped; otherwise none.
pub open spec fn failure_hint(
    proxy_dns_failed: bool,
    selected_direct: bool,
    status: Seq<char>,
    no_answers: bool,
) -> Option<Seq<char>> {
    if proxy_dns_failed {
        Some(
            if status == "fake-ip"@ {
                hint_fake_ip()
            } else if status == "mixed"@ {
                hint_mixed()
            } else if no_answers {
                hint_no_answer()
            } else {
                hint_real_ip()
            },
        )
    } else if selected_direct {
        Some(hint_direct())
    } else {
        None
    }
}

pub fn proxy_dns_failure_hint(
    proxy_dns_failed: bool,
    selected_direct: bool,
    system_dns_status: &str,
    no_answers: bool,
) -> (r: Option<String>)
    ensures
        opt_view_string(r) == failure_hint(proxy_dns_failed, selected_direct, system_dns_status@, no_answers),
{
    if proxy_dns_failed {
        let hint = if crate::text::str_equal(system_dns_status, "fake-ip") {
            "系统 DNS 返回了 fake-ip，这通常来自 Mihomo fake-ip/TUN DNS hijack，不代表代理节点域名已解析到真实公网地址。代理节点域名应通过 proxy-server-nameserver 或 Mihomo 内部 DNS 解析。请检查 dns.proxy-server-nameserver、nameserver、fake-ip-filter、respect-rules 以及 DNS 出站路径。"
        } else if crate::text::str_equal(system_dns_status, "mixed") {
            "系统 DNS 返回了 fake-ip 与真实 IP 的混合结果。fake-ip 可能来自 Mihomo fake-ip/TUN DNS hijack，不能单独作为代理节点真实解析成功的依据。请优先检查 dns.proxy-server-nameserver、nameserver、fake-ip-filter、respect-rules 与 DNS 出站路径。"
        } else if no_answers {
            "当前选中代理节点的服务器域名在 Mihomo 内部解析失败，但这不一定代表域名本身失效。请检查 proxy-server-nameserver、respect-rules、DNS 出站路径或 TUN 回环。"
        } else {
            "系统 DNS 解析到了真实 IP，但 Mihomo 内部 DNS 对代理节点域名解析失败。请检查 dns.proxy-server-nameserver、nameserver、respect-rules 与 DNS 出站路径。"
        };
        Some(hint.to_owned())
    } else if selected_direct {
        Some("当前路由选择为 DIRECT；DIRECT 不是代理节点，因此跳过节点延迟测试和节点 DNS 诊断。".to_owned())
    } else {
        None
    }
}

/// The view of an optional owned string.
pub open spec fn opt_view_string(s: Option<String>) -> Option<Seq<char>> {
    match s {
        Some(x) => Some(x@),
        None => None,
    }
}

/// The reasons found before the route is examined, in order: the service does not
/// manage the core, the core's API is not ready, TUN is off, DNS hijacking does
/// not work under TUN, the route is not injected under TUN, and several TUN
/// adapters exist.
pub open spec fn early_reasons(
    service_core_managed: bool,
    core_api_ready: bool,
    tun_enabled: bool,
    dns_hijack_ok: bool,
    route_injected: bool,
    multiple_adapters: bool,
) -> Seq<Seq<char>> {
    (if !service_core_managed {
        seq!["service core not managed"@]
    } else {
        Seq::empty()
    }) + (if !core_api_ready {
        seq!["core API not ready"@]
    } else {
        Seq::empty()
    }) + (if !tun_enabled {
        seq!["TUN not enabled"@]
    } else {
        Seq::empty()
    }) + (if tun_enabled && !dns_hijack_ok {
        seq!["DNS hijack not working"@]
    } else {
        Seq::empty()
    }) + (if tun_enabled && !route_injected {
        seq!["route not injected"@]
    } else {
        Seq::empty()
    }) + (if multiple_adapters {
        seq!["multiple TUN adapters detected"@]
    } else {
        Seq::empty()
    })
}

fn push_reason(reasons: &mut Vec<String>, cond: bool, text: &str)
    ensures
        string_views(final(reasons)@) == string_views(old(reasons)@) + (if cond {
            seq![text@]
        } else {
            Seq::empty()
        }),
{
    let ghost before = reasons@;
    if cond {
        reasons.push(text.to_owned());
        assert(string_views(reasons@) =~= string_views(before) + seq![text@]);
    } else {
        assert(string_views(reasons@) =~= string_views(before) + Seq::<Seq<char>>::empty());
    }
}

pub fn early_diagnosis_reasons(
    service_core_managed: bool,
    core_api_ready: bool,
    tun_enabled: bool,
    dns_hijack_ok: bool,
    route_injected: bool,
    multiple_adapters: bool,
) -> (r: Vec<String>)
    ensures
        string_views(r@) == early_reasons(
            service_core_managed,
            core_api_ready,
            tun_enabled,
            dns_hijack_ok,
            route_injected,
            multiple_adapters,
        ),
{
    let mut reasons: Vec<String> = Vec::new();
    assert(string_views(reasons@) =~= Seq::<Seq<char>>::empty());
    push_reason(&mut reasons, !service_core_managed, "service core not managed");
    push_reason(&mut reasons, !core_api_ready, "core API not ready");
    push_reason(&mut reasons, !tun_enabled, "TUN not enabled");
    push_reason(&mut reasons, tun_enabled && !dns_hijack_ok, "DNS hijack not working");
    push_reason(&mut reasons, tun_enabled && !route_injected, "route not injected");
    push_reason(&mut reasons, multiple_adapters, "multiple TUN adapters detected");
    assert(string_views(reasons@) =~= early_reasons(
        service_core_managed,
        core_api_ready,
        tun_enabled,
        dns_hijack_ok,
        route_injected,
        multiple_adapters,
    ));
    reasons
}

/// Some reason so far speaks of the selected proxy.
pub open spec fn mentions_selected_proxy(reasons: Seq<Seq<char>>) -> bool {
    exists|i: int| 0 <= i < reasons.len() && contains_str(#[trigger] reasons[i], "selected proxy"@)
}

/// The facts that the closing reasons depend on.
pub struct ClosingFacts {
    pub global_mode: bool,
    pub global_selects_direct: bool,
    pub route_loop: bool,
    pub rule_mode: bool,
    pub test_target_direct: bool,
    pub tun_enabled: bool,
    pub dns_hijack_ok: bool,
    pub route_injected: bool,
    pub selected_unreachable: bool,
    pub port_storm: bool,
    pub tcp_concurrent_on: bool,
}

/// Gathers the facts behind the closing reasons from what the diagnosis found:
/// the core's `mode`, what the `GLOBAL` group has selected, whether the route
/// loops, the target of the delay test, the state of TUN, DNS hijacking and the
/// route, whether the selected proxy was reachable, whether the log shows a
/// connection storm, and the `tcp-concurrent` setting.
pub fn closing_facts(
    mode: Option<&str>,
    global_now: Option<&str>,
    route_loop: bool,
    test_target: Option<&str>,
    tun_enabled: bool,
    dns_hijack_ok: bool,
    route_injected: bool,
    reachable: Option<bool>,
    port_storm: bool,
    tcp_concurrent: Option<bool>,
) -> (r: ClosingFacts)
    ensures
        r.global_mode == (opt_str(mode) == Some("global"@)),
        r.global_selects_direct == match global_now {
            Some(g) => crate::text::eq_ignore_ascii_case(g@, "DIRECT"@),
            None => false,
        },
        r.route_loop == route_loop,
        r.rule_mode == (opt_str(mode) == Some("rule"@)),
        r.test_target_direct == (opt_str(test_target) == Some("DIRECT"@)),
        r.tun_enabled == tun_enabled,
        r.dns_hijack_ok == dns_hijack_ok,
        r.route_injected == route_injected,
        r.selected_unreachable == (reachable == Some(false)),
        r.port_storm == port_storm,
        r.tcp_concurrent_on == (tcp_concurrent == Some(true)),
{
    let (global_mode, rule_mode) = match mode {
        Some(m) => (crate::text::str_equal(m, "global"), crate::text::str_equal(m, "rule")),
        None => (false, false),
    };
    let global_selects_direct = match global_now {
        Some(g) => crate::text::str_eq_ignore_ascii_case(g, "DIRECT"),
        None => false,
    };
    let test_target_direct = match test_target {
        Some(t) => crate::text::str_equal(t, "DIRECT"),
        None => false,
    };
    ClosingFacts {
        global_mode,
        global_selects_direct,
        route_loop,
        rule_mode,
        test_target_direct,
        tun_enabled,
        dns_hijack_ok,
        route_injected,
        selected_unreachable: reachable == Some(false),
        port_storm,
        tcp_concurrent_on: tcp_concurrent == Some(true),
    }
}

/// The reasons added last, in order: global mode picks DIRECT, the route loops,
/// rule mode routes the test target to DIRECT, outbound traffic fails although
/// TUN, DNS hijacking and the route work (unless a reason already speaks of the
/// selected proxy), and `tcp-concurrent` under a connection storm.
pub open spec fn closing_reasons(f: ClosingFacts, before: Seq<Seq<char>>) -> Seq<Seq<char>> {
    (if f.global_mode && f.global_selects_direct {
        seq!["global mode selected DIRECT"@]
    } else {
        Seq::empty()
    }) + (if f.route_loop {
        seq!["route_chain_loop"@]
    } else {
        Seq::empty()
    }) + (if f.rule_mode && f.test_target_direct {
        seq!["rule mode external target routed to DIRECT"@]
    } else {
        Seq::empty()
    }) + (if f.tun_enabled && f.dns_hijack_ok && f.route_injected && f.selected_unreachable
        && !mentions_selected_proxy(before) {
        seq!["outbound failed, check service log"@]
    } else {
        Seq::empty()
    }) + (if f.port_storm && f.tcp_concurrent_on {
        seq!["tcp-concurrent may amplify socket exhaustion under outbound storm"@]
    } else {
        Seq::empty()
    })
}

pub fn add_closing_reasons(reasons: &mut Vec<String>, f: &ClosingFacts)
    ensures
        string_views(final(reasons)@) == string_views(old(reasons)@) + closing_reasons(*f, string_views(old(reasons)@)),
{
    let ghost start = string_views(reasons@);
    let pat = chars_of("selected proxy");
    let mut mentioned = false;
    let mut i: usize = 0;
    while i < reasons.len()
        invariant
            i <= reasons@.len(),
            start == string_views(reasons@),
            pat@ == "selected proxy"@,
            mentioned == exists|j: int| 0 <= j < i && contains_str(#[trigger] start[j], "selected proxy"@),
        decreases reasons.len() - i,
    {
        if chars_contain(&chars_of(reasons[i].as_str()), &pat) {
            assert(contains_str(start[i as int], "selected proxy"@));
            mentioned = true;
        }
        i = i + 1;
    }
    assert(mentioned == mentions_selected_proxy(start));
    push_reason(reasons, f.global_mode && f.global_selects_direct, "global mode selected DIRECT");
    push_reason(reasons, f.route_loop, "route_chain_loop");
    push_reason(reasons, f.rule_mode && f.test_target_direct, "rule mode external target routed to DIRECT");
    push_reason(
        reasons,
        f.tun_enabled && f.dns_hijack_ok && f.route_injected && f.selected_unreachable && !mentioned,
        "outbound failed, check service log",
    );
    push_reason(
        reasons,
        f.port_storm && f.tcp_concurrent_on,
        "tcp-concurrent may amplify socket exhaustion under outbound storm",
    );
    assert(string_views(reasons@) =~= start + closing_reasons(*f, start));
}

// ---------------------------------------------------------------------------
// The DNS settings of the runtime configuration
// ---------------------------------------------------------------------------

/// The strings among a list's items, in order.
pub open spec fn string_items(items: Seq<YamlV>) -> Seq<Seq<char>>
    decreases items.len(),
{
    if items.len() == 0 {
        Seq::empty()
    } else {
        string_items(items.drop_last()) + match items.last() {
            YamlV::Str(t) => seq![t],
            _ => Seq::empty(),
        }
    }
}

/// The strings listed under `key`, none when it holds no list.
pub open spec fn string_list_at(m: Entries, key: Seq<char>) -> Seq<Seq<char>> {
    match lookup(m, yaml_str(key)) {
        Some(YamlV::Sequence(items)) => string_items(items),
        _ => Seq::empty(),
    }
}

/// The string under `key`, if it holds one.
pub open spec fn string_at(m: Entries, key: Seq<char>) -> Option<Seq<char>> {
    match lookup(m, yaml_str(key)) {
        Some(YamlV::Str(t)) => Some(t),
        _ => None,
    }
}

/// The switch under `key`, if it holds one.
pub open spec fn bool_at(m: Entries, key: Seq<char>) -> Option<bool> {
    match lookup(m, yaml_str(key)) {
        Some(YamlV::Bool(b)) => Some(b),
        _ => None,
    }
}

/// The DNS settings that the diagnosis reports, read from the runtime
/// configuration.
pub struct RuntimeDnsSettings {
    pub proxy_server_nameserver: Vec<String>,
    pub dns_nameserver: Vec<String>,
    pub dns_respect_rules: Option<bool>,
    pub dns_enhanced_mode: Option<String>,
    pub dns_fake_ip_range: Option<String>,
    pub tcp_concurrent: Option<bool>,
}

fn strings_under(m: &Mapping, key: &str) -> (r: Vec<String>)
    requires
        mwf(m@),
    ensures
        string_views(r@) == string_list_at(m@, key@),
{
    let mut out: Vec<String> = Vec::new();
    match m.get(&Yaml::string(key)) {
        Some(v) => match v.as_sequence() {
            Some(items) => {
                proof { crate::yaml::lemma_sequence_view(*items); }
                let ghost all = crate::yaml::views(items@);
                let mut i: usize = 0;
                assert(all.take(0) =~= Seq::<YamlV>::empty());
                while i < items.len()
                    invariant
                        i <= items@.len(),
                        all == crate::yaml::views(items@),
                        string_views(out@) == string_items(all.take(i as int)),
                    decreases items.len() - i,
                {
                    proof {
                        assert(all.take(i + 1).drop_last() =~= all.take(i as int));
                        assert(all.take(i + 1).last() == items@[i as int]@);
                    }
                    let ghost before = out@;
                    match items[i].as_str() {
                        Some(t) => {
                            out.push(t.clone());
                            assert(string_views(out@) =~= string_views(before) + seq![t@]);
                        },
                        None => {
                            assert(string_views(out@) =~= string_views(before) + Seq::<Seq<char>>::empty());
                        },
                    }
                    i = i + 1;
                }
                assert(all.take(items@.len() as int) =~= all);
            },
            None => {
                assert(string_views(out@) =~= Seq::<Seq<char>>::empty());
            },
        },
        None => {
            assert(string_views(out@) =~= Seq::<Seq<char>>::empty());
        },
    }
    out
}

fn string_under(m: &Mapping, key: &str) -> (r: Option<String>)
    requires
        mwf(m@),
    ensures
        opt_view_string(r) == string_at(m@, key@),
{
    match m.get(&Yaml::string(key)) {
        Some(v) => match v.as_str() {
            Some(t) => Some(t.clone()),
            None => None,
        },
        None => None,
    }
}

fn bool_under(m: &Mapping, key: &str) -> (r: Option<bool>)
    requires
        mwf(m@),
    ensures
        r == bool_at(m@, key@),
{
    match m.get(&Yaml::string(key)) {
        Some(v) => v.as_bool(),
        None => None,
    }
}

/// Reads the DNS settings out of the runtime configuration: the DNS section's
/// proxy server nameservers and nameservers (their string items), its
/// `respect-rules`, `enhanced-mode` and `fake-ip-range`, and the top-level
/// `tcp-concurrent`.  Without a DNS section the DNS settings are empty.
pub fn runtime_dns_settings(config: &Mapping) -> (r: RuntimeDnsSettings)
    requires
        mwf(config@),
    ensures
        r.tcp_concurrent == bool_at(config@, "tcp-concurrent"@),
        match lookup(config@, yaml_str("dns"@)) {
            Some(YamlV::Mapping(dns)) => {
                &&& string_views(r.proxy_server_nameserver@) == string_list_at(dns, "proxy-server-nameserver"@)
                &&& string_views(r.dns_nameserver@) == string_list_at(dns, "nameserver"@)
                &&& r.dns_respect_rules == bool_at(dns, "respect-rules"@)
                &&& opt_view_string(r.dns_enhanced_mode) == string_at(dns, "enhanced-mode"@)
                &&& opt_view_string(r.dns_fake_ip_range) == string_at(dns, "fake-ip-range"@)
            },
            _ => {
                &&& r.proxy_server_nameserver@.len() == 0
                &&& r.dns_nameserver@.len() == 0
                &&& r.dns_respect_rules is None
                &&& r.dns_enhanced_mode is None
                &&& r.dns_fake_ip_range is None
            },
        },
{
    let tcp_concurrent = bool_under(config, "tcp-concurrent");
    let dns_key = Yaml::string("dns");
    match config.get(&dns_key) {
        Some(d) => {
            proof { crate::yaml::lemma_lookup_wf(config@, dns_key@); }
            match d.as_mapping() {
                Some(dns) => {
                    return RuntimeDnsSettings {
                        proxy_server_nameserver: strings_under(dns, "proxy-server-nameserver"),
                        dns_nameserver: strings_under(dns, "nameserver"),
                        dns_respect_rules: bool_under(dns, "respect-rules"),
                        dns_enhanced_mode: string_under(dns, "enhanced-mode"),
                        dns_fake_ip_range: string_under(dns, "fake-ip-range"),
                        tcp_concurrent,
                    };
                },
                None => {},
            }
        },
        None => {},
    }
    RuntimeDnsSettings {
        proxy_server_nameserver: Vec::new(),
        dns_nameserver: Vec::new(),
        dns_respect_rules: None,
        dns_enhanced_mode: None,
        dns_fake_ip_range: None,
        tcp_concurrent,
    }
}

// ---------------------------------------------------------------------------
// Network adapters and log lines
// ---------------------------------------------------------------------------

/// A line without the carriage return before its line feed.
pub open spec fn strip_cr(l: Seq<char>) -> Seq<char> {
    if l.len() > 0 && l.last() == '\r' {
        l.drop_last()
    } else {
        l
    }
}

/// The lines of a text, as `str::lines` gives them: split at line feeds, each
/// line that ended in a line feed without its carriage return, and no empty last
/// line after a final line feed.
pub open spec fn text_lines(s: Seq<char>) -> Seq<Seq<char>> {
    let p = split_on(s, '\n');
    let init = p.drop_last().map_values(|l: Seq<char>| strip_cr(l));
    if p.last().len() == 0 {
        init
    } else {
        init.push(p.last())
    }
}

/// The words that mark a network adapter of TUN mode.
pub open spec fn adapter_keywords() -> Seq<Seq<char>> {
    seq!["tun"@, "wintun"@, "clash"@, "meta"@, "mihomo"@]
}

pub open spec fn has_any(line: Seq<char>, words: Seq<Seq<char>>) -> bool {
    exists|i: int| 0 <= i < words.len() && contains_str(line, #[trigger] words[i])
}

/// The adapter lines among `lines`, trimmed, in order.
pub open spec fn adapter_lines(lines: Seq<Seq<char>>) -> Seq<Seq<char>>
    decreases lines.len(),
{
    if lines.len() == 0 {
        Seq::empty()
    } else {
        adapter_lines(lines.drop_last()) + if has_any(lines.last(), adapter_keywords()) {
            seq![trim(lines.last())]
        } else {
            Seq::empty()
        }
    }
}

fn contains_any(line: &Vec<char>, words: &Vec<Vec<char>>) -> (r: bool)
    ensures
        r == has_any(line@, char_views(words@)),
{
    let mut i: usize = 0;
    while i < words.len()
        invariant
            i <= words@.len(),
            forall|j: int| 0 <= j < i ==> !contains_str(line@, #[trigger] char_views(words@)[j]),
        decreases words.len() - i,
    {
        if chars_contain(line, &words[i]) {
            assert(contains_str(line@, char_views(words@)[i as int]));
            return true;
        }
        i = i + 1;
    }
    false
}

fn keyword_list(words: &[&str]) -> (r: Vec<Vec<char>>)
    ensures
        r@.len() == words@.len(),
        forall|i: int| 0 <= i < words@.len() ==> #[trigger] char_views(r@)[i] == words@[i]@,
{
    let mut out: Vec<Vec<char>> = Vec::new();
    let mut i: usize = 0;
    while i < words.len()
        invariant
            i <= words@.len(),
            out@.len() == i,
            forall|j: int| 0 <= j < i ==> #[trigger] char_views(out@)[j] == words@[j]@,
        decreases words.len() - i,
    {
        let ghost before = out@;
        let w = chars_of(words[i]);
        out.push(w);
        assert(char_views(out@) =~= char_views(before).push(words@[i as int]@));
        i = i + 1;
    }
    out
}

/// The lines of a text.
pub fn lines_of(s: &Vec<char>) -> (r: Vec<Vec<char>>)
    ensures
        char_views(r@) == text_lines(s@),
{
    let pieces = split_chars(s, '\n');
    let ghost p = split_on(s@, '\n');
    proof { lemma_split_on_len(s@, '\n'); }
    let n = pieces.len();
    let mut out: Vec<Vec<char>> = Vec::new();
    let mut i: usize = 0;
    while i + 1 < n
        invariant
            n == pieces@.len() == p.len() >= 1,
            char_views(pieces@) == p,
            i < n,
            char_views(out@) == p.take(i as int).map_values(|l: Seq<char>| strip_cr(l)),
        decreases n - i,
    {
        let piece = &pieces[i];
        let line = if piece.len() > 0 && piece[piece.len() - 1] == '\r' {
            slice_chars(piece, 0, piece.len() - 1)
        } else {
            slice_chars(piece, 0, piece.len())
        };
        proof {
            assert(p[i as int] == piece@);
            assert(piece@.subrange(0, piece@.len() as int) =~= piece@);
            assert(piece@.len() > 0 ==> piece@.subrange(0, piece@.len() - 1) =~= piece@.drop_last());
        }
        let ghost before = out@;
        out.push(line);
        proof {
            assert(char_views(out@) =~= char_views(before).push(strip_cr(p[i as int])));
            assert(p.take(i + 1).map_values(|l: Seq<char>| strip_cr(l)) =~= p.take(i as int).map_values(
                |l: Seq<char>| strip_cr(l),
            ).push(strip_cr(p[i as int])));
        }
        i = i + 1;
    }
    assert(p.take(i as int) =~= p.drop_last());
    let last = &pieces[n - 1];
    assert(last@ == p.last());
    if last.len() > 0 {
        let ghost before = out@;
        out.push(slice_chars(last, 0, last.len()));
        assert(last@.subrange(0, last@.len() as int) =~= last@);
        assert(char_views(out@) =~= char_views(before).push(p.last()));
    }
    out
}

/// The TUN adapters that `netsh interface ipv4 show interfaces` lists: the
/// lines of its lower-cased output that name one of [`adapter_keywords`],
/// trimmed, sorted and each once.
pub fn tun_adapter_candidates(netsh_text: &str) -> (r: Vec<String>)
    ensures
        strictly_sorted(string_views(r@)),
        forall|x: Seq<char>| #[trigger] string_views(r@).contains(x) <==> adapter_lines(
            text_lines(unicode_lowercase(netsh_text@)),
        ).contains(x),
{
    let lowered = chars_of(to_lowercase(netsh_text).as_str());
    let lines = lines_of(&lowered);
    let ghost ls = char_views(lines@);
    let words = keyword_list(&["tun", "wintun", "clash", "meta", "mihomo"]);
    assert(char_views(words@) =~= adapter_keywords());
    let mut found: Vec<String> = Vec::new();
    let mut i: usize = 0;
    assert(ls.take(0) =~= Seq::<Seq<char>>::empty());
    while i < lines.len()
        invariant
            i <= lines@.len(),
            ls == char_views(lines@),
            char_views(words@) == adapter_keywords(),
            string_views(found@) == adapter_lines(ls.take(i as int)),
        decreases lines.len() - i,
    {
        proof {
            assert(ls.take(i + 1).drop_last() =~= ls.take(i as int));
            assert(ls.take(i + 1).last() == lines@[i as int]@);
        }
        let ghost before = found@;
        if contains_any(&lines[i], &words) {
            found.push(string_of(trim_chars(&lines[i]).as_slice()));
            assert(string_views(found@) =~= string_views(before) + seq![trim(lines@[i as int]@)]);
        } else {
            assert(string_views(found@) =~= string_views(before) + Seq::<Seq<char>>::empty());
        }
        i = i + 1;
    }
    assert(ls.take(lines@.len() as int) =~= ls);
    sorted_unique(&found)
}

/// The words that make a service log line worth showing.
pub open spec fn log_keywords() -> Seq<Seq<char>> {
    seq!["dial"@, "proxy"@, "timeout"@, "connect"@, "refused"@, "handshake"@, "route"@, "dns"@, "tun"@, "failed"@]
}

/// Whether a service log line, lower-cased, names one of [`log_keywords`].
pub fn log_line_is_relevant(line: &str) -> (r: bool)
    ensures
        r == has_any(unicode_lowercase(line@), log_keywords()),
{
    let lowered = chars_of(to_lowercase(line).as_str());
    let words = keyword_list(
        &["dial", "proxy", "timeout", "connect", "refused", "handshake", "route", "dns", "tun", "failed"],
    );
    assert(char_views(words@) =~= log_keywords());
    contains_any(&lowered, &words)
}

/// The texts sorted, each once.
pub fn sorted_unique(v: &Vec<String>) -> (r: Vec<String>)
    ensures
        strictly_sorted(string_views(r@)),
        forall|x: Seq<char>| #[trigger] string_views(r@).contains(x) <==> string_views(v@).contains(x),
{
    crate::text::sorted_unique(v)
}

/// A delay test's error that, lower-cased, says the proxy's name did not
/// resolve.
pub fn delay_error_is_dns_failure(err: &str) -> (r: bool)
    ensures
        r == contains_str(unicode_lowercase(err@), "dns resolve failed"@),
{
    chars_contain(&chars_of(to_lowercase(err).as_str()), &chars_of("dns resolve failed"))
}

// ---------------------------------------------------------------------------
// The service log
// ---------------------------------------------------------------------------

/// The line with each `token=` shown as `token=***`, as `str::replace` rewrites
/// it: occurrences are found from the left, each after the last one rewritten.
pub open spec fn mask_tokens(s: Seq<char>) -> Seq<char>
    decreases s.len(),
{
    let i = str_index(s, "token="@);
    if i < 0 {
        s
    } else {
        proof {
            lemma_str_index_bound(s, "token="@);
            reveal_strlit("token=");
        }
        s.take(i) + "token=***"@ + mask_tokens(s.skip(i + "token="@.len()))
    }
}

fn mask_tokens_chars(s: &Vec<char>) -> (r: Vec<char>)
    ensures
        r@ == mask_tokens(s@),
{
    let pat = chars_of("token=");
    proof {
        reveal_strlit("token=");
    }
    let n = s.len();
    let mut out: Vec<char> = Vec::new();
    let mut pos: usize = 0;
    assert(s@.skip(0) =~= s@);
    while pos < n
        invariant
            pos <= n == s@.len(),
            pat@ == "token="@,
            pat@.len() == 6,
            out@ + mask_tokens(s@.skip(pos as int)) == mask_tokens(s@),
        decreases n - pos,
    {
        let rest = slice_chars(s, pos, n);
        assert(rest@ =~= s@.skip(pos as int));
        match find_str(&rest, &pat) {
            None => {
                append_chars(&mut out, &rest);
                assert(mask_tokens(rest@) == rest@);
                assert(s@.skip(n as int) =~= Seq::<char>::empty());
                assert(mask_tokens(Seq::<char>::empty()) == Seq::<char>::empty());
                assert(out@ + Seq::<char>::empty() =~= out@);
                pos = n;
            },
            Some(i) => {
                let ghost before = out@;
                let head = slice_chars(&rest, 0, i);
                append_chars(&mut out, &head);
                append_str(&mut out, "token=***");
                proof {
                    assert(head@ =~= rest@.take(i as int));
                    assert(rest@.skip(i + 6) =~= s@.skip(pos + i + 6));
                    assert(mask_tokens(rest@) == rest@.take(i as int) + "token=***"@ + mask_tokens(rest@.skip(i + 6)));
                    assert(out@ + mask_tokens(s@.skip(pos + i + 6)) =~= before + mask_tokens(rest@));
                }
                pos = pos + i + 6;
            },
        }
    }
    assert(s@.skip(n as int) =~= Seq::<char>::empty());
    assert(out@ + mask_tokens(Seq::<char>::empty()) =~= out@);
    out
}

/// The last `n` lines, or all when there are fewer.
pub open spec fn last_lines(lines: Seq<Seq<char>>, n: int) -> Seq<Seq<char>> {
    if lines.len() > n {
        lines.skip(lines.len() - n)
    } else {
        lines
    }
}

/// The lines worth showing, in order, each with its tokens masked.
pub open spec fn relevant_masked(lines: Seq<Seq<char>>) -> Seq<Seq<char>>
    decreases lines.len(),
{
    if lines.len() == 0 {
        Seq::empty()
    } else {
        relevant_masked(lines.drop_last()) + if has_any(unicode_lowercase(lines.last()), log_keywords()) {
            seq![mask_tokens(lines.last())]
        } else {
            Seq::empty()
        }
    }
}

/// The summary of the service log: of its last two hundred lines, those that
/// name one of [`log_keywords`] once lower-cased, in order, with each `token=`
/// masked.
pub fn summarize_service_log(content: &str) -> (r: Vec<String>)
    ensures
        string_views(r@) == relevant_masked(last_lines(text_lines(content@), 200)),
{
    let cs = chars_of(content);
    let lines = lines_of(&cs);
    let ghost all = char_views(lines@);
    let n = lines.len();
    let start: usize = if n > 200 { n - 200 } else { 0 };
    let ghost tail = last_lines(all, 200);
    assert(tail =~= all.skip(start as int));
    let mut out: Vec<String> = Vec::new();
    let mut i = start;
    assert(tail.take(0) =~= Seq::<Seq<char>>::empty());
    while i < n
        invariant
            start <= i <= n == lines@.len(),
            all == char_views(lines@),
            tail =~= all.skip(start as int),
            string_views(out@) == relevant_masked(tail.take(i - start)),
        decreases n - i,
    {
        let ghost k = i - start;
        proof {
            assert(tail.take(k + 1).drop_last() =~= tail.take(k));
            assert(tail.take(k + 1).last() == lines@[i as int]@);
        }
        let line = string_of(lines[i].as_slice());
        let ghost before = out@;
        if log_line_is_relevant(line.as_str()) {
            out.push(string_of(mask_tokens_chars(&lines[i]).as_slice()));
            assert(string_views(out@) =~= string_views(before) + seq![mask_tokens(lines@[i as int]@)]);
        } else {
            assert(string_views(out@) =~= string_views(before) + Seq::<Seq<char>>::empty());
        }
        i = i + 1;
    }
    assert(tail.take(n - start) =~= tail);
    out
}

/// What a log line reports about a failed proxy DNS lookup: the failed target
/// and, when the line names it, the host.
pub open spec fn failure_view(f: Option<(String, Option<String>)>) -> Option<(Seq<char>, Option<Seq<char>>)> {
    match f {
        Some((t, h)) => Some(
            (
                t@,
                match h {
                    Some(x) => Some(x@),
                    None => None,
                },
            ),
        ),
        None => None,
    }
}

pub open spec fn failure_views(v: Seq<Option<(String, Option<String>)>>) -> Seq<Option<(Seq<char>, Option<Seq<char>>)>> {
    v.map_values(|f: Option<(String, Option<String>)>| failure_view(f))
}

/// The failed targets, in order.
pub open spec fn failure_targets(found: Seq<Option<(Seq<char>, Option<Seq<char>>)>>) -> Seq<Seq<char>>
    decreases found.len(),
{
    if found.len() == 0 {
        Seq::empty()
    } else {
        failure_targets(found.drop_last()) + match found.last() {
            Some((t, _)) => seq![t],
            None => Seq::empty(),
        }
    }
}

/// The hosts named with the failures, in order.
pub open spec fn failure_hosts(found: Seq<Option<(Seq<char>, Option<Seq<char>>)>>) -> Seq<Seq<char>>
    decreases found.len(),
{
    if found.len() == 0 {
        Seq::empty()
    } else {
        failure_hosts(found.drop_last()) + match found.last() {
            Some((_, Some(h))) => seq![h],
            _ => Seq::empty(),
        }
    }
}

/// Collects what the summarized log lines report about failed proxy DNS
/// lookups (`found` holds, line by line, what each reports): whether any
/// reports one, the failed targets and the hosts, in order.
pub fn collect_proxy_dns_failures(found: &Vec<Option<(String, Option<String>)>>) -> (r: (bool, Vec<String>, Vec<String>))
    ensures
        r.0 == exists|i: int| 0 <= i < found@.len() && (#[trigger] found@[i]) is Some,
        string_views(r.1@) == failure_targets(failure_views(found@)),
        string_views(r.2@) == failure_hosts(failure_views(found@)),
{
    let ghost all = failure_views(found@);
    let mut failed = false;
    let mut targets: Vec<String> = Vec::new();
    let mut hosts: Vec<String> = Vec::new();
    let mut i: usize = 0;
    assert(all.take(0) =~= Seq::<Option<(Seq<char>, Option<Seq<char>>)>>::empty());
    while i < found.len()
        invariant
            i <= found@.len(),
            all == failure_views(found@),
            failed == exists|j: int| 0 <= j < i && (#[trigger] found@[j]) is Some,
            string_views(targets@) == failure_targets(all.take(i as int)),
            string_views(hosts@) == failure_hosts(all.take(i as int)),
        decreases found.len() - i,
    {
        proof {
            assert(all.take(i + 1).drop_last() =~= all.take(i as int));
            assert(all.take(i + 1).last() == failure_view(found@[i as int]));
        }
        let ghost t0 = targets@;
        let ghost h0 = hosts@;
        match &found[i] {
            Some((t, h)) => {
                failed = true;
                targets.push(t.clone());
                assert(string_views(targets@) =~= string_views(t0) + seq![t@]);
                match h {
                    Some(x) => {
                        hosts.push(x.clone());
                        assert(string_views(hosts@) =~= string_views(h0) + seq![x@]);
                    },
                    None => {
                        assert(string_views(hosts@) =~= string_views(h0) + Seq::<Seq<char>>::empty());
                    },
                }
            },
            None => {
                assert(string_views(targets@) =~= string_views(t0) + Seq::<Seq<char>>::empty());
                assert(string_views(hosts@) =~= string_views(h0) + Seq::<Seq<char>>::empty());
            },
        }
        i = i + 1;
    }
    assert(all.take(found@.len() as int) =~= all);
    (failed, targets, hosts)
}


// ---------------------------------------------------------------------------
// The delay test of the selected proxy
// ---------------------------------------------------------------------------

/// The proxy whose delay the diagnosis tests: the selected one, unless it goes
/// direct.
pub fn delay_test_target(selected_proxy: Option<&str>, selected_is_direct: bool) -> (r: Option<String>)
    ensures
        opt_view_string(r) == if selected_is_direct {
            None
        } else {
            opt_str(selected_proxy)
        },
{
    match selected_proxy {
        Some(p) if !selected_is_direct => Some(string_of_str(p)),
        _ => None,
    }
}

/// What came of asking the core for the selected proxy's delay.
pub enum DelayAnswer {
    /// The request could not be made or got no answer.
    RequestFailed,
    /// An answer came whose body could not be read.
    Unreadable,
    /// The answer's `delay`, its `error` text, and the whole body as text.
    Answered { delay: Option<i64>, error: Option<String>, body: String },
}

/// What the diagnosis reports of the delay test.
pub struct DelayOutcome {
    pub delay: Option<i64>,
    pub reachable: Option<bool>,
    pub error: Option<String>,
    /// The reason to report when the proxy is not reachable.
    pub reason: Option<String>,
}

/// Judges the answer to the delay test: the delay as answered, the proxy
/// reachable as [`proxy_reachable`] says, and, without a delay, the answer's
/// error text or else its whole body; a failed request reports `delay request
/// failed`.  A proxy found unreachable gives a reason.
pub fn delay_outcome(answer: DelayAnswer) -> (r: DelayOutcome)
    ensures
        match answer {
            DelayAnswer::RequestFailed => r.delay is None && r.reachable is None && opt_view_string(r.error) == Some(
                "delay request failed"@,
            ),
            DelayAnswer::Unreadable => r.delay is None && r.reachable is None && r.error is None,
            DelayAnswer::Answered { delay, error, body } => {
                &&& r.delay == delay
                &&& r.reachable == match delay {
                    Some(d) => Some(d > 0 && d < 8000),
                    None => None,
                }
                &&& opt_view_string(r.error) == if delay is None {
                    match error {
                        Some(e) => Some(e@),
                        None => Some(body@),
                    }
                } else {
                    None
                }
            },
        },
        opt_view_string(r.reason) == if r.reachable == Some(false) {
            Some("TUN is enabled, but selected proxy is not reachable."@)
        } else {
            None
        },
{
    let (delay, reachable, error) = match answer {
        DelayAnswer::RequestFailed => (None, None, Some(string_of_str("delay request failed"))),
        DelayAnswer::Unreadable => (None, None, None),
        DelayAnswer::Answered { delay, error, body } => {
            let reachable = proxy_reachable(delay);
            let error = if delay.is_none() {
                match error {
                    Some(e) => Some(e),
                    None => Some(body),
                }
            } else {
                None
            };
            (delay, reachable, error)
        },
    };
    let reason = if reachable == Some(false) {
        Some(string_of_str("TUN is enabled, but selected proxy is not reachable."))
    } else {
        None
    };
    DelayOutcome { delay, reachable, error, reason }
}

// ---------------------------------------------------------------------------
// The proxy DNS findings
// ---------------------------------------------------------------------------

/// What the diagnosis concludes about the selected proxy's DNS.
pub struct ProxyDnsFindings {
    /// A failure was seen, in the log or in the delay test's error.
    pub failed: bool,
    /// The selected proxy's server is a domain name and the proxy does not go
    /// direct, so its DNS is worth checking.
    pub should_check: bool,
    /// The hosts whose lookup failed, sorted, each once.
    pub hosts: Vec<String>,
    /// The failed targets, sorted, each once.
    pub targets: Vec<String>,
    /// The reason to report when a failure was seen and is worth checking.
    pub reason: Option<String>,
}

/// Whether the delay test's error, where the proxy does not go direct, says
/// the proxy's name did not resolve.
pub open spec fn delay_reports_dns_failure(selected_is_direct: bool, delay_error: Option<Seq<char>>) -> bool {
    !selected_is_direct && match delay_error {
        Some(e) => contains_str(unicode_lowercase(e), "dns resolve failed"@),
        None => false,
    }
}

/// Joins what the log reports (`log_failed`, `log_hosts`, `log_targets`, from
/// [`collect_proxy_dns_failures`]) with the delay test's error: a failure is
/// seen when the log reports one or the error says the name did not resolve;
/// it is worth checking when the server host is a domain name and the proxy
/// does not go direct, and then the server host joins the failed hosts.
pub fn proxy_dns_findings(
    log_failed: bool,
    log_hosts: &Vec<String>,
    log_targets: &Vec<String>,
    selected_is_direct: bool,
    delay_error: Option<&str>,
    selected_host: Option<&str>,
    host_is_domain: bool,
) -> (r: ProxyDnsFindings)
    ensures
        r.failed == (log_failed || delay_reports_dns_failure(selected_is_direct, opt_str(delay_error))),
        r.should_check == (host_is_domain && !selected_is_direct),
        strictly_sorted(string_views(r.hosts@)),
        forall|x: Seq<char>|
            #[trigger] string_views(r.hosts@).contains(x) <==> (string_views(log_hosts@).contains(x) || (r.failed
                && r.should_check && opt_str(selected_host) == Some(x))),
        strictly_sorted(string_views(r.targets@)),
        forall|x: Seq<char>| #[trigger]
            string_views(r.targets@).contains(x) <==> string_views(log_targets@).contains(x),
        opt_view_string(r.reason) == if r.failed && r.should_check {
            Some("selected proxy DNS failed"@)
        } else {
            None
        },
{
    let from_delay = match delay_error {
        Some(e) => !selected_is_direct && delay_error_is_dns_failure(e),
        None => false,
    };
    let failed = log_failed || from_delay;
    let should_check = host_is_domain && !selected_is_direct;
    let mut hosts = log_hosts.clone();
    let ghost before = string_views(hosts@);
    assert(before == string_views(log_hosts@));
    if failed && should_check {
        match selected_host {
            Some(h) => {
                let host = string_of_str(h);
                if !strings_contain(&hosts, &host) {
                    hosts.push(host);
                    proof {
                        assert(string_views(hosts@) =~= before.push(h@));
                    }
                }
            },
            None => {},
        }
    }
    proof {
        assert forall|x: Seq<char>| string_views(hosts@).contains(x) <==> (before.contains(x) || (failed
            && should_check && opt_str(selected_host) == Some(x))) by {
            if string_views(hosts@).contains(x) && !before.contains(x) {
                let i = choose|i: int| 0 <= i < string_views(hosts@).len() && string_views(hosts@)[i] == x;
                assert(i == before.len());
            }
            if before.contains(x) {
                let i = choose|i: int| 0 <= i < before.len() && before[i] == x;
                assert(string_views(hosts@)[i] == x);
            }
            if failed && should_check && opt_str(selected_host) == Some(x) && !before.contains(x) {
                assert(string_views(hosts@)[before.len() as int] == x);
            }
        }
    }
    let reason = if failed && should_check {
        Some(string_of_str("selected proxy DNS failed"))
    } else {
        None
    };
    ProxyDnsFindings {
        failed,
        should_check,
        hosts: sorted_unique(&hosts),
        targets: sorted_unique(log_targets),
        reason,
    }
}


// ---------------------------------------------------------------------------
// Laws of the diagnosis
// ---------------------------------------------------------------------------

/// The marker count of a summary is the sum of the counts of its parts: lines
/// count wherever they stand, and adding lines never lowers the count.
pub proof fn port_exhaustion_count_adds(a: Seq<Seq<char>>, b: Seq<Seq<char>>)
    ensures
        port_exhaustion_count(a + b) == port_exhaustion_count(a) + port_exhaustion_count(b),
    decreases b.len(),
{
    if b.len() == 0 {
        assert(a + b =~= a);
    } else {
        port_exhaustion_count_adds(a, b.drop_last());
        assert((a + b).drop_last() =~= a + b.drop_last());
        assert((a + b).last() == b.last());
    }
}

/// A single line counts one exactly when it holds the marker.
pub proof fn port_exhaustion_count_of_line(line: Seq<char>)
    ensures
        port_exhaustion_count(seq![line]) == if contains_str(line, port_exhaustion_marker()) {
            1int
        } else {
            0int
        },
{
    assert(seq![line].drop_last() =~= Seq::<Seq<char>>::empty());
    assert(port_exhaustion_count(Seq::<Seq<char>>::empty()) == 0);
    assert(seq![line].last() == line);
}

/// The marker count is the number of lines, anywhere in the summary, that hold
/// the marker.
pub proof fn port_exhaustion_count_counts_marker_lines(lines: Seq<Seq<char>>)
    ensures
        port_exhaustion_count(lines) == lines.filter(
            |l: Seq<char>| contains_str(l, port_exhaustion_marker()),
        ).len(),
    decreases lines.len(),
{
    reveal(Seq::filter);
    if lines.len() > 0 {
        port_exhaustion_count_counts_marker_lines(lines.drop_last());
    }
}

/// Once a summary shows a connection storm (five marker lines), more lines
/// never clear it.
pub proof fn port_storm_survives_more_lines(a: Seq<Seq<char>>, b: Seq<Seq<char>>)
    ensures
        port_exhaustion_count(a) >= 5 ==> port_exhaustion_count(a + b) >= 5,
{
    port_exhaustion_count_adds(a, b);
}

proof fn lemma_concat_contains(a: Seq<Seq<char>>, b: Seq<Seq<char>>, x: Seq<char>)
    ensures
        (a + b).contains(x) <==> (a.contains(x) || b.contains(x)),
{
    if a.contains(x) {
        let i = choose|i: int| 0 <= i < a.len() && a[i] == x;
        assert((a + b)[i] == x);
    }
    if b.contains(x) {
        let i = choose|i: int| 0 <= i < b.len() && b[i] == x;
        assert((a + b)[a.len() + i] == x);
    }
    if (a + b).contains(x) {
        let i = choose|i: int| 0 <= i < (a + b).len() && (a + b)[i] == x;
        if i < a.len() {
            assert(a[i] == x);
        } else {
            assert(b[i - a.len()] == x);
        }
    }
}

/// A reason listed under a condition.
spec fn reason_if(c: bool, s: Seq<char>) -> Seq<Seq<char>> {
    if c {
        seq![s]
    } else {
        Seq::empty()
    }
}

proof fn lemma_reason_if_contains(c: bool, s: Seq<char>, x: Seq<char>)
    ensures
        reason_if(c, s).contains(x) <==> (c && x == s),
{
    if c {
        assert(reason_if(c, s)[0] == s);
    }
}

/// Each early reason appears exactly under its own condition: the service does
/// not manage the core; the API is not ready; TUN is off; DNS hijacking fails
/// while TUN is on; the route is missing while TUN is on; several adapters.
/// With TUN off, neither DNS hijacking nor the route is judged.
pub proof fn early_reasons_each_under_its_condition(
    service_core_managed: bool,
    core_api_ready: bool,
    tun_enabled: bool,
    dns_hijack_ok: bool,
    route_injected: bool,
    multiple_adapters: bool,
)
    ensures
        ({
            let r = early_reasons(
                service_core_managed,
                core_api_ready,
                tun_enabled,
                dns_hijack_ok,
                route_injected,
                multiple_adapters,
            );
            &&& r.contains("service core not managed"@) <==> !service_core_managed
            &&& r.contains("core API not ready"@) <==> !core_api_ready
            &&& r.contains("TUN not enabled"@) <==> !tun_enabled
            &&& r.contains("DNS hijack not working"@) <==> (tun_enabled && !dns_hijack_ok)
            &&& r.contains("route not injected"@) <==> (tun_enabled && !route_injected)
            &&& r.contains("multiple TUN adapters detected"@) <==> multiple_adapters
        }),
{
    reveal_strlit("service core not managed");
    reveal_strlit("core API not ready");
    reveal_strlit("TUN not enabled");
    reveal_strlit("DNS hijack not working");
    reveal_strlit("route not injected");
    reveal_strlit("multiple TUN adapters detected");
    let s0 = "service core not managed"@;
    let s1 = "core API not ready"@;
    let s2 = "TUN not enabled"@;
    let s3 = "DNS hijack not working"@;
    let s4 = "route not injected"@;
    let s5 = "multiple TUN adapters detected"@;
    let c0 = !service_core_managed;
    let c1 = !core_api_ready;
    let c2 = !tun_enabled;
    let c3 = tun_enabled && !dns_hijack_ok;
    let c4 = tun_enabled && !route_injected;
    let c5 = multiple_adapters;
    assert(s0.len() == 24 && s1.len() == 18 && s2.len() == 15 && s3.len() == 22 && s4.len() == 18 && s5.len()
        == 30);
    assert(s1[0] != s4[0]);
    let p0 = reason_if(c0, s0);
    let p1 = reason_if(c1, s1);
    let p2 = reason_if(c2, s2);
    let p3 = reason_if(c3, s3);
    let p4 = reason_if(c4, s4);
    let p5 = reason_if(c5, s5);
    let r = early_reasons(
        service_core_managed,
        core_api_ready,
        tun_enabled,
        dns_hijack_ok,
        route_injected,
        multiple_adapters,
    );
    assert(r =~= p0 + p1 + p2 + p3 + p4 + p5);
    assert forall|x: Seq<char>| r.contains(x) <==> ((c0 && x == s0) || (c1 && x == s1) || (c2 && x == s2) || (c3
        && x == s3) || (c4 && x == s4) || (c5 && x == s5)) by {
        lemma_concat_contains(p0 + p1 + p2 + p3 + p4, p5, x);
        lemma_concat_contains(p0 + p1 + p2 + p3, p4, x);
        lemma_concat_contains(p0 + p1 + p2, p3, x);
        lemma_concat_contains(p0 + p1, p2, x);
        lemma_concat_contains(p0, p1, x);
        lemma_reason_if_contains(c0, s0, x);
        lemma_reason_if_contains(c1, s1, x);
        lemma_reason_if_contains(c2, s2, x);
        lemma_reason_if_contains(c3, s3, x);
        lemma_reason_if_contains(c4, s4, x);
        lemma_reason_if_contains(c5, s5, x);
    }
    assert(r.contains(s0) <==> c0);
    assert(r.contains(s1) <==> c1);
    assert(r.contains(s2) <==> c2);
    assert(r.contains(s3) <==> c3);
    assert(r.contains(s4) <==> c4);
    assert(r.contains(s5) <==> c5);
}

/// The bit-level fact behind prefix masks: two values agree under the mask of
/// their top `32 - s` bits exactly when they agree once shifted right by `s`.
proof fn lemma_mask_is_shift(x: u32, y: u32, s: u32)
    by (bit_vector)
    requires
        s < 32,
    ensures
        ((x & (0xffff_ffffu32 << s)) == (y & (0xffff_ffffu32 << s))) == ((x >> s) == (y >> s)),
{
}

proof fn lemma_empty_mask(x: u32, y: u32)
    by (bit_vector)
    ensures
        (x & 0u32) == (y & 0u32),
{
}

/// An address lies in the range `base/p` exactly when both read as IPv4
/// addresses, `p` is a prefix length no greater than 32, and the two addresses
/// agree on their first `p` bits: their values shifted right by `32 - p` are
/// equal (every address lies in a `/0` range).
pub proof fn in_cidr_iff_same_leading_bits(ip: Seq<char>, base: Seq<char>, p: Seq<char>)
    requires
        !base.contains('/'),
    ensures
        in_cidr(ip, base + seq!['/'] + p) <==> {
            &&& ipv4_value(ip) is Some
            &&& ipv4_value(base) is Some
            &&& is_unsigned_decimal(p, 32)
            &&& {
                let n = decimal_value(unsigned_digits(p));
                let x = ipv4_value(ip)->0;
                let y = ipv4_value(base)->0;
                n == 0 || (x >> ((32 - n) as u32)) == (y >> ((32 - n) as u32))
            }
        },
{
    let cidr = base + seq!['/'] + p;
    assert forall|j: int| 0 <= j < base.len() implies cidr[j] != '/' by {
        assert(cidr[j] == base[j]);
        if base[j] == '/' {
            assert(base.contains('/'));
        }
    }
    assert(cidr[base.len() as int] == '/');
    crate::text::lemma_char_index(cidr, '/', base.len() as int);
    assert(cidr.take(base.len() as int) =~= base);
    assert(cidr.skip(base.len() as int + 1) =~= p);
    assert(split_once(cidr, '/') == Some((base, p)));
    if ipv4_value(ip) is Some && ipv4_value(base) is Some && is_unsigned_decimal(p, 32) {
        let d = unsigned_digits(p);
        crate::help::lemma_decimal_value_nonneg(d);
        let n = decimal_value(d);
        let x = ipv4_value(ip)->0;
        let y = ipv4_value(base)->0;
        if n != 0 {
            assert(n as u32 == n);
            assert((32 - (n as u32)) as u32 == (32 - n) as u32);
            assert(cidr_mask(n as u32) == 0xffff_ffffu32 << ((32 - n) as u32));
            lemma_mask_is_shift(x, y, (32 - n) as u32);
        } else {
            assert(cidr_mask(n as u32) == 0u32);
            lemma_empty_mask(x, y);
        }
    }
}

} // verus!
