use clash_verge::tun::{merge_unique_sequence_values, use_dns_for_tun, use_tun, use_tun_on};
use clash_verge::yaml::{Mapping, Yaml};

fn m() -> Mapping {
    Mapping::new()
}

fn s(v: &str) -> Yaml {
    Yaml::string(v)
}

fn build_config(tun_enable: bool, dns_hijack: Option<Vec<&str>>, enhanced_mode: Option<&str>, psn: Option<Yaml>) -> Mapping {
    let mut c = m();
    let mut tun = m();
    tun.insert(s("enable"), Yaml::Bool(tun_enable));
    if let Some(h) = dns_hijack {
        tun.insert(s("dns-hijack"), Yaml::Sequence(h.into_iter().map(s).collect()));
    }
    c.insert(s("tun"), Yaml::Mapping(tun));
    if enhanced_mode.is_some() || psn.is_some() {
        let mut dns = m();
        if let Some(mode) = enhanced_mode {
            dns.insert(s("enhanced-mode"), s(mode));
        }
        if let Some(v) = psn {
            dns.insert(s("proxy-server-nameserver"), v);
        }
        c.insert(s("dns"), Yaml::Mapping(dns));
    }
    c
}

fn psn_of(out: &Mapping) -> Option<&Yaml> {
    out.get(&s("dns")).and_then(Yaml::as_mapping).and_then(|d| d.get(&s("proxy-server-nameserver")))
}

#[test]
fn inject_when_dns_missing() {
    let c = build_config(true, Some(vec!["any:53"]), Some("fake-ip"), None);
    let out = use_tun(c, true, true, m());
    let seq = psn_of(&out).and_then(Yaml::as_sequence).unwrap();
    assert_eq!(seq.len(), 2);
}

#[test]
fn keep_user_proxy_server_nameserver() {
    let c = build_config(
        true,
        Some(vec!["any:53"]),
        Some("fake-ip"),
        Some(Yaml::Sequence(vec![s("https://user.dns/dns-query")])),
    );
    let out = use_tun(c, true, true, m());
    let seq = psn_of(&out).and_then(Yaml::as_sequence).unwrap();
    assert_eq!(seq.len(), 1);
}

#[test]
fn inject_when_empty_array() {
    let c = build_config(true, Some(vec!["any:53"]), Some("fake-ip"), Some(Yaml::Sequence(vec![])));
    let out = use_tun(c, true, true, m());
    let seq = psn_of(&out).and_then(Yaml::as_sequence).unwrap();
    assert_eq!(seq.len(), 2);
}

#[test]
fn no_inject_when_tun_disabled() {
    let c = build_config(false, Some(vec!["any:53"]), Some("fake-ip"), None);
    let out = use_tun(c, false, true, m());
    assert!(psn_of(&out).is_none());
}

#[test]
fn no_inject_when_not_fake_ip_mode() {
    let c = build_config(true, Some(vec!["any:53"]), Some("redir-host"), None);
    let out = use_tun(c, true, true, m());
    assert!(psn_of(&out).is_none());
}

#[test]
fn no_inject_when_dns_hijack_empty() {
    let c = build_config(true, Some(vec![]), Some("fake-ip"), None);
    let out = use_tun(c, true, true, m());
    assert!(psn_of(&out).is_none());
}

#[test]
fn preserve_existing_tun_dns_hijack_and_fill_missing_defaults() {
    let mut default_tun = m();
    default_tun.insert(s("dns-hijack"), Yaml::Sequence(vec![s("any:53")]));
    default_tun.insert(s("stack"), s("system"));
    default_tun.insert(s("auto-route"), Yaml::Bool(true));
    default_tun.insert(s("strict-route"), Yaml::Bool(false));
    default_tun.insert(s("auto-detect-interface"), Yaml::Bool(true));
    default_tun.insert(s("mtu"), Yaml::Number("9000".to_string()));
    default_tun.insert(s("inet4-address"), s("172.19.0.1/30"));
    let mut c = m();
    let mut tun = m();
    tun.insert(s("dns-hijack"), Yaml::Sequence(vec![s("tcp://any:53")]));
    c.insert(s("tun"), Yaml::Mapping(tun));
    let out = use_tun(c, true, true, default_tun);
    let tun_out = out.get(&s("tun")).and_then(Yaml::as_mapping).unwrap();
    let hijack = tun_out.get(&s("dns-hijack")).and_then(Yaml::as_sequence).unwrap();
    assert_eq!(hijack[0].as_str().map(|x| x.as_str()), Some("tcp://any:53"));
    assert_eq!(tun_out.get(&s("stack")).and_then(Yaml::as_str).map(|x| x.as_str()), Some("system"));
}

#[test]
fn use_tun_twice_should_not_duplicate_proxy_server_nameserver() {
    let c = build_config(true, Some(vec!["any:53"]), Some("fake-ip"), None);
    let out1 = use_tun(c, true, true, m());
    let out2 = use_tun(out1, true, true, m());
    let seq = psn_of(&out2).and_then(Yaml::as_sequence).unwrap();
    assert_eq!(seq.len(), 2);
    assert_eq!(seq[0].as_str().map(|x| x.as_str()), Some("https://223.5.5.5/dns-query"));
    assert_eq!(seq[1].as_str().map(|x| x.as_str()), Some("https://223.6.6.6/dns-query"));
}

#[test]
fn merge_unique_sequence_values_should_deduplicate() {
    let mut seq = vec![s("a"), s("b")];
    merge_unique_sequence_values(&mut seq, vec![s("b"), s("c"), s("a")]);
    let expected = vec![s("a"), s("b"), s("c")];
    assert_eq!(seq.len(), expected.len());
    for (x, y) in seq.iter().zip(expected.iter()) {
        assert!(x.equals(y));
    }
}

#[test]
fn use_tun_twice_should_not_duplicate_dns_hijack() {
    let mut default_tun = m();
    default_tun.insert(s("dns-hijack"), Yaml::Sequence(vec![s("any:53"), s("tcp://any:53")]));
    let c = m();
    let out1 = use_tun(c, true, false, default_tun.deep_clone());
    let out2 = use_tun(out1, true, true, default_tun);
    let hijack = out2
        .get(&s("tun"))
        .and_then(Yaml::as_mapping)
        .and_then(|t| t.get(&s("dns-hijack")))
        .and_then(Yaml::as_sequence)
        .unwrap();
    assert_eq!(hijack.len(), 2);
    assert_eq!(hijack[0].as_str().map(|x| x.as_str()), Some("any:53"));
    assert_eq!(hijack[1].as_str().map(|x| x.as_str()), Some("tcp://any:53"));
}

#[test]
fn use_tun_enable_twice_gives_same_config() {
    let c = build_config(true, Some(vec!["any:53"]), Some("FAKE-IP"), None);
    let once = use_tun_on(c, true, true, m(), true);
    let twice = use_tun_on(once.deep_clone(), true, false, m(), true);
    assert!(once.equals(&twice));
    let dns = once.get(&s("dns")).and_then(Yaml::as_mapping).unwrap();
    assert!(dns.get(&s("fake-ip-filter")).is_some());
    assert_eq!(dns.get(&s("enable")).and_then(Yaml::as_bool), Some(true));
    let psn = dns.get(&s("proxy-server-nameserver")).and_then(Yaml::as_sequence).unwrap();
    assert_eq!(psn.len(), 2);
}

#[test]
fn use_tun_disable_keeps_or_removes_section() {
    let c = build_config(true, Some(vec!["any:53"]), None, None);
    let kept = use_tun(c, false, false, m());
    let tun = kept.get(&s("tun")).and_then(Yaml::as_mapping).unwrap();
    assert_eq!(tun.get(&s("enable")).and_then(Yaml::as_bool), Some(false));
    let again = use_tun(kept.deep_clone(), false, false, m());
    assert!(again.equals(&kept));

    let mut plain = m();
    plain.insert(s("mode"), s("rule"));
    let removed = use_tun(plain, false, false, m());
    assert!(removed.get(&s("tun")).is_none());
    let from_source = use_tun(m(), false, true, m());
    let tun = from_source.get(&s("tun")).and_then(Yaml::as_mapping).unwrap();
    assert_eq!(tun.get(&s("enable")).and_then(Yaml::as_bool), Some(false));
}

#[test]
fn dns_for_tun_fills_defaults_but_keeps_user_values() {
    let mut c = m();
    let mut dns = m();
    dns.insert(s("enhanced-mode"), s("redir-host"));
    dns.insert(s("enable"), Yaml::Bool(false));
    c.insert(s("dns"), Yaml::Mapping(dns));
    let out = use_dns_for_tun(c, false);
    let dns = out.get(&s("dns")).and_then(Yaml::as_mapping).unwrap();
    assert_eq!(dns.get(&s("enable")).and_then(Yaml::as_bool), Some(true));
    assert_eq!(dns.get(&s("enhanced-mode")).and_then(Yaml::as_str).map(|x| x.as_str()), Some("redir-host"));
    assert_eq!(dns.get(&s("fake-ip-range")).and_then(Yaml::as_str).map(|x| x.as_str()), Some("198.18.0.1/16"));
    assert_eq!(dns.get(&s("nameserver")).and_then(Yaml::as_sequence).map(|v| v.len()), Some(3));
    assert_eq!(dns.get(&s("fallback")).and_then(Yaml::as_sequence).map(|v| v.len()), Some(0));
    assert!(dns.get(&s("fake-ip-filter")).is_none());
}

#[test]
fn equal_mappings_in_another_order_are_not_appended() {
    let mut a = m();
    a.insert(s("x"), Yaml::Bool(true));
    a.insert(s("y"), Yaml::Bool(false));
    let mut b = m();
    b.insert(s("y"), Yaml::Bool(false));
    b.insert(s("x"), Yaml::Bool(true));
    let mut seq = vec![Yaml::Mapping(a)];
    merge_unique_sequence_values(&mut seq, vec![Yaml::Mapping(b), s("z"), s("z")]);
    assert_eq!(seq.len(), 2);
    assert_eq!(seq[1].as_str().map(|x| x.as_str()), Some("z"));
}
