use clash_verge::diagnostic::{
    add_closing_reasons, classify_system_dns_status, dns_hijack_works, dns_proxy_server_nameserver_status,
    early_diagnosis_reasons, is_ipv4_in_cidr, is_likely_fake_ip, parse_ipv4, proxy_dns_failure_hint, proxy_reachable,
    resolve_route_chain, route_is_injected, runtime_dns_settings, selected_proxy_is_direct, system_dns_status,
    tcp_concurrent_warning_from_logs, ClosingFacts, SystemDnsResolvedHost,
    select_route, delay_test_target, delay_outcome, proxy_dns_findings, DelayAnswer, summarize_service_log,
    collect_proxy_dns_failures, closing_facts, group_selection,
};
use clash_verge::yaml::{Mapping, Yaml};

fn strings(v: &[&str]) -> Vec<String> {
    v.iter().map(|s| s.to_string()).collect()
}

fn pairs(v: &[(&str, &str)]) -> Vec<(String, String)> {
    v.iter().map(|(a, b)| (a.to_string(), b.to_string())).collect()
}

#[test]
fn route_chain_follows_groups_to_a_proxy() {
    let groups = strings(&["Proxy", "Auto"]);
    let now = pairs(&[("Proxy", "Auto"), ("Auto", " node-1 ")]);
    let (chain, last, looped) = resolve_route_chain("Proxy", &groups, &now);
    assert_eq!(chain, strings(&["Proxy", "Auto", " node-1 "]));
    assert_eq!(last, Some("node-1".to_string()));
    assert!(!looped);
}

#[test]
fn route_chain_detects_loops_and_dead_ends() {
    let groups = strings(&["A", "B"]);
    let looping = pairs(&[("A", "B"), ("B", "A")]);
    let (chain, last, looped) = resolve_route_chain("A", &groups, &looping);
    assert_eq!(chain, strings(&["A", "B", "A"]));
    assert_eq!(last, None);
    assert!(looped);

    let dead_end = pairs(&[("A", "B")]);
    let (chain, last, looped) = resolve_route_chain("A", &groups, &dead_end);
    assert_eq!(chain, strings(&["A", "B"]));
    assert_eq!(last, None);
    assert!(!looped);

    let (chain, last, looped) = resolve_route_chain("DIRECT", &groups, &dead_end);
    assert_eq!(chain, strings(&["DIRECT"]));
    assert_eq!(last, Some("DIRECT".to_string()));
    assert!(!looped);
}

#[test]
fn ipv4_parsing_is_strict_dotted_decimal() {
    let cases: [(&str, Option<u32>); 11] = [
        ("0.0.0.0", Some(0)),
        ("1.2.3.4", Some(0x01020304)),
        ("255.255.255.255", Some(u32::MAX)),
        ("198.18.0.1", Some(0xC6120001)),
        ("01.2.3.4", None),
        ("256.1.1.1", None),
        ("1.2.3", None),
        ("1.2.3.4.5", None),
        ("+1.2.3.4", None),
        ("a.b.c.d", None),
        ("", None),
    ];
    for (text, expected) in cases {
        let chars: Vec<char> = text.chars().collect();
        assert_eq!(parse_ipv4(&chars), expected, "{text}");
    }
}

#[test]
fn cidr_membership() {
    assert!(is_ipv4_in_cidr("198.18.0.5", "198.18.0.0/15"));
    assert!(is_ipv4_in_cidr("198.19.255.255", "198.18.0.0/15"));
    assert!(!is_ipv4_in_cidr("198.20.0.1", "198.18.0.0/15"));
    assert!(is_ipv4_in_cidr("8.8.8.8", "0.0.0.0/0"));
    assert!(is_ipv4_in_cidr("10.0.0.1", "10.0.0.1/32"));
    assert!(!is_ipv4_in_cidr("10.0.0.2", "10.0.0.1/32"));
    assert!(!is_ipv4_in_cidr("10.0.0.1", "10.0.0.0/33"));
    assert!(!is_ipv4_in_cidr("10.0.0.1", "10.0.0.0"));
    assert!(!is_ipv4_in_cidr("x", "10.0.0.0/8"));
    assert!(is_ipv4_in_cidr("10.1.2.3", "10.0.0.0/+8"));
}

#[test]
fn fake_ip_detection() {
    assert!(is_likely_fake_ip("198.18.3.4", None));
    assert!(!is_likely_fake_ip("1.1.1.1", None));
    assert!(is_likely_fake_ip("28.0.0.9", Some(" 28.0.0.1/8 ")));
    assert!(!is_likely_fake_ip("28.0.0.9", Some("  ")));
    assert!(is_likely_fake_ip("198.18.3.4", Some("28.0.0.1/8")));
}

fn host(flags: &[bool]) -> SystemDnsResolvedHost {
    SystemDnsResolvedHost { host: "h".to_string(), ips: vec![], fake_ip_flags: flags.to_vec() }
}

#[test]
fn system_dns_classification() {
    assert_eq!(classify_system_dns_status(&[]), "failed");
    assert_eq!(classify_system_dns_status(&[host(&[])]), "failed");
    assert_eq!(classify_system_dns_status(&[host(&[true]), host(&[false])]), "mixed");
    assert_eq!(classify_system_dns_status(&[host(&[true, true])]), "fake-ip");
    assert_eq!(classify_system_dns_status(&[host(&[false])]), "resolved");
    assert_eq!(system_dns_status(false, true, &[host(&[true])]), "not_tested");
    assert_eq!(system_dns_status(true, true, &[host(&[true])]), "fake-ip");
}

#[test]
fn tcp_concurrent_warning_needs_five_lines() {
    let line = "dial: Only one usage of each socket address is normally permitted".to_string();
    let four = vec![line.clone(); 4];
    assert_eq!(tcp_concurrent_warning_from_logs(&four, Some(true)), (false, None));
    let five = vec![line.clone(); 5];
    let (storm, warning) = tcp_concurrent_warning_from_logs(&five, Some(true));
    assert!(storm);
    assert_eq!(warning.as_deref(), Some("当前出口节点连接风暴，tcp-concurrent 可能放大本机端口耗尽。"));
    assert_eq!(tcp_concurrent_warning_from_logs(&five, Some(false)), (true, None));
}

#[test]
fn diagnosis_decisions() {
    assert!(dns_hijack_works(&strings(&["tcp://any:53"])));
    assert!(dns_hijack_works(&strings(&["any:53", "udp://x"])));
    assert!(!dns_hijack_works(&strings(&["udp://1.1.1.1"])));
    assert!(route_is_injected("0.0.0.0  0.0.0.0  198.18.0.2  198.18.0.1"));
    assert!(!route_is_injected("0.0.0.0  0.0.0.0  192.168.1.1"));
    assert!(selected_proxy_is_direct(Some("direct"), Some("node")));
    assert!(!selected_proxy_is_direct(Some("Shadowsocks"), Some("DIRECT")));
    assert!(selected_proxy_is_direct(None, Some("Direct")));
    assert!(!selected_proxy_is_direct(None, None));
    assert_eq!(proxy_reachable(Some(120)), Some(true));
    assert_eq!(proxy_reachable(Some(0)), Some(false));
    assert_eq!(proxy_reachable(Some(8000)), Some(false));
    assert_eq!(proxy_reachable(None), None);
}

#[test]
fn nameserver_status_and_hints() {
    let injected = strings(&["https://223.5.5.5/dns-query", "https://223.6.6.6/dns-query"]);
    assert_eq!(dns_proxy_server_nameserver_status(true, true, true, true, Some("fake-ip"), &injected), "unknown");
    assert_eq!(dns_proxy_server_nameserver_status(false, false, true, true, Some("fake-ip"), &injected), "unknown");
    assert_eq!(
        dns_proxy_server_nameserver_status(false, true, true, true, Some("fake-ip"), &injected),
        "runtime_injected"
    );
    assert_eq!(dns_proxy_server_nameserver_status(false, true, false, true, Some("fake-ip"), &injected), "configured");
    assert_eq!(dns_proxy_server_nameserver_status(false, true, true, true, None, &vec![]), "implicit_fallback");
    assert!(proxy_dns_failure_hint(false, false, "not_tested", true).is_none());
    assert!(proxy_dns_failure_hint(false, true, "not_tested", true).unwrap().starts_with("当前路由选择为 DIRECT"));
    assert!(proxy_dns_failure_hint(true, false, "fake-ip", false).unwrap().starts_with("系统 DNS 返回了 fake-ip，"));
    assert!(proxy_dns_failure_hint(true, false, "failed", true).unwrap().starts_with("当前选中代理节点"));
    assert!(proxy_dns_failure_hint(true, false, "resolved", false).unwrap().starts_with("系统 DNS 解析到了真实 IP"));
}

#[test]
fn reasons_are_listed_in_order() {
    let mut reasons = early_diagnosis_reasons(false, true, true, false, false, true);
    assert_eq!(
        reasons,
        strings(&["service core not managed", "DNS hijack not working", "route not injected", "multiple TUN adapters detected"])
    );
    let facts = ClosingFacts {
        global_mode: true,
        global_selects_direct: true,
        route_loop: true,
        rule_mode: false,
        test_target_direct: true,
        tun_enabled: true,
        dns_hijack_ok: true,
        route_injected: true,
        selected_unreachable: true,
        port_storm: true,
        tcp_concurrent_on: true,
    };
    add_closing_reasons(&mut reasons, &facts);
    assert_eq!(reasons.len(), 8);
    assert_eq!(reasons[4], "global mode selected DIRECT");
    assert_eq!(reasons[5], "route_chain_loop");
    assert_eq!(reasons[6], "outbound failed, check service log");
    let mut with_proxy = strings(&["selected proxy DNS failed"]);
    add_closing_reasons(&mut with_proxy, &facts);
    assert!(!with_proxy.iter().any(|r| r == "outbound failed, check service log"));
}

#[test]
fn runtime_dns_settings_are_read() {
    let mut dns = Mapping::new();
    dns.insert(
        Yaml::string("proxy-server-nameserver"),
        Yaml::Sequence(vec![Yaml::string("https://1.1.1.1/dns-query"), Yaml::Number("5".to_string())]),
    );
    dns.insert(Yaml::string("respect-rules"), Yaml::Bool(true));
    dns.insert(Yaml::string("enhanced-mode"), Yaml::string("fake-ip"));
    let mut config = Mapping::new();
    config.insert(Yaml::string("dns"), Yaml::Mapping(dns));
    config.insert(Yaml::string("tcp-concurrent"), Yaml::Bool(true));
    let s = runtime_dns_settings(&config);
    assert_eq!(s.proxy_server_nameserver, strings(&["https://1.1.1.1/dns-query"]));
    assert!(s.dns_nameserver.is_empty());
    assert_eq!(s.dns_respect_rules, Some(true));
    assert_eq!(s.dns_enhanced_mode.as_deref(), Some("fake-ip"));
    assert_eq!(s.dns_fake_ip_range, None);
    assert_eq!(s.tcp_concurrent, Some(true));
}

#[test]
fn adapters_are_found_sorted_and_once() {
    let netsh = "Idx  Met  MTU  State  Name\r\n  3  25  1500  connected  WLAN\r\n 17  0  9000  connected  Mihomo\r\n 18  0  1500  connected  WinTUN Userspace Tunnel\r\n 17  0  9000  connected  Mihomo\r\n";
    let found = clash_verge::diagnostic::tun_adapter_candidates(netsh);
    assert_eq!(
        found,
        vec![
            "17  0  9000  connected  mihomo".to_string(),
            "18  0  1500  connected  wintun userspace tunnel".to_string()
        ]
    );
    assert!(clash_verge::diagnostic::tun_adapter_candidates("").is_empty());
}

#[test]
fn relevant_log_lines() {
    assert!(clash_verge::diagnostic::log_line_is_relevant("time=1 msg=DNS lookup"));
    assert!(clash_verge::diagnostic::log_line_is_relevant("Dial tcp failed"));
    assert!(!clash_verge::diagnostic::log_line_is_relevant("started ok"));
}

#[test]
fn texts_sorted_each_once() {
    let v = strings(&["b", "a", "b", "", "ab", "a"]);
    assert_eq!(clash_verge::diagnostic::sorted_unique(&v), strings(&["", "a", "ab", "b"]));
    let ips = strings(&["8.8.8.8", "1.1.1.1", "8.8.8.8"]);
    assert_eq!(clash_verge::diagnostic::sorted_unique(&ips), strings(&["1.1.1.1", "8.8.8.8"]));
}

#[test]
fn later_selection_of_a_group_counts() {
    let groups = strings(&["G"]);
    let now = pairs(&[("G", "old"), ("G", "new")]);
    let (chain, last, looped) = resolve_route_chain("G", &groups, &now);
    assert_eq!(chain, strings(&["G", "new"]));
    assert_eq!(last, Some("new".to_string()));
    assert!(!looped);
}

#[test]
fn delay_errors_naming_dns_failures() {
    assert!(clash_verge::diagnostic::delay_error_is_dns_failure("DNS Resolve Failed: no such host"));
    assert!(!clash_verge::diagnostic::delay_error_is_dns_failure("timeout"));
}

#[test]
fn route_is_read_from_the_match_rule() {
    let groups = strings(&["Proxy", "Auto"]);
    let now = pairs(&[("Proxy", "Auto"), ("Auto", " node-1 ")]);
    let r = select_route(Some("Proxy"), true, &groups, &now);
    assert_eq!(r.outbound_group.as_deref(), Some("MATCH"));
    assert_eq!(r.selected_node_group.as_deref(), Some("Proxy"));
    assert_eq!(r.proxy_group_now.as_deref(), Some("Auto"));
    assert_eq!(r.route_chain, strings(&["MATCH", "Proxy", "Auto", " node-1 "]));
    assert!(!r.route_chain_loop);
    assert_eq!(r.route_decision_for_test_target.as_deref(), Some("node-1"));
    assert_eq!(r.selected_proxy.as_deref(), Some("node-1"));
    assert!(r.reason.is_none());
}

#[test]
fn route_without_final_hop_selects_the_last_hop() {
    let groups = strings(&["A", "B"]);
    let now = pairs(&[("A", "B"), ("B", "A")]);
    let r = select_route(Some("A"), true, &groups, &now);
    assert_eq!(r.route_chain, strings(&["MATCH", "A", "B", "A"]));
    assert!(r.route_chain_loop);
    assert_eq!(r.route_decision_for_test_target.as_deref(), Some("unknown"));
    assert_eq!(r.selected_proxy.as_deref(), Some("A"));
    let empty = select_route(Some("Empty"), true, &strings(&["Empty"]), &pairs(&[]));
    assert_eq!(empty.route_chain, strings(&["MATCH", "Empty"]));
    assert_eq!(empty.selected_proxy.as_deref(), Some("Empty"));
    assert_eq!(empty.proxy_group_now, None);
}

#[test]
fn route_cannot_be_read_without_rules() {
    for r in [
        select_route(None, true, &strings(&["A"]), &pairs(&[])),
        select_route(Some("A"), false, &strings(&["A"]), &pairs(&[])),
    ] {
        assert_eq!(r.reason.as_deref(), Some("unable to infer external route from runtime rules"));
        assert!(r.route_chain.is_empty() && !r.route_chain_loop);
        assert_eq!(r.route_decision_for_test_target.as_deref(), Some("unknown"));
        assert!(r.selected_proxy.is_none() && r.outbound_group.is_none() && r.selected_node_group.is_none());
        assert!(r.proxy_group_now.is_none());
    }
}

#[test]
fn delay_is_tested_on_a_proxy_that_does_not_go_direct() {
    assert_eq!(delay_test_target(Some("node"), false).as_deref(), Some("node"));
    assert_eq!(delay_test_target(Some("DIRECT"), true), None);
    assert_eq!(delay_test_target(None, false), None);
}

#[test]
fn delay_answers_are_judged() {
    let failed = delay_outcome(DelayAnswer::RequestFailed);
    assert_eq!((failed.delay, failed.reachable), (None, None));
    assert_eq!(failed.error.as_deref(), Some("delay request failed"));
    assert!(failed.reason.is_none());
    let unreadable = delay_outcome(DelayAnswer::Unreadable);
    assert!(unreadable.delay.is_none() && unreadable.reachable.is_none() && unreadable.error.is_none());
    let fast = delay_outcome(DelayAnswer::Answered { delay: Some(120), error: None, body: "{}".to_string() });
    assert_eq!((fast.delay, fast.reachable), (Some(120), Some(true)));
    assert!(fast.error.is_none() && fast.reason.is_none());
    let slow = delay_outcome(DelayAnswer::Answered { delay: Some(8000), error: None, body: "{}".to_string() });
    assert_eq!(slow.reachable, Some(false));
    assert_eq!(slow.reason.as_deref(), Some("TUN is enabled, but selected proxy is not reachable."));
    let err = delay_outcome(DelayAnswer::Answered {
        delay: None,
        error: Some("dns resolve failed".to_string()),
        body: "{\"message\":\"x\"}".to_string(),
    });
    assert_eq!(err.error.as_deref(), Some("dns resolve failed"));
    assert!(err.reachable.is_none() && err.reason.is_none());
    let body = delay_outcome(DelayAnswer::Answered { delay: None, error: None, body: "{\"message\":\"x\"}".to_string() });
    assert_eq!(body.error.as_deref(), Some("{\"message\":\"x\"}"));
}

#[test]
fn proxy_dns_findings_join_log_and_delay_error() {
    let f = proxy_dns_findings(
        false,
        &strings(&["b.example", "a.example", "b.example"]),
        &strings(&["t2", "t1", "t2"]),
        false,
        Some("Get: DNS Resolve Failed"),
        Some("c.example"),
        true,
    );
    assert!(f.failed && f.should_check);
    assert_eq!(f.hosts, strings(&["a.example", "b.example", "c.example"]));
    assert_eq!(f.targets, strings(&["t1", "t2"]));
    assert_eq!(f.reason.as_deref(), Some("selected proxy DNS failed"));
    let direct = proxy_dns_findings(false, &vec![], &vec![], true, Some("dns resolve failed"), Some("c.example"), true);
    assert!(!direct.failed && !direct.should_check && direct.hosts.is_empty() && direct.reason.is_none());
    let ip_host = proxy_dns_findings(true, &strings(&["h"]), &vec![], false, None, Some("1.2.3.4"), false);
    assert!(ip_host.failed && !ip_host.should_check);
    assert_eq!(ip_host.hosts, strings(&["h"]));
    assert!(ip_host.reason.is_none());
}

#[test]
fn service_log_summary_keeps_relevant_recent_lines() {
    let mut content = String::new();
    for i in 0..5 {
        content.push_str(&format!("old dial error {i}\n"));
    }
    for i in 0..198 {
        content.push_str(&format!("quiet line {i}\n"));
    }
    content.push_str("DNS lookup token=abc failed\r\n");
    content.push_str("Dial tcp token=x and token=y\n");
    let summary = summarize_service_log(&content);
    assert_eq!(summary, strings(&["DNS lookup token=***abc failed", "Dial tcp token=***x and token=***y"]));
    assert!(summarize_service_log("").is_empty());
    assert_eq!(summarize_service_log("proxy up"), strings(&["proxy up"]));
}

#[test]
fn proxy_dns_failures_are_collected_in_order() {
    let found = vec![
        None,
        Some(("t1".to_string(), Some("h1".to_string()))),
        Some(("t2".to_string(), None)),
        Some(("t1".to_string(), Some("h2".to_string()))),
    ];
    let (failed, targets, hosts) = collect_proxy_dns_failures(&found);
    assert!(failed);
    assert_eq!(targets, strings(&["t1", "t2", "t1"]));
    assert_eq!(hosts, strings(&["h1", "h2"]));
    let (none, t, h) = collect_proxy_dns_failures(&vec![None, None]);
    assert!(!none && t.is_empty() && h.is_empty());
}

#[test]
fn closing_facts_are_read_from_the_findings() {
    let f = closing_facts(Some("global"), Some("direct"), true, Some("DIRECT"), true, false, true, Some(false), true, Some(true));
    assert!(f.global_mode && f.global_selects_direct && f.route_loop && !f.rule_mode && f.test_target_direct);
    assert!(f.tun_enabled && !f.dns_hijack_ok && f.route_injected && f.selected_unreachable && f.port_storm);
    assert!(f.tcp_concurrent_on);
    let g = closing_facts(Some("rule"), None, false, Some("direct"), false, true, false, None, false, None);
    assert!(!g.global_mode && !g.global_selects_direct && g.rule_mode && !g.test_target_direct);
    assert!(!g.selected_unreachable && !g.tcp_concurrent_on);
}

#[test]
fn group_selection_takes_the_last_entry() {
    let now = pairs(&[("GLOBAL", "A"), ("Proxy", "B"), ("GLOBAL", "DIRECT")]);
    assert_eq!(group_selection(&now, "GLOBAL").as_deref(), Some("DIRECT"));
    assert_eq!(group_selection(&now, "Proxy").as_deref(), Some("B"));
    assert_eq!(group_selection(&now, "Other"), None);
}
