use clash_verge::merge::{
    deep_merge_mapping, ensure_external_merge_rule_template_exists, external_merge_rule_path_from,
    external_merge_rule_template, load_external_merge_rule,
};
use clash_verge::yaml::{Mapping, Yaml};

fn to_yaml(v: serde_yaml::Value) -> Yaml {
    match v {
        serde_yaml::Value::Null => Yaml::Null,
        serde_yaml::Value::Bool(b) => Yaml::Bool(b),
        serde_yaml::Value::Number(n) => Yaml::Number(n.to_string()),
        serde_yaml::Value::String(s) => Yaml::Str(s),
        serde_yaml::Value::Sequence(items) => Yaml::Sequence(items.into_iter().map(to_yaml).collect()),
        serde_yaml::Value::Mapping(m) => Yaml::Mapping(to_mapping(m)),
        serde_yaml::Value::Tagged(t) => Yaml::Tagged(t.tag.to_string(), Box::new(to_yaml(t.value))),
    }
}

fn to_mapping(m: serde_yaml::Mapping) -> Mapping {
    let mut out = Mapping::new();
    for (k, v) in m {
        out.insert(to_yaml(k), to_yaml(v));
    }
    out
}

fn yaml_mapping(input: &str) -> Mapping {
    to_mapping(serde_yaml::from_str::<serde_yaml::Mapping>(input).unwrap())
}

fn parsed(input: &str) -> Option<Yaml> {
    serde_yaml::from_str::<serde_yaml::Value>(input).ok().map(to_yaml)
}

fn key(s: &str) -> Yaml {
    Yaml::string(s)
}

fn get<'a>(m: &'a Mapping, k: &str) -> Option<&'a Yaml> {
    m.get(&key(k))
}

#[test]
fn deep_merge_nested_mapping_and_keep_existing_fields() {
    let base = yaml_mapping(
        r#"
dns:
  ipv6: true
  enhanced-mode: fake-ip
tun:
  enable: true
  dns-hijack:
    - any:53
"#,
    );
    let overlay = yaml_mapping(
        r#"
ipv6: false
dns:
  ipv6: false
tun:
  route-exclude-address:
    - 223.5.5.5/32
    - 223.6.6.6/32
"#,
    );

    let merged = deep_merge_mapping(base, overlay);
    assert_eq!(get(&merged, "ipv6").and_then(Yaml::as_bool), Some(false));
    assert_eq!(
        get(&merged, "dns").and_then(Yaml::as_mapping).and_then(|dns| get(dns, "ipv6")).and_then(Yaml::as_bool),
        Some(false)
    );
    assert_eq!(
        get(&merged, "dns")
            .and_then(Yaml::as_mapping)
            .and_then(|dns| get(dns, "enhanced-mode"))
            .and_then(Yaml::as_str)
            .map(|s| s.as_str()),
        Some("fake-ip")
    );
    assert_eq!(
        get(&merged, "tun").and_then(Yaml::as_mapping).and_then(|tun| get(tun, "enable")).and_then(Yaml::as_bool),
        Some(true)
    );
}

#[test]
fn sequence_should_be_overridden() {
    let base = yaml_mapping("rules: [A, B]");
    let overlay = yaml_mapping("rules: [C]");
    let merged = deep_merge_mapping(base, overlay);
    let rules = get(&merged, "rules").and_then(Yaml::as_sequence).unwrap();
    assert_eq!(rules.len(), 1);
    assert_eq!(rules[0].as_str().map(|s| s.as_str()), Some("C"));
}

#[test]
fn deep_merge_should_be_idempotent() {
    let base = yaml_mapping("dns:\n  enhanced-mode: fake-ip\nrules: [A, B]\n");
    let overlay = yaml_mapping("dns:\n  ipv6: false\nrules: [C]\n");
    let once = deep_merge_mapping(base.deep_clone(), overlay.deep_clone());
    let twice = deep_merge_mapping(once.deep_clone(), overlay);
    assert!(clash_verge::merge::same_mapping(&once, &twice));
}

#[test]
fn load_external_merge_rule_handles_missing_invalid_and_non_mapping() {
    assert!(load_external_merge_rule(None, None).is_none());

    let invalid = ":\ninvalid";
    assert!(load_external_merge_rule(Some(invalid), parsed(invalid)).is_none());

    let list = "- not\n- mapping";
    assert!(load_external_merge_rule(Some(list), parsed(list)).is_none());
}

#[test]
fn load_external_merge_rule_valid_mapping() {
    let content = "ipv6: false\ndns:\n  ipv6: false\n";
    let loaded = load_external_merge_rule(Some(content), parsed(content)).unwrap();
    assert_eq!(get(&loaded, "ipv6").and_then(Yaml::as_bool), Some(false));
}

#[test]
fn ensure_template_create_and_keep_existing_content() {
    let mut file: Option<String> = None;
    if let Some(text) = ensure_external_merge_rule_template_exists(file.is_some()) {
        file = Some(text.to_string());
    }
    let created = file.clone().unwrap();
    assert!(created.contains("# Clash Verge Buty external merge override file"));

    file = Some("ipv6: false\n".to_string());
    if let Some(text) = ensure_external_merge_rule_template_exists(file.is_some()) {
        file = Some(text.to_string());
    }
    let persisted = file.unwrap();
    assert_eq!(persisted, "ipv6: false\n");
}

#[test]
fn load_external_merge_rule_comment_only_should_skip() {
    let content = external_merge_rule_template();
    assert!(load_external_merge_rule(Some(content), parsed(content)).is_none());
}

#[test]
fn resolve_windows_portable_style_path_from_exe_parent() {
    let exe = r"C:\UserProgram\Clash.Verge.Buty.Portable\Clash-Verge-Buty.exe";
    let path = external_merge_rule_path_from(exe).unwrap();
    assert_eq!(path, r"C:\UserProgram\Clash.Verge.Buty.Portable\merge-rule.yaml");
}

#[test]
fn merge_rule_path_edge_cases() {
    assert_eq!(external_merge_rule_path_from("/usr/bin/clash-verge").unwrap(), "/usr/bin/merge-rule.yaml");
    assert_eq!(external_merge_rule_path_from("clash-verge").unwrap(), "merge-rule.yaml");
    assert_eq!(external_merge_rule_path_from("/app").unwrap(), "/merge-rule.yaml");
    assert_eq!(external_merge_rule_path_from("C:\\dir\\\\app.exe").unwrap(), "C:\\dir\\merge-rule.yaml");
    assert_eq!(external_merge_rule_path_from("/opt/app/").unwrap(), "/opt/merge-rule.yaml");
    assert!(external_merge_rule_path_from("").is_none());
    assert!(external_merge_rule_path_from("/").is_none());
}

#[test]
fn blank_merge_rule_gives_nothing() {
    let content = "  \n\t \n";
    assert!(load_external_merge_rule(Some(content), parsed(content)).is_none());
}

#[test]
fn apply_merge_rule_overrides_config() {
    let config = yaml_mapping("mode: rule\ndns:\n  enable: true\n");
    let rule = yaml_mapping("mode: global\n");
    let merged = clash_verge::merge::apply_external_merge_rule(config.deep_clone(), Some(rule));
    assert_eq!(get(&merged, "mode").and_then(Yaml::as_str).map(|s| s.as_str()), Some("global"));
    let unchanged = clash_verge::merge::apply_external_merge_rule(config.deep_clone(), None);
    assert!(unchanged.equals(&config));
}

#[test]
fn merge_clash_config_skips_tun() {
    let profile = yaml_mapping("mode: rule\ntun:\n  enable: false\n");
    let clash = yaml_mapping("mode: global\nmixed-port: 7897\ntun:\n  stack: gvisor\n");
    let (merged, source_has_tun, tun_default) = clash_verge::enhance::merge_clash_config(profile, &clash);
    assert!(source_has_tun);
    assert_eq!(get(&merged, "mode").and_then(Yaml::as_str).map(|s| s.as_str()), Some("global"));
    assert!(get(&merged, "mixed-port").is_some());
    let tun = get(&merged, "tun").and_then(Yaml::as_mapping).unwrap();
    assert_eq!(get(tun, "enable").and_then(Yaml::as_bool), Some(false));
    assert_eq!(get(&tun_default, "stack").and_then(Yaml::as_str).map(|s| s.as_str()), Some("gvisor"));
}

#[test]
fn mappings_compare_whatever_the_order() {
    let a = yaml_mapping("x: 1\ny:\n  p: [1, 2]\n  q: true\n");
    let b = yaml_mapping("y:\n  q: true\n  p: [1, 2]\nx: 1\n");
    let c = yaml_mapping("y:\n  q: true\n  p: [2, 1]\nx: 1\n");
    let d = yaml_mapping("x: 1\n");
    assert!(clash_verge::merge::same_mapping(&a, &b));
    assert!(!a.equals(&b));
    assert!(!clash_verge::merge::same_mapping(&a, &c));
    assert!(!clash_verge::merge::same_mapping(&a, &d));
    assert!(!clash_verge::merge::same_mapping(&d, &a));
}

#[test]
fn runtime_config_is_finished_in_order() {
    let profile = yaml_mapping("mode: rule\nipv6: true\n");
    let clash = yaml_mapping("mixed-port: 7897\ntun:\n  stack: gvisor\n");
    let rule = yaml_mapping("ipv6: false\ntun:\n  mtu: 1400\n");
    let out = clash_verge::enhance::finish_runtime_config(profile.deep_clone(), &clash, true, false, Some(rule));
    assert!(get(&out, "mixed-port").is_some());
    assert_eq!(get(&out, "ipv6").and_then(Yaml::as_bool), Some(false));
    let tun = get(&out, "tun").and_then(Yaml::as_mapping).unwrap();
    assert_eq!(get(tun, "enable").and_then(Yaml::as_bool), Some(true));
    assert_eq!(get(tun, "stack").and_then(Yaml::as_str).map(|s| s.as_str()), Some("gvisor"));
    assert!(get(tun, "mtu").is_some());
    let dns = get(&out, "dns").and_then(Yaml::as_mapping).unwrap();
    assert_eq!(get(dns, "enable").and_then(Yaml::as_bool), Some(true));
    let off = clash_verge::enhance::finish_runtime_config(profile, &clash, false, false, None);
    assert!(get(&off, "tun").is_none());
    assert_eq!(get(&off, "ipv6").and_then(Yaml::as_bool), Some(true));
}
