use clash_verge::core_manager::{
    change_core, is_clash_process, pid_from_text, recover_core, run_core_plan, service_mode_failure, stop_core,
    update_config, ReloadStep,
};
use clash_verge::feat::{
    copy_clash_env, open_or_close_dashboard, patch_clash, patch_verge, test_delay, update_profile, DashboardAction,
    VergePatch, clash_patch_outcome, toggle_system_proxy, toggle_tun_mode, change_clash_mode,
};
use clash_verge::yaml::{Mapping, Yaml};

#[test]
fn dashboard_toggles() {
    assert_eq!(open_or_close_dashboard(false, true), DashboardAction::Nothing);
    assert_eq!(open_or_close_dashboard(true, true), DashboardAction::Close);
    assert_eq!(open_or_close_dashboard(true, false), DashboardAction::Create);
}

#[test]
fn proxy_environment_text() {
    assert_eq!(
        copy_clash_env(None, Some("bash"), false).unwrap(),
        "export https_proxy=http://127.0.0.1:7897 http_proxy=http://127.0.0.1:7897 all_proxy=socks5://127.0.0.1:7897"
    );
    assert_eq!(
        copy_clash_env(Some(7890), Some("cmd"), true).unwrap(),
        "set http_proxy=http://127.0.0.1:7890 \n set https_proxy=http://127.0.0.1:7890"
    );
    assert_eq!(
        copy_clash_env(Some(1), None, true).unwrap(),
        "$env:HTTP_PROXY=\"http://127.0.0.1:1\"; $env:HTTPS_PROXY=\"http://127.0.0.1:1\""
    );
    assert!(copy_clash_env(Some(1), None, false).unwrap().starts_with("export "));
    assert!(copy_clash_env(Some(1), Some("fish"), false).is_none());
}

fn patch(entries: &[(&str, Yaml)]) -> Mapping {
    let mut m = Mapping::new();
    for (k, v) in entries {
        m.insert(Yaml::string(k), v.deep_clone());
    }
    m
}

#[test]
fn clash_patch_plans() {
    let p = patch(&[("mixed-port", Yaml::Number("7891".to_string()))]);
    let plan = patch_clash(&p, false, 7890);
    assert_eq!(plan.port_to_check, Some(7891));
    assert!(plan.restart_core && plan.init_sysproxy && !plan.update_tray && !plan.reload_tun);
    assert_eq!(patch_clash(&p, true, 7890).port_to_check, None);
    assert_eq!(patch_clash(&p, false, 7891).port_to_check, None);
    let wrap = patch(&[("mixed-port", Yaml::Number("65537".to_string()))]);
    assert_eq!(patch_clash(&wrap, false, 7890).port_to_check, Some(1));
    let mode = patch(&[("mode", Yaml::string("global")), ("tun", Yaml::Mapping(Mapping::new()))]);
    let plan = patch_clash(&mode, false, 7890);
    assert!(!plan.restart_core && plan.update_tray && plan.reload_tun && plan.port_to_check.is_none());
}

fn verge(tun: Option<bool>, service: Option<bool>) -> VergePatch {
    VergePatch {
        enable_tun_mode: tun,
        enable_service_mode: service,
        enable_proxy_guard: None,
        enable_auto_launch: false,
        enable_system_proxy: false,
        system_proxy_bypass: false,
        verge_mixed_port: false,
        hotkeys: false,
        language: false,
        common_tray_icon: false,
        sysproxy_tray_icon: false,
        tun_tray_icon: false,
    }
}

#[test]
fn verge_patch_plans() {
    let err = patch_verge(&verge(Some(true), None), false, true).err().unwrap();
    assert_eq!(err, "Tun mode on Windows requires Service Mode. Please enable Service Mode first.");
    let plan = patch_verge(&verge(Some(true), None), true, true).ok().unwrap();
    assert!(plan.ensure_service && plan.restart_core && !plan.reload_config && plan.update_systray_part);
    let plan = patch_verge(&verge(Some(false), None), false, true).ok().unwrap();
    assert!(!plan.ensure_service && !plan.restart_core && plan.reload_config);
    let plan = patch_verge(&verge(None, Some(true)), false, true).ok().unwrap();
    assert!(plan.restart_core && !plan.reload_config);
    let plan = patch_verge(&verge(Some(true), None), false, false).ok().unwrap();
    assert!(!plan.ensure_service && !plan.restart_core && plan.reload_config);
}

#[test]
fn profile_update_sources_and_delays() {
    assert_eq!(update_profile(Some("local"), None), Ok(None));
    assert_eq!(update_profile(None, Some("https://x")), Ok(None));
    assert_eq!(update_profile(Some("remote"), None), Err("failed to get the profile item url".to_string()));
    assert_eq!(update_profile(Some("remote"), Some("https://x")), Ok(Some("https://x".to_string())));
    assert_eq!(test_delay(true, 123), 123);
    assert_eq!(test_delay(false, 123), 10000);
    assert_eq!(test_delay(true, (1u64 << 32) + 5), 5);
}

#[test]
fn core_life_cycle_decisions() {
    assert_eq!(change_core(None), Err("clash core is null".to_string()));
    assert_eq!(change_core(Some("clash-meta")), Ok("clash-meta".to_string()));
    assert_eq!(change_core(Some("clash")), Err("invalid clash core name \"clash\"".to_string()));
    assert_eq!(pid_from_text("1234"), Some(1234));
    assert_eq!(pid_from_text(" 1234"), None);
    assert_eq!(pid_from_text("4294967296"), None);
    assert!(is_clash_process("clash-meta.exe"));
    assert!(!is_clash_process("mihomo"));
    let plan = run_core_plan(true, true, true, true);
    assert!(plan.stop_sidecar && plan.stop_service_core && plan.wait_after_stop_ms == 500 && plan.use_service);
    let plan = run_core_plan(false, true, true, false);
    assert!(!plan.stop_service_core && plan.wait_after_stop_ms == 0 && !plan.use_service);
    assert_eq!(
        service_mode_failure(true, "boom"),
        "Tun mode requires a working clash-verge-service on Windows: boom"
    );
    assert_eq!(service_mode_failure(false, "boom"), "Service Mode failed; service could not start clash core. boom");
    assert!(recover_core(false, false, true, true));
    assert!(!recover_core(false, true, true, false));
    assert!(!recover_core(true, false, false, false));
    assert_eq!(stop_core(true, true, false), (true, false));
    assert_eq!(update_config(0, true), ReloadStep::Done);
    assert_eq!(update_config(3, false), ReloadStep::Retry { pause_ms: 250 });
    assert_eq!(update_config(4, false), ReloadStep::Fail);
}

#[test]
fn occupied_mixed_port_is_refused() {
    let p = patch(&[("mixed-port", Yaml::Number("7891".to_string()))]);
    let plan = patch_clash(&p, false, 7890);
    assert_eq!(clash_patch_outcome(&plan, false), Err("port already in use".to_string()));
    assert_eq!(clash_patch_outcome(&plan, true), Ok(()));
    let same = patch_clash(&p, false, 7891);
    assert_eq!(clash_patch_outcome(&same, false), Ok(()));
}

#[test]
fn toggles_flip_the_switch() {
    assert!(toggle_system_proxy(None));
    assert!(toggle_system_proxy(Some(false)));
    assert!(!toggle_system_proxy(Some(true)));
    assert!(toggle_tun_mode(None));
    assert!(!toggle_tun_mode(Some(true)));
}

#[test]
fn clash_mode_patch_holds_the_mode() {
    let m = change_clash_mode("global");
    assert_eq!(m.len(), 1);
    assert_eq!(m.get(&Yaml::string("mode")).and_then(|v| v.as_str()).map(|s| s.as_str()), Some("global"));
}

#[test]
fn waits_after_stopping_a_core() {
    assert_eq!(run_core_plan(true, false, false, true).wait_after_stop_ms, 1000);
    assert_eq!(run_core_plan(false, true, false, true).wait_after_stop_ms, 1000);
    assert_eq!(run_core_plan(true, false, true, true).wait_after_stop_ms, 500);
    assert_eq!(run_core_plan(true, true, true, false).wait_after_stop_ms, 500);
    assert_eq!(run_core_plan(false, false, false, true).wait_after_stop_ms, 0);
}
