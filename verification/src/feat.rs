//! The decisions behind the app's features: the dashboard window, the proxy
//! environment text, and what a change to the core's or the app's settings
//! requires.
use vstd::prelude::*;
use crate::help::{decimal_value, is_unsigned_decimal, parse_unsigned, unsigned_digits};
use crate::text::{append_chars, append_str, chars_of, decimal_text, str_equal, string_of, u64_text};
use crate::yaml::{Entries, Mapping, Yaml, YamlV, has_key, lookup, mwf, yaml_str};

verus! {

// ---------------------------------------------------------------------------
// The dashboard
// ---------------------------------------------------------------------------

/// What to do with the dashboard window.
#[derive(Clone, Copy, Debug, PartialEq, Eq, Structural)]
pub enum DashboardAction {
    /// Close the main window, which has the focus.
    Close,
    /// Open the main window.
    Create,
    /// The app is not ready: do nothing.
    Nothing,
}

/// Toggles the dashboard: a focused main window closes, otherwise the window
/// opens, once the app is up.
pub fn open_or_close_dashboard(has_app_handle: bool, main_window_focused: bool) -> (r: DashboardAction)
    ensures
        r == (if !has_app_handle {
            DashboardAction::Nothing
        } else if main_window_focused {
            DashboardAction::Close
        } else {
            DashboardAction::Create
        }),
{
    if !has_app_handle {
        DashboardAction::Nothing
    } else if main_window_focused {
        DashboardAction::Close
    } else {
        DashboardAction::Create
    }
}

// ---------------------------------------------------------------------------
// The proxy environment
// ---------------------------------------------------------------------------

/// The shell commands that point a terminal at the app's proxy on `port`, for
/// the shell named `env_type` (`bash`, `cmd` or `powershell`); another name has
/// none.
pub open spec fn clash_env_text(port: nat, env_type: Seq<char>) -> Option<Seq<char>> {
    let http = "http://127.0.0.1:"@ + decimal_text(port);
    let socks = "socks5://127.0.0.1:"@ + decimal_text(port);
    if env_type == "bash"@ {
        Some("export https_proxy="@ + http + " http_proxy="@ + http + " all_proxy="@ + socks)
    } else if env_type == "cmd"@ {
        Some("set http_proxy="@ + http + " \n set https_proxy="@ + http)
    } else if env_type == "powershell"@ {
        Some("$env:HTTP_PROXY=\""@ + http + "\"; $env:HTTPS_PROXY=\""@ + http + "\""@)
    } else {
        None
    }
}

/// The shell used when none is configured.
pub open spec fn default_env_type(windows: bool) -> Seq<char> {
    if windows {
        "powershell"@
    } else {
        "bash"@
    }
}

/// The text to copy to the clipboard for the app's proxy: the port defaults to
/// 7897 and the shell to PowerShell on Windows and bash elsewhere; an unknown
/// shell gives nothing.
pub fn copy_clash_env(port: Option<u16>, env_type: Option<&str>, windows: bool) -> (r: Option<String>)
    ensures
        ({
            let p = match port {
                Some(p) => p as nat,
                None => 7897nat,
            };
            let e = match env_type {
                Some(e) => e@,
                None => default_env_type(windows),
            };
            match r {
                Some(t) => clash_env_text(p, e) == Some(t@),
                None => clash_env_text(p, e) is None,
            }
        }),
{
    let p: u16 = match port {
        Some(p) => p,
        None => 7897,
    };
    let e: &str = match env_type {
        Some(e) => e,
        None => if windows {
            "powershell"
        } else {
            "bash"
        },
    };
    let digits = u64_text(p as u64);
    let mut http = chars_of("http://127.0.0.1:");
    append_chars(&mut http, &digits);
    let mut socks = chars_of("socks5://127.0.0.1:");
    append_chars(&mut socks, &digits);
    let mut out: Vec<char>;
    if str_equal(e, "bash") {
        out = chars_of("export https_proxy=");
        append_chars(&mut out, &http);
        append_str(&mut out, " http_proxy=");
        append_chars(&mut out, &http);
        append_str(&mut out, " all_proxy=");
        append_chars(&mut out, &socks);
    } else if str_equal(e, "cmd") {
        out = chars_of("set http_proxy=");
        append_chars(&mut out, &http);
        append_str(&mut out, " \n set https_proxy=");
        append_chars(&mut out, &http);
    } else if str_equal(e, "powershell") {
        out = chars_of("$env:HTTP_PROXY=\"");
        append_chars(&mut out, &http);
        append_str(&mut out, "\"; $env:HTTPS_PROXY=\"");
        append_chars(&mut out, &http);
        append_str(&mut out, "\"");
    } else {
        return None;
    }
    Some(string_of(out.as_slice()))
}

// ---------------------------------------------------------------------------
// A change to the core's settings
// ---------------------------------------------------------------------------

/// What a change to the core's settings requires.
pub struct ClashPatchPlan {
    /// The new mixed port, to be checked for being free before anything else.
    pub port_to_check: Option<u16>,
    /// Regenerate the runtime configuration and restart the core.
    pub restart_core: bool,
    /// Set the system proxy up again.
    pub init_sysproxy: bool,
    /// Refresh the tray menu.
    pub update_tray: bool,
    /// Reload the core's configuration for the changed TUN settings.
    pub reload_tun: bool,
}

/// A YAML number as an unsigned integer.
pub open spec fn yaml_as_u64(v: YamlV) -> Option<int> {
    match v {
        YamlV::Number(t) => if is_unsigned_decimal(t, u64::MAX as int) {
            Some(decimal_value(unsigned_digits(t)))
        } else {
            None
        },
        _ => None,
    }
}

/// The plan for a change `patch` to the core's settings.  A new mixed port is
/// checked when it differs from the port in use (`current_mixed_port`) and
/// random ports are off; its number is taken modulo 65536 as the core takes it.
pub open spec fn clash_patch_plan(patch: Entries, enable_random_port: bool, current_mixed_port: u16) -> (
    Option<u16>,
    bool,
    bool,
    bool,
    bool,
) {
    let mixed = lookup(patch, yaml_str("mixed-port"@));
    let port_to_check = match mixed {
        Some(v) => if !enable_random_port && v != YamlV::Number(decimal_text(current_mixed_port as nat))
            && yaml_as_u64(v) is Some {
            Some((yaml_as_u64(v)->0 % 65536) as u16)
        } else {
            None
        },
        None => None,
    };
    (
        port_to_check,
        has_key(patch, yaml_str("mixed-port"@)) || has_key(patch, yaml_str("socks-port"@)) || has_key(
            patch,
            yaml_str("port"@),
        ) || has_key(patch, yaml_str("secret"@)) || has_key(patch, yaml_str("external-controller"@)),
        has_key(patch, yaml_str("mixed-port"@)),
        has_key(patch, yaml_str("mode"@)),
        has_key(patch, yaml_str("tun"@)),
    )
}

fn has(patch: &Mapping, key: &str) -> (r: bool)
    requires
        mwf(patch@),
    ensures
        r == has_key(patch@, yaml_str(key@)),
{
    patch.contains_key(&Yaml::string(key))
}

/// Plans a change to the core's settings, as [`clash_patch_plan`] states.
pub fn patch_clash(patch: &Mapping, enable_random_port: bool, current_mixed_port: u16) -> (r: ClashPatchPlan)
    requires
        mwf(patch@),
    ensures
        (r.port_to_check, r.restart_core, r.init_sysproxy, r.update_tray, r.reload_tun) == clash_patch_plan(
            patch@,
            enable_random_port,
            current_mixed_port,
        ),
{
    let port_to_check = match patch.get(&Yaml::string("mixed-port")) {
        Some(v) => {
            let current_text = string_of(u64_text(current_mixed_port as u64).as_slice());
            let current = Yaml::Number(current_text);
            if !enable_random_port && !v.equals(&current) {
                match v {
                    Yaml::Number(t) => match parse_unsigned(&chars_of(t.as_str()), u64::MAX) {
                        Some(n) => Some((n % 65536) as u16),
                        None => None,
                    },
                    _ => None,
                }
            } else {
                None
            }
        },
        None => None,
    };
    let mixed = has(patch, "mixed-port");
    ClashPatchPlan {
        port_to_check,
        restart_core: mixed || has(patch, "socks-port") || has(patch, "port") || has(patch, "secret") || has(
            patch,
            "external-controller",
        ),
        init_sysproxy: mixed,
        update_tray: has(patch, "mode"),
        reload_tun: has(patch, "tun"),
    }
}

/// The settings whose change needs the core restarted.
pub open spec fn restart_keys() -> Seq<Seq<char>> {
    seq!["mixed-port"@, "socks-port"@, "port"@, "secret"@, "external-controller"@]
}

/// A change restarts the core exactly when it sets one of [`restart_keys`]:
/// each of them alone is enough, and no other key restarts it.
pub proof fn clash_patch_restarts_on_port_and_controller_keys(
    patch: Entries,
    enable_random_port: bool,
    current_mixed_port: u16,
)
    ensures
        clash_patch_plan(patch, enable_random_port, current_mixed_port).1 <==> exists|i: int, j: int|
            0 <= i < patch.len() && 0 <= j < restart_keys().len() && #[trigger] patch[i].0 == yaml_str(
                #[trigger] restart_keys()[j],
            ),
        forall|j: int|
            0 <= j < restart_keys().len() && has_key(patch, yaml_str(#[trigger] restart_keys()[j]))
                ==> clash_patch_plan(patch, enable_random_port, current_mixed_port).1,
{
    let ks = restart_keys();
    let plan = clash_patch_plan(patch, enable_random_port, current_mixed_port);
    assert forall|j: int| 0 <= j < ks.len() && has_key(patch, yaml_str(#[trigger] ks[j])) implies plan.1 by {
        if j == 0 {
        } else if j == 1 {
        } else if j == 2 {
        } else if j == 3 {
        } else {
        }
    }
    if plan.1 {
        let k = if has_key(patch, yaml_str(ks[0])) {
            0int
        } else if has_key(patch, yaml_str(ks[1])) {
            1int
        } else if has_key(patch, yaml_str(ks[2])) {
            2int
        } else if has_key(patch, yaml_str(ks[3])) {
            3int
        } else {
            4int
        };
        let i = choose|i: int| 0 <= i < patch.len() && #[trigger] patch[i].0 == yaml_str(ks[k]);
        assert(patch[i].0 == yaml_str(ks[k]));
    }
    if exists|i: int, j: int| 0 <= i < patch.len() && 0 <= j < ks.len() && #[trigger] patch[i].0 == yaml_str(
        #[trigger] ks[j],
    ) {
        let (i, j) = choose|i: int, j: int|
            0 <= i < patch.len() && 0 <= j < ks.len() && #[trigger] patch[i].0 == yaml_str(#[trigger] ks[j]);
        assert(has_key(patch, yaml_str(ks[j])));
        if j == 0 {
        } else if j == 1 {
        } else if j == 2 {
        } else if j == 3 {
        } else {
        }
    }
}

/// The error given when the new mixed port is taken.
pub open spec fn port_in_use_message() -> Seq<char> {
    "port already in use"@
}

/// Whether a planned change to the core's settings may go ahead, given whether
/// the new mixed port that the plan names is free.  A taken port refuses the
/// change with "port already in use": nothing of the change is applied, the
/// draft is discarded and nothing is restarted or saved.  Otherwise the change
/// goes ahead as the plan says.
pub fn clash_patch_outcome(plan: &ClashPatchPlan, port_available: bool) -> (r: Result<(), String>)
    ensures
        r is Err <==> (plan.port_to_check is Some && !port_available),
        r matches Err(msg) ==> msg@ == port_in_use_message(),
{
    if plan.port_to_check.is_some() && !port_available {
        Err(string_of(chars_of("port already in use").as_slice()))
    } else {
        Ok(())
    }
}

// ---------------------------------------------------------------------------
// A change to the app's settings
// ---------------------------------------------------------------------------

/// Which of the app's settings a change sets: the TUN and service switches with
/// their new values, the others by whether they are set.
pub struct VergePatch {
    pub enable_tun_mode: Option<bool>,
    pub enable_service_mode: Option<bool>,
    pub enable_proxy_guard: Option<bool>,
    pub enable_auto_launch: bool,
    pub enable_system_proxy: bool,
    pub system_proxy_bypass: bool,
    pub verge_mixed_port: bool,
    pub hotkeys: bool,
    pub language: bool,
    pub common_tray_icon: bool,
    pub sysproxy_tray_icon: bool,
    pub tun_tray_icon: bool,
}

/// What a change to the app's settings requires.
pub struct VergePatchPlan {
    /// Make sure the Windows service runs before going on.
    pub ensure_service: bool,
    /// Regenerate the runtime configuration and restart the core.
    pub restart_core: bool,
    /// Reload the core's configuration in place.
    pub reload_config: bool,
    pub update_launch: bool,
    /// Set the system proxy again and guard it.
    pub update_sysproxy: bool,
    pub guard_proxy: bool,
    pub update_hotkeys: bool,
    /// Rebuild the tray menu.
    pub update_systray: bool,
    /// Refresh the tray's switches and icon.
    pub update_systray_part: bool,
}

/// The error given when TUN is turned on under Windows without the service.
pub open spec fn tun_needs_service_message() -> Seq<char> {
    "Tun mode on Windows requires Service Mode. Please enable Service Mode first."@
}

/// Plans a change to the app's settings.  On Windows, TUN needs the service
/// (switched on now or before): turning TUN on without it is refused; a change
/// of the service switch, or of TUN with the service on, restarts the core, and a
/// change of TUN without it reloads the configuration.  Elsewhere a change of
/// TUN reloads the configuration.
pub fn patch_verge(patch: &VergePatch, latest_service_enabled: bool, windows: bool) -> (r: Result<
    VergePatchPlan,
    String,
>)
    ensures
        ({
            let effective = match patch.enable_service_mode {
                Some(b) => b,
                None => latest_service_enabled,
            };
            match r {
                Err(msg) => windows && patch.enable_tun_mode == Some(true) && !effective && msg@
                    == tun_needs_service_message(),
                Ok(plan) => !(windows && patch.enable_tun_mode == Some(true) && !effective) && plan.ensure_service
                    == (windows && patch.enable_tun_mode == Some(true)) && plan.restart_core == (windows && (
                patch.enable_service_mode is Some || (patch.enable_tun_mode is Some && effective))) && plan.reload_config
                    == (patch.enable_tun_mode is Some && !(windows && (patch.enable_service_mode is Some || effective)))
                    && plan.update_launch == patch.enable_auto_launch && plan.update_sysproxy == (
                patch.enable_system_proxy || patch.system_proxy_bypass || patch.verge_mixed_port) && plan.guard_proxy
                    == (patch.enable_proxy_guard == Some(true)) && plan.update_hotkeys == patch.hotkeys
                    && plan.update_systray == patch.language && plan.update_systray_part == (!patch.language && (
                patch.enable_system_proxy || patch.enable_tun_mode is Some || patch.common_tray_icon
                    || patch.sysproxy_tray_icon || patch.tun_tray_icon)),
            }
        }),
{
    let effective = match patch.enable_service_mode {
        Some(b) => b,
        None => latest_service_enabled,
    };
    let tun_on = match patch.enable_tun_mode {
        Some(b) => b,
        None => false,
    };
    if windows && tun_on && !effective {
        return Err(string_of(
            chars_of("Tun mode on Windows requires Service Mode. Please enable Service Mode first.").as_slice(),
        ));
    }
    let tun_changed = patch.enable_tun_mode.is_some();
    let service_changed = patch.enable_service_mode.is_some();
    let restart_core = windows && (service_changed || (tun_changed && effective));
    let reload_config = tun_changed && !(windows && (service_changed || effective));
    Ok(VergePatchPlan {
        ensure_service: windows && tun_on,
        restart_core,
        reload_config,
        update_launch: patch.enable_auto_launch,
        update_sysproxy: patch.enable_system_proxy || patch.system_proxy_bypass || patch.verge_mixed_port,
        guard_proxy: match patch.enable_proxy_guard {
            Some(b) => b,
            None => false,
        },
        update_hotkeys: patch.hotkeys,
        update_systray: patch.language,
        update_systray_part: !patch.language && (patch.enable_system_proxy || tun_changed || patch.common_tray_icon
            || patch.sysproxy_tray_icon || patch.tun_tray_icon),
    })
}

/// The new value of the system proxy switch when it is toggled: on unless it is
/// on now (an unset switch counts as off).
pub fn toggle_system_proxy(enabled: Option<bool>) -> (r: bool)
    ensures
        r == !(enabled == Some(true)),
{
    match enabled {
        Some(b) => !b,
        None => true,
    }
}

/// The new value of the TUN switch when it is toggled: on unless it is on now
/// (an unset switch counts as off).
pub fn toggle_tun_mode(enabled: Option<bool>) -> (r: bool)
    ensures
        r == !(enabled == Some(true)),
{
    match enabled {
        Some(b) => !b,
        None => true,
    }
}

/// The change to the core's settings that switches its mode (rule, global,
/// direct or script): a mapping of `mode` to the new mode alone.
pub fn change_clash_mode(mode: &str) -> (r: Mapping)
    ensures
        r@ == seq![(yaml_str("mode"@), yaml_str(mode@))],
        mwf(r@),
{
    let mut m = Mapping::new();
    m.insert(Yaml::string("mode"), Yaml::string(mode));
    proof {
        reveal_strlit("mode");
    }
    assert(m@ =~= seq![(yaml_str("mode"@), yaml_str(mode@))]);
    m
}

// ---------------------------------------------------------------------------
// Profiles and delays
// ---------------------------------------------------------------------------

/// Where an update of a profile comes from: a remote profile is downloaded from
/// its URL (and one without a URL cannot be updated); any other is regenerated
/// in place (`None`).
pub fn update_profile(itype: Option<&str>, url: Option<&str>) -> (r: Result<Option<String>, String>)
    ensures
        !(itype matches Some(t) && t@ == "remote"@) ==> r == Ok::<Option<String>, String>(None),
        (itype matches Some(t) && t@ == "remote"@) && url is None ==> (r matches Err(m) && m@
            == "failed to get the profile item url"@),
        (itype matches Some(t) && t@ == "remote"@) && url is Some ==> (r matches Ok(Some(u)) && u@ == url->0@),
{
    let remote = match itype {
        Some(t) => str_equal(t, "remote"),
        None => false,
    };
    if !remote {
        return Ok(None);
    }
    match url {
        None => Err(string_of(chars_of("failed to get the profile item url").as_slice())),
        Some(u) => Ok(Some(string_of(chars_of(u).as_slice()))),
    }
}

/// The delay reported for a test request: the time it took, in milliseconds
/// kept modulo 2^32, when it succeeded, else 10000.
pub fn test_delay(success: bool, elapsed_millis: u64) -> (r: u32)
    ensures
        r == (if success {
            (elapsed_millis % 0x1_0000_0000) as u32
        } else {
            10000u32
        }),
{
    if success {
        (elapsed_millis % 0x1_0000_0000) as u32
    } else {
        10000
    }
}

} // verus!
