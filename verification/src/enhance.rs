//! The last steps of building the runtime configuration: the core's own settings
//! laid over the profile's, before the TUN section is settled.
use vstd::prelude::*;
use crate::merge::{apply_external_merge_rule, deep_merge};
use crate::tun::{mapping_or, use_tun_on, use_tun_spec};
use crate::yaml::{Entries, Mapping, Yaml, YamlV, has_key, lemma_insert_wf, lookup, map_insert, mwf, wf, yaml_str};

verus! {

/// The profile configuration with each entry of the core's configuration laid
/// over it, in order, except the entry under `tun`.
pub open spec fn overlay_except_tun(config: Entries, clash: Entries) -> Entries
    decreases clash.len(),
{
    if clash.len() == 0 {
        config
    } else {
        let prev = overlay_except_tun(config, clash.drop_last());
        if clash.last().0 == yaml_str("tun"@) {
            prev
        } else {
            map_insert(prev, clash.last().0, clash.last().1)
        }
    }
}

/// Lays the core's configuration over the profile's, except its `tun` entry, and
/// returns with it whether the profile had a `tun` entry and the core's `tun`
/// mapping (empty when it has none), which settle the TUN section next.
pub fn merge_clash_config(config: Mapping, clash_config: &Mapping) -> (r: (Mapping, bool, Mapping))
    requires
        mwf(config@),
        mwf(clash_config@),
    ensures
        r.0@ == overlay_except_tun(config@, clash_config@),
        mwf(r.0@),
        r.1 == has_key(config@, yaml_str("tun"@)),
        r.2@ == mapping_or(clash_config@, yaml_str("tun"@), Seq::empty()),
        mwf(r.2@),
{
    let tun_key = Yaml::string("tun");
    let source_has_tun = config.contains_key(&tun_key);
    let empty = Mapping::new();
    let tun_default = crate::tun::mapping_or_clone(clash_config, &tun_key, &empty);
    let mut config = config;
    let ghost config0 = config@;
    let mut i: usize = 0;
    assert(clash_config@.take(0) =~= Seq::<(YamlV, YamlV)>::empty());
    while i < clash_config.len()
        invariant
            i <= clash_config@.len(),
            mwf(clash_config@),
            mwf(config@),
            tun_key@ == yaml_str("tun"@),
            config@ == overlay_except_tun(config0, clash_config@.take(i as int)),
        decreases clash_config@.len() - i,
    {
        let (k, v) = clash_config.entry(i);
        proof {
            assert(wf(clash_config@[i as int].0) && wf(clash_config@[i as int].1));
            let t = clash_config@.take(i + 1);
            assert(t.drop_last() =~= clash_config@.take(i as int));
            assert(t.last() == clash_config@[i as int]);
        }
        if !k.equals(&tun_key) {
            let key = k.deep_clone();
            let value = v.deep_clone();
            proof { lemma_insert_wf(config@, key@, value@); }
            config.insert(key, value);
        }
        i = i + 1;
    }
    assert(clash_config@.take(clash_config@.len() as int) =~= clash_config@);
    (config, source_has_tun, tun_default)
}

/// The core's own settings never touch the TUN entry: whatever the profile has
/// under `tun` stays as it was, so that the TUN section comes from one source.
pub proof fn overlay_keeps_profile_tun(config: Entries, clash: Entries)
    requires
        mwf(config),
        mwf(clash),
    ensures
        lookup(overlay_except_tun(config, clash), yaml_str("tun"@)) == lookup(config, yaml_str("tun"@)),
        mwf(overlay_except_tun(config, clash)),
    decreases clash.len(),
{
    if clash.len() > 0 {
        let rest = clash.drop_last();
        crate::yaml::lemma_drop_last(clash);
        overlay_keeps_profile_tun(config, rest);
        let prev = overlay_except_tun(config, rest);
        if clash.last().0 != yaml_str("tun"@) {
            lemma_insert_wf(prev, clash.last().0, clash.last().1);
        }
    }
}


/// The runtime configuration that the last steps build: the core's settings
/// laid over the profile's (its `tun` entry aside), the TUN section settled by
/// the TUN switch, and the merge rule, if there is one, laid over the result.
pub open spec fn runtime_config_spec(
    profile: Entries,
    clash: Entries,
    enable_tun: bool,
    windows: bool,
    merge_rule: Option<Entries>,
) -> Entries {
    let tuned = use_tun_spec(
        overlay_except_tun(profile, clash),
        enable_tun,
        has_key(profile, yaml_str("tun"@)),
        mapping_or(clash, yaml_str("tun"@), Seq::empty()),
        windows,
    );
    match merge_rule {
        Some(m) => deep_merge(tuned, m),
        None => tuned,
    }
}

/// Finishes the runtime configuration from the profile's configuration, the
/// core's own settings, the TUN switch and the parsed merge rule, as
/// [`runtime_config_spec`] states; `windows` selects the Windows-only DNS
/// fake-ip filter.
pub fn finish_runtime_config(
    profile_config: Mapping,
    clash_config: &Mapping,
    enable_tun: bool,
    windows: bool,
    merge_rule: Option<Mapping>,
) -> (r: Mapping)
    requires
        mwf(profile_config@),
        mwf(clash_config@),
        merge_rule matches Some(m) ==> mwf(m@),
    ensures
        mwf(r@),
        r@ == runtime_config_spec(
            profile_config@,
            clash_config@,
            enable_tun,
            windows,
            match merge_rule {
                Some(m) => Some(m@),
                None => None,
            },
        ),
{
    let (config, source_has_tun, clash_tun_default) = merge_clash_config(profile_config, clash_config);
    let config = use_tun_on(config, enable_tun, source_has_tun, clash_tun_default, windows);
    apply_external_merge_rule(config, merge_rule)
}

} // verus!
