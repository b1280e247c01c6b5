//! The external merge rule: a user mapping laid over the generated runtime
//! configuration, merging nested mappings key by key.
use vstd::prelude::*;
use crate::yaml::{
    Entries, Mapping, Yaml, YamlV, has_key, key_index, lemma_key_index, lemma_drop_last, lemma_insert_wf, lemma_lookup_wf,
    lemma_remove_wf, lookup, map_insert, map_remove, mwf, wf,
};
use crate::text::{blank, chars_of, is_blank, string_of};

verus! {

/// The value that `overlay_value` leaves under its key when laid over `old`:
/// two mappings merge, anything else is replaced.
pub open spec fn merge_value(old: Option<YamlV>, overlay_value: YamlV) -> YamlV
    decreases overlay_value, 0int,
{
    match (old, overlay_value) {
        (Some(YamlV::Mapping(bm)), YamlV::Mapping(om)) => YamlV::Mapping(deep_merge(bm, om)),
        (_, v) => v,
    }
}

/// `overlay` laid over `base`, entry by entry in the overlay's order.  Each
/// overlay key is removed from the base (the last entry takes its place) and then
/// inserted again, last, with its merged value.
pub open spec fn deep_merge(base: Entries, overlay: Entries) -> Entries
    decreases overlay, 1int,
{
    if overlay.len() == 0 {
        base
    } else {
        let prev = deep_merge(base, overlay.drop_last());
        let k = overlay.last().0;
        let v = overlay.last().1;
        proof {
            assert(decreases_to!(overlay => overlay[overlay.len() - 1]));
        }
        map_insert(map_remove(prev, k), k, merge_value(lookup(prev, k), v))
    }
}

/// What the merged mapping holds: the keys of both mappings; under an overlay key
/// the merged value, under any other key the base's value.
pub proof fn lemma_deep_merge_lookup(base: Entries, overlay: Entries)
    requires
        mwf(base),
        mwf(overlay),
    ensures
        mwf(deep_merge(base, overlay)),
        forall|k: YamlV| #[trigger] has_key(deep_merge(base, overlay), k) <==> has_key(base, k) || has_key(overlay, k),
        forall|k: YamlV|
            #[trigger] lookup(deep_merge(base, overlay), k) == if has_key(overlay, k) {
                Some(merge_value(lookup(base, k), lookup(overlay, k)->0))
            } else {
                lookup(base, k)
            },
    decreases overlay, 1int,
{
    if overlay.len() > 0 {
        let ol = overlay.drop_last();
        let k = overlay.last().0;
        let v = overlay.last().1;
        lemma_drop_last(overlay);
        assert(decreases_to!(overlay => ol));
        lemma_deep_merge_lookup(base, ol);
        let prev = deep_merge(base, ol);
        lemma_merge_value_wf(lookup(prev, k), v, prev, k, overlay);
        let merged = merge_value(lookup(prev, k), v);
        lemma_remove_wf(prev, k);
        lemma_insert_wf(map_remove(prev, k), k, merged);
        let r = deep_merge(base, overlay);
        assert(r == map_insert(map_remove(prev, k), k, merged));
        assert forall|k2: YamlV| #[trigger] has_key(r, k2) <==> has_key(base, k2) || has_key(overlay, k2) by {
            assert(has_key(r, k2) <==> has_key(map_remove(prev, k), k2) || k2 == k);
            assert(has_key(prev, k2) <==> has_key(base, k2) || has_key(ol, k2));
        }
        assert forall|k2: YamlV|
            #[trigger] lookup(r, k2) == if has_key(overlay, k2) {
                Some(merge_value(lookup(base, k2), lookup(overlay, k2)->0))
            } else {
                lookup(base, k2)
            } by {
            if k2 == k {
                assert(!has_key(ol, k));
                assert(lookup(prev, k) == lookup(base, k));
            } else {
                assert(lookup(r, k2) == lookup(map_remove(prev, k), k2));
                assert(lookup(map_remove(prev, k), k2) == lookup(prev, k2));
                assert(lookup(ol, k2) == lookup(overlay, k2));
                assert(has_key(overlay, k2) <==> has_key(ol, k2));
            }
        }
    }
}

/// The merged value of an overlay entry is well-formed.
proof fn lemma_merge_value_wf(old: Option<YamlV>, v: YamlV, prev: Entries, k: YamlV, overlay: Entries)
    requires
        mwf(prev),
        old == lookup(prev, k),
        wf(v),
        overlay.len() > 0,
        v == overlay.last().1,
    ensures
        wf(merge_value(old, v)),
    decreases overlay, 0int,
{
    match (old, v) {
        (Some(YamlV::Mapping(bm)), YamlV::Mapping(om)) => {
            lemma_lookup_wf(prev, k);
            assert(decreases_to!(overlay => overlay[overlay.len() - 1]));
            assert(decreases_to!(overlay => om));
            lemma_deep_merge_lookup(bm, om);
        },
        _ => {},
    }
}

/// Lays `overlay` over `base`: nested mappings merge key by key, any other overlay
/// value replaces the base's value.
pub fn deep_merge_mapping(base: Mapping, overlay: Mapping) -> (r: Mapping)
    requires
        mwf(base@),
        mwf(overlay@),
    ensures
        r@ == deep_merge(base@, overlay@),
        mwf(r@),
    decreases overlay@,
{
    let mut base = base;
    let ghost base0 = base@;
    let mut i: usize = 0;
    assert(overlay@.take(0) =~= Seq::<(YamlV, YamlV)>::empty());
    while i < overlay.len()
        invariant
            0 <= i <= overlay@.len(),
            mwf(base@),
            mwf(overlay@),
            base@ == deep_merge(base0, overlay@.take(i as int)),
        decreases overlay@.len() - i,
    {
        let (k, v) = overlay.entry(i);
        proof {
            assert(wf(overlay@[i as int].0) && wf(overlay@[i as int].1));
        }
        let key = k.deep_clone();
        let ov = v.deep_clone();
        let ghost prev = base@;
        let removed = base.remove(&key);
        let merged = match removed {
            Some(Yaml::Mapping(bm)) => match ov {
                Yaml::Mapping(om) => {
                    proof {
                        lemma_lookup_wf(prev, key@);
                        assert(decreases_to!(overlay@ => overlay@[i as int]));
                    }
                    Yaml::Mapping(deep_merge_mapping(bm, om))
                },
                other => other,
            },
            _ => ov,
        };
        proof {
            let t = overlay@.take(i + 1);
            assert(t.drop_last() =~= overlay@.take(i as int));
            assert(t.last() == overlay@[i as int]);
            assert(merged@ == merge_value(lookup(prev, key@), ov@));
            if lookup(prev, key@) is Some {
                lemma_lookup_wf(prev, key@);
            }
        }
        base.insert(key, merged);
        i = i + 1;
    }
    assert(overlay@.take(overlay@.len() as int) =~= overlay@);
    base
}

/// Equality of YAML values in which mappings are compared as maps: the same keys,
/// with equivalent values under each, whatever the order of the entries.
/// Sequences compare item by item and tagged values by tag and content.
pub open spec fn equiv(a: YamlV, b: YamlV) -> bool
    decreases a,
{
    match a {
        YamlV::Mapping(ma) => match b {
            YamlV::Mapping(mb) => {
                &&& forall|k: YamlV| #[trigger] has_key(ma, k) <==> #[trigger] has_key(mb, k)
                &&& forall|i: int|
                    0 <= i < ma.len() ==> equiv(#[trigger] ma[i].1, lookup(mb, ma[i].0)->0)
            },
            _ => false,
        },
        YamlV::Sequence(sa) => match b {
            YamlV::Sequence(sb) => sa.len() == sb.len() && forall|i: int|
                0 <= i < sa.len() ==> equiv(#[trigger] sa[i], sb[i]),
            _ => false,
        },
        YamlV::Tagged(ta, xa) => match b {
            YamlV::Tagged(tb, xb) => ta == tb && equiv(*xa, *xb),
            _ => false,
        },
        _ => a == b,
    }
}

/// Whether two values are equal as the configuration compares them: mappings
/// by their keys and the values under them, whatever the order of entries.
pub fn same_value(a: &Yaml, b: &Yaml) -> (r: bool)
    requires
        wf(a@),
        wf(b@),
    ensures
        r == equiv(a@, b@),
    decreases a@,
{
    match a {
        Yaml::Mapping(ma) => match b {
            Yaml::Mapping(mb) => same_mapping(ma, mb),
            _ => false,
        },
        Yaml::Sequence(sa) => match b {
            Yaml::Sequence(sb) => {
                proof {
                    crate::yaml::lemma_sequence_view(*sa);
                    crate::yaml::lemma_sequence_view(*sb);
                }
                let ghost va = crate::yaml::views(sa@);
                let ghost vb = crate::yaml::views(sb@);
                if sa.len() != sb.len() {
                    return false;
                }
                let mut i: usize = 0;
                while i < sa.len()
                    invariant
                        i <= sa@.len(),
                        sa@.len() == sb@.len(),
                        a@ == YamlV::Sequence(va),
                        b@ == YamlV::Sequence(vb),
                        va == crate::yaml::views(sa@),
                        vb == crate::yaml::views(sb@),
                        wf(a@),
                        wf(b@),
                        forall|j: int| 0 <= j < i ==> equiv(#[trigger] va[j], vb[j]),
                    decreases sa.len() - i,
                {
                    assert(va[i as int] == sa@[i as int]@);
                    assert(vb[i as int] == sb@[i as int]@);
                    assert(va.len() == sa@.len() && vb.len() == sb@.len());
                    assert(wf(YamlV::Sequence(va)));
                    assert(wf(YamlV::Sequence(vb)));
                    proof {
                        crate::yaml::lemma_wf_item(va, i as int);
                        crate::yaml::lemma_wf_item(vb, i as int);
                    }
                    assert(decreases_to!(a@ => (a@)->Sequence_0));
                    assert((a@)->Sequence_0 == va);
                    assert(decreases_to!(va => va[i as int]));
                    if !same_value(&sa[i], &sb[i]) {
                        return false;
                    }
                    i = i + 1;
                }
                true
            },
            _ => false,
        },
        Yaml::Tagged(ta, xa) => match b {
            Yaml::Tagged(tb, xb) => {
                if !ta.eq(tb) {
                    return false;
                }
                assert(decreases_to!(a@ => (*xa)@));
                same_value(&**xa, &**xb)
            },
            _ => false,
        },
        _ => a.equals(b),
    }
}

/// Whether two mappings hold the same keys with equal values under each, as
/// [`same_value`] compares values.
pub fn same_mapping(ma: &Mapping, mb: &Mapping) -> (r: bool)
    requires
        mwf(ma@),
        mwf(mb@),
    ensures
        r == equiv(YamlV::Mapping(ma@), YamlV::Mapping(mb@)),
    decreases ma@, 1int,
{
    let ghost a = YamlV::Mapping(ma@);
    let ghost b = YamlV::Mapping(mb@);
    let mut i: usize = 0;
    while i < ma.len()
        invariant
            i <= ma@.len(),
            mwf(ma@),
            mwf(mb@),
            a == YamlV::Mapping(ma@),
            b == YamlV::Mapping(mb@),
            forall|j: int|
                0 <= j < i ==> has_key(mb@, #[trigger] ma@[j].0) && equiv(ma@[j].1, lookup(mb@, ma@[j].0)->0),
        decreases ma@.len() - i,
    {
        let (k, v) = ma.entry(i);
        proof {
            assert(wf(ma@[i as int].0) && wf(ma@[i as int].1));
        }
        match mb.get(k) {
            None => {
                assert(!has_key(mb@, ma@[i as int].0));
                assert(has_key(ma@, ma@[i as int].0));
                return false;
            },
            Some(w) => {
                proof {
                    lemma_lookup_wf(mb@, k@);
                    assert(decreases_to!(ma@ => ma@[i as int]));
                    assert(decreases_to!(ma@[i as int] => ma@[i as int].1));
                }
                if !same_value(v, w) {
                    assert(!equiv(ma@[i as int].1, lookup(mb@, ma@[i as int].0)->0));
                    return false;
                }
            },
        }
        i = i + 1;
    }
    let mut j: usize = 0;
    while j < mb.len()
        invariant
            j <= mb@.len(),
            mwf(ma@),
            mwf(mb@),
            forall|m: int| 0 <= m < j ==> has_key(ma@, #[trigger] mb@[m].0),
        decreases mb@.len() - j,
    {
        let (k, _) = mb.entry(j);
        if !ma.contains_key(k) {
            assert(has_key(mb@, mb@[j as int].0));
            return false;
        }
        j = j + 1;
    }
    proof {
        assert forall|k: YamlV| #[trigger] has_key(ma@, k) <==> has_key(mb@, k) by {
            if has_key(ma@, k) {
                let x = choose|x: int| 0 <= x < ma@.len() && #[trigger] ma@[x].0 == k;
                assert(has_key(mb@, ma@[x].0));
            }
            if has_key(mb@, k) {
                let x = choose|x: int| 0 <= x < mb@.len() && #[trigger] mb@[x].0 == k;
                assert(has_key(ma@, mb@[x].0));
            }
        }
        assert forall|x: int| 0 <= x < ma@.len() implies equiv(#[trigger] ma@[x].1, lookup(mb@, ma@[x].0)->0) by {
            assert(has_key(mb@, ma@[x].0));
        }
    }
    true
}

/// Every well-formed value is equivalent to itself.
pub proof fn lemma_equiv_refl(a: YamlV)
    requires
        wf(a),
    ensures
        equiv(a, a),
    decreases a,
{
    match a {
        YamlV::Mapping(m) => {
            assert forall|i: int| 0 <= i < m.len() implies equiv(#[trigger] m[i].1, lookup(m, m[i].0)->0) by {
                lemma_key_index(m, m[i].0, i);
                assert(wf(m[i].0) && wf(m[i].1));
                assert(decreases_to!(a => m[i]));
                lemma_equiv_refl(m[i].1);
            }
        },
        YamlV::Sequence(s) => {
            assert forall|i: int| 0 <= i < s.len() implies equiv(#[trigger] s[i], s[i]) by {
                assert(decreases_to!(a => s[i]));
                lemma_equiv_refl(s[i]);
            }
        },
        YamlV::Tagged(t, x) => {
            lemma_equiv_refl(*x);
        },
        _ => {},
    }
}

/// Two well-formed mappings with the same keys and equivalent values under each
/// key are equivalent.
pub proof fn lemma_equiv_from_lookup(ma: Entries, mb: Entries)
    requires
        mwf(ma),
        mwf(mb),
        forall|k: YamlV| #[trigger] has_key(ma, k) <==> has_key(mb, k),
        forall|k: YamlV| #[trigger] has_key(ma, k) ==> equiv(lookup(ma, k)->0, lookup(mb, k)->0),
    ensures
        equiv(YamlV::Mapping(ma), YamlV::Mapping(mb)),
{
    assert forall|i: int| 0 <= i < ma.len() implies equiv(#[trigger] ma[i].1, lookup(mb, ma[i].0)->0) by {
        let k = ma[i].0;
        lemma_key_index(ma, k, i);
    }
    let a = YamlV::Mapping(ma);
    let b = YamlV::Mapping(mb);
    assert(equiv(a, b));
}

/// A mapping laid over itself is the same mapping.
pub proof fn lemma_self_merge(x: Entries)
    requires
        mwf(x),
    ensures
        equiv(YamlV::Mapping(deep_merge(x, x)), YamlV::Mapping(x)),
    decreases x,
{
    lemma_deep_merge_lookup(x, x);
    let r = deep_merge(x, x);
    assert forall|k: YamlV| #[trigger] has_key(r, k) implies equiv(lookup(r, k)->0, lookup(x, k)->0) by {
        let i = key_index(x, k);
        lemma_key_index(x, k, i);
        lemma_lookup_wf(x, k);
        match x[i].1 {
            YamlV::Mapping(xm) => {
                assert(decreases_to!(x => x[i]));
                lemma_self_merge(xm);
            },
            _ => {
                lemma_equiv_refl(x[i].1);
            },
        }
    }
    lemma_equiv_from_lookup(r, x);
}

/// Laying the same overlay a second time changes nothing: the result equals the
/// first merge, compared as the configuration's mappings compare.
pub proof fn deep_merge_is_idempotent(base: Entries, overlay: Entries)
    requires
        mwf(base),
        mwf(overlay),
    ensures
        equiv(
            YamlV::Mapping(deep_merge(deep_merge(base, overlay), overlay)),
            YamlV::Mapping(deep_merge(base, overlay)),
        ),
    decreases overlay,
{
    let once = deep_merge(base, overlay);
    lemma_deep_merge_lookup(base, overlay);
    lemma_deep_merge_lookup(once, overlay);
    let twice = deep_merge(once, overlay);
    assert forall|k: YamlV| #[trigger] has_key(twice, k) <==> has_key(once, k) by {}
    assert forall|k: YamlV| #[trigger] has_key(twice, k) implies equiv(lookup(twice, k)->0, lookup(once, k)->0) by {
        if has_key(overlay, k) {
            let j = key_index(overlay, k);
            lemma_key_index(overlay, k, j);
            lemma_lookup_wf(overlay, k);
            let ov = overlay[j].1;
            match ov {
                YamlV::Mapping(om) => {
                    assert(decreases_to!(overlay => overlay[j]));
                    match lookup(base, k) {
                        Some(YamlV::Mapping(bm)) => {
                            lemma_lookup_wf(base, k);
                            deep_merge_is_idempotent(bm, om);
                        },
                        _ => {
                            lemma_self_merge(om);
                        },
                    }
                },
                _ => {
                    lemma_equiv_refl(ov);
                },
            }
        } else {
            lemma_lookup_wf(once, k);
            lemma_equiv_refl(lookup(once, k)->0);
        }
    }
    lemma_equiv_from_lookup(twice, once);
}

// ---------------------------------------------------------------------------
// The merge rule file
// ---------------------------------------------------------------------------

/// The name of the merge rule file, which sits beside the executable.
pub open spec fn merge_rule_file_name() -> Seq<char> {
    "merge-rule.yaml"@
}

/// A path separator, of either Windows or Unix style.
pub open spec fn is_path_sep(c: char) -> bool {
    c == '/' || c == '\\'
}

/// The path without its trailing separators.
pub open spec fn trim_trailing_seps(s: Seq<char>) -> Seq<char>
    decreases s.len(),
{
    if s.len() > 0 && is_path_sep(s.last()) {
        trim_trailing_seps(s.drop_last())
    } else {
        s
    }
}

/// The position of the last separator, or -1 when there is none.
pub open spec fn last_sep(s: Seq<char>) -> int
    decreases s.len(),
{
    if s.len() == 0 {
        -1
    } else if is_path_sep(s.last()) {
        s.len() - 1
    } else {
        last_sep(s.drop_last())
    }
}

/// The merge rule file in the directory of the executable at `exe`: the
/// directory part of `exe` joined with the file name.  A path with no
/// directory part gives the bare file name; an empty path, or one made of
/// separators alone, has no parent and gives nothing.
pub open spec fn merge_rule_path(exe: Seq<char>) -> Option<Seq<char>> {
    let t = trim_trailing_seps(exe);
    if t.len() == 0 {
        None
    } else if last_sep(t) < 0 {
        Some(merge_rule_file_name())
    } else {
        let i = last_sep(t);
        Some(trim_trailing_seps(t.take(i)) + seq![t[i]] + merge_rule_file_name())
    }
}

fn sep(c: char) -> (r: bool)
    ensures
        r == is_path_sep(c),
{
    c == '/' || c == '\\'
}

/// The length of `s@.take(end)` once its trailing separators are trimmed.
fn trimmed_len(s: &Vec<char>, end: usize) -> (r: usize)
    requires
        end <= s@.len(),
    ensures
        r <= end,
        s@.take(r as int) == trim_trailing_seps(s@.take(end as int)),
{
    let mut n = end;
    while n > 0 && sep(s[n - 1])
        invariant
            n <= end <= s@.len(),
            trim_trailing_seps(s@.take(n as int)) == trim_trailing_seps(s@.take(end as int)),
        decreases n,
    {
        assert(s@.take(n as int).drop_last() =~= s@.take(n - 1));
        n = n - 1;
    }
    if n > 0 {
        assert(s@.take(n as int).last() == s@[n - 1]);
    } else {
        assert(s@.take(0) =~= Seq::<char>::empty());
    }
    n
}

/// The position of the last separator in `s@.take(end)`.
fn last_sep_index(s: &Vec<char>, end: usize) -> (r: Option<usize>)
    requires
        end <= s@.len(),
    ensures
        match r {
            Some(i) => i < end && last_sep(s@.take(end as int)) == i,
            None => last_sep(s@.take(end as int)) < 0,
        },
{
    let mut n = end;
    while n > 0
        invariant
            n <= end <= s@.len(),
            last_sep(s@.take(n as int)) == last_sep(s@.take(end as int)),
        decreases n,
    {
        assert(s@.take(n as int).last() == s@[n - 1]);
        if sep(s[n - 1]) {
            return Some(n - 1);
        }
        assert(s@.take(n as int).drop_last() =~= s@.take(n - 1));
        n = n - 1;
    }
    None
}

/// The merge rule file beside the executable at `exe_path`.
#[verifier::spinoff_prover]
#[verifier::rlimit(40)]
pub fn external_merge_rule_path_from(exe_path: &str) -> (r: Option<String>)
    ensures
        match r {
            Some(p) => merge_rule_path(exe_path@) == Some(p@),
            None => merge_rule_path(exe_path@) is None,
        },
{
    let cs = chars_of(exe_path);
    let n = trimmed_len(&cs, cs.len());
    assert(cs@.take(cs@.len() as int) =~= cs@);
    let ghost t = cs@.take(n as int);
    if n == 0 {
        return None;
    }
    let name = chars_of("merge-rule.yaml");
    match last_sep_index(&cs, n) {
        None => Some(string_of(name.as_slice())),
        Some(i) => {
            assert(t[i as int] == cs@[i as int]);
            let d = trimmed_len(&cs, i);
            assert(t.take(i as int) =~= cs@.take(i as int));
            let mut out: Vec<char> = Vec::new();
            let mut j: usize = 0;
            while j < d
                invariant
                    j <= d <= i < n <= cs@.len(),
                    out@ == cs@.take(j as int),
                decreases d - j,
            {
                out.push(cs[j]);
                assert(cs@.take(j + 1) =~= cs@.take(j as int).push(cs@[j as int]));
                j = j + 1;
            }
            out.push(cs[i]);
            let mut k: usize = 0;
            let ghost prefix = out@;
            while k < name.len()
                invariant
                    k <= name@.len(),
                    out@ == prefix + name@.take(k as int),
                decreases name.len() - k,
            {
                out.push(name[k]);
                assert(name@.take(k + 1) =~= name@.take(k as int).push(name@[k as int]));
                k = k + 1;
            }
            assert(name@.take(name@.len() as int) =~= name@);
            assert(out@ =~= trim_trailing_seps(t.take(i as int)) + seq![t[i as int]] + merge_rule_file_name());
            Some(string_of(out.as_slice()))
        },
    }
}

/// The text of the merge rule file written when none exists.
pub open spec fn merge_rule_template() -> Seq<char> {
    "# Clash Verge Buty external merge override file\n# This file is loaded after the runtime config is generated.\n# Values here override the generated runtime config.\n#\n# Example for TUN troubleshooting:\n#\n# ipv6: false\n#\n# dns:\n#   ipv6: false\n#\n# tun:\n#   route-exclude-address:\n#     - 223.5.5.5/32\n#     - 223.6.6.6/32\n#\n# Optional: bind outbound traffic to a physical interface.\n# Do not enable this unless you know your interface name.\n#\n# interface-name: WLAN\n"@
}

pub fn external_merge_rule_template() -> (r: &'static str)
    ensures
        r@ == merge_rule_template(),
{
    "# Clash Verge Buty external merge override file\n# This file is loaded after the runtime config is generated.\n# Values here override the generated runtime config.\n#\n# Example for TUN troubleshooting:\n#\n# ipv6: false\n#\n# dns:\n#   ipv6: false\n#\n# tun:\n#   route-exclude-address:\n#     - 223.5.5.5/32\n#     - 223.6.6.6/32\n#\n# Optional: bind outbound traffic to a physical interface.\n# Do not enable this unless you know your interface name.\n#\n# interface-name: WLAN\n"
}

/// What to write to the merge rule file: the template when the file does not
/// exist, nothing when it does, so that a user's file is never overwritten.
pub fn ensure_external_merge_rule_template_exists(file_exists: bool) -> (r: Option<&'static str>)
    ensures
        file_exists ==> r is None,
        !file_exists ==> r is Some && r->0@ == merge_rule_template(),
{
    if file_exists {
        None
    } else {
        Some(external_merge_rule_template())
    }
}

/// The merge rule given by the text of its file (`None` when there is no file
/// or it cannot be read) and the YAML value that text parses to (`None` when it
/// does not parse): no file, a blank file, a file that does not parse and a file
/// whose root is not a mapping give no rule.
pub fn load_external_merge_rule(content: Option<&str>, parsed: Option<Yaml>) -> (r: Option<Mapping>)
    ensures
        r == (match content {
            None => None,
            Some(c) => if is_blank(c@) {
                None
            } else {
                match parsed {
                    Some(Yaml::Mapping(m)) => Some(m),
                    _ => None,
                }
            },
        }),
{
    let text = match content {
        None => return None,
        Some(c) => c,
    };
    if blank(text) {
        return None;
    }
    match parsed {
        Some(Yaml::Mapping(m)) => Some(m),
        _ => None,
    }
}

/// The configuration with the merge rule, if there is one, laid over it.
pub fn apply_external_merge_rule(config: Mapping, merge_rule: Option<Mapping>) -> (r: Mapping)
    requires
        mwf(config@),
        merge_rule matches Some(m) ==> mwf(m@),
    ensures
        mwf(r@),
        r@ == match merge_rule {
            Some(m) => deep_merge(config@, m@),
            None => config@,
        },
{
    match merge_rule {
        Some(rule) => deep_merge_mapping(config, rule),
        None => config,
    }
}

} // verus!
