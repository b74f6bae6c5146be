//! What the wizard writes: the packages of the environment resolver built
//! from its choices, and the scheduler part that holds the scratch location.
use crate::text::{decimal, from_chars, str_eq, to_chars, u32_to_decimal};
use crate::wizard::{
    blender_view, houdini_view, BlenderVersion, DccView, HoudiniVersion, HoudiniView, WizardData,
};
use crate::wizard_config::{
    entries_view, package_versions_view, packages_view, scratch_of, EnvAction, EnvConfig,
    EnvConfigView, Package, PackageView, StringOrList, package_view,
};
use crate::config_data::TomlValue;
use vstd::prelude::*;

verus! {

/// A list of pairs read as a map: each pair inserted in turn, so the last
/// pair with a key wins.
pub open spec fn assoc_map<V>(s: Seq<(Seq<char>, V)>) -> Map<Seq<char>, V>
    decreases s.len(),
{
    if s.len() == 0 {
        Map::empty()
    } else {
        assoc_map(s.drop_last()).insert(s.last().0, s.last().1)
    }
}

/// No key occurs twice.
pub open spec fn keys_unique<V>(s: Seq<(Seq<char>, V)>) -> bool {
    forall|i: int, j: int| 0 <= i < j < s.len() ==> s[i].0 != s[j].0
}

/// With distinct keys, the map holds exactly the pairs of the list.
pub proof fn lemma_assoc_map_unique<V>(s: Seq<(Seq<char>, V)>)
    requires
        keys_unique(s),
    ensures
        forall|i: int| 0 <= i < s.len() ==> #[trigger] assoc_map(s).contains_key(s[i].0)
            && assoc_map(s)[s[i].0] == s[i].1,
        forall|k: Seq<char>|
            #[trigger] assoc_map(s).contains_key(k) ==> exists|i: int| 0 <= i < s.len() && s[i].0 == k,
    decreases s.len(),
{
    if s.len() > 0 {
        let t = s.drop_last();
        assert(keys_unique(t));
        lemma_assoc_map_unique(t);
        assert forall|k: Seq<char>| #[trigger] assoc_map(s).contains_key(k) implies exists|i: int|
            0 <= i < s.len() && s[i].0 == k by {
            if k != s.last().0 {
                assert(assoc_map(t).contains_key(k));
                let i = choose|i: int| 0 <= i < t.len() && t[i].0 == k;
                assert(s[i].0 == k);
            } else {
                assert(s[s.len() - 1].0 == k);
            }
        }
        assert forall|i: int| 0 <= i < s.len() implies #[trigger] assoc_map(s).contains_key(s[i].0)
            && assoc_map(s)[s[i].0] == s[i].1 by {
            if i < s.len() - 1 {
                assert(t[i] == s[i]);
                assert(assoc_map(t).contains_key(t[i].0));
                assert(s[i].0 != s.last().0);
            }
        }
    }
}

/// The version name of a version: `<major>.<minor>.<build>`.
pub open spec fn version_key(t: (u32, u32, u32)) -> Seq<char> {
    decimal(t.0 as nat) + "."@ + decimal(t.1 as nat) + "."@ + decimal(t.2 as nat)
}

/// The package name of the Houdini versions with Python `py`: `houdini.py<major>_<minor>`.
pub open spec fn houdini_package_name(py: (u32, u32)) -> Seq<char> {
    "houdini.py"@ + decimal(py.0 as nat) + "_"@ + decimal(py.1 as nat)
}

/// The label of a Houdini package.
pub open spec fn houdini_label(t: (u32, u32, u32)) -> Seq<char> {
    "SideFX Houdini version "@ + version_key(t)
}

/// A package that prepends one directory to `PATH`.
pub open spec fn path_package_view(label: Seq<char>, bin: Seq<char>) -> PackageView {
    (Some(label), Some(seq![("PATH"@, (None, Some((false, seq![bin])), None))]))
}

/// The versions of the Houdini package `name`: each Houdini installation of
/// that package inserted in turn under its version name.
pub open spec fn houdini_group(hs: Seq<HoudiniView>, name: Seq<char>) -> Map<Seq<char>, PackageView>
    decreases hs.len(),
{
    if hs.len() == 0 {
        Map::empty()
    } else {
        let g = houdini_group(hs.drop_last(), name);
        let h = hs.last();
        if houdini_package_name(h.1) == name {
            g.insert(version_key(h.2), path_package_view(houdini_label(h.2), h.0))
        } else {
            g
        }
    }
}

/// The versions of the Blender package.
pub open spec fn blender_group(bs: Seq<DccView>) -> Map<Seq<char>, PackageView>
    decreases bs.len(),
{
    if bs.len() == 0 {
        Map::empty()
    } else {
        blender_group(bs.drop_last()).insert(
            version_key(bs.last().1),
            path_package_view("Blender"@, bs.last().0),
        )
    }
}

/// The names of the Houdini packages.
pub open spec fn houdini_names(hs: Seq<HoudiniView>) -> Set<Seq<char>> {
    Set::new(|n: Seq<char>| exists|i: int| 0 <= i < hs.len() && houdini_package_name(hs[i].1) == n)
}

/// The packages that the wizard writes for Houdini installations `hs` and
/// Blender installations `bs`: one package per Python version of Houdini, and
/// `blender` where there is a Blender installation.
pub open spec fn written_packages(hs: Seq<HoudiniView>, bs: Seq<DccView>) -> Map<
    Seq<char>,
    Map<Seq<char>, PackageView>,
> {
    let m = Map::new(|n: Seq<char>| houdini_names(hs).contains(n), |n: Seq<char>| houdini_group(hs, n));
    if bs.len() > 0 {
        m.insert("blender"@, blender_group(bs))
    } else {
        m
    }
}

/// The packages of a configuration as a map of maps.
pub open spec fn config_map(c: EnvConfigView) -> Map<Seq<char>, Map<Seq<char>, PackageView>> {
    assoc_map(
        c.map_values(
            |e: (Seq<char>, Seq<(Seq<char>, PackageView)>)| (e.0, assoc_map(e.1)),
        ),
    )
}

/// No package name twice, and no version name twice within a package.
pub open spec fn config_keys_unique(c: EnvConfigView) -> bool {
    &&& keys_unique(c)
    &&& forall|i: int| 0 <= i < c.len() ==> keys_unique(#[trigger] c[i].1)
}

fn version_key_text(t: (u32, u32, u32)) -> (r: String)
    ensures
        r@ == version_key(t),
{
    let mut out: Vec<char> = Vec::new();
    u32_to_decimal(t.0, &mut out);
    out.push('.');
    u32_to_decimal(t.1, &mut out);
    out.push('.');
    u32_to_decimal(t.2, &mut out);
    proof {
        reveal_strlit(".");
    }
    assert(out@ =~= version_key(t));
    from_chars(&out)
}

fn houdini_package_name_text(py: (u32, u32)) -> (r: String)
    ensures
        r@ == houdini_package_name(py),
{
    let mut out = to_chars("houdini.py");
    u32_to_decimal(py.0, &mut out);
    out.push('_');
    u32_to_decimal(py.1, &mut out);
    proof {
        reveal_strlit("_");
    }
    assert(out@ =~= houdini_package_name(py));
    from_chars(&out)
}

fn path_package(label: String, bin: &str) -> (r: Package)
    ensures
        package_view(r) == path_package_view(label@, bin@),
{
    let action = EnvAction {
        append: None,
        prepend: Some(StringOrList::String(bin.to_owned())),
        set: None,
    };
    let mut env: Vec<(String, EnvAction)> = Vec::new();
    env.push(("PATH".to_owned(), action));
    let r = Package { label: Some(label), env: Some(env) };
    assert(package_view(r).1->0 =~= seq![("PATH"@, (None, Some((false, seq![bin@])), None))]);
    r
}

/// Insert a version under `key`, replacing the one already there.
fn insert_version(g: &mut Vec<(String, Package)>, key: String, p: Package)
    requires
        keys_unique(package_versions_view(old(g)@)),
    ensures
        keys_unique(package_versions_view(final(g)@)),
        assoc_map(package_versions_view(final(g)@)) == assoc_map(
            package_versions_view(old(g)@),
        ).insert(key@, package_view(p)),
{
    let ghost old_v = package_versions_view(g@);
    let mut i: usize = 0;
    while i < g.len()
        invariant
            i <= g@.len(),
            old_v == package_versions_view(g@),
            g@ == old(g)@,
            keys_unique(old_v),
            forall|j: int| 0 <= j < i ==> (#[trigger] g@[j]).0@ != key@,
        decreases g@.len() - i,
    {
        if str_eq(g[i].0.as_str(), key.as_str()) {
            let ghost kv = key@;
            let ghost pv = package_view(p);
            g.set(i, (key, p));
            let ghost new_v = package_versions_view(g@);
            assert(new_v =~= old_v.update(i as int, (kv, pv)));
            assert(keys_unique(new_v)) by {
                assert forall|a: int, b: int| 0 <= a < b < new_v.len() implies new_v[a].0
                    != new_v[b].0 by {
                    assert(old_v[a].0 != old_v[b].0);
                }
            }
            proof {
                lemma_assoc_map_unique(old_v);
                lemma_assoc_map_unique(new_v);
                assert(assoc_map(new_v) =~= assoc_map(old_v).insert(kv, pv)) by {
                    assert forall|k: Seq<char>| #[trigger] assoc_map(new_v).contains_key(k)
                        <==> assoc_map(old_v).insert(kv, pv).contains_key(k) by {
                        if assoc_map(new_v).contains_key(k) {
                            let j = choose|j: int| 0 <= j < new_v.len() && new_v[j].0 == k;
                            if j != i {
                                assert(old_v[j].0 == k);
                                assert(assoc_map(old_v).contains_key(old_v[j].0));
                            }
                        }
                        if assoc_map(old_v).contains_key(k) && k != kv {
                            let j = choose|j: int| 0 <= j < old_v.len() && old_v[j].0 == k;
                            assert(new_v[j].0 == k);
                            assert(assoc_map(new_v).contains_key(new_v[j].0));
                        }
                        if k == kv {
                            assert(assoc_map(new_v).contains_key(new_v[i as int].0));
                        }
                    }
                    assert forall|k: Seq<char>| #[trigger] assoc_map(new_v).contains_key(k)
                        implies assoc_map(new_v)[k] == assoc_map(old_v).insert(kv, pv)[k] by {
                        let j = choose|j: int| 0 <= j < new_v.len() && new_v[j].0 == k;
                        assert(assoc_map(new_v).contains_key(new_v[j].0));
                        if j != i {
                            assert(new_v[j].0 != new_v[i as int].0);
                            assert(old_v[j] == new_v[j]);
                            assert(assoc_map(old_v).contains_key(old_v[j].0));
                        }
                    }
                }
            }
            return;
        }
        i = i + 1;
    }
    let ghost kv = key@;
    let ghost pv = package_view(p);
    g.push((key, p));
    let ghost new_v = package_versions_view(g@);
    assert(new_v =~= old_v.push((kv, pv)));
    assert(new_v.drop_last() =~= old_v);
    assert(keys_unique(new_v)) by {
        assert forall|a: int, b: int| 0 <= a < b < new_v.len() implies new_v[a].0 != new_v[b].0 by {
            if b == new_v.len() - 1 {
                assert(g@[a].0@ != kv);
            } else {
                assert(old_v[a].0 != old_v[b].0);
            }
        }
    }
}

fn houdini_label_text(t: (u32, u32, u32)) -> (r: String)
    ensures
        r@ == houdini_label(t),
{
    let mut out = to_chars("SideFX Houdini version ");
    let k = version_key_text(t);
    let kc = to_chars(k.as_str());
    let mut i: usize = 0;
    let ghost start = out@;
    while i < kc.len()
        invariant
            i <= kc@.len(),
            out@ == start + kc@.take(i as int),
        decreases kc@.len() - i,
    {
        out.push(kc[i]);
        assert(kc@.take(i as int + 1) =~= kc@.take(i as int).push(kc@[i as int]));
        i = i + 1;
    }
    assert(kc@.take(kc@.len() as int) =~= kc@);
    from_chars(&out)
}

/// The names of the Houdini packages of `hs`, one per installation.
fn houdini_names_of(hs: &Vec<HoudiniVersion>) -> (r: Vec<String>)
    ensures
        r@.len() == hs@.len(),
        forall|i: int| 0 <= i < hs@.len() ==> (#[trigger] r@[i])@ == houdini_package_name(
            hs@[i].python_version,
        ),
{
    let mut r: Vec<String> = Vec::new();
    let mut i: usize = 0;
    while i < hs.len()
        invariant
            i <= hs@.len(),
            r@.len() == i,
            forall|j: int| 0 <= j < i ==> (#[trigger] r@[j])@ == houdini_package_name(
                hs@[j].python_version,
            ),
        decreases hs@.len() - i,
    {
        r.push(houdini_package_name_text(hs[i].python_version));
        i = i + 1;
    }
    r
}

fn houdini_group_from(hs: &Vec<HoudiniVersion>, names: &Vec<String>, name: &str) -> (r: Vec<
    (String, Package),
>)
    requires
        names@.len() == hs@.len(),
        forall|i: int| 0 <= i < hs@.len() ==> (#[trigger] names@[i])@ == houdini_package_name(
            hs@[i].python_version,
        ),
    ensures
        keys_unique(package_versions_view(r@)),
        assoc_map(package_versions_view(r@)) == houdini_group(houdini_view(hs@), name@),
{
    let ghost hv = houdini_view(hs@);
    let mut g: Vec<(String, Package)> = Vec::new();
    let mut i: usize = 0;
    assert(assoc_map(package_versions_view(g@)) =~= houdini_group(hv.take(0), name@));
    while i < hs.len()
        invariant
            i <= hs@.len(),
            hv == houdini_view(hs@),
            names@.len() == hs@.len(),
            forall|j: int| 0 <= j < hs@.len() ==> (#[trigger] names@[j])@ == houdini_package_name(
                hs@[j].python_version,
            ),
            keys_unique(package_versions_view(g@)),
            assoc_map(package_versions_view(g@)) == houdini_group(hv.take(i as int), name@),
        decreases hs@.len() - i,
    {
        assert(hv.take(i as int + 1).drop_last() =~= hv.take(i as int));
        assert(hv.take(i as int + 1).last() == hv[i as int]);
        assert(names@[i as int]@ == houdini_package_name(hs@[i as int].python_version));
        if str_eq(names[i].as_str(), name) {
            let h = &hs[i];
            let key = version_key_text(h.version);
            let label = houdini_label_text(h.version);
            let p = path_package(label, h.bin_path.as_str());
            insert_version(&mut g, key, p);
        }
        i = i + 1;
    }
    assert(hv.take(hs@.len() as int) =~= hv);
    g
}

fn blender_group_from(bs: &Vec<BlenderVersion>) -> (r: Vec<(String, Package)>)
    ensures
        keys_unique(package_versions_view(r@)),
        assoc_map(package_versions_view(r@)) == blender_group(blender_view(bs@)),
{
    let ghost bv = blender_view(bs@);
    let mut g: Vec<(String, Package)> = Vec::new();
    let mut i: usize = 0;
    assert(assoc_map(package_versions_view(g@)) =~= blender_group(bv.take(0)));
    while i < bs.len()
        invariant
            i <= bs@.len(),
            bv == blender_view(bs@),
            keys_unique(package_versions_view(g@)),
            assoc_map(package_versions_view(g@)) == blender_group(bv.take(i as int)),
        decreases bs@.len() - i,
    {
        assert(bv.take(i as int + 1).drop_last() =~= bv.take(i as int));
        assert(bv.take(i as int + 1).last() == bv[i as int]);
        let b = &bs[i];
        let key = version_key_text(b.version);
        let p = path_package("Blender".to_owned(), b.bin_path.as_str());
        insert_version(&mut g, key, p);
        i = i + 1;
    }
    assert(bv.take(bs@.len() as int) =~= bv);
    g
}

proof fn lemma_houdini_name_not_blender(py: (u32, u32))
    ensures
        houdini_package_name(py) != "blender"@,
{
    reveal_strlit("houdini.py");
    reveal_strlit("blender");
    assert(houdini_package_name(py)[0] == 'h');
}

/// Some element of `d` has the text `n`.
pub open spec fn listed(d: Seq<String>, n: Seq<char>) -> bool {
    exists|k: int| 0 <= k < d.len() && d[k]@ == n
}

/// One of the first `i` texts of `nv` is `n`.
pub open spec fn seen_before(nv: Seq<Seq<char>>, i: int, n: Seq<char>) -> bool {
    exists|j: int| 0 <= j < i && nv[j] == n
}

impl WizardData {
    /// The environment configuration that the wizard writes for its choices:
    /// a package `houdini.py<major>_<minor>` per Python version of the chosen
    /// Houdini installations and a `blender` package where Blender
    /// installations are chosen; each version, named `<major>.<minor>.<build>`,
    /// has a label and prepends its `bin` directory to `PATH`. A later
    /// installation with the same package and version name replaces an earlier one.
    pub fn env_config(&self) -> (r: EnvConfig)
        ensures
            config_keys_unique(packages_view(r.packages@)),
            config_map(packages_view(r.packages@)) == written_packages(
                houdini_view(self.houdini_versions@),
                blender_view(self.blender_versions@),
            ),
    {
        let ghost hv = houdini_view(self.houdini_versions@);
        let ghost bv = blender_view(self.blender_versions@);
        let names = houdini_names_of(&self.houdini_versions);
        let ghost nv = names@.map_values(|x: String| x@);
        // the distinct package names, in order of first appearance
        let mut distinct: Vec<String> = Vec::new();
        let mut i: usize = 0;
        while i < names.len()
            invariant
                i <= names@.len(),
                nv == names@.map_values(|x: String| x@),
                forall|a: int, b: int| 0 <= a < b < distinct@.len() ==> distinct@[a]@ != distinct@[b]@,
                forall|j: int| 0 <= j < i ==> listed(distinct@, #[trigger] nv[j]),
                forall|k: int| 0 <= k < distinct@.len() ==> seen_before(nv, i as int, #[trigger] distinct@[k]@),
            decreases names@.len() - i,
        {
            let mut seen = false;
            let mut k: usize = 0;
            while k < distinct.len()
                invariant
                    k <= distinct@.len(),
                    i < names@.len(),
                    seen ==> exists|m: int| 0 <= m < distinct@.len() && distinct@[m]@ == names@[i as int]@,
                    !seen ==> forall|m: int| 0 <= m < k ==> distinct@[m]@ != names@[i as int]@,
                decreases distinct@.len() - k,
            {
                if str_eq(distinct[k].as_str(), names[i].as_str()) {
                    seen = true;
                }
                k = k + 1;
            }
            assert(nv[i as int] == names@[i as int]@);
            if !seen {
                let ghost before = distinct@;
                distinct.push(names[i].clone());
                assert(distinct@[before.len() as int]@ == nv[i as int]);
                assert forall|k2: int| 0 <= k2 < distinct@.len() implies seen_before(
                    nv,
                    i + 1,
                    #[trigger] distinct@[k2]@,
                ) by {
                    if k2 < before.len() {
                        assert(distinct@[k2] == before[k2]);
                        assert(seen_before(nv, i as int, before[k2]@));
                    } else {
                        assert(nv[i as int] == distinct@[k2]@);
                    }
                }
                assert forall|j: int| 0 <= j < i + 1 implies listed(distinct@, #[trigger] nv[j]) by {
                    if j < i {
                        assert(listed(before, nv[j]));
                        let k2 = choose|k2: int| 0 <= k2 < before.len() && before[k2]@ == nv[j];
                        assert(distinct@[k2] == before[k2]);
                    } else {
                        assert(distinct@[before.len() as int]@ == nv[j]);
                    }
                }
            } else {
                assert(listed(distinct@, nv[i as int]));
                assert forall|k2: int| 0 <= k2 < distinct@.len() implies seen_before(
                    nv,
                    i + 1,
                    #[trigger] distinct@[k2]@,
                ) by {
                    assert(seen_before(nv, i as int, distinct@[k2]@));
                }
            }
            i = i + 1;
        }
        // one package per distinct name
        let mut packages: Vec<(String, Vec<(String, Package)>)> = Vec::new();
        let mut m: usize = 0;
        while m < distinct.len()
            invariant
                m <= distinct@.len(),
                hv == houdini_view(self.houdini_versions@),
                names@.len() == self.houdini_versions@.len(),
                forall|j: int| 0 <= j < self.houdini_versions@.len() ==> (#[trigger] names@[j])@
                    == houdini_package_name(self.houdini_versions@[j].python_version),
                packages@.len() == m,
                forall|q: int|
                    0 <= q < m ==> (#[trigger] packages@[q]).0@ == distinct@[q]@ && keys_unique(
                        package_versions_view(packages@[q].1@),
                    ) && assoc_map(package_versions_view(packages@[q].1@)) == houdini_group(
                        hv,
                        distinct@[q]@,
                    ),
            decreases distinct@.len() - m,
        {
            let g = houdini_group_from(&self.houdini_versions, &names, distinct[m].as_str());
            packages.push((distinct[m].clone(), g));
            m = m + 1;
        }
        let has_blender = self.blender_versions.len() > 0;
        if has_blender {
            let g = blender_group_from(&self.blender_versions);
            packages.push(("blender".to_owned(), g));
        }
        let r = EnvConfig { packages };
        proof {
            let pv = packages_view(r.packages@);
            let mv = pv.map_values(
                |e: (Seq<char>, Seq<(Seq<char>, PackageView)>)| (e.0, assoc_map(e.1)),
            );
            let nd = distinct@.len() as int;
            // every distinct name is a Houdini package name, so none is `blender`
            assert forall|q: int| 0 <= q < nd implies houdini_names(hv).contains(
                #[trigger] distinct@[q]@,
            ) && distinct@[q]@ != "blender"@ by {
                assert(seen_before(nv, names@.len() as int, distinct@[q]@));
                let j = choose|j: int| 0 <= j < names@.len() && nv[j] == distinct@[q]@;
                assert(names@[j]@ == nv[j]);
                assert(hv[j].1 == self.houdini_versions@[j].python_version);
                lemma_houdini_name_not_blender(hv[j].1);
            }
            assert(keys_unique(pv)) by {
                assert forall|a: int, b: int| 0 <= a < b < pv.len() implies pv[a].0 != pv[b].0 by {
                    if b < nd {
                        assert(packages@[a].0@ == distinct@[a]@);
                        assert(packages@[b].0@ == distinct@[b]@);
                    } else {
                        assert(packages@[a].0@ == distinct@[a]@);
                        assert(houdini_names(hv).contains(distinct@[a]@));
                    }
                }
            }
            assert forall|q: int| 0 <= q < pv.len() implies keys_unique(#[trigger] pv[q].1) by {
                if q < nd {
                    assert(packages@[q].0@ == distinct@[q]@);
                }
            }
            assert(keys_unique(mv)) by {
                assert forall|a: int, b: int| 0 <= a < b < mv.len() implies mv[a].0 != mv[b].0 by {
                    assert(mv[a].0 == pv[a].0 && mv[b].0 == pv[b].0);
                }
            }
            lemma_assoc_map_unique(mv);
            let w = written_packages(hv, bv);
            assert forall|k: Seq<char>| #[trigger] config_map(pv).contains_key(k) <==> w.contains_key(
                k,
            ) by {
                if config_map(pv).contains_key(k) {
                    let q = choose|q: int| 0 <= q < mv.len() && mv[q].0 == k;
                    if q < nd {
                        assert(packages@[q].0@ == distinct@[q]@);
                        assert(houdini_names(hv).contains(distinct@[q]@));
                    }
                }
                if w.contains_key(k) {
                    if houdini_names(hv).contains(k) {
                        let j = choose|j: int| 0 <= j < hv.len() && houdini_package_name(hv[j].1) == k;
                        assert(names@[j]@ == nv[j]);
                        assert(hv[j].1 == self.houdini_versions@[j].python_version);
                        assert(listed(distinct@, nv[j]));
                        let q = choose|q: int| 0 <= q < nd && distinct@[q]@ == nv[j];
                        assert(packages@[q].0@ == distinct@[q]@);
                        assert(mv[q].0 == k);
                        assert(config_map(pv).contains_key(mv[q].0));
                    } else {
                        assert(k == "blender"@ && bv.len() > 0);
                        assert(mv[nd].0 == k);
                        assert(config_map(pv).contains_key(mv[nd].0));
                    }
                }
            }
            assert forall|k: Seq<char>| #[trigger] config_map(pv).contains_key(k) implies config_map(
                pv,
            )[k] == w[k] by {
                let q = choose|q: int| 0 <= q < mv.len() && mv[q].0 == k;
                assert(config_map(pv).contains_key(mv[q].0));
                if q < nd {
                    assert(packages@[q].0@ == distinct@[q]@);
                    assert(houdini_names(hv).contains(distinct@[q]@));
                } else {
                    assert(k == "blender"@);
                }
            }
            assert(config_map(pv) =~= w);
        }
        r
    }
}

/// The scheduler part that holds a scratch location:
/// `scheduler.globals.global_scratch_location = path`, and nothing else.
pub open spec fn is_scratch_doc(doc: TomlValue, path: Seq<char>) -> bool {
    &&& doc matches TomlValue::Table(t) && t@.len() == 1 && t@[0].0@ == "scheduler"@
    &&& doc->Table_0@[0].1 matches TomlValue::Table(st) && st@.len() == 1 && st@[0].0@ == "globals"@
    &&& doc->Table_0@[0].1->Table_0@[0].1 matches TomlValue::Table(gt) && gt@.len() == 1
        && gt@[0].0@ == "global_scratch_location"@
    &&& doc->Table_0@[0].1->Table_0@[0].1->Table_0@[0].1 matches TomlValue::String(p) && p@ == path
}

/// The scheduler part that records the scratch location `path`.
pub fn scratch_config_doc(path: &str) -> (r: TomlValue)
    ensures
        is_scratch_doc(r, path@),
        scratch_of(r) == Some(path@),
{
    let mut globals: Vec<(String, TomlValue)> = Vec::new();
    globals.push(("global_scratch_location".to_owned(), TomlValue::String(path.to_owned())));
    let mut sched: Vec<(String, TomlValue)> = Vec::new();
    sched.push(("globals".to_owned(), TomlValue::Table(globals)));
    let mut doc: Vec<(String, TomlValue)> = Vec::new();
    doc.push(("scheduler".to_owned(), TomlValue::Table(sched)));
    let r = TomlValue::Table(doc);
    proof {
        let t = r->Table_0@;
        assert(entries_view(t).drop_last() =~= Seq::<(Seq<char>, TomlValue)>::empty());
        let st = t[0].1->Table_0@;
        assert(entries_view(st).drop_last() =~= Seq::<(Seq<char>, TomlValue)>::empty());
        let gt = st[0].1->Table_0@;
        assert(entries_view(gt).drop_last() =~= Seq::<(Seq<char>, TomlValue)>::empty());
    }
    r
}

impl WizardData {
    /// What the wizard writes for its choices: the scheduler part with the
    /// scratch location (`None`: the part is to be removed) and the
    /// environment configuration. Writing a database location is not supported.
    pub fn config_to_write(&self) -> (r: (Option<TomlValue>, EnvConfig))
        requires
            self.db_path is None,
        ensures
            match self.scratch_path {
                Some(p) => r.0 matches Some(doc) && is_scratch_doc(doc, p@),
                None => r.0 is None,
            },
            config_keys_unique(packages_view(r.1.packages@)),
            config_map(packages_view(r.1.packages@)) == written_packages(
                houdini_view(self.houdini_versions@),
                blender_view(self.blender_versions@),
            ),
    {
        let scratch = match &self.scratch_path {
            Some(p) => Some(scratch_config_doc(p.as_str())),
            None => None,
        };
        (scratch, self.env_config())
    }
}

} // verus!
