//! What the wizard reads back of the environment configuration it writes.
use crate::text::{
    decimal, is_digit, lemma_decimal_without, lemma_parse_decimal, lemma_split_after,
    lemma_split_without, parse_unsigned, split, starts_with,
};
use crate::config_data::{document_schema_ok, package_versions_ok, packages_ok, TomlValue};
use crate::wizard::{DccView, HoudiniView};
use crate::wizard_config::{
    assoc_get, bin_path_of, dcc_entries, dcc_of, entries_view, env_doc_ok, houdini_entries,
    houdini_of, houdini_pyver, table_get, version_triple, EnvConfigView, PackageView,
};
use crate::wizard_to_config::{
    assoc_map, blender_group, config_keys_unique, config_map, houdini_group, houdini_label,
    houdini_names, houdini_package_name, keys_unique, lemma_assoc_map_unique, path_package_view,
    version_key, written_packages,
};
use vstd::prelude::*;

verus! {

/// A version name written for a version reads back as that version.
pub proof fn lemma_version_key_reads_back(t: (u32, u32, u32))
    ensures
        version_triple(version_key(t)) == Some(t),
{
    reveal_strlit(".");
    let (a, b, c) = (decimal(t.0 as nat), decimal(t.1 as nat), decimal(t.2 as nat));
    lemma_decimal_without(t.0 as nat, '.');
    lemma_decimal_without(t.1 as nat, '.');
    lemma_decimal_without(t.2 as nat, '.');
    assert(version_key(t) =~= a + seq!['.'] + (b + seq!['.'] + c));
    lemma_split_after(a, '.', b + seq!['.'] + c);
    lemma_split_after(b, '.', c);
    lemma_split_without(c, '.');
    assert(split(version_key(t), '.') =~= seq![a, b, c]);
    lemma_parse_decimal(t.0 as nat, u32::MAX as nat);
    lemma_parse_decimal(t.1 as nat, u32::MAX as nat);
    lemma_parse_decimal(t.2 as nat, u32::MAX as nat);
}

/// A Houdini package name written for a Python version reads back as that version.
pub proof fn lemma_package_name_reads_back(py: (u32, u32))
    ensures
        houdini_pyver(houdini_package_name(py)) == Some(py),
{
    reveal_strlit("houdini.py");
    reveal_strlit("houdini.");
    reveal_strlit("_");
    let (a, b) = (decimal(py.0 as nat), decimal(py.1 as nat));
    let name = houdini_package_name(py);
    assert(name.take(8) =~= "houdini."@);
    assert(name.take(10) =~= "houdini.py"@);
    assert(starts_with(name, "houdini.py"@));
    let rest = name.skip(10);
    assert(rest =~= a + seq!['_'] + b);
    lemma_decimal_without(py.0 as nat, '_');
    lemma_decimal_without(py.1 as nat, '_');
    lemma_split_after(a, '_', b);
    lemma_split_without(b, '_');
    assert(split(rest, '_') =~= seq![a, b]);
    lemma_parse_decimal(py.0 as nat, u32::MAX as nat);
    lemma_parse_decimal(py.1 as nat, u32::MAX as nat);
}

/// A Houdini package named `houdini.<major>_<minor>`, without the `py`
/// prefix, is read as a Houdini package for Python `<major>.<minor>`, as the
/// same name with the prefix is.
pub proof fn law_houdini_name_without_py(py: (u32, u32))
    ensures
        houdini_pyver("houdini."@ + decimal(py.0 as nat) + "_"@ + decimal(py.1 as nat)) == Some(py),
        houdini_pyver("houdini."@ + decimal(py.0 as nat) + "_"@ + decimal(py.1 as nat))
            == houdini_pyver(houdini_package_name(py)),
{
    reveal_strlit("houdini.py");
    reveal_strlit("houdini.");
    reveal_strlit("_");
    let (a, b) = (decimal(py.0 as nat), decimal(py.1 as nat));
    let name = "houdini."@ + a + "_"@ + b;
    assert(name.take(8) =~= "houdini."@);
    lemma_decimal_without(py.0 as nat, 'p');
    lemma_decimal_without(py.0 as nat, '_');
    lemma_decimal_without(py.1 as nat, '_');
    assert(!starts_with(name, "houdini.py"@)) by {
        if starts_with(name, "houdini.py"@) {
            assert(name.take(10)[8] == 'p');
            assert(name[8] == 'p');
            if a.len() > 0 {
                assert(name[8] == a[0]);
                assert(a.contains('p'));
            } else {
                assert(name[8] == '_');
            }
        }
    }
    let rest = name.skip(8);
    assert(rest =~= a + seq!['_'] + b);
    lemma_split_after(a, '_', b);
    lemma_split_without(b, '_');
    assert(split(rest, '_') =~= seq![a, b]);
    lemma_parse_decimal(py.0 as nat, u32::MAX as nat);
    lemma_parse_decimal(py.1 as nat, u32::MAX as nat);
    lemma_package_name_reads_back(py);
}

/// A written package reads back its `bin` directory.
pub proof fn lemma_written_bin_path(label: Seq<char>, bin: Seq<char>)
    ensures
        bin_path_of(path_package_view(label, bin)) == Some(bin),
{
    let env = path_package_view(label, bin).1->0;
    assert(env.drop_last() =~= Seq::<(Seq<char>, crate::wizard_config::ActionView)>::empty());
}

/// No Houdini package is named `blender` or `redshift`, and `blender` names no Houdini package.
pub proof fn lemma_names_apart(py: (u32, u32))
    ensures
        houdini_package_name(py) != "blender"@,
        houdini_package_name(py) != "redshift"@,
        houdini_pyver("blender"@) is None,
        "blender"@ != "redshift"@,
{
    reveal_strlit("houdini.py");
    reveal_strlit("houdini.");
    reveal_strlit("blender");
    reveal_strlit("redshift");
    assert(houdini_package_name(py)[0] == 'h');
    assert("blender"@.take(8) != "houdini."@ || "blender"@.len() < 8);
}

/// `i` is the last Houdini installation of package `n` with version name `k`.
pub open spec fn last_in_group(hs: Seq<HoudiniView>, n: Seq<char>, k: Seq<char>, i: int) -> bool {
    &&& 0 <= i < hs.len()
    &&& houdini_package_name(hs[i].1) == n
    &&& version_key(hs[i].2) == k
    &&& forall|j: int|
        i < j < hs.len() ==> !(houdini_package_name(#[trigger] hs[j].1) == n && version_key(
            hs[j].2,
        ) == k)
}

/// The versions of a Houdini package are those of its installations, each
/// from the last installation with its version name.
pub proof fn lemma_houdini_group(hs: Seq<HoudiniView>, n: Seq<char>)
    ensures
        forall|k: Seq<char>| #[trigger]
            houdini_group(hs, n).contains_key(k) ==> exists|i: int|
                last_in_group(hs, n, k, i) && houdini_group(hs, n)[k] == path_package_view(
                    houdini_label(hs[i].2),
                    hs[i].0,
                ),
        forall|i: int|
            0 <= i < hs.len() && houdini_package_name(#[trigger] hs[i].1) == n ==> houdini_group(
                hs,
                n,
            ).contains_key(version_key(hs[i].2)),
    decreases hs.len(),
{
    if hs.len() > 0 {
        let t = hs.drop_last();
        let h = hs.last();
        let last = hs.len() - 1;
        lemma_houdini_group(t, n);
        let g = houdini_group(t, n);
        let big = houdini_group(hs, n);
        assert forall|k: Seq<char>| #[trigger] big.contains_key(k) implies exists|i: int|
            last_in_group(hs, n, k, i) && big[k] == path_package_view(houdini_label(hs[i].2), hs[i].0) by {
            if houdini_package_name(h.1) == n && version_key(h.2) == k {
                assert(last_in_group(hs, n, k, last));
            } else {
                assert(g.contains_key(k));
                let i = choose|i: int|
                    last_in_group(t, n, k, i) && g[k] == path_package_view(houdini_label(t[i].2), t[i].0);
                assert(t[i] == hs[i]);
                assert forall|j: int| i < j < hs.len() implies !(houdini_package_name(
                    #[trigger] hs[j].1,
                ) == n && version_key(hs[j].2) == k) by {
                    if j < last {
                        assert(t[j] == hs[j]);
                    }
                }
                assert(last_in_group(hs, n, k, i));
            }
        }
        assert forall|i: int|
            0 <= i < hs.len() && houdini_package_name(#[trigger] hs[i].1) == n implies big.contains_key(
            version_key(hs[i].2),
        ) by {
            if i < last {
                assert(t[i] == hs[i]);
                assert(houdini_package_name(t[i].1) == n);
            }
        }
    }
}

/// `i` is the last Blender installation with version name `k`.
pub open spec fn last_in_blender(bs: Seq<DccView>, k: Seq<char>, i: int) -> bool {
    &&& 0 <= i < bs.len()
    &&& version_key(bs[i].1) == k
    &&& forall|j: int| i < j < bs.len() ==> version_key(#[trigger] bs[j].1) != k
}

/// The versions of the Blender package are those of the Blender
/// installations, each from the last one with its version name.
pub proof fn lemma_blender_group(bs: Seq<DccView>)
    ensures
        forall|k: Seq<char>| #[trigger]
            blender_group(bs).contains_key(k) ==> exists|i: int|
                last_in_blender(bs, k, i) && blender_group(bs)[k] == path_package_view(
                    "Blender"@,
                    bs[i].0,
                ),
        forall|i: int|
            0 <= i < bs.len() ==> blender_group(bs).contains_key(version_key(#[trigger] bs[i].1)),
    decreases bs.len(),
{
    if bs.len() > 0 {
        let t = bs.drop_last();
        let h = bs.last();
        let last = bs.len() - 1;
        lemma_blender_group(t);
        let g = blender_group(t);
        let big = blender_group(bs);
        assert forall|k: Seq<char>| #[trigger] big.contains_key(k) implies exists|i: int|
            last_in_blender(bs, k, i) && big[k] == path_package_view("Blender"@, bs[i].0) by {
            if version_key(h.1) == k {
                assert(last_in_blender(bs, k, last));
            } else {
                assert(g.contains_key(k));
                let i = choose|i: int| last_in_blender(t, k, i) && g[k] == path_package_view("Blender"@, t[i].0);
                assert(t[i] == bs[i]);
                assert forall|j: int| i < j < bs.len() implies version_key(#[trigger] bs[j].1) != k by {
                    if j < last {
                        assert(t[j] == bs[j]);
                    }
                }
                assert(last_in_blender(bs, k, i));
            }
        }
        assert forall|i: int| 0 <= i < bs.len() implies big.contains_key(version_key(#[trigger] bs[i].1)) by {
            if i < last {
                assert(t[i] == bs[i]);
                assert(g.contains_key(version_key(t[i].1)));
            }
        }
    }
}

proof fn lemma_concat_contains<A>(a: Seq<A>, b: Seq<A>, x: A)
    ensures
        (a + b).contains(x) <==> a.contains(x) || b.contains(x),
{
    if (a + b).contains(x) {
        let i = choose|i: int| 0 <= i < (a + b).len() && (a + b)[i] == x;
        if i < a.len() {
            assert(a[i] == x);
        } else {
            assert(b[i - a.len()] == x);
        }
    }
    if a.contains(x) {
        let i = choose|i: int| 0 <= i < a.len() && a[i] == x;
        assert((a + b)[i] == x);
    }
    if b.contains(x) {
        let i = choose|i: int| 0 <= i < b.len() && b[i] == x;
        assert((a + b)[i + a.len()] == x);
    }
}

/// An installation read from the versions `vs` of a Houdini package.
pub open spec fn read_from_version(vs: Seq<(Seq<char>, PackageView)>, e: int, x: HoudiniView) -> bool {
    &&& 0 <= e < vs.len()
    &&& bin_path_of(vs[e].1) == Some(x.0)
    &&& version_triple(vs[e].0) == Some(x.2)
}

proof fn lemma_houdini_entries_member(vs: Seq<(Seq<char>, PackageView)>, py: (u32, u32), x: HoudiniView)
    ensures
        houdini_entries(vs, py).contains(x) <==> x.1 == py && exists|e: int| read_from_version(vs, e, x),
    decreases vs.len(),
{
    if vs.len() > 0 {
        let t = vs.drop_last();
        lemma_houdini_entries_member(t, py, x);
        let piece = match (bin_path_of(vs.last().1), version_triple(vs.last().0)) {
            (Some(b), Some(tr)) => seq![(b, py, tr)],
            _ => seq![],
        };
        lemma_concat_contains(houdini_entries(t, py), piece, x);
        if exists|e: int| read_from_version(vs, e, x) {
            let e = choose|e: int| read_from_version(vs, e, x);
            if e < vs.len() - 1 {
                assert(t[e] == vs[e]);
                assert(read_from_version(t, e, x));
            } else if x.1 == py {
                assert(piece[0] == x);
            }
        }
        if exists|e: int| read_from_version(t, e, x) {
            let e = choose|e: int| read_from_version(t, e, x);
            assert(t[e] == vs[e]);
            assert(read_from_version(vs, e, x));
        }
        if piece.contains(x) {
            assert(read_from_version(vs, vs.len() - 1, x));
        }
    }
}

/// An installation read from package `q` of `c`.
pub open spec fn read_from_package(c: EnvConfigView, q: int, x: HoudiniView) -> bool {
    &&& 0 <= q < c.len()
    &&& houdini_pyver(c[q].0) == Some(x.1)
    &&& exists|e: int| read_from_version(c[q].1, e, x)
}

proof fn lemma_houdini_of_member(c: EnvConfigView, x: HoudiniView)
    ensures
        houdini_of(c).contains(x) <==> exists|q: int| read_from_package(c, q, x),
    decreases c.len(),
{
    if c.len() > 0 {
        let t = c.drop_last();
        lemma_houdini_of_member(t, x);
        let last = c.len() - 1;
        let piece = match houdini_pyver(c.last().0) {
            Some(py) => houdini_entries(c.last().1, py),
            None => seq![],
        };
        lemma_concat_contains(houdini_of(t), piece, x);
        match houdini_pyver(c.last().0) {
            Some(py) => {
                lemma_houdini_entries_member(c.last().1, py, x);
            },
            None => {},
        }
        if exists|q: int| read_from_package(c, q, x) {
            let q = choose|q: int| read_from_package(c, q, x);
            if q < last {
                assert(t[q] == c[q]);
                assert(read_from_package(t, q, x));
            }
        }
        if exists|q: int| read_from_package(t, q, x) {
            let q = choose|q: int| read_from_package(t, q, x);
            assert(t[q] == c[q]);
            assert(read_from_package(c, q, x));
        }
        if piece.contains(x) {
            assert(read_from_package(c, last, x));
        }
    }
}

/// An installation read from the versions `vs` of a Blender or Redshift package.
pub open spec fn read_dcc_version(vs: Seq<(Seq<char>, PackageView)>, e: int, x: DccView) -> bool {
    &&& 0 <= e < vs.len()
    &&& bin_path_of(vs[e].1) == Some(x.0)
    &&& version_triple(vs[e].0) == Some(x.1)
}

proof fn lemma_dcc_entries_member(vs: Seq<(Seq<char>, PackageView)>, x: DccView)
    ensures
        dcc_entries(vs).contains(x) <==> exists|e: int| read_dcc_version(vs, e, x),
    decreases vs.len(),
{
    if vs.len() > 0 {
        let t = vs.drop_last();
        lemma_dcc_entries_member(t, x);
        let piece = match (bin_path_of(vs.last().1), version_triple(vs.last().0)) {
            (Some(b), Some(tr)) => seq![(b, tr)],
            _ => seq![],
        };
        lemma_concat_contains(dcc_entries(t), piece, x);
        if exists|e: int| read_dcc_version(vs, e, x) {
            let e = choose|e: int| read_dcc_version(vs, e, x);
            if e < vs.len() - 1 {
                assert(t[e] == vs[e]);
                assert(read_dcc_version(t, e, x));
            } else {
                assert(piece[0] == x);
            }
        }
        if exists|e: int| read_dcc_version(t, e, x) {
            let e = choose|e: int| read_dcc_version(t, e, x);
            assert(t[e] == vs[e]);
            assert(read_dcc_version(vs, e, x));
        }
        if piece.contains(x) {
            assert(read_dcc_version(vs, vs.len() - 1, x));
        }
    }
}

/// An installation read from package `q` of `c`, named `name`.
pub open spec fn read_dcc_package(c: EnvConfigView, name: Seq<char>, q: int, x: DccView) -> bool {
    &&& 0 <= q < c.len()
    &&& c[q].0 == name
    &&& exists|e: int| read_dcc_version(c[q].1, e, x)
}

proof fn lemma_dcc_of_member(c: EnvConfigView, name: Seq<char>, x: DccView)
    ensures
        dcc_of(c, name).contains(x) <==> exists|q: int| read_dcc_package(c, name, q, x),
    decreases c.len(),
{
    if c.len() > 0 {
        let t = c.drop_last();
        lemma_dcc_of_member(t, name, x);
        let last = c.len() - 1;
        let piece = if c.last().0 == name {
            dcc_entries(c.last().1)
        } else {
            seq![]
        };
        lemma_concat_contains(dcc_of(t, name), piece, x);
        lemma_dcc_entries_member(c.last().1, x);
        if exists|q: int| read_dcc_package(c, name, q, x) {
            let q = choose|q: int| read_dcc_package(c, name, q, x);
            if q < last {
                assert(t[q] == c[q]);
                assert(read_dcc_package(t, name, q, x));
            }
        }
        if exists|q: int| read_dcc_package(t, name, q, x) {
            let q = choose|q: int| read_dcc_package(t, name, q, x);
            assert(t[q] == c[q]);
            assert(read_dcc_package(c, name, q, x));
        }
        if piece.contains(x) {
            assert(read_dcc_package(c, name, last, x));
        }
    }
}

/// A configuration with distinct names, read as a map: each package by its name.
proof fn lemma_config_lookup(c: EnvConfigView)
    requires
        config_keys_unique(c),
    ensures
        forall|q: int|
            0 <= q < c.len() ==> #[trigger] config_map(c).contains_key(c[q].0) && config_map(c)[c[q].0]
                == assoc_map(c[q].1),
        forall|k: Seq<char>| #[trigger]
            config_map(c).contains_key(k) ==> exists|q: int| 0 <= q < c.len() && c[q].0 == k,
{
    let m = c.map_values(|e: (Seq<char>, Seq<(Seq<char>, PackageView)>)| (e.0, assoc_map(e.1)));
    assert(keys_unique(m)) by {
        assert forall|a: int, b: int| 0 <= a < b < m.len() implies m[a].0 != m[b].0 by {
            assert(c[a].0 != c[b].0);
        }
    }
    lemma_assoc_map_unique(m);
    assert forall|q: int| 0 <= q < c.len() implies #[trigger] config_map(c).contains_key(c[q].0)
        && config_map(c)[c[q].0] == assoc_map(c[q].1) by {
        assert(m[q].0 == c[q].0);
        assert(assoc_map(m).contains_key(m[q].0));
    }
    assert forall|k: Seq<char>| #[trigger] config_map(c).contains_key(k) implies exists|q: int|
        0 <= q < c.len() && c[q].0 == k by {
        assert(assoc_map(m).contains_key(k));
        let q = choose|q: int| 0 <= q < m.len() && m[q].0 == k;
        assert(c[q].0 == k);
    }
}

/// The Houdini installations that the wizard keeps: of those with the same
/// Python version and version, the last.
pub open spec fn last_houdini(hs: Seq<HoudiniView>) -> Set<HoudiniView> {
    Set::new(
        |x: HoudiniView|
            exists|i: int|
                0 <= i < hs.len() && hs[i] == x && forall|j: int|
                    i < j < hs.len() ==> !((#[trigger] hs[j]).1 == x.1 && hs[j].2 == x.2),
    )
}

/// The Blender installations that the wizard keeps: of those with the same version, the last.
pub open spec fn last_dcc(bs: Seq<DccView>) -> Set<DccView> {
    Set::new(
        |x: DccView|
            exists|i: int|
                0 <= i < bs.len() && bs[i] == x && forall|j: int|
                    i < j < bs.len() ==> (#[trigger] bs[j]).1 != x.1,
    )
}

/// Every Houdini installation read back was written and is the last of its kind.
proof fn lemma_houdini_read_was_written(c: EnvConfigView, hs: Seq<HoudiniView>, bs: Seq<DccView>, x: HoudiniView)
    requires
        config_keys_unique(c),
        config_map(c) == written_packages(hs, bs),
        houdini_of(c).contains(x),
    ensures
        last_houdini(hs).contains(x),
{
    lemma_config_lookup(c);
    lemma_houdini_of_member(c, x);
    let q = choose|q: int| read_from_package(c, q, x);
    let n = c[q].0;
    let vs = c[q].1;
    let e = choose|e: int| read_from_version(vs, e, x);
    assert(config_map(c).contains_key(n));
    let w = written_packages(hs, bs);
    lemma_names_apart((0, 0));
    assert(n != "blender"@);
    assert(houdini_names(hs).contains(n));
    let i0 = choose|i0: int| 0 <= i0 < hs.len() && houdini_package_name(hs[i0].1) == n;
    lemma_package_name_reads_back(hs[i0].1);
    assert(x.1 == hs[i0].1);
    assert(w[n] == houdini_group(hs, n));
    assert(assoc_map(vs) == houdini_group(hs, n));
    assert(keys_unique(vs));
    lemma_assoc_map_unique(vs);
    let k = vs[e].0;
    assert(assoc_map(vs).contains_key(vs[e].0));
    lemma_houdini_group(hs, n);
    assert(houdini_group(hs, n).contains_key(k));
    let i = choose|i: int|
        last_in_group(hs, n, k, i) && houdini_group(hs, n)[k] == path_package_view(
            houdini_label(hs[i].2),
            hs[i].0,
        );
    lemma_written_bin_path(houdini_label(hs[i].2), hs[i].0);
    lemma_version_key_reads_back(hs[i].2);
    lemma_package_name_reads_back(hs[i].1);
    assert(hs[i] == x);
    assert forall|j: int| i < j < hs.len() implies !((#[trigger] hs[j]).1 == x.1 && hs[j].2 == x.2) by {
        if hs[j].1 == x.1 && hs[j].2 == x.2 {
            assert(houdini_package_name(hs[j].1) == n && version_key(hs[j].2) == k);
        }
    }
    assert(last_houdini(hs).contains(x));
}

/// Every Houdini installation that is the last of its kind is read back.
proof fn lemma_houdini_written_is_read(c: EnvConfigView, hs: Seq<HoudiniView>, bs: Seq<DccView>, x: HoudiniView)
    requires
        config_keys_unique(c),
        config_map(c) == written_packages(hs, bs),
        last_houdini(hs).contains(x),
    ensures
        houdini_of(c).contains(x),
{
    lemma_config_lookup(c);
    let i = choose|i: int|
        0 <= i < hs.len() && hs[i] == x && forall|j: int|
            i < j < hs.len() ==> !((#[trigger] hs[j]).1 == x.1 && hs[j].2 == x.2);
    let n = houdini_package_name(x.1);
    let k = version_key(x.2);
    let w = written_packages(hs, bs);
    lemma_names_apart(x.1);
    assert(houdini_names(hs).contains(n));
    assert(w.contains_key(n));
    let q = choose|q: int| 0 <= q < c.len() && c[q].0 == n;
    let vs = c[q].1;
    assert(config_map(c)[c[q].0] == assoc_map(vs));
    assert(w[n] == houdini_group(hs, n));
    lemma_houdini_group(hs, n);
    assert(houdini_package_name(hs[i].1) == n);
    assert(houdini_group(hs, n).contains_key(k));
    let i2 = choose|i2: int|
        last_in_group(hs, n, k, i2) && houdini_group(hs, n)[k] == path_package_view(
            houdini_label(hs[i2].2),
            hs[i2].0,
        );
    lemma_package_name_reads_back(hs[i2].1);
    lemma_package_name_reads_back(x.1);
    lemma_version_key_reads_back(hs[i2].2);
    lemma_version_key_reads_back(x.2);
    assert(hs[i2].1 == x.1 && hs[i2].2 == x.2);
    if i2 > i {
        assert(!(hs[i2].1 == x.1 && hs[i2].2 == x.2));
    }
    if i2 < i {
        assert(!(houdini_package_name(hs[i].1) == n && version_key(hs[i].2) == k));
    }
    assert(i2 == i);
    assert(keys_unique(vs));
    lemma_assoc_map_unique(vs);
    assert(assoc_map(vs).contains_key(k));
    let e = choose|e: int| 0 <= e < vs.len() && vs[e].0 == k;
    assert(assoc_map(vs).contains_key(vs[e].0));
    lemma_written_bin_path(houdini_label(x.2), x.0);
    assert(read_from_version(vs, e, x));
    assert(read_from_package(c, q, x));
    lemma_houdini_of_member(c, x);
}

/// The Blender installations read back are those written, the last of each version.
proof fn lemma_blender_read_back(c: EnvConfigView, hs: Seq<HoudiniView>, bs: Seq<DccView>, x: DccView)
    requires
        config_keys_unique(c),
        config_map(c) == written_packages(hs, bs),
    ensures
        dcc_of(c, "blender"@).contains(x) <==> last_dcc(bs).contains(x),
{
    lemma_config_lookup(c);
    lemma_dcc_of_member(c, "blender"@, x);
    let w = written_packages(hs, bs);
    lemma_blender_group(bs);
    lemma_names_apart((0, 0));
    if dcc_of(c, "blender"@).contains(x) {
        let q = choose|q: int| read_dcc_package(c, "blender"@, q, x);
        let vs = c[q].1;
        let e = choose|e: int| read_dcc_version(vs, e, x);
        assert(config_map(c).contains_key(c[q].0));
        if bs.len() == 0 {
            assert(houdini_names(hs).contains("blender"@));
            let j = choose|j: int| 0 <= j < hs.len() && houdini_package_name(hs[j].1) == "blender"@;
            lemma_names_apart(hs[j].1);
        }
        assert(w["blender"@] == blender_group(bs));
        assert(assoc_map(vs) == blender_group(bs));
        assert(keys_unique(vs));
        lemma_assoc_map_unique(vs);
        let k = vs[e].0;
        assert(assoc_map(vs).contains_key(vs[e].0));
        let i = choose|i: int| last_in_blender(bs, k, i) && blender_group(bs)[k] == path_package_view("Blender"@, bs[i].0);
        lemma_written_bin_path("Blender"@, bs[i].0);
        lemma_version_key_reads_back(bs[i].1);
        assert(bs[i] == x);
        assert forall|j: int| i < j < bs.len() implies (#[trigger] bs[j]).1 != x.1 by {
            assert(version_key(bs[j].1) != k);
        }
        assert(last_dcc(bs).contains(x));
    }
    if last_dcc(bs).contains(x) {
        let i = choose|i: int|
            0 <= i < bs.len() && bs[i] == x && forall|j: int| i < j < bs.len() ==> (#[trigger] bs[j]).1 != x.1;
        assert(w.contains_key("blender"@));
        let q = choose|q: int| 0 <= q < c.len() && c[q].0 == "blender"@;
        let vs = c[q].1;
        assert(config_map(c)[c[q].0] == assoc_map(vs));
        let k = version_key(x.1);
        assert(blender_group(bs).contains_key(version_key(bs[i].1)));
        let i2 = choose|i2: int| last_in_blender(bs, k, i2) && blender_group(bs)[k] == path_package_view("Blender"@, bs[i2].0);
        lemma_version_key_reads_back(bs[i2].1);
        lemma_version_key_reads_back(x.1);
        if i2 > i {
            assert(bs[i2].1 != x.1);
        }
        if i2 < i {
            assert(version_key(bs[i].1) != k);
        }
        assert(i2 == i);
        assert(keys_unique(vs));
        lemma_assoc_map_unique(vs);
        assert(assoc_map(vs).contains_key(k));
        let e = choose|e: int| 0 <= e < vs.len() && vs[e].0 == k;
        assert(assoc_map(vs).contains_key(vs[e].0));
        lemma_written_bin_path("Blender"@, x.0);
        assert(read_dcc_version(vs, e, x));
        assert(read_dcc_package(c, "blender"@, q, x));
    }
}

/// Nothing is read back as a Redshift installation.
proof fn lemma_no_redshift_read_back(c: EnvConfigView, hs: Seq<HoudiniView>, bs: Seq<DccView>)
    requires
        config_keys_unique(c),
        config_map(c) == written_packages(hs, bs),
    ensures
        dcc_of(c, "redshift"@).len() == 0,
{
    if dcc_of(c, "redshift"@).len() > 0 {
        let x = dcc_of(c, "redshift"@)[0];
        assert(dcc_of(c, "redshift"@).contains(x));
        lemma_dcc_of_member(c, "redshift"@, x);
        lemma_config_lookup(c);
        let q = choose|q: int| read_dcc_package(c, "redshift"@, q, x);
        assert(config_map(c).contains_key(c[q].0));
        lemma_names_apart((0, 0));
        assert(houdini_names(hs).contains("redshift"@));
        let j = choose|j: int| 0 <= j < hs.len() && houdini_package_name(hs[j].1) == "redshift"@;
        lemma_names_apart(hs[j].1);
    }
}

/// What the wizard writes, it reads back: from an environment configuration
/// whose packages are those written for Houdini installations `hs` and
/// Blender installations `bs`, the wizard reads each written installation,
/// of those with the same versions the last one, and no Redshift installation.
pub proof fn law_written_config_reads_back(c: EnvConfigView, hs: Seq<HoudiniView>, bs: Seq<DccView>)
    requires
        config_keys_unique(c),
        config_map(c) == written_packages(hs, bs),
    ensures
        houdini_of(c).to_set() == last_houdini(hs),
        dcc_of(c, "blender"@).to_set() == last_dcc(bs),
        dcc_of(c, "redshift"@).len() == 0,
{
    assert forall|x: HoudiniView| houdini_of(c).to_set().contains(x) <==> last_houdini(hs).contains(x) by {
        if houdini_of(c).contains(x) {
            lemma_houdini_read_was_written(c, hs, bs, x);
        }
        if last_houdini(hs).contains(x) {
            lemma_houdini_written_is_read(c, hs, bs, x);
        }
    }
    assert(houdini_of(c).to_set() =~= last_houdini(hs));
    assert forall|x: DccView| dcc_of(c, "blender"@).to_set().contains(x) <==> last_dcc(bs).contains(x) by {
        lemma_blender_read_back(c, hs, bs, x);
    }
    assert(dcc_of(c, "blender"@).to_set() =~= last_dcc(bs));
    lemma_no_redshift_read_back(c, hs, bs);
}

/// The value `assoc_get` finds is the value of an entry with that key.
proof fn lemma_assoc_get_entry<V>(s: Seq<(Seq<char>, V)>, key: Seq<char>)
    ensures
        assoc_get(s, key) matches Some(v) ==> exists|i: int| 0 <= i < s.len() && s[i].0 == key && s[i].1 == v,
    decreases s.len(),
{
    if s.len() > 0 && s.last().0 != key {
        lemma_assoc_get_entry(s.drop_last(), key);
        if assoc_get(s, key) is Some {
            let i = choose|i: int|
                0 <= i < s.drop_last().len() && s.drop_last()[i].0 == key && s.drop_last()[i].1
                    == assoc_get(s, key)->0;
            assert(s[i] == s.drop_last()[i]);
        }
    } else if s.len() > 0 {
        assert(s[s.len() - 1] == s.last());
    }
}

/// A configuration that passes validation and has a `packages` table is one
/// that the wizard can read: the versions' names only add to what reading asks.
pub proof fn law_valid_config_is_readable(doc: TomlValue)
    requires
        document_schema_ok(doc),
        doc matches TomlValue::Table(t) && table_get(t@, "packages"@) is Some,
    ensures
        env_doc_ok(doc),
{
    let t = doc->Table_0@;
    lemma_assoc_get_entry(entries_view(t), "packages"@);
    let i = choose|i: int|
        0 <= i < entries_view(t).len() && entries_view(t)[i].0 == "packages"@ && entries_view(t)[i].1
            == table_get(t, "packages"@)->0;
    assert(t[i].0@ == "packages"@);
    let p = t[i].1;
    assert(packages_ok(p, true));
    let pt = p->Table_0@;
    assert forall|j: int| 0 <= j < pt.len() implies package_versions_ok((#[trigger] pt[j]).1, false) by {
        assert(package_versions_ok(pt[j].1, true));
    }
}

} // verus!
