//! The configuration that the wizard manages: the packages of the standard
//! environment resolver (`packages.<name>.<version>`, each with a label and
//! environment actions) and the scratch location of the scheduler.
use crate::config_data::{
    env_action_ok, env_table_ok, is_string_or_list, package_ok, package_versions_ok, packages_ok,
    packages_ok_exec, parse_toml, syntax_errors_view, toml_parse, access_errors, syntax_errors,
    ConfigData, ConfigLoadError, ErrorSpan, FileCheck, TomlValue,
};
use crate::text::{
    strings_view,
    chars_equal, chars_start_with, parse_u32_chars, parse_unsigned, slice_chars, split, split_chars,
    starts_with, to_chars, views,
};
use crate::wizard::{
    blender_view, houdini_view, redshift_view, BlenderVersion, DccView, HoudiniVersion, HoudiniView,
    RedshiftVersion, WizardData,
};
use vstd::prelude::*;

verus! {

/// A value that is either one string or a list of strings.
#[derive(Debug)]
pub enum StringOrList {
    String(String),
    List(Vec<String>),
}

/// What to do with one environment variable: append to it, prepend to it, or set it.
#[derive(Debug)]
pub struct EnvAction {
    pub append: Option<StringOrList>,
    pub prepend: Option<StringOrList>,
    pub set: Option<String>,
}

/// One version of a package: a label and the environment actions by variable name.
#[derive(Debug)]
pub struct Package {
    pub label: Option<String>,
    pub env: Option<Vec<(String, EnvAction)>>,
}

/// The packages of the environment resolver: package names, each with its
/// versions by version name.
#[derive(Debug)]
pub struct EnvConfig {
    pub packages: Vec<(String, Vec<(String, Package)>)>,
}

/// A string or list: whether it is a list, and its strings.
pub type SolView = (bool, Seq<Seq<char>>);

pub type ActionView = (Option<SolView>, Option<SolView>, Option<Seq<char>>);

pub type PackageView = (Option<Seq<char>>, Option<Seq<(Seq<char>, ActionView)>>);

pub type EnvConfigView = Seq<(Seq<char>, Seq<(Seq<char>, PackageView)>)>;

pub open spec fn sol_view(s: StringOrList) -> SolView {
    match s {
        StringOrList::String(x) => (false, seq![x@]),
        StringOrList::List(l) => (true, strings_view(l@)),
    }
}

pub open spec fn opt_sol_view(o: Option<StringOrList>) -> Option<SolView> {
    match o {
        Some(s) => Some(sol_view(s)),
        None => None,
    }
}

pub open spec fn opt_text_view(o: Option<String>) -> Option<Seq<char>> {
    match o {
        Some(s) => Some(s@),
        None => None,
    }
}

pub open spec fn action_view(a: EnvAction) -> ActionView {
    (opt_sol_view(a.append), opt_sol_view(a.prepend), opt_text_view(a.set))
}

pub open spec fn actions_view(v: Seq<(String, EnvAction)>) -> Seq<(Seq<char>, ActionView)> {
    v.map_values(|e: (String, EnvAction)| (e.0@, action_view(e.1)))
}

pub open spec fn package_view(p: Package) -> PackageView {
    (
        opt_text_view(p.label),
        match p.env {
            Some(e) => Some(actions_view(e@)),
            None => None,
        },
    )
}

pub open spec fn package_versions_view(v: Seq<(String, Package)>) -> Seq<(Seq<char>, PackageView)> {
    v.map_values(|e: (String, Package)| (e.0@, package_view(e.1)))
}

pub open spec fn packages_view(v: Seq<(String, Vec<(String, Package)>)>) -> EnvConfigView {
    v.map_values(|e: (String, Vec<(String, Package)>)| (e.0@, package_versions_view(e.1@)))
}

pub open spec fn env_config_view(c: EnvConfig) -> EnvConfigView {
    packages_view(c.packages@)
}

/// The value of `key` in a list of pairs: the last pair with that key wins,
/// as when the pairs are inserted one by one into a map.
pub open spec fn assoc_get<V>(s: Seq<(Seq<char>, V)>, key: Seq<char>) -> Option<V>
    decreases s.len(),
{
    if s.len() == 0 {
        None
    } else if s.last().0 == key {
        Some(s.last().1)
    } else {
        assoc_get(s.drop_last(), key)
    }
}

/// The entries of a TOML table with their keys by view.
pub open spec fn entries_view(t: Seq<(String, TomlValue)>) -> Seq<(Seq<char>, TomlValue)> {
    t.map_values(|e: (String, TomlValue)| (e.0@, e.1))
}

/// The value of `key` in a TOML table.
pub open spec fn table_get(t: Seq<(String, TomlValue)>, key: Seq<char>) -> Option<TomlValue> {
    assoc_get(entries_view(t), key)
}

/// The text of a TOML string (empty for anything else).
pub open spec fn text_of(v: TomlValue) -> Seq<char> {
    match v {
        TomlValue::String(s) => s@,
        _ => seq![],
    }
}

/// A TOML string or array of strings, read as a string or list.
pub open spec fn sol_of(v: TomlValue) -> SolView {
    match v {
        TomlValue::String(s) => (false, seq![s@]),
        TomlValue::Array(a) => (true, a@.map_values(|x: TomlValue| text_of(x))),
        _ => (false, seq![]),
    }
}

pub open spec fn opt_sol_of(o: Option<TomlValue>) -> Option<SolView> {
    match o {
        Some(v) => Some(sol_of(v)),
        None => None,
    }
}

pub open spec fn opt_text_of(o: Option<TomlValue>) -> Option<Seq<char>> {
    match o {
        Some(v) => Some(text_of(v)),
        None => None,
    }
}

/// A TOML table read as an environment action: its `append`, `prepend` and `set`.
pub open spec fn action_of(v: TomlValue) -> ActionView {
    match v {
        TomlValue::Table(t) => (
            opt_sol_of(table_get(t@, "append"@)),
            opt_sol_of(table_get(t@, "prepend"@)),
            opt_text_of(table_get(t@, "set"@)),
        ),
        _ => (None, None, None),
    }
}

/// A TOML table read as the environment actions by variable name.
pub open spec fn actions_of(v: TomlValue) -> Seq<(Seq<char>, ActionView)> {
    match v {
        TomlValue::Table(t) => t@.map_values(|e: (String, TomlValue)| (e.0@, action_of(e.1))),
        _ => seq![],
    }
}

/// A TOML table read as a package: its `label` and its `env`.
pub open spec fn package_of(v: TomlValue) -> PackageView {
    match v {
        TomlValue::Table(t) => (
            opt_text_of(table_get(t@, "label"@)),
            match table_get(t@, "env"@) {
                Some(e) => Some(actions_of(e)),
                None => None,
            },
        ),
        _ => (None, None),
    }
}

/// A TOML table read as the versions of a package.
pub open spec fn versions_of(v: TomlValue) -> Seq<(Seq<char>, PackageView)> {
    match v {
        TomlValue::Table(t) => t@.map_values(|e: (String, TomlValue)| (e.0@, package_of(e.1))),
        _ => seq![],
    }
}

/// A TOML table read as the packages by name.
pub open spec fn packages_of(v: TomlValue) -> EnvConfigView {
    match v {
        TomlValue::Table(t) => t@.map_values(|e: (String, TomlValue)| (e.0@, versions_of(e.1))),
        _ => seq![],
    }
}

/// A document can be read as an `EnvConfig`: it has a `packages` table whose
/// values have the types of the fields (unknown keys are ignored).
pub open spec fn env_doc_ok(doc: TomlValue) -> bool {
    match doc {
        TomlValue::Table(t) => match table_get(t@, "packages"@) {
            Some(p) => packages_ok(p, false),
            None => false,
        },
        _ => false,
    }
}

/// What a document that can be read as an `EnvConfig` holds.
pub open spec fn env_config_of(doc: TomlValue) -> EnvConfigView {
    match doc {
        TomlValue::Table(t) => match table_get(t@, "packages"@) {
            Some(p) => packages_of(p),
            None => seq![],
        },
        _ => seq![],
    }
}

/// Where `key` stands in a TOML table (its last occurrence).
pub fn table_lookup(t: &Vec<(String, TomlValue)>, key: &str) -> (r: Option<usize>)
    ensures
        match r {
            Some(i) => i < t@.len() && t@[i as int].0@ == key@ && table_get(t@, key@) == Some(
                t@[i as int].1,
            ),
            None => table_get(t@, key@) is None,
        },
{
    let k = to_chars(key);
    let mut found: Option<usize> = None;
    let mut i: usize = 0;
    while i < t.len()
        invariant
            i <= t@.len(),
            k@ == key@,
            match found {
                Some(j) => j < i && t@[j as int].0@ == key@ && assoc_get(
                    entries_view(t@.take(i as int)),
                    key@,
                ) == Some(t@[j as int].1),
                None => assoc_get(entries_view(t@.take(i as int)), key@) is None,
            },
        decreases t@.len() - i,
    {
        let name = to_chars(t[i].0.as_str());
        let hit = chars_equal(&name, &k);
        assert(entries_view(t@.take(i as int + 1)).drop_last() =~= entries_view(t@.take(i as int)));
        assert(entries_view(t@.take(i as int + 1)).last() == (t@[i as int].0@, t@[i as int].1));
        if hit {
            found = Some(i);
        }
        i = i + 1;
    }
    assert(t@.take(t@.len() as int) =~= t@);
    found
}

fn sol_from(v: &TomlValue) -> (r: StringOrList)
    requires
        is_string_or_list(*v),
    ensures
        sol_view(r) == sol_of(*v),
{
    match v {
        TomlValue::String(s) => StringOrList::String(s.clone()),
        TomlValue::Array(a) => {
            let mut l: Vec<String> = Vec::new();
            let mut i: usize = 0;
            while i < a.len()
                invariant
                    *v == TomlValue::Array(*a),
                    is_string_or_list(*v),
                    i <= a@.len(),
                    strings_view(l@) == a@.take(i as int).map_values(|x: TomlValue| text_of(x)),
                decreases a@.len() - i,
            {
                let ghost before = l@;
                match &a[i] {
                    TomlValue::String(s) => {
                        l.push(s.clone());
                    },
                    _ => {
                        assert(a@[i as int] is String);
                    },
                }
                assert(strings_view(l@) =~= strings_view(before).push(text_of(a@[i as int])));
                assert(a@.take(i as int + 1).map_values(|x: TomlValue| text_of(x)) =~= a@.take(
                    i as int,
                ).map_values(|x: TomlValue| text_of(x)).push(text_of(a@[i as int])));
                i = i + 1;
            }
            assert(a@.take(a@.len() as int) =~= a@);
            StringOrList::List(l)
        },
        _ => StringOrList::List(Vec::new()),
    }
}

fn action_from(v: &TomlValue) -> (r: EnvAction)
    requires
        env_action_ok(*v),
    ensures
        action_view(r) == action_of(*v),
{
    match v {
        TomlValue::Table(t) => {
            let append = match table_lookup(t, "append") {
                Some(i) => Some(sol_from(&t[i].1)),
                None => None,
            };
            let prepend = match table_lookup(t, "prepend") {
                Some(i) => Some(sol_from(&t[i].1)),
                None => None,
            };
            let set = match table_lookup(t, "set") {
                Some(i) => match &t[i].1 {
                    TomlValue::String(s) => Some(s.clone()),
                    _ => None,
                },
                None => None,
            };
            EnvAction { append, prepend, set }
        },
        _ => EnvAction { append: None, prepend: None, set: None },
    }
}

fn actions_from(v: &TomlValue) -> (r: Vec<(String, EnvAction)>)
    requires
        env_table_ok(*v),
    ensures
        actions_view(r@) == actions_of(*v),
{
    let mut r: Vec<(String, EnvAction)> = Vec::new();
    match v {
        TomlValue::Table(t) => {
            let mut i: usize = 0;
            while i < t.len()
                invariant
                    *v == TomlValue::Table(*t),
                    env_table_ok(*v),
                    i <= t@.len(),
                    actions_view(r@) == t@.take(i as int).map_values(
                        |e: (String, TomlValue)| (e.0@, action_of(e.1)),
                    ),
                decreases t@.len() - i,
            {
                let ghost before = r@;
                let a = action_from(&t[i].1);
                r.push((t[i].0.clone(), a));
                assert(actions_view(r@) =~= actions_view(before).push(
                    (t@[i as int].0@, action_of(t@[i as int].1)),
                ));
                assert(t@.take(i as int + 1).map_values(
                    |e: (String, TomlValue)| (e.0@, action_of(e.1)),
                ) =~= t@.take(i as int).map_values(
                    |e: (String, TomlValue)| (e.0@, action_of(e.1)),
                ).push((t@[i as int].0@, action_of(t@[i as int].1))));
                i = i + 1;
            }
            assert(t@.take(t@.len() as int) =~= t@);
        },
        _ => {},
    }
    r
}

fn package_from(v: &TomlValue) -> (r: Package)
    requires
        package_ok(*v),
    ensures
        package_view(r) == package_of(*v),
{
    match v {
        TomlValue::Table(t) => {
            let label = match table_lookup(t, "label") {
                Some(i) => match &t[i].1 {
                    TomlValue::String(s) => Some(s.clone()),
                    _ => None,
                },
                None => None,
            };
            let env = match table_lookup(t, "env") {
                Some(i) => Some(actions_from(&t[i].1)),
                None => None,
            };
            Package { label, env }
        },
        _ => Package { label: None, env: None },
    }
}

fn versions_from(v: &TomlValue) -> (r: Vec<(String, Package)>)
    requires
        package_versions_ok(*v, false),
    ensures
        package_versions_view(r@) == versions_of(*v),
{
    let mut r: Vec<(String, Package)> = Vec::new();
    match v {
        TomlValue::Table(t) => {
            let mut i: usize = 0;
            while i < t.len()
                invariant
                    *v == TomlValue::Table(*t),
                    package_versions_ok(*v, false),
                    i <= t@.len(),
                    package_versions_view(r@) == t@.take(i as int).map_values(
                        |e: (String, TomlValue)| (e.0@, package_of(e.1)),
                    ),
                decreases t@.len() - i,
            {
                let ghost before = r@;
                let p = package_from(&t[i].1);
                r.push((t[i].0.clone(), p));
                assert(package_versions_view(r@) =~= package_versions_view(before).push(
                    (t@[i as int].0@, package_of(t@[i as int].1)),
                ));
                assert(t@.take(i as int + 1).map_values(
                    |e: (String, TomlValue)| (e.0@, package_of(e.1)),
                ) =~= t@.take(i as int).map_values(
                    |e: (String, TomlValue)| (e.0@, package_of(e.1)),
                ).push((t@[i as int].0@, package_of(t@[i as int].1))));
                i = i + 1;
            }
            assert(t@.take(t@.len() as int) =~= t@);
        },
        _ => {},
    }
    r
}

impl EnvConfig {
    /// Read a document as an `EnvConfig`: `None` where it has no `packages`
    /// table or a value does not have the type of its field.
    pub fn from_toml(doc: &TomlValue) -> (r: Option<EnvConfig>)
        ensures
            r is Some <==> env_doc_ok(*doc),
            r matches Some(c) ==> env_config_view(c) == env_config_of(*doc),
    {
        let t = match doc {
            TomlValue::Table(t) => t,
            _ => {
                return None;
            },
        };
        let pi = match table_lookup(t, "packages") {
            Some(i) => i,
            None => {
                return None;
            },
        };
        let p = &t[pi].1;
        if !packages_ok_exec(p, false) {
            return None;
        }
        let mut r: Vec<(String, Vec<(String, Package)>)> = Vec::new();
        match p {
            TomlValue::Table(pt) => {
                let mut i: usize = 0;
                while i < pt.len()
                    invariant
                        *p == TomlValue::Table(*pt),
                        packages_ok(*p, false),
                        i <= pt@.len(),
                        packages_view(r@) == pt@.take(i as int).map_values(
                            |e: (String, TomlValue)| (e.0@, versions_of(e.1)),
                        ),
                    decreases pt@.len() - i,
                {
                    let ghost before = r@;
                    let vs = versions_from(&pt[i].1);
                    r.push((pt[i].0.clone(), vs));
                    assert(packages_view(r@) =~= packages_view(before).push(
                        (pt@[i as int].0@, versions_of(pt@[i as int].1)),
                    ));
                    assert(pt@.take(i as int + 1).map_values(
                        |e: (String, TomlValue)| (e.0@, versions_of(e.1)),
                    ) =~= pt@.take(i as int).map_values(
                        |e: (String, TomlValue)| (e.0@, versions_of(e.1)),
                    ).push((pt@[i as int].0@, versions_of(pt@[i as int].1))));
                    i = i + 1;
                }
                assert(pt@.take(pt@.len() as int) =~= pt@);
            },
            _ => {},
        }
        Some(EnvConfig { packages: r })
    }
}

/// The one string of a string or a one-element list.
pub open spec fn sol_single(s: SolView) -> Option<Seq<char>> {
    if s.1.len() == 1 {
        Some(s.1[0])
    } else {
        None
    }
}

/// The `bin` directory that a package written by the wizard holds: the one
/// string prepended to `PATH` or, where nothing is prepended, appended to it.
pub open spec fn bin_path_of(p: PackageView) -> Option<Seq<char>> {
    match p.1 {
        None => None,
        Some(env) => match assoc_get(env, "PATH"@) {
            None => None,
            Some(a) => match a.1 {
                Some(pre) => sol_single(pre),
                None => match a.0 {
                    Some(app) => sol_single(app),
                    None => None,
                },
            },
        },
    }
}

/// A version name of three dot-separated `u32` numbers.
pub open spec fn version_triple(k: Seq<char>) -> Option<(u32, u32, u32)> {
    let p = split(k, '.');
    if p.len() == 3 && parse_unsigned(p[0], u32::MAX as nat) is Some && parse_unsigned(
        p[1],
        u32::MAX as nat,
    ) is Some && parse_unsigned(p[2], u32::MAX as nat) is Some {
        Some(
            (
                parse_unsigned(p[0], u32::MAX as nat)->0 as u32,
                parse_unsigned(p[1], u32::MAX as nat)->0 as u32,
                parse_unsigned(p[2], u32::MAX as nat)->0 as u32,
            ),
        )
    } else {
        None
    }
}

/// The Python version in a Houdini package name `houdini.py<major>_<minor>`
/// (or `houdini.<major>_<minor>`).
pub open spec fn houdini_pyver(name: Seq<char>) -> Option<(u32, u32)> {
    if !starts_with(name, "houdini."@) {
        None
    } else {
        let rest = if starts_with(name, "houdini.py"@) {
            name.skip("houdini.py"@.len() as int)
        } else {
            name.skip("houdini."@.len() as int)
        };
        let parts = split(rest, '_');
        if parts.len() == 2 && parse_unsigned(parts[0], u32::MAX as nat) is Some
            && parse_unsigned(parts[1], u32::MAX as nat) is Some {
            Some(
                (
                    parse_unsigned(parts[0], u32::MAX as nat)->0 as u32,
                    parse_unsigned(parts[1], u32::MAX as nat)->0 as u32,
                ),
            )
        } else {
            None
        }
    }
}

/// The installations that the versions of one Houdini package describe, in
/// order; a version without a readable `bin` directory or version name is skipped.
pub open spec fn houdini_entries(vs: Seq<(Seq<char>, PackageView)>, py: (u32, u32)) -> Seq<
    HoudiniView,
>
    decreases vs.len(),
{
    if vs.len() == 0 {
        seq![]
    } else {
        houdini_entries(vs.drop_last(), py) + match (
            bin_path_of(vs.last().1),
            version_triple(vs.last().0),
        ) {
            (Some(b), Some(t)) => seq![(b, py, t)],
            _ => seq![],
        }
    }
}

/// The installations that the versions of a Blender or Redshift package describe.
pub open spec fn dcc_entries(vs: Seq<(Seq<char>, PackageView)>) -> Seq<DccView>
    decreases vs.len(),
{
    if vs.len() == 0 {
        seq![]
    } else {
        dcc_entries(vs.drop_last()) + match (bin_path_of(vs.last().1), version_triple(vs.last().0)) {
            (Some(b), Some(t)) => seq![(b, t)],
            _ => seq![],
        }
    }
}

/// The Houdini installations of all `houdini.*` packages, in order.
pub open spec fn houdini_of(c: EnvConfigView) -> Seq<HoudiniView>
    decreases c.len(),
{
    if c.len() == 0 {
        seq![]
    } else {
        houdini_of(c.drop_last()) + match houdini_pyver(c.last().0) {
            Some(py) => houdini_entries(c.last().1, py),
            None => seq![],
        }
    }
}

/// The installations of the packages named `name`, in order.
pub open spec fn dcc_of(c: EnvConfigView, name: Seq<char>) -> Seq<DccView>
    decreases c.len(),
{
    if c.len() == 0 {
        seq![]
    } else {
        dcc_of(c.drop_last(), name) + if c.last().0 == name {
            dcc_entries(c.last().1)
        } else {
            seq![]
        }
    }
}

fn sol_single_from(s: &StringOrList) -> (r: Option<String>)
    ensures
        opt_text_view(r) == sol_single(sol_view(*s)),
{
    match s {
        StringOrList::String(x) => Some(x.clone()),
        StringOrList::List(l) => {
            if l.len() == 1 {
                Some(l[0].clone())
            } else {
                None
            }
        },
    }
}

fn bin_path_from(p: &Package) -> (r: Option<String>)
    ensures
        opt_text_view(r) == bin_path_of(package_view(*p)),
{
    let env = match &p.env {
        Some(e) => e,
        None => {
            return None;
        },
    };
    let key = to_chars("PATH");
    let mut found: Option<usize> = None;
    let mut i: usize = 0;
    while i < env.len()
        invariant
            i <= env@.len(),
            key@ == "PATH"@,
            match found {
                Some(j) => j < i && assoc_get(actions_view(env@.take(i as int)), "PATH"@) == Some(
                    action_view(env@[j as int].1),
                ),
                None => assoc_get(actions_view(env@.take(i as int)), "PATH"@) is None,
            },
        decreases env@.len() - i,
    {
        let name = to_chars(env[i].0.as_str());
        let hit = chars_equal(&name, &key);
        assert(actions_view(env@.take(i as int + 1)).drop_last() =~= actions_view(
            env@.take(i as int),
        ));
        if hit {
            found = Some(i);
        }
        i = i + 1;
    }
    assert(env@.take(env@.len() as int) =~= env@);
    match found {
        None => None,
        Some(j) => {
            let a = &env[j].1;
            match &a.prepend {
                Some(pre) => sol_single_from(pre),
                None => match &a.append {
                    Some(app) => sol_single_from(app),
                    None => None,
                },
            }
        },
    }
}

fn version_triple_from(k: &str) -> (r: Option<(u32, u32, u32)>)
    ensures
        r == version_triple(k@),
{
    let c = to_chars(k);
    let parts = split_chars(&c, '.');
    if parts.len() != 3 {
        return None;
    }
    assert(views(parts@)[0] == parts@[0]@);
    assert(views(parts@)[1] == parts@[1]@);
    assert(views(parts@)[2] == parts@[2]@);
    let a = parse_u32_chars(&parts[0]);
    let b = parse_u32_chars(&parts[1]);
    let d = parse_u32_chars(&parts[2]);
    match (a, b, d) {
        (Some(x), Some(y), Some(z)) => Some((x, y, z)),
        _ => None,
    }
}

fn houdini_pyver_from(name: &str) -> (r: Option<(u32, u32)>)
    ensures
        r == houdini_pyver(name@),
{
    let c = to_chars(name);
    let short = to_chars("houdini.");
    let long = to_chars("houdini.py");
    if !chars_start_with(&c, &short) {
        return None;
    }
    let off: usize = if chars_start_with(&c, &long) {
        long.len()
    } else {
        short.len()
    };
    proof {
        if starts_with(c@, long@) {
            assert(long@.len() <= c@.len());
        }
    }
    let rest = slice_chars(&c, off, c.len());
    assert(rest@ =~= c@.skip(off as int));
    let parts = split_chars(&rest, '_');
    if parts.len() != 2 {
        return None;
    }
    assert(views(parts@)[0] == parts@[0]@);
    assert(views(parts@)[1] == parts@[1]@);
    let a = parse_u32_chars(&parts[0]);
    let b = parse_u32_chars(&parts[1]);
    match (a, b) {
        (Some(x), Some(y)) => Some((x, y)),
        _ => None,
    }
}

pub open spec fn dcc_pairs_view(v: Seq<(String, (u32, u32, u32))>) -> Seq<DccView> {
    v.map_values(|e: (String, (u32, u32, u32))| (e.0@, e.1))
}

fn houdini_versions_from(vs: &Vec<(String, Package)>, py: (u32, u32), out: &mut Vec<HoudiniVersion>)
    ensures
        houdini_view(final(out)@) == houdini_view(old(out)@) + houdini_entries(
            package_versions_view(vs@),
            py,
        ),
{
    let ghost pv = package_versions_view(vs@);
    let ghost start = houdini_view(out@);
    let mut i: usize = 0;
    while i < vs.len()
        invariant
            i <= vs@.len(),
            pv == package_versions_view(vs@),
            houdini_view(out@) == start + houdini_entries(pv.take(i as int), py),
        decreases vs@.len() - i,
    {
        assert(pv.take(i as int + 1).drop_last() =~= pv.take(i as int));
        assert(pv.take(i as int + 1).last() == pv[i as int]);
        let bin = bin_path_from(&vs[i].1);
        let ver = version_triple_from(vs[i].0.as_str());
        let ghost before = out@;
        match (bin, ver) {
            (Some(b), Some(t)) => {
                out.push(HoudiniVersion { bin_path: b, python_version: py, version: t });
                assert(houdini_view(out@) =~= houdini_view(before).push(
                    (out@.last().bin_path@, py, t),
                ));
            },
            _ => {},
        }
        i = i + 1;
    }
    assert(pv.take(vs@.len() as int) =~= pv);
}

fn dcc_versions_from(vs: &Vec<(String, Package)>, out: &mut Vec<(String, (u32, u32, u32))>)
    ensures
        dcc_pairs_view(final(out)@) == dcc_pairs_view(old(out)@) + dcc_entries(
            package_versions_view(vs@),
        ),
{
    let ghost pv = package_versions_view(vs@);
    let ghost start = dcc_pairs_view(out@);
    let mut i: usize = 0;
    while i < vs.len()
        invariant
            i <= vs@.len(),
            pv == package_versions_view(vs@),
            dcc_pairs_view(out@) == start + dcc_entries(pv.take(i as int)),
        decreases vs@.len() - i,
    {
        assert(pv.take(i as int + 1).drop_last() =~= pv.take(i as int));
        assert(pv.take(i as int + 1).last() == pv[i as int]);
        let bin = bin_path_from(&vs[i].1);
        let ver = version_triple_from(vs[i].0.as_str());
        let ghost before = out@;
        match (bin, ver) {
            (Some(b), Some(t)) => {
                out.push((b, t));
                assert(dcc_pairs_view(out@) =~= dcc_pairs_view(before).push((out@.last().0@, t)));
            },
            _ => {},
        }
        i = i + 1;
    }
    assert(pv.take(vs@.len() as int) =~= pv);
}

fn blender_from_pairs(v: Vec<(String, (u32, u32, u32))>) -> (r: Vec<BlenderVersion>)
    ensures
        blender_view(r@) == dcc_pairs_view(v@),
{
    let mut r: Vec<BlenderVersion> = Vec::new();
    let mut i: usize = 0;
    while i < v.len()
        invariant
            i <= v@.len(),
            blender_view(r@) == dcc_pairs_view(v@.take(i as int)),
        decreases v@.len() - i,
    {
        let ghost before = r@;
        r.push(BlenderVersion { bin_path: v[i].0.clone(), version: v[i].1 });
        assert(blender_view(r@) =~= blender_view(before).push((v@[i as int].0@, v@[i as int].1)));
        assert(dcc_pairs_view(v@.take(i as int + 1)) =~= dcc_pairs_view(v@.take(i as int)).push(
            (v@[i as int].0@, v@[i as int].1),
        ));
        i = i + 1;
    }
    assert(v@.take(v@.len() as int) =~= v@);
    r
}

fn redshift_from_pairs(v: Vec<(String, (u32, u32, u32))>) -> (r: Vec<RedshiftVersion>)
    ensures
        redshift_view(r@) == dcc_pairs_view(v@),
{
    let mut r: Vec<RedshiftVersion> = Vec::new();
    let mut i: usize = 0;
    while i < v.len()
        invariant
            i <= v@.len(),
            redshift_view(r@) == dcc_pairs_view(v@.take(i as int)),
        decreases v@.len() - i,
    {
        let ghost before = r@;
        r.push(RedshiftVersion { bin_path: v[i].0.clone(), version: v[i].1 });
        assert(redshift_view(r@) =~= redshift_view(before).push((v@[i as int].0@, v@[i as int].1)));
        assert(dcc_pairs_view(v@.take(i as int + 1)) =~= dcc_pairs_view(v@.take(i as int)).push(
            (v@[i as int].0@, v@[i as int].1),
        ));
        i = i + 1;
    }
    assert(v@.take(v@.len() as int) =~= v@);
    r
}

impl WizardData {
    /// The wizard's choices as the environment configuration describes them:
    /// the Houdini installations of the `houdini.*` packages and those of the
    /// `blender` and `redshift` packages, each application chosen when it has
    /// an installation; entries that the wizard cannot read are skipped.
    pub fn from_env_config(env: &EnvConfig) -> (r: WizardData)
        ensures
            houdini_view(r.houdini_versions@) == houdini_of(env_config_view(*env)),
            blender_view(r.blender_versions@) == dcc_of(env_config_view(*env), "blender"@),
            redshift_view(r.redshift_versions@) == dcc_of(env_config_view(*env), "redshift"@),
            r.do_houdini == (r.houdini_versions@.len() > 0),
            r.do_blender == (r.blender_versions@.len() > 0),
            r.do_redshift == (r.redshift_versions@.len() > 0),
            r.db_path is None,
            r.scratch_path is None,
            !r.houdini_plugins_paths_first_initialized,
            r.houdini_plugins_installation_paths@.len() == 0,
    {
        let ghost cv = env_config_view(*env);
        let blender_name = to_chars("blender");
        let redshift_name = to_chars("redshift");
        let mut houdini: Vec<HoudiniVersion> = Vec::new();
        let mut blender: Vec<(String, (u32, u32, u32))> = Vec::new();
        let mut redshift: Vec<(String, (u32, u32, u32))> = Vec::new();
        let mut i: usize = 0;
        while i < env.packages.len()
            invariant
                i <= env.packages@.len(),
                cv == env_config_view(*env),
                blender_name@ == "blender"@,
                redshift_name@ == "redshift"@,
                houdini_view(houdini@) == houdini_of(cv.take(i as int)),
                dcc_pairs_view(blender@) == dcc_of(cv.take(i as int), "blender"@),
                dcc_pairs_view(redshift@) == dcc_of(cv.take(i as int), "redshift"@),
            decreases env.packages@.len() - i,
        {
            assert(cv.take(i as int + 1).drop_last() =~= cv.take(i as int));
            assert(cv.take(i as int + 1).last() == cv[i as int]);
            let name = env.packages[i].0.as_str();
            let versions = &env.packages[i].1;
            let py = houdini_pyver_from(name);
            match py {
                Some(p) => {
                    houdini_versions_from(versions, p, &mut houdini);
                },
                None => {},
            }
            let n = to_chars(name);
            if chars_equal(&n, &blender_name) {
                dcc_versions_from(versions, &mut blender);
            } else {
                assert(dcc_pairs_view(blender@) =~= dcc_pairs_view(blender@) + seq![]);
            }
            if chars_equal(&n, &redshift_name) {
                dcc_versions_from(versions, &mut redshift);
            } else {
                assert(dcc_pairs_view(redshift@) =~= dcc_pairs_view(redshift@) + seq![]);
            }
            proof {
                if py is None {
                    assert(houdini_view(houdini@) =~= houdini_view(houdini@) + seq![]);
                }
            }
            i = i + 1;
        }
        assert(cv.take(env.packages@.len() as int) =~= cv);
        let blender_versions = blender_from_pairs(blender);
        let redshift_versions = redshift_from_pairs(redshift);
        let do_houdini = houdini.len() > 0;
        let do_blender = blender_versions.len() > 0;
        let do_redshift = redshift_versions.len() > 0;
        WizardData {
            db_path: None,
            scratch_path: None,
            do_houdini,
            do_blender,
            do_redshift,
            houdini_versions: houdini,
            blender_versions,
            redshift_versions,
            houdini_plugins_paths_first_initialized: false,
            houdini_plugins_installation_paths: Vec::new(),
        }
    }
}

/// The scratch location that a scheduler configuration part holds at
/// `scheduler.globals.global_scratch_location`, where it is a string.
pub open spec fn scratch_of(doc: TomlValue) -> Option<Seq<char>> {
    match doc {
        TomlValue::Table(t) => match table_get(t@, "scheduler"@) {
            Some(TomlValue::Table(st)) => match table_get(st@, "globals"@) {
                Some(TomlValue::Table(gt)) => match table_get(gt@, "global_scratch_location"@) {
                    Some(TomlValue::String(p)) => Some(p@),
                    _ => None,
                },
                _ => None,
            },
            _ => None,
        },
        _ => None,
    }
}

fn scratch_from(doc: &TomlValue) -> (r: Option<String>)
    ensures
        opt_text_view(r) == scratch_of(*doc),
{
    let t = match doc {
        TomlValue::Table(t) => t,
        _ => {
            return None;
        },
    };
    let st = match table_lookup(t, "scheduler") {
        Some(i) => match &t[i].1 {
            TomlValue::Table(st) => st,
            _ => {
                return None;
            },
        },
        None => {
            return None;
        },
    };
    let gt = match table_lookup(st, "globals") {
        Some(i) => match &st[i].1 {
            TomlValue::Table(gt) => gt,
            _ => {
                return None;
            },
        },
        None => {
            return None;
        },
    };
    match table_lookup(gt, "global_scratch_location") {
        Some(i) => match &gt[i].1 {
            TomlValue::String(p) => Some(p.clone()),
            _ => None,
        },
        None => None,
    }
}

/// The text of the main file as read (empty where it could not be read).
pub open spec fn main_text_of(checks: Seq<FileCheck>) -> Seq<char> {
    match checks[0] {
        FileCheck::Read(t) => t@,
        _ => seq![],
    }
}

/// The message of an environment configuration that cannot be read as packages.
pub open spec fn env_schema_message() -> Seq<char> {
    "configuration has no packages table of the expected form"@
}

/// The error of one file whose content does not fit.
pub open spec fn schema_failure(e: ConfigLoadError, path: Seq<char>, msg: Seq<char>, span: ErrorSpan) -> bool {
    &&& e.access_error@.len() == 0
    &&& e.syntax_error@.len() == 0
    &&& syntax_errors_view(e.schema_error@) == seq![(path, (msg, span))]
}

/// What the wizard reads from an environment configuration `doc` and a
/// scratch part `scratch` (its path and parse outcome, where it exists).
pub open spec fn wizard_read(
    r: Result<WizardData, ConfigLoadError>,
    doc: TomlValue,
    scratch: Option<(Seq<char>, Result<TomlValue, (Seq<char>, ErrorSpan)>)>,
) -> bool {
    match scratch {
        Some((p, Err((m, span)))) => r matches Err(e) && schema_failure(e, p, m, span),
        _ => r matches Ok(d) && {
            &&& houdini_view(d.houdini_versions@) == houdini_of(env_config_of(doc))
            &&& blender_view(d.blender_versions@) == dcc_of(env_config_of(doc), "blender"@)
            &&& redshift_view(d.redshift_versions@) == dcc_of(env_config_of(doc), "redshift"@)
            &&& d.do_houdini == (d.houdini_versions@.len() > 0)
            &&& d.do_blender == (d.blender_versions@.len() > 0)
            &&& d.do_redshift == (d.redshift_versions@.len() > 0)
            &&& d.db_path is None
            &&& !d.houdini_plugins_paths_first_initialized
            &&& d.houdini_plugins_installation_paths@.len() == 0
            &&& opt_text_view(d.scratch_path) == match scratch {
                Some((_, Ok(sd))) => scratch_of(sd),
                _ => None,
            }
        },
    }
}

pub open spec fn scratch_view(s: Option<(String, String)>) -> Option<
    (Seq<char>, Result<TomlValue, (Seq<char>, ErrorSpan)>),
> {
    match s {
        Some((p, t)) => Some((p@, toml_parse(t@))),
        None => None,
    }
}

impl EnvConfig {
    /// Read a configuration text as an `EnvConfig`: the parser's message and
    /// error range when it is not TOML, the message `env_schema_message` when
    /// it has no packages table of the expected form.
    pub fn from_toml_text(text: &str) -> (r: Result<EnvConfig, (String, ErrorSpan)>)
        ensures
            match toml_parse(text@) {
                Err((m, span)) => r matches Err((rm, rs)) && rm@ == m && rs == span,
                Ok(doc) => if env_doc_ok(doc) {
                    r matches Ok(c) && env_config_view(c) == env_config_of(doc)
                } else {
                    r matches Err((rm, rs)) && rm@ == env_schema_message() && rs is None
                },
            },
    {
        let parsed = parse_toml(text);
        match parsed {
            Err((m, span)) => Err((m, span)),
            Ok(doc) => match EnvConfig::from_toml(&doc) {
                Some(c) => Ok(c),
                None => Err(("configuration has no packages table of the expected form".to_owned(), None)),
            },
        }
    }
}

impl WizardData {
    /// The wizard's starting data from the current configuration: the files of
    /// the environment resolver configuration `config` as read (`checks`, main
    /// file first) and the scheduler's scratch part, where it exists (its path
    /// and text). Read and syntax errors of the configuration come first; then
    /// a main file that is not a packages table, then a scratch part that is
    /// not TOML, are schema errors of that file.
    pub fn new_from_config(
        config: &ConfigData,
        checks: &Vec<FileCheck>,
        scratch_part: Option<(String, String)>,
    ) -> (r: Result<WizardData, ConfigLoadError>)
        requires
            checks@.len() == config.spec_files().len(),
        ensures
            ({
                let acc = access_errors(config.spec_files(), checks@, checks@.len());
                let syn = syntax_errors(config.spec_files(), checks@, checks@.len());
                if acc.len() > 0 || syn.len() > 0 {
                    r matches Err(e) && strings_view(e.access_error@) == acc
                        && syntax_errors_view(e.syntax_error@) == syn && e.schema_error@.len() == 0
                } else {
                    match toml_parse(main_text_of(checks@)) {
                        Err((m, span)) => r matches Err(e) && schema_failure(
                            e,
                            config.spec_main(),
                            m,
                            span,
                        ),
                        Ok(doc) => if !env_doc_ok(doc) {
                            r matches Err(e) && schema_failure(
                                e,
                                config.spec_main(),
                                env_schema_message(),
                                None,
                            )
                        } else {
                            wizard_read(r, doc, scratch_view(scratch_part))
                        },
                    }
                }
            }),
    {
        config.validate(checks)?;
        let main_text: &str = match &checks[0] {
            FileCheck::Read(t) => t.as_str(),
            _ => "",
        };
        proof {
            reveal_strlit("");
        }
        assert(main_text@ == main_text_of(checks@));
        let env = match EnvConfig::from_toml_text(main_text) {
            Ok(c) => c,
            Err((m, span)) => {
                let mut err = ConfigLoadError::new();
                let ghost mv = m@;
                err.schema_error.push((config.main_config_path().to_owned(), (m, span)));
                assert(syntax_errors_view(err.schema_error@) =~= seq![(config.spec_main(), (mv, span))]);
                return Err(err);
            },
        };
        let mut data = WizardData::from_env_config(&env);
        match scratch_part {
            None => {},
            Some((path, text)) => {
                let sparsed = parse_toml(text.as_str());
                match sparsed {
                    Ok(sd) => {
                        data.scratch_path = scratch_from(&sd);
                    },
                    Err((m, span)) => {
                        let mut err = ConfigLoadError::new();
                        let ghost pv = path@;
                        err.schema_error.push((path, (m, span)));
                        assert(syntax_errors_view(err.schema_error@) =~= seq![(pv, (m@, span))]);
                        return Err(err);
                    },
                }
            },
        }
        Ok(data)
    }
}

} // verus!
