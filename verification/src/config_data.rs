//! Lifeblood configurations: a main `<name>.toml` file and the parts in
//! `<name>.d/`; checking a configuration text before it is written.
use crate::paths::{join, join_chars};
use crate::text::{
    strings_view,
    chars_end_with, chars_equal, decimal, ends_with, from_chars, push_str_chars, lemma_text_le_total, push_decimal, lemma_text_le_trans, parse_unsigned,
    parse_u32_chars, split, split_chars, text_le, text_le_exec, to_chars, views,
};
use vstd::prelude::*;

verus! {

/// A TOML document or value: what a TOML parser makes of a configuration text.
/// Floats and dates are kept as the text the parser prints for them.
#[derive(Debug)]
pub enum TomlValue {
    String(String),
    Integer(i64),
    Float(String),
    Boolean(bool),
    Datetime(String),
    Array(Vec<TomlValue>),
    Table(Vec<(String, TomlValue)>),
}

#[verifier::external_type_specification]
#[verifier::external_body]
pub struct ExTomlValue(toml::Value);

/// What the toml crate makes of a text: a table, or the parser's message and
/// the byte range of the error.
pub uninterp spec fn toml_parse(text: Seq<char>) -> Result<TomlValue, (Seq<char>, ErrorSpan)>;

/// Parses `text` with the toml crate (`str::parse::<toml::Table>`). The
/// contract claims that the outcome is a function of the text alone and that
/// a parsed document is a table; the parser's grammar is not stated.
#[verifier::external_body]
pub(crate) fn parse_toml(text: &str) -> (r: Result<TomlValue, (String, ErrorSpan)>)
    ensures
        match r {
            Ok(doc) => toml_parse(text@) == Ok::<TomlValue, (Seq<char>, ErrorSpan)>(doc)
                && doc is Table,
            Err((m, span)) => toml_parse(text@) == Err::<TomlValue, (Seq<char>, ErrorSpan)>(
                (m@, span),
            ),
        },
{
    match text.parse::<toml::Table>() {
        Ok(t) => Ok(toml_value_from(&toml::Value::Table(t))),
        Err(e) => Err((e.message().to_owned(), e.span().map(|s| (s.start, s.end)))),
    }
}

/// Converts a parsed toml value, item by item, into a `TomlValue` (the
/// second half of `parse_toml`); floats and dates become the text that the
/// toml crate prints for them.
#[verifier::external_body]
fn toml_value_from(v: &toml::Value) -> TomlValue {
    match v {
        toml::Value::String(s) => TomlValue::String(s.clone()),
        toml::Value::Integer(i) => TomlValue::Integer(*i),
        toml::Value::Float(x) => TomlValue::Float(x.to_string()),
        toml::Value::Boolean(b) => TomlValue::Boolean(*b),
        toml::Value::Datetime(d) => TomlValue::Datetime(d.to_string()),
        toml::Value::Array(a) => TomlValue::Array(a.iter().map(toml_value_from).collect()),
        toml::Value::Table(t) => TomlValue::Table(
            t.iter().map(|(k, x)| (k.clone(), toml_value_from(x))).collect(),
        ),
    }
}

/// Whether `v` is a string or an array of strings (`StringOrList`).
pub open spec fn is_string_or_list(v: TomlValue) -> bool {
    match v {
        TomlValue::String(_) => true,
        TomlValue::Array(a) => forall|i: int| 0 <= i < a@.len() ==> (#[trigger] a@[i]) is String,
        _ => false,
    }
}

/// An environment action: a table whose `append` and `prepend` are strings or
/// lists of strings and whose `set` is a string (other keys are ignored).
pub open spec fn env_action_ok(v: TomlValue) -> bool {
    match v {
        TomlValue::Table(t) => forall|i: int|
            0 <= i < t@.len() ==> {
                let e = #[trigger] t@[i];
                &&& (e.0@ == "append"@ || e.0@ == "prepend"@) ==> is_string_or_list(e.1)
                &&& e.0@ == "set"@ ==> e.1 is String
            },
        _ => false,
    }
}

/// The `env` of a package: a table of environment actions.
pub open spec fn env_table_ok(v: TomlValue) -> bool {
    match v {
        TomlValue::Table(t) => all_env_actions_ok(t@),
        _ => false,
    }
}

pub open spec fn all_env_actions_ok(t: Seq<(String, TomlValue)>) -> bool {
    forall|i: int| 0 <= i < t.len() ==> env_action_ok((#[trigger] t[i]).1)
}

/// A package: a table whose `label` is a string and whose `env` is a table of
/// environment actions.
pub open spec fn package_ok(v: TomlValue) -> bool {
    match v {
        TomlValue::Table(t) => forall|i: int|
            0 <= i < t@.len() ==> {
                let e = #[trigger] t@[i];
                &&& e.0@ == "label"@ ==> e.1 is String
                &&& e.0@ == "env"@ ==> env_table_ok(e.1)
            },
        _ => false,
    }
}

/// A package version key: three dot-separated numbers, each fitting `u32`.
pub open spec fn version_key_ok(k: Seq<char>) -> bool {
    let p = split(k, '.');
    p.len() == 3 && parse_unsigned(p[0], u32::MAX as nat) is Some && parse_unsigned(
        p[1],
        u32::MAX as nat,
    ) is Some && parse_unsigned(p[2], u32::MAX as nat) is Some
}

pub open spec fn all_versions_ok(t: Seq<(String, TomlValue)>, keys: bool) -> bool {
    forall|i: int|
        0 <= i < t.len() ==> (keys ==> version_key_ok((#[trigger] t[i]).0@)) && package_ok(t[i].1)
}

pub open spec fn all_packages_ok(t: Seq<(String, TomlValue)>, keys: bool) -> bool {
    forall|i: int| 0 <= i < t.len() ==> package_versions_ok((#[trigger] t[i]).1, keys)
}

pub open spec fn all_packages_entries_ok(t: Seq<(String, TomlValue)>) -> bool {
    forall|i: int|
        0 <= i < t.len() ==> (#[trigger] t[i]).0@ == "packages"@ ==> packages_ok(t[i].1, true)
}

/// The versions of one package: a table from version keys to packages (the
/// keys checked when `keys`).
pub open spec fn package_versions_ok(v: TomlValue, keys: bool) -> bool {
    match v {
        TomlValue::Table(t) => all_versions_ok(t@, keys),
        _ => false,
    }
}

/// The `packages` table: package names to their versions.
pub open spec fn packages_ok(v: TomlValue, keys: bool) -> bool {
    match v {
        TomlValue::Table(t) => all_packages_ok(t@, keys),
        _ => false,
    }
}

/// A configuration document follows the schema: a table whose `packages`
/// entry, where there is one, is a well-formed packages table.
pub open spec fn document_schema_ok(doc: TomlValue) -> bool {
    match doc {
        TomlValue::Table(t) => all_packages_entries_ok(t@),
        _ => false,
    }
}

fn is_string_or_list_exec(v: &TomlValue) -> (b: bool)
    ensures
        b == is_string_or_list(*v),
{
    match v {
        TomlValue::String(_) => true,
        TomlValue::Array(a) => {
            let mut i: usize = 0;
            while i < a.len()
                invariant
                    *v == TomlValue::Array(*a),
                    i <= a@.len(),
                    forall|j: int| 0 <= j < i ==> (#[trigger] a@[j]) is String,
                decreases a@.len() - i,
            {
                match &a[i] {
                    TomlValue::String(_) => {},
                    _ => {
                        return false;
                    },
                }
                i = i + 1;
            }
            true
        },
        _ => false,
    }
}

fn env_action_ok_exec(v: &TomlValue) -> (b: bool)
    ensures
        b == env_action_ok(*v),
{
    match v {
        TomlValue::Table(t) => {
            let append = to_chars("append");
            let prepend = to_chars("prepend");
            let set = to_chars("set");
            let mut i: usize = 0;
            while i < t.len()
                invariant
                    *v == TomlValue::Table(*t),
                    i <= t@.len(),
                    append@ == "append"@,
                    prepend@ == "prepend"@,
                    set@ == "set"@,
                    forall|j: int|
                        0 <= j < i ==> {
                            let e = #[trigger] t@[j];
                            &&& (e.0@ == "append"@ || e.0@ == "prepend"@) ==> is_string_or_list(
                                e.1,
                            )
                            &&& e.0@ == "set"@ ==> e.1 is String
                        },
                decreases t@.len() - i,
            {
                let k = to_chars(t[i].0.as_str());
                if chars_equal(&k, &append) || chars_equal(&k, &prepend) {
                    if !is_string_or_list_exec(&t[i].1) {
                        return false;
                    }
                }
                if chars_equal(&k, &set) {
                    match &t[i].1 {
                        TomlValue::String(_) => {},
                        _ => {
                            return false;
                        },
                    }
                }
                i = i + 1;
            }
            true
        },
        _ => false,
    }
}

fn env_table_ok_exec(v: &TomlValue) -> (b: bool)
    ensures
        b == env_table_ok(*v),
{
    match v {
        TomlValue::Table(t) => {
            let mut i: usize = 0;
            while i < t.len()
                invariant
                    *v == TomlValue::Table(*t),
                    i <= t@.len(),
                    forall|j: int| 0 <= j < i ==> env_action_ok((#[trigger] t@[j]).1),
                decreases t@.len() - i,
            {
                let ok = env_action_ok_exec(&t[i].1);
                if !ok {
                    assert(!env_action_ok(t@[i as int].1));
                    return false;
                }
                i = i + 1;
            }
            true
        },
        _ => false,
    }
}

fn package_ok_exec(v: &TomlValue) -> (b: bool)
    ensures
        b == package_ok(*v),
{
    match v {
        TomlValue::Table(t) => {
            let label = to_chars("label");
            let env = to_chars("env");
            let mut i: usize = 0;
            while i < t.len()
                invariant
                    *v == TomlValue::Table(*t),
                    i <= t@.len(),
                    label@ == "label"@,
                    env@ == "env"@,
                    forall|j: int|
                        0 <= j < i ==> {
                            let e = #[trigger] t@[j];
                            &&& e.0@ == "label"@ ==> e.1 is String
                            &&& e.0@ == "env"@ ==> env_table_ok(e.1)
                        },
                decreases t@.len() - i,
            {
                let k = to_chars(t[i].0.as_str());
                if chars_equal(&k, &label) {
                    match &t[i].1 {
                        TomlValue::String(_) => {},
                        _ => {
                            return false;
                        },
                    }
                }
                if chars_equal(&k, &env) {
                    if !env_table_ok_exec(&t[i].1) {
                        return false;
                    }
                }
                i = i + 1;
            }
            true
        },
        _ => false,
    }
}

/// Whether `k` is a version key of three `u32` numbers.
pub fn version_key_ok_exec(k: &str) -> (b: bool)
    ensures
        b == version_key_ok(k@),
{
    let c = to_chars(k);
    let parts = split_chars(&c, '.');
    assert(views(parts@).len() == parts@.len());
    if parts.len() != 3 {
        return false;
    }
    assert(views(parts@)[0] == parts@[0]@);
    assert(views(parts@)[1] == parts@[1]@);
    assert(views(parts@)[2] == parts@[2]@);
    parse_u32_chars(&parts[0]).is_some() && parse_u32_chars(&parts[1]).is_some()
        && parse_u32_chars(&parts[2]).is_some()
}

fn package_versions_ok_exec(v: &TomlValue, keys: bool) -> (b: bool)
    ensures
        b == package_versions_ok(*v, keys),
{
    match v {
        TomlValue::Table(t) => {
            let mut i: usize = 0;
            while i < t.len()
                invariant
                    *v == TomlValue::Table(*t),
                    i <= t@.len(),
                    forall|j: int|
                        0 <= j < i ==> (keys ==> version_key_ok((#[trigger] t@[j]).0@))
                            && package_ok(t@[j].1),
                decreases t@.len() - i,
            {
                let key_ok = !keys || version_key_ok_exec(t[i].0.as_str());
                let pkg_ok = package_ok_exec(&t[i].1);
                if !key_ok || !pkg_ok {
                    assert(!((keys ==> version_key_ok(t@[i as int].0@)) && package_ok(
                        t@[i as int].1,
                    )));
                    return false;
                }
                i = i + 1;
            }
            true
        },
        _ => false,
    }
}

pub fn packages_ok_exec(v: &TomlValue, keys: bool) -> (b: bool)
    ensures
        b == packages_ok(*v, keys),
{
    match v {
        TomlValue::Table(t) => {
            let mut i: usize = 0;
            while i < t.len()
                invariant
                    *v == TomlValue::Table(*t),
                    i <= t@.len(),
                    forall|j: int| 0 <= j < i ==> package_versions_ok((#[trigger] t@[j]).1, keys),
                decreases t@.len() - i,
            {
                let ok = package_versions_ok_exec(&t[i].1, keys);
                if !ok {
                    assert(!package_versions_ok(t@[i as int].1, keys));
                    return false;
                }
                i = i + 1;
            }
            true
        },
        _ => false,
    }
}

/// Whether a configuration document follows the schema.
pub fn document_schema_ok_exec(v: &TomlValue) -> (b: bool)
    ensures
        b == document_schema_ok(*v),
{
    match v {
        TomlValue::Table(t) => {
            let packages = to_chars("packages");
            let mut i: usize = 0;
            while i < t.len()
                invariant
                    *v == TomlValue::Table(*t),
                    i <= t@.len(),
                    packages@ == "packages"@,
                    forall|j: int|
                        0 <= j < i ==> (#[trigger] t@[j]).0@ == "packages"@ ==> packages_ok(
                            t@[j].1,
                            true,
                        ),
                decreases t@.len() - i,
            {
                let k = to_chars(t[i].0.as_str());
                let is_packages = chars_equal(&k, &packages);
                let ok = packages_ok_exec(&t[i].1, true);
                if is_packages && !ok {
                    assert(t@[i as int].0@ == "packages"@ && !packages_ok(t@[i as int].1, true));
                    return false;
                }
                i = i + 1;
            }
            true
        },
        _ => false,
    }
}

/// Where in a text a syntax error lies: a byte range.
pub type ErrorSpan = Option<(usize, usize)>;

/// Why a configuration text was refused.
#[derive(Debug)]
pub enum ConfigError {
    /// The text is not TOML: the parser's message and where the error lies.
    SyntaxError(String, ErrorSpan),
    /// The text is TOML but does not follow the schema; the message says what is wrong.
    SchemaError(String),
}

/// How a configuration error is written in messages.
pub open spec fn config_error_text(e: ConfigError) -> Seq<char> {
    match e {
        ConfigError::SyntaxError(m, Some((a, b))) => "Syntax Error ("@ + m@ + "): at ["@ + decimal(
            a as nat,
        ) + "-"@ + decimal(b as nat) + "]"@,
        ConfigError::SyntaxError(m, None) => "Syntax Error ("@ + m@ + ")"@,
        ConfigError::SchemaError(_) => "Schema Error"@,
    }
}

impl ConfigError {
    /// The error as messages write it: `Syntax Error (<message>): at
    /// [<start>-<end>]`, `Syntax Error (<message>)` when there is no range,
    /// or `Schema Error`.
    pub fn describe(&self) -> (r: String)
        ensures
            r@ == config_error_text(*self),
    {
        let mut out: Vec<char> = Vec::new();
        match self {
            ConfigError::SyntaxError(m, span) => {
                push_str_chars(&mut out, "Syntax Error (");
                push_str_chars(&mut out, m.as_str());
                match span {
                    Some((a, b)) => {
                        push_str_chars(&mut out, "): at [");
                        push_decimal(&mut out, *a as u64);
                        push_str_chars(&mut out, "-");
                        push_decimal(&mut out, *b as u64);
                        push_str_chars(&mut out, "]");
                    },
                    None => {
                        push_str_chars(&mut out, ")");
                    },
                }
            },
            ConfigError::SchemaError(_) => {
                push_str_chars(&mut out, "Schema Error");
            },
        }
        assert(out@ =~= config_error_text(*self));
        from_chars(&out)
    }
}

/// Why writing a configuration failed.
#[derive(Debug)]
pub enum ConfigWritingError {
    ConfigError(ConfigError),
    /// The file could not be written; the system's message.
    IoError(String),
}

/// What loading the files of a configuration found wrong, file by file.
#[derive(Debug)]
pub struct ConfigLoadError {
    pub access_error: Vec<String>,
    pub syntax_error: Vec<(String, (String, ErrorSpan))>,
    pub schema_error: Vec<(String, (String, ErrorSpan))>,
}

impl ConfigLoadError {
    pub fn new() -> (r: ConfigLoadError)
        ensures
            r.access_error@.len() == 0,
            r.syntax_error@.len() == 0,
            r.schema_error@.len() == 0,
    {
        ConfigLoadError { access_error: Vec::new(), syntax_error: Vec::new(), schema_error: Vec::new() }
    }
}

/// `p` with its file extension set to `ext`: the part of the last path
/// component after its last dot (one not at the start) is replaced, or
/// `.ext` is appended when there is none.
pub open spec fn with_extension(p: Seq<char>, ext: Seq<char>) -> Seq<char> {
    let slash = last_index(p, '/');
    let name_start = if slash < 0 {
        0
    } else {
        slash + 1
    };
    let dot = last_index(p, '.');
    if dot > name_start {
        p.take(dot) + seq!['.'] + ext
    } else {
        p + seq!['.'] + ext
    }
}

/// The last position of `c` in `s`, or -1.
pub open spec fn last_index(s: Seq<char>, c: char) -> int
    decreases s.len(),
{
    if s.len() == 0 {
        -1
    } else if s.last() == c {
        s.len() - 1
    } else {
        last_index(s.drop_last(), c)
    }
}

proof fn lemma_last_index(s: Seq<char>, c: char, i: int)
    requires
        -1 <= i < s.len(),
        i >= 0 ==> s[i] == c,
        forall|j: int| i < j < s.len() ==> s[j] != c,
    ensures
        last_index(s, c) == i,
    decreases s.len(),
{
    if s.len() > 0 && i < s.len() - 1 {
        lemma_last_index(s.drop_last(), c, i);
    }
}

fn last_index_after(s: &[char], c: char) -> (r: usize)
    ensures
        r == last_index(s@, c) + 1,
        r <= s@.len(),
{
    let mut k: usize = s.len();
    while k > 0 && s[k - 1] != c
        invariant
            k <= s@.len(),
            forall|j: int| k <= j < s@.len() ==> s@[j] != c,
        decreases k,
    {
        k = k - 1;
    }
    proof {
        lemma_last_index(s@, c, k - 1);
    }
    k
}

/// `path` with the extension `ext` (see `with_extension`).
pub fn path_with_extension(path: &str, ext: &str) -> (r: String)
    ensures
        r@ == with_extension(path@, ext@),
{
    let p = to_chars(path);
    let e = to_chars(ext);
    let name_start = last_index_after(&p, '/');
    let dot_after = last_index_after(&p, '.');
    let mut out: Vec<char> = Vec::new();
    let stop: usize = if dot_after > 0 && dot_after - 1 > name_start {
        dot_after - 1
    } else {
        p.len()
    };
    let mut i: usize = 0;
    while i < stop
        invariant
            stop <= p@.len(),
            i <= stop,
            out@ == p@.take(i as int),
        decreases stop - i,
    {
        out.push(p[i]);
        assert(p@.take(i as int + 1) =~= p@.take(i as int).push(p@[i as int]));
        i = i + 1;
    }
    out.push('.');
    let ghost pre = out@;
    let mut j: usize = 0;
    while j < e.len()
        invariant
            j <= e@.len(),
            out@ == pre + e@.take(j as int),
        decreases e@.len() - j,
    {
        out.push(e[j]);
        assert(e@.take(j as int + 1) =~= e@.take(j as int).push(e@[j as int]));
        j = j + 1;
    }
    assert(e@.take(e@.len() as int) =~= e@);
    assert(p@.take(p@.len() as int) =~= p@);
    from_chars(&out)
}

/// Texts in lexicographic order.
pub open spec fn texts_sorted(s: Seq<Seq<char>>) -> bool {
    forall|i: int, j: int| 0 <= i < j < s.len() ==> text_le(s[i], s[j])
}

/// The texts of `v` in lexicographic order.
pub fn sort_texts(v: &Vec<String>) -> (r: Vec<String>)
    ensures
        texts_sorted(strings_view(r@)),
        strings_view(r@).to_multiset() == strings_view(v@).to_multiset(),
{
    broadcast use vstd::seq_lib::group_to_multiset_ensures;

    let mut out: Vec<String> = Vec::new();
    let mut i: usize = 0;
    assert(strings_view(v@).take(0) =~= Seq::<Seq<char>>::empty());
    assert(strings_view(out@) =~= Seq::<Seq<char>>::empty());
    while i < v.len()
        invariant
            i <= v@.len(),
            texts_sorted(strings_view(out@)),
            strings_view(out@).to_multiset() == strings_view(v@).take(i as int).to_multiset(),
        decreases v@.len() - i,
    {
        let x = v[i].clone();
        let xc = to_chars(x.as_str());
        let ghost s = strings_view(out@);
        let mut pos: usize = 0;
        while pos < out.len() && text_le_exec(&to_chars(out[pos].as_str()), &xc)
            invariant
                pos <= out@.len(),
                s == strings_view(out@),
                xc@ == x@,
                forall|k: int| 0 <= k < pos ==> text_le(#[trigger] s[k], x@),
            decreases out@.len() - pos,
        {
            pos = pos + 1;
        }
        proof {
            if pos < s.len() {
                assert(!text_le(s[pos as int], x@));
                lemma_text_le_total(s[pos as int], x@);
                assert forall|k: int| pos <= k < s.len() implies text_le(x@, #[trigger] s[k]) by {
                    if k > pos {
                        lemma_text_le_trans(x@, s[pos as int], s[k]);
                    }
                }
            }
        }
        out.insert(pos, x);
        let ghost t = strings_view(out@);
        assert(t =~= s.insert(pos as int, v@[i as int]@));
        assert forall|a: int, b: int| 0 <= a < b < t.len() implies text_le(t[a], t[b]) by {
            if b < pos {
                assert(t[a] == s[a] && t[b] == s[b]);
            } else if b == pos {
                assert(t[a] == s[a]);
            } else if a < pos {
                assert(t[a] == s[a] && t[b] == s[b - 1]);
                lemma_text_le_trans(s[a], x@, s[b - 1]);
            } else if a == pos {
                assert(t[b] == s[b - 1]);
            } else {
                assert(t[a] == s[a - 1] && t[b] == s[b - 1]);
            }
        }
        assert(strings_view(v@).take(i as int + 1) =~= strings_view(v@).take(i as int).push(
            v@[i as int]@,
        ));
        proof {
            vstd::seq_lib::to_multiset_insert(s, pos as int, v@[i as int]@);
            vstd::seq_lib::to_multiset_build(strings_view(v@).take(i as int), v@[i as int]@);
        }
        i = i + 1;
    }
    assert(strings_view(v@).take(v@.len() as int) =~= strings_view(v@));
    out
}

/// One configuration: its name, its main file, and the parts in its `.d` directory.
pub struct ConfigData {
    name: String,
    main_config_file: String,
    additional_config_files: Vec<String>,
}

/// What reading one configuration file found.
#[derive(Debug)]
pub enum FileCheck {
    /// The file does not exist (this is not an error).
    Missing,
    /// The file exists but could not be read.
    Unreadable,
    /// The file was read; its text.
    Read(String),
}

/// The entries whose names end in `.toml`, in order.
pub open spec fn toml_entries(names: Seq<Seq<char>>) -> Seq<Seq<char>>
    decreases names.len(),
{
    if names.len() == 0 {
        seq![]
    } else if ends_with(names.last(), ".toml"@) {
        toml_entries(names.drop_last()).push(names.last())
    } else {
        toml_entries(names.drop_last())
    }
}

/// The paths of the files with a read error, in order.
pub open spec fn access_errors(paths: Seq<Seq<char>>, checks: Seq<FileCheck>, n: nat) -> Seq<
    Seq<char>,
>
    decreases n,
{
    if n == 0 {
        seq![]
    } else {
        access_errors(paths, checks, (n - 1) as nat) + if checks[n - 1] is Unreadable {
            seq![paths[n - 1]]
        } else {
            seq![]
        }
    }
}

/// The files with a syntax error, with the parser's message and error range, in order.
pub open spec fn syntax_errors(paths: Seq<Seq<char>>, checks: Seq<FileCheck>, n: nat) -> Seq<
    (Seq<char>, (Seq<char>, ErrorSpan)),
>
    decreases n,
{
    if n == 0 {
        seq![]
    } else {
        syntax_errors(paths, checks, (n - 1) as nat) + match checks[n - 1] {
            FileCheck::Read(text) => match toml_parse(text@) {
                Err((m, span)) => seq![(paths[n - 1], (m, span))],
                Ok(_) => seq![],
            },
            _ => seq![],
        }
    }
}

pub open spec fn syntax_errors_view(v: Seq<(String, (String, ErrorSpan))>) -> Seq<
    (Seq<char>, (Seq<char>, ErrorSpan)),
> {
    v.map_values(|e: (String, (String, ErrorSpan))| (e.0@, (e.1.0@, e.1.1)))
}

/// The message of a schema error.
pub open spec fn schema_error_message() -> Seq<char> {
    "configuration does not follow the schema of packages"@
}

/// What the parser made of a text, with its message by view.
pub open spec fn parsed_view(p: Result<TomlValue, (String, ErrorSpan)>) -> Result<
    TomlValue,
    (Seq<char>, ErrorSpan),
> {
    match p {
        Ok(d) => Ok(d),
        Err((m, span)) => Err((m@, span)),
    }
}

/// The verdict on a configuration text, given what the parser made of it.
pub open spec fn config_verdict(
    parsed: Result<TomlValue, (Seq<char>, ErrorSpan)>,
    r: Result<(), ConfigError>,
) -> bool {
    match parsed {
        Err((m, span)) => r matches Err(ConfigError::SyntaxError(rm, rs)) && rm@ == m && rs
            == span,
        Ok(doc) => if document_schema_ok(doc) {
            r is Ok
        } else {
            r matches Err(ConfigError::SchemaError(msg)) && msg@ == schema_error_message()
        },
    }
}

impl ConfigData {
    pub closed spec fn spec_name(&self) -> Seq<char> {
        self.name@
    }

    pub closed spec fn spec_main(&self) -> Seq<char> {
        self.main_config_file@
    }

    pub closed spec fn spec_additional(&self) -> Seq<Seq<char>> {
        strings_view(self.additional_config_files@)
    }

    /// The main file, then the parts.
    pub open spec fn spec_files(&self) -> Seq<Seq<char>> {
        seq![self.spec_main()] + self.spec_additional()
    }

    /// The directory that holds the parts of configuration `base_name` in `base_path`.
    pub fn d_dir_path(base_path: &str, base_name: &str) -> (r: String)
        ensures
            r@ == with_extension(join(base_path@, base_name@), "d"@),
    {
        let p = crate::paths::join_path(base_path, base_name);
        path_with_extension(p.as_str(), "d")
    }

    /// The configuration `base_name` in `base_path`: its main file
    /// `<base_name>.toml` and, in path order, the `.toml` files among the
    /// entries `d_entries` listed in its `<base_name>.d` directory.
    pub fn load(base_path: &str, base_name: &str, d_entries: Vec<String>) -> (r: ConfigData)
        ensures
            r.spec_name() == base_name@,
            r.spec_main() == with_extension(join(base_path@, base_name@), "toml"@),
            texts_sorted(r.spec_additional()),
            r.spec_additional().to_multiset() == toml_entries(strings_view(d_entries@)).map_values(
                |e: Seq<char>| join(with_extension(join(base_path@, base_name@), "d"@), e),
            ).to_multiset(),
    {
        let p = crate::paths::join_path(base_path, base_name);
        let main = path_with_extension(p.as_str(), "toml");
        let d = path_with_extension(p.as_str(), "d");
        let ext = to_chars(".toml");
        let mut full: Vec<String> = Vec::new();
        let mut i: usize = 0;
        let ghost dv = d@;
        let ghost ev = strings_view(d_entries@);
        while i < d_entries.len()
            invariant
                i <= d_entries@.len(),
                dv == d@,
                ext@ == ".toml"@,
                ev == strings_view(d_entries@),
                strings_view(full@) == toml_entries(ev.take(i as int)).map_values(
                    |e: Seq<char>| join(dv, e),
                ),
            decreases d_entries@.len() - i,
        {
            let ghost before = full@;
            assert(ev.take(i as int + 1).drop_last() =~= ev.take(i as int));
            assert(ev.take(i as int + 1).last() == d_entries@[i as int]@);
            let name = to_chars(d_entries[i].as_str());
            if chars_end_with(&name, &ext) {
                full.push(crate::paths::join_path(d.as_str(), d_entries[i].as_str()));
                assert(strings_view(full@) =~= strings_view(before).push(join(dv, d_entries@[i as int]@)));
                assert(toml_entries(ev.take(i as int + 1)).map_values(|e: Seq<char>| join(dv, e))
                    =~= toml_entries(ev.take(i as int)).map_values(|e: Seq<char>| join(dv, e)).push(
                    join(dv, d_entries@[i as int]@),
                ));
            }
            i = i + 1;
        }
        assert(ev.take(d_entries@.len() as int) =~= ev);
        let sorted = sort_texts(&full);
        ConfigData { name: base_name.to_owned(), main_config_file: main, additional_config_files: sorted }
    }

    pub fn name(&self) -> (r: &str)
        ensures
            r@ == self.spec_name(),
    {
        self.name.as_str()
    }

    pub fn main_config_path(&self) -> (r: &str)
        ensures
            r@ == self.spec_main(),
    {
        self.main_config_file.as_str()
    }

    /// The parts, in path order.
    pub fn additional_config_files(&self) -> (r: &[String])
        ensures
            strings_view(r@) == self.spec_additional(),
    {
        self.additional_config_files.as_slice()
    }

    /// Judge a configuration from what the TOML parser made of its text: a
    /// parse error is a syntax error; a document is accepted when it follows
    /// the schema.
    pub fn judge_parsed_config(parsed: &Result<TomlValue, (String, ErrorSpan)>) -> (r: Result<
        (),
        ConfigError,
    >)
        ensures
            config_verdict(parsed_view(*parsed), r),
    {
        match parsed {
            Err((m, span)) => Err(ConfigError::SyntaxError(m.clone(), *span)),
            Ok(doc) => {
                if document_schema_ok_exec(doc) {
                    Ok(())
                } else {
                    Err(
                        ConfigError::SchemaError(
                            "configuration does not follow the schema of packages".to_owned(),
                        ),
                    )
                }
            },
        }
    }

    /// Check a configuration text before it is written: it must be TOML
    /// (else a syntax error) and follow the schema (else a schema error).
    pub fn validate_config_text(config_text: &str) -> (r: Result<(), ConfigError>)
        ensures
            config_verdict(toml_parse(config_text@), r),
    {
        let parsed = parse_toml(config_text);
        Self::judge_parsed_config(&parsed)
    }

    /// Gather the read and syntax errors of the configuration's files, given
    /// what checking each of them found (main file first, then the parts).
    pub fn validate(&self, checks: &Vec<FileCheck>) -> (r: Result<(), ConfigLoadError>)
        requires
            checks@.len() == self.spec_files().len(),
        ensures
            ({
                let acc = access_errors(self.spec_files(), checks@, checks@.len());
                let syn = syntax_errors(self.spec_files(), checks@, checks@.len());
                match r {
                    Ok(()) => acc.len() == 0 && syn.len() == 0,
                    Err(e) => (acc.len() > 0 || syn.len() > 0) && strings_view(e.access_error@)
                        == acc && syntax_errors_view(e.syntax_error@) == syn
                        && e.schema_error@.len() == 0,
                }
            }),
    {
        let ghost files = self.spec_files();
        let mut acc: Vec<String> = Vec::new();
        let mut syn: Vec<(String, (String, ErrorSpan))> = Vec::new();
        let mut i: usize = 0;
        while i < checks.len()
            invariant
                i <= checks@.len(),
                checks@.len() == files.len(),
                files == self.spec_files(),
                strings_view(acc@) == access_errors(files, checks@, i as nat),
                syntax_errors_view(syn@) == syntax_errors(files, checks@, i as nat),
            decreases checks@.len() - i,
        {
            let path: &String = if i == 0 {
                &self.main_config_file
            } else {
                &self.additional_config_files[i - 1]
            };
            assert(path@ == files[i as int]);
            let ghost acc0 = acc@;
            let ghost syn0 = syn@;
            match &checks[i] {
                FileCheck::Unreadable => {
                    acc.push(path.clone());
                },
                FileCheck::Read(text) => {
                    let parsed = parse_toml(text.as_str());
                    match parsed {
                        Err((m, span)) => {
                            syn.push((path.clone(), (m, span)));
                        },
                        Ok(_) => {},
                    }
                },
                _ => {},
            }
            assert(strings_view(acc@) =~= access_errors(files, checks@, (i + 1) as nat));
            assert(syntax_errors_view(syn@) =~= syntax_errors(files, checks@, (i + 1) as nat));
            i = i + 1;
        }
        if acc.len() > 0 || syn.len() > 0 {
            Err(ConfigLoadError { access_error: acc, syntax_error: syn, schema_error: Vec::new() })
        } else {
            Ok(())
        }
    }
}

} // verus!
