//! What installing a version reads and writes as text: the requirements and
//! the supported Python versions in `setup.cfg`, the answer of
//! `python --version`, the launcher scripts, and a few derived names.
use crate::installation_data::{ErrorKind, InstallError};
use crate::paths::join;
use crate::text::{
    chars_end_with, chars_equal, chars_start_with, decimal, ends_with, from_chars, lines,
    parse_u32_chars, parse_unsigned, is_char_boundary, utf8_len, slice_chars, chars_in_bytes, split, split_chars, split_lines, split_once, split_once_chars,
    opt_view, starts_with, to_chars, trim, trim_chars, u32_to_decimal, views,
};
use vstd::prelude::*;

verus! {

#[verifier::external_type_specification]
#[verifier::external_body]
pub struct ExVersionReq(semver::VersionReq);

/// Whether semver parses `text` as a version requirement.
pub uninterp spec fn semver_req_parses(text: Seq<char>) -> bool;

/// Whether the version `major.minor.patch` meets the requirement that semver
/// parses from `text`.
pub uninterp spec fn semver_req_matches(text: Seq<char>, major: u64, minor: u64, patch: u64) -> bool;

/// A version requirement together with the text it was parsed from.
pub struct VersionRequirement {
    text: String,
    req: semver::VersionReq,
}

impl VersionRequirement {
    pub closed spec fn spec_text(&self) -> Seq<char> {
        self.text@
    }
}

/// Calls `semver::VersionReq::parse`; claims only that it succeeds exactly when
/// `text` parses (a named fact) and that the requirement keeps its text.
#[verifier::external_body]
fn parse_version_req(text: &str) -> (r: Option<VersionRequirement>)
    ensures
        r is Some <==> semver_req_parses(text@),
        r matches Some(v) ==> v.spec_text() == text@,
{
    match semver::VersionReq::parse(text) {
        Ok(req) => Some(VersionRequirement { text: text.to_string(), req }),
        Err(_) => None,
    }
}

/// Calls `semver::VersionReq::matches` on `semver::Version::new(major, minor,
/// patch)`. A `VersionRequirement` is only made by `parse_version_req`, so its
/// requirement is the one parsed from its text; the answer is named after that text.
#[verifier::external_body]
fn version_req_matches(r: &VersionRequirement, major: u64, minor: u64, patch: u64) -> (b: bool)
    ensures
        b == semver_req_matches(r.spec_text(), major, minor, patch),
{
    r.req.matches(&semver::Version::new(major, minor, patch))
}

/// Whether a trimmed line opens the `install_requires` list.
pub open spec fn is_requires_header(l: Seq<char>) -> bool {
    l == "install_requires="@ || (starts_with(l, "install_requires "@) && ends_with(l, "="@))
}

/// The requirements listed after the `install_requires` header: trimmed lines
/// up to an empty line or a section header, without those on Lifeblood itself.
pub open spec fn requirements_scan(ls: Seq<Seq<char>>, found: bool) -> Seq<Seq<char>>
    decreases ls.len(),
{
    if ls.len() == 0 {
        seq![]
    } else {
        let l = trim(ls[0]);
        if found {
            if l.len() == 0 || starts_with(l, "["@) {
                seq![]
            } else if starts_with(l, "lifeblood"@) {
                requirements_scan(ls.drop_first(), true)
            } else {
                seq![l] + requirements_scan(ls.drop_first(), true)
            }
        } else {
            requirements_scan(ls.drop_first(), is_requires_header(l))
        }
    }
}

/// The requirements that a `setup.cfg` text lists.
pub open spec fn setupcfg_requirements(text: Seq<char>) -> Seq<Seq<char>> {
    requirements_scan(lines(text), false)
}

/// A trimmed line that ends the requirements list: an empty line or a section header.
pub open spec fn ends_requirements(l: Seq<char>) -> bool {
    l.len() == 0 || starts_with(l, "["@)
}

proof fn lemma_scan_found_stops(ls: Seq<Seq<char>>, ls2: Seq<Seq<char>>, k: int)
    requires
        0 <= k < ls.len(),
        k < ls2.len(),
        ls.take(k + 1) == ls2.take(k + 1),
        ends_requirements(trim(ls[k])),
    ensures
        requirements_scan(ls, true) == requirements_scan(ls2, true),
    decreases k,
{
    assert(ls[0] == ls.take(k + 1)[0]);
    assert(ls2[0] == ls2.take(k + 1)[0]);
    if k > 0 && !ends_requirements(trim(ls[0])) {
        let (t, t2) = (ls.drop_first(), ls2.drop_first());
        assert forall|j: int| 0 <= j < k implies t.take(k)[j] == t2.take(k)[j] by {
            assert(t.take(k)[j] == ls.take(k + 1)[j + 1]);
            assert(t2.take(k)[j] == ls2.take(k + 1)[j + 1]);
        }
        assert(t.take(k) =~= t2.take(k));
        assert(t[k - 1] == ls[k]);
        lemma_scan_found_stops(t, t2, k - 1);
    }
}

proof fn lemma_scan_header_then_stop(ls: Seq<Seq<char>>, ls2: Seq<Seq<char>>, h: int, k: int)
    requires
        0 <= h < k < ls.len(),
        k < ls2.len(),
        ls.take(k + 1) == ls2.take(k + 1),
        is_requires_header(trim(ls[h])),
        ends_requirements(trim(ls[k])),
    ensures
        requirements_scan(ls, false) == requirements_scan(ls2, false),
    decreases h,
{
    assert(ls[0] == ls.take(k + 1)[0]);
    assert(ls2[0] == ls2.take(k + 1)[0]);
    let (t, t2) = (ls.drop_first(), ls2.drop_first());
    assert forall|j: int| 0 <= j < k implies t.take(k)[j] == t2.take(k)[j] by {
        assert(t.take(k)[j] == ls.take(k + 1)[j + 1]);
        assert(t2.take(k)[j] == ls2.take(k + 1)[j + 1]);
    }
    assert(t.take(k) =~= t2.take(k));
    assert(t[k - 1] == ls[k]);
    if is_requires_header(trim(ls[0])) {
        lemma_scan_found_stops(t, t2, k - 1);
    } else {
        assert(t[h - 1] == ls[h]);
        lemma_scan_header_then_stop(t, t2, h - 1, k - 1);
    }
}

proof fn lemma_scan_items(ls: Seq<Seq<char>>, found: bool, x: int)
    requires
        0 <= x < requirements_scan(ls, found).len(),
    ensures
        exists|i: int|
            0 <= i < ls.len() && #[trigger] trim(ls[i]) == requirements_scan(ls, found)[x],
        !ends_requirements(requirements_scan(ls, found)[x]),
        !starts_with(requirements_scan(ls, found)[x], "lifeblood"@),
    decreases ls.len(),
{
    let l = trim(ls[0]);
    let t = ls.drop_first();
    if found && !ends_requirements(l) && !starts_with(l, "lifeblood"@) {
        if x > 0 {
            lemma_scan_items(t, true, x - 1);
            let i = choose|i: int| 0 <= i < t.len() && #[trigger] trim(t[i]) == requirements_scan(t, true)[x - 1];
            assert(trim(ls[i + 1]) == trim(t[i]));
        } else {
            assert(trim(ls[0]) == l);
        }
    } else if found && !ends_requirements(l) {
        lemma_scan_items(t, true, x);
        let i = choose|i: int| 0 <= i < t.len() && #[trigger] trim(t[i]) == requirements_scan(t, true)[x];
        assert(trim(ls[i + 1]) == trim(t[i]));
    } else if !found {
        lemma_scan_items(t, is_requires_header(l), x);
        let i = choose|i: int|
            0 <= i < t.len() && #[trigger] trim(t[i]) == requirements_scan(t, is_requires_header(l))[x];
        assert(trim(ls[i + 1]) == trim(t[i]));
    }
}

/// The requirements of a `setup.cfg` are trimmed lines of it, none empty, none
/// a section header and none on Lifeblood itself; and the list ends at the
/// first empty line or section header after an `install_requires` header:
/// two texts whose lines agree up to that line have the same requirements,
/// whatever follows it.
pub proof fn law_requirements_end_at_section(text: Seq<char>, text2: Seq<char>, h: int, k: int)
    requires
        0 <= h < k < lines(text).len(),
        k < lines(text2).len(),
        lines(text).take(k + 1) == lines(text2).take(k + 1),
        is_requires_header(trim(lines(text)[h])),
        trim(lines(text)[k]).len() == 0 || starts_with(trim(lines(text)[k]), "["@),
    ensures
        setupcfg_requirements(text) == setupcfg_requirements(text2),
        forall|x: int|
            0 <= x < setupcfg_requirements(text).len() ==> {
                let r = #[trigger] setupcfg_requirements(text)[x];
                &&& exists|i: int| 0 <= i < lines(text).len() && #[trigger] trim(lines(text)[i]) == r
                &&& r.len() > 0
                &&& !starts_with(r, "["@)
                &&& !starts_with(r, "lifeblood"@)
            },
{
    lemma_scan_header_then_stop(lines(text), lines(text2), h, k);
    assert forall|x: int| 0 <= x < setupcfg_requirements(text).len() implies {
        let r = #[trigger] setupcfg_requirements(text)[x];
        &&& exists|i: int| 0 <= i < lines(text).len() && #[trigger] trim(lines(text)[i]) == r
        &&& r.len() > 0
        &&& !starts_with(r, "["@)
        &&& !starts_with(r, "lifeblood"@)
    } by {
        lemma_scan_items(lines(text), false, x);
    }
}

/// Read the `install_requires` list out of a `setup.cfg` text.
pub fn requirements_from_setupcfg(text: &str) -> (r: Vec<String>)
    ensures
        r@.map_values(|s: String| s@) == setupcfg_requirements(text@),
{
    let t = to_chars(text);
    let ls = split_lines(&t);
    let ghost lv = views(ls@);
    let header = to_chars("install_requires=");
    let header_sp = to_chars("install_requires ");
    let eq = to_chars("=");
    let bracket = to_chars("[");
    let own = to_chars("lifeblood");
    let mut out: Vec<String> = Vec::new();
    let mut found: bool = false;
    let mut i: usize = 0;
    assert(lv.skip(0) =~= lv);
    while i < ls.len()
        invariant
            lv == views(ls@),
            lv == lines(text@),
            i <= ls@.len(),
            header@ == "install_requires="@,
            header_sp@ == "install_requires "@,
            eq@ == "="@,
            bracket@ == "["@,
            own@ == "lifeblood"@,
            requirements_scan(lv, false) == out@.map_values(|s: String| s@) + requirements_scan(
                lv.skip(i as int),
                found,
            ),
        decreases ls@.len() - i,
    {
        let l = trim_chars(&ls[i]);
        let ghost rest = lv.skip(i as int);
        assert(rest[0] == ls@[i as int]@);
        assert(rest.drop_first() =~= lv.skip(i as int + 1));
        if found {
            if l.len() == 0 || chars_start_with(&l, &bracket) {
                assert(requirements_scan(rest, true) == Seq::<Seq<char>>::empty());
                assert(out@.map_values(|s: String| s@) + Seq::<Seq<char>>::empty()
                    =~= out@.map_values(|s: String| s@));
                return out;
            } else if chars_start_with(&l, &own) {
            } else {
                let ghost before = out@;
                out.push(from_chars(&l));
                assert(out@.map_values(|s: String| s@) =~= before.map_values(|s: String| s@)
                    + seq![l@]);
            }
        } else {
            found = chars_equal(&l, &header) || (chars_start_with(&l, &header_sp)
                && chars_end_with(&l, &eq));
        }
        i = i + 1;
    }
    assert(lv.skip(i as int) =~= Seq::<Seq<char>>::empty());
    assert(out@.map_values(|s: String| s@) + Seq::<Seq<char>>::empty() =~= out@.map_values(
        |s: String| s@,
    ));
    out
}

/// The value of a `python_requires = ...` line, trimmed.
pub open spec fn python_requires_value(l: Seq<char>) -> Option<Seq<char>> {
    match split_once(trim(l), '=') {
        Some((k, v)) => if trim(k) == "python_requires"@ {
            Some(trim(v))
        } else {
            None
        },
        None => None,
    }
}

/// The Python versions `3.m` with `from <= m < 30` that meet the requirement `req`.
pub open spec fn matching_minors(req: Seq<char>, from: nat) -> Seq<(u32, u32)>
    decreases 30 - from,
{
    if from >= 30 {
        seq![]
    } else {
        (if semver_req_matches(req, 3, from as u64, 0) {
            seq![(3u32, from as u32)]
        } else {
            seq![]
        }) + matching_minors(req, from + 1)
    }
}

/// The supported Python versions named by the first `python_requires` line,
/// `3.8` to `3.29` being tried; an unreadable requirement is an error.
pub open spec fn pyvers_scan(ls: Seq<Seq<char>>) -> Result<Seq<(u32, u32)>, ()>
    decreases ls.len(),
{
    if ls.len() == 0 {
        Ok(seq![])
    } else {
        match python_requires_value(ls[0]) {
            Some(req) => if semver_req_parses(req) {
                Ok(matching_minors(req, 8))
            } else {
                Err(())
            },
            None => pyvers_scan(ls.drop_first()),
        }
    }
}

fn python_requires_of(line: &Vec<char>, key: &Vec<char>) -> (r: Option<Vec<char>>)
    requires
        key@ == "python_requires"@,
    ensures
        match (r, python_requires_value(line@)) {
            (Some(a), Some(b)) => a@ == b,
            (None, None) => true,
            _ => false,
        },
{
    let l = trim_chars(line);
    match split_once_chars(&l, '=') {
        Some((k, v)) => {
            let kt = trim_chars(&k);
            if chars_equal(&kt, key) {
                Some(trim_chars(&v))
            } else {
                None
            }
        },
        None => None,
    }
}

/// The supported Python versions that a `setup.cfg` text declares.
pub fn pyvers_from_setupcfg(text: &str) -> (r: Result<Vec<(u32, u32)>, InstallError>)
    ensures
        match (r, pyvers_scan(lines(text@))) {
            (Ok(v), Ok(s)) => v@ == s,
            (Err(e), Err(_)) => e.kind == ErrorKind::InvalidData,
            _ => false,
        },
{
    let t = to_chars(text);
    let ls = split_lines(&t);
    let ghost lv = views(ls@);
    let key = to_chars("python_requires");
    let mut i: usize = 0;
    assert(lv.skip(0) =~= lv);
    while i < ls.len()
        invariant
            lv == views(ls@),
            lv == lines(text@),
            key@ == "python_requires"@,
            i <= ls@.len(),
            pyvers_scan(lv) == pyvers_scan(lv.skip(i as int)),
        decreases ls@.len() - i,
    {
        let ghost rest = lv.skip(i as int);
        assert(rest[0] == ls@[i as int]@);
        assert(rest.drop_first() =~= lv.skip(i as int + 1));
        match python_requires_of(&ls[i], &key) {
            Some(req_chars) => {
                let req_text = from_chars(&req_chars);
                match parse_version_req(req_text.as_str()) {
                    Some(req) => {
                        let mut out: Vec<(u32, u32)> = Vec::new();
                        let mut m: u64 = 8;
                        while m < 30
                            invariant
                                8 <= m <= 30,
                                req.spec_text() == req_chars@,
                                matching_minors(req_chars@, 8) == out@ + matching_minors(
                                    req_chars@,
                                    m as nat,
                                ),
                            decreases 30 - m,
                        {
                            let ghost before = out@;
                            if version_req_matches(&req, 3, m, 0) {
                                out.push((3u32, m as u32));
                            }
                            assert(out@ + matching_minors(req_chars@, (m + 1) as nat) =~= before
                                + matching_minors(req_chars@, m as nat));
                            m = m + 1;
                        }
                        assert(out@ + matching_minors(req_chars@, 30) =~= out@);
                        return Ok(out);
                    },
                    None => {
                        return Err(
                            InstallError {
                                kind: ErrorKind::InvalidData,
                                message: "failed to parse python_requires from setup.cfg".to_string(),
                            },
                        );
                    },
                }
            },
            None => {},
        }
        i = i + 1;
    }
    assert(lv.skip(i as int) =~= Seq::<Seq<char>>::empty());
    Ok(Vec::new())
}

/// The `major.minor` that a `python --version` answer (`Python X.Y.Z`) names:
/// `Err` when there is no space, `None` when the first two dot-separated parts
/// after it are not both numbers.
pub open spec fn python_version_pair(out: Seq<char>) -> Result<Option<(u32, u32)>, ()> {
    match split_once(out, ' ') {
        None => Err(()),
        Some((_, suf)) => {
            let parts = split(suf, '.');
            if parts.len() >= 2 && parse_unsigned(parts[0], u32::MAX as nat) is Some
                && parse_unsigned(parts[1], u32::MAX as nat) is Some {
                Ok(
                    Some(
                        (
                            parse_unsigned(parts[0], u32::MAX as nat).unwrap() as u32,
                            parse_unsigned(parts[1], u32::MAX as nat).unwrap() as u32,
                        ),
                    ),
                )
            } else {
                Ok(None)
            }
        },
    }
}

/// Why the answer of `python --version` could not be judged.
#[derive(Clone, Copy, Debug, PartialEq, Eq, Structural)]
pub enum PythonCheckError {
    /// The answer is not UTF-8 text.
    UnreadableOutput,
    /// The answer holds no space.
    UnexpectedOutput,
}

/// Whether the Python that answered `stdout` (`None` when not UTF-8) is one of
/// the `supported` `major.minor` versions.
pub fn python_version_supported(stdout: Option<&str>, supported: &[(u32, u32)]) -> (r: Result<
    bool,
    PythonCheckError,
>)
    ensures
        match stdout {
            None => r == Err::<bool, PythonCheckError>(PythonCheckError::UnreadableOutput),
            Some(s) => match python_version_pair(s@) {
                Err(_) => r == Err::<bool, PythonCheckError>(PythonCheckError::UnexpectedOutput),
                Ok(None) => r == Ok::<bool, PythonCheckError>(false),
                Ok(Some(p)) => r == Ok::<bool, PythonCheckError>(supported@.contains(p)),
            },
        },
{
    let s = match stdout {
        None => {
            return Err(PythonCheckError::UnreadableOutput);
        },
        Some(s) => s,
    };
    let c = to_chars(s);
    let suf = match split_once_chars(&c, ' ') {
        None => {
            return Err(PythonCheckError::UnexpectedOutput);
        },
        Some((_, suf)) => suf,
    };
    let parts = split_chars(&suf, '.');
    assert(views(parts@).len() == parts@.len());
    if parts.len() < 2 {
        return Ok(false);
    }
    assert(views(parts@)[0] == parts@[0]@);
    assert(views(parts@)[1] == parts@[1]@);
    let major = match parse_u32_chars(&parts[0]) {
        None => {
            return Ok(false);
        },
        Some(x) => x,
    };
    let minor = match parse_u32_chars(&parts[1]) {
        None => {
            return Ok(false);
        },
        Some(x) => x,
    };
    assert(python_version_pair(s@) == Ok::<Option<(u32, u32)>, ()>(Some((major, minor))));
    let mut i: usize = 0;
    while i < supported.len()
        invariant
            i <= supported@.len(),
            stdout == Some(s),
            python_version_pair(s@) == Ok::<Option<(u32, u32)>, ()>(Some((major, minor))),
            forall|j: int| 0 <= j < i ==> supported@[j] != (major, minor),
        decreases supported@.len() - i,
    {
        let (a, b) = supported[i];
        if a == major && b == minor {
            assert(supported@[i as int] == (major, minor));
            assert(supported@.contains((major, minor)));
            return Ok(true);
        }
        i = i + 1;
    }
    Ok(false)
}

/// The launcher script that runs `entry.py` of the version linked as
/// `current_name`, with `entry_arg` before the user's arguments: a shell
/// script on Unix, a `cmd` script (whose first line names the version) on Windows.
pub open spec fn script_link_text(current_name: Seq<char>, entry_arg: Seq<char>, windows: bool) -> Seq<
    char,
> {
    if windows {
        "@rem "@ + current_name + "\n@echo off\n%~dp0\\"@ + current_name
            + "\\venv\\Scripts\\python %~dp0\\"@ + current_name + "\\entry.py "@ + entry_arg
            + " %*"@
    } else {
        "#!/bin/sh\ncwd=`dirname \\`readlink -f $0\\``\nexec $cwd/"@ + current_name
            + "/venv/bin/python $cwd/"@ + current_name + "/entry.py "@ + entry_arg + " \"$@\""@
    }
}

pub fn script_link_contents(current_name: &str, entry_arg: &str, windows: bool) -> (r: String)
    ensures
        r@ == script_link_text(current_name@, entry_arg@, windows),
{
    if windows {
        let mut s = "@rem ".to_owned();
        s.append(current_name);
        s.append("\n@echo off\n%~dp0\\");
        s.append(current_name);
        s.append("\\venv\\Scripts\\python %~dp0\\");
        s.append(current_name);
        s.append("\\entry.py ");
        s.append(entry_arg);
        s.append(" %*");
        s
    } else {
        let mut s = "#!/bin/sh\ncwd=`dirname \\`readlink -f $0\\``\nexec $cwd/".to_owned();
        s.append(current_name);
        s.append("/venv/bin/python $cwd/");
        s.append(current_name);
        s.append("/entry.py ");
        s.append(entry_arg);
        s.append(" \"$@\"");
        s
    }
}

/// The Python binary of the virtual environment inside an installed version.
pub open spec fn venv_python_path(dest_dir: Seq<char>, windows: bool) -> Seq<char> {
    if windows {
        join(join(join(dest_dir, "venv"@), "Scripts"@), "python.exe"@)
    } else {
        join(join(join(dest_dir, "venv"@), "bin"@), "python"@)
    }
}

pub fn venv_python_bin_path(dest_dir: &str, windows: bool) -> (r: String)
    ensures
        r@ == venv_python_path(dest_dir@, windows),
{
    let venv = crate::paths::join_path(dest_dir, "venv");
    if windows {
        let bin = crate::paths::join_path(venv.as_str(), "Scripts");
        crate::paths::join_path(bin.as_str(), "python.exe")
    } else {
        let bin = crate::paths::join_path(venv.as_str(), "bin");
        crate::paths::join_path(bin.as_str(), "python")
    }
}

/// Where the sources of the newest commit of `branch` are downloaded from.
pub open spec fn branch_archive_url_text(branch: Seq<char>) -> Seq<char> {
    "https://github.com/pedohorse/lifeblood/archive/refs/heads/"@ + branch + ".zip"@
}

pub fn branch_archive_url(branch: &str) -> (r: String)
    ensures
        r@ == branch_archive_url_text(branch@),
{
    let mut s = "https://github.com/pedohorse/lifeblood/archive/refs/heads/".to_owned();
    s.append(branch);
    s.append(".zip");
    s
}

/// The name of a version built from `commit`: the characters that make up its
/// first 13 bytes.
pub fn nice_name_from_commit(commit: &str) -> (r: String)
    requires
        is_char_boundary(commit@, 13),
    ensures
        utf8_len(r@) == 13,
        r@ == commit@.take(r@.len() as int),
{
    let c = to_chars(commit);
    let k = chars_in_bytes(c.as_slice(), 13);
    let out = slice_chars(c.as_slice(), 0, k);
    assert(out@ =~= commit@.take(k as int));
    from_chars(&out)
}

/// `major.minor` pairs written out, separated by `, `.
pub open spec fn versions_list_text(vs: Seq<(u32, u32)>) -> Seq<char>
    decreases vs.len(),
{
    if vs.len() == 0 {
        seq![]
    } else if vs.len() == 1 {
        decimal(vs[0].0 as nat) + seq!['.'] + decimal(vs[0].1 as nat)
    } else {
        versions_list_text(vs.drop_last()) + seq![',', ' '] + decimal(vs.last().0 as nat) + seq![
            '.',
        ] + decimal(vs.last().1 as nat)
    }
}

/// The message given when the chosen Python is not among the supported versions.
pub fn unsupported_python_message(supported: &[(u32, u32)]) -> (r: String)
    ensures
        r@ == "given python version is not supported. supported: "@ + versions_list_text(
            supported@,
        ),
{
    let mut out: Vec<char> = Vec::new();
    let mut i: usize = 0;
    while i < supported.len()
        invariant
            i <= supported@.len(),
            out@ == versions_list_text(supported@.take(i as int)),
        decreases supported@.len() - i,
    {
        let ghost before = out@;
        if i > 0 {
            out.push(',');
            out.push(' ');
        }
        u32_to_decimal(supported[i].0, &mut out);
        out.push('.');
        u32_to_decimal(supported[i].1, &mut out);
        assert(supported@.take(i as int + 1).drop_last() =~= supported@.take(i as int));
        assert(out@ =~= versions_list_text(supported@.take(i as int + 1)));
        i = i + 1;
    }
    assert(supported@.take(supported@.len() as int) =~= supported@);
    let mut s = "given python version is not supported. supported: ".to_owned();
    let tail = from_chars(&out);
    s.append(tail.as_str());
    s
}

/// The Python commands to try, in order: the one that `PYTHON_BIN` names,
/// else `python` and then `python3`.
pub open spec fn python_candidates_spec(python_bin: Option<Seq<char>>) -> Seq<Seq<char>> {
    match python_bin {
        Some(p) => seq![p],
        None => seq!["python"@, "python3"@],
    }
}

pub fn python_candidates(python_bin: Option<String>) -> (r: Vec<String>)
    ensures
        r@.map_values(|s: String| s@) == python_candidates_spec(opt_view(python_bin)),
{
    let mut r: Vec<String> = Vec::new();
    match python_bin {
        Some(p) => {
            r.push(p);
        },
        None => {
            r.push("python".to_owned());
            r.push("python3".to_owned());
        },
    }
    assert(r@.map_values(|s: String| s@) =~= python_candidates_spec(opt_view(python_bin)));
    r
}

/// Whether a Python command works, from how `<command> --version` ended:
/// it ran and exited with a code, which on Windows is not 9009 (command not found).
pub open spec fn python_probe_ok(ran: bool, code: Option<i32>, windows: bool) -> bool {
    ran && match code {
        Some(c) => !(windows && c == 9009),
        None => false,
    }
}

pub fn python_probe_accepted(ran: bool, code: Option<i32>, windows: bool) -> (r: bool)
    ensures
        r == python_probe_ok(ran, code, windows),
{
    if !ran {
        return false;
    }
    match code {
        Some(c) => !(windows && c == 9009),
        None => false,
    }
}

} // verus!
