//! The installed Lifeblood versions found in one base directory: which there
//! are, in which order, and which one is current.
use crate::paths::{
    is_absolute, join, join_path, lemma_join_named_pieces, named_pieces, relative_to,
    relative_to_chars, same_path, same_path_chars,
};
use crate::text::{
    chars_before_byte, chars_in_bytes, is_char_boundary, lines, slice_chars, split, split_lines,
    trim, trim_chars,
};
use crate::version_metadata::{parse_metadata, parse_metadata_spec};
use crate::text::{chars_equal, from_chars, opt_view, strings_view, to_chars};
use vstd::prelude::*;

verus! {

/// A point in time, as seconds since the Unix epoch and nanoseconds within
/// that second (above 999 999 999 only during a leap second).
#[derive(Clone, Copy, Debug)]
pub struct VersionDate {
    pub secs: i64,
    pub nanos: u32,
}

/// `a` is not later than `b`.
pub open spec fn date_le(a: VersionDate, b: VersionDate) -> bool {
    a.secs < b.secs || (a.secs == b.secs && a.nanos <= b.nanos)
}

pub fn date_not_after(a: &VersionDate, b: &VersionDate) -> (r: bool)
    ensures
        r == date_le(*a, *b),
{
    a.secs < b.secs || (a.secs == b.secs && a.nanos <= b.nanos)
}

/// The plain content of an installed version.
pub struct VersionView {
    pub path: Seq<char>,
    pub nice_name: Seq<char>,
    pub commit: Seq<char>,
    pub date: VersionDate,
    pub has_viewer: bool,
}

/// One installed version: its directory, its name (the directory's name), the
/// source commit it was built from, its creation date, and whether the viewer
/// was installed with it.
#[derive(Debug)]
pub struct InstalledVersion {
    path: String,
    nice_name: String,
    commit: String,
    date: VersionDate,
    has_viewer: bool,
}

impl View for InstalledVersion {
    type V = VersionView;

    closed spec fn view(&self) -> VersionView {
        VersionView {
            path: self.path@,
            nice_name: self.nice_name@,
            commit: self.commit@,
            date: self.date,
            has_viewer: self.has_viewer,
        }
    }
}

impl InstalledVersion {
    pub fn new(
        path: String,
        nice_name: String,
        commit: String,
        date: VersionDate,
        has_viewer: bool,
    ) -> (r: InstalledVersion)
        ensures
            r@ == (VersionView {
                path: path@,
                nice_name: nice_name@,
                commit: commit@,
                date,
                has_viewer,
            }),
    {
        InstalledVersion { path, nice_name, commit, date, has_viewer }
    }

    pub fn path(&self) -> (r: &str)
        ensures
            r@ == self@.path,
    {
        self.path.as_str()
    }

    pub fn nice_name(&self) -> (r: &str)
        ensures
            r@ == self@.nice_name,
    {
        self.nice_name.as_str()
    }

    pub fn source_commit(&self) -> (r: &str)
        ensures
            r@ == self@.commit,
    {
        self.commit.as_str()
    }

    pub fn has_viewer(&self) -> (r: bool)
        ensures
            r == self@.has_viewer,
    {
        self.has_viewer
    }

    pub fn date(&self) -> (r: VersionDate)
        ensures
            r == self@.date,
    {
        self.date
    }

    /// Record that the version's directory was renamed to `name` under `parent`.
    pub fn set_nice_name(&mut self, parent: &str, name: String)
        ensures
            final(self)@ == (VersionView {
                path: join(parent@, name@),
                nice_name: name@,
                ..old(self)@
            }),
    {
        self.path = crate::paths::join_path(parent, name.as_str());
        self.nice_name = name;
    }
}

pub open spec fn versions_view(v: Seq<InstalledVersion>) -> Seq<VersionView> {
    v.map_values(|x: InstalledVersion| x@)
}

/// Versions ordered from the oldest to the newest.
pub open spec fn sorted_by_date(s: Seq<VersionView>) -> bool {
    forall|i: int, j: int| 0 <= i < j < s.len() ==> date_le(s[i].date, s[j].date)
}

/// How many versions of `s` are not later than `d`: where a version of date
/// `d` is inserted (after all of the same date).
pub open spec fn count_not_after(s: Seq<VersionView>, d: VersionDate) -> nat
    decreases s.len(),
{
    if s.len() == 0 {
        0
    } else {
        count_not_after(s.drop_last(), d) + if date_le(s.last().date, d) {
            1nat
        } else {
            0nat
        }
    }
}

/// `s` with `v` inserted so that dates stay ordered.
pub open spec fn insert_by_date(s: Seq<VersionView>, v: VersionView) -> Seq<VersionView> {
    s.insert(count_not_after(s, v.date) as int, v)
}

proof fn lemma_count_at_partition(s: Seq<VersionView>, d: VersionDate, k: int)
    requires
        0 <= k <= s.len(),
        forall|j: int| 0 <= j < k ==> date_le(s[j].date, d),
        forall|j: int| k <= j < s.len() ==> !date_le(s[j].date, d),
    ensures
        count_not_after(s, d) == k,
    decreases s.len(),
{
    if s.len() > 0 {
        if k == s.len() {
            lemma_count_at_partition(s.drop_last(), d, k - 1);
        } else {
            lemma_count_at_partition(s.drop_last(), d, k);
        }
    }
}

/// The version `current_version` holds when no version is current.
pub const NO_CURRENT_VERSION: usize = usize::MAX;

/// The versions installed in one base directory.
pub struct InstallationsData {
    base_path: String,
    versions: Vec<InstalledVersion>,
    current_version: usize,
    base_path_tainted: bool,
}

/// Whether an installed version is the build of `commit`, with the viewer if one is wanted.
pub open spec fn is_installed_build(v: VersionView, commit: Seq<char>, with_viewer: bool) -> bool {
    v.commit == commit && (v.has_viewer || !with_viewer)
}

/// An error, with the kind of `std::io::Error` that it stands for.
#[derive(Clone, Copy, Debug, PartialEq, Eq, Structural)]
pub enum ErrorKind {
    NotFound,
    InvalidData,
    InvalidInput,
    Unsupported,
    Other,
}

#[derive(Debug)]
pub struct InstallError {
    pub kind: ErrorKind,
    pub message: String,
}

impl InstallationsData {
    pub closed spec fn spec_base(&self) -> Seq<char> {
        self.base_path@
    }

    pub closed spec fn spec_versions(&self) -> Seq<VersionView> {
        versions_view(self.versions@)
    }

    pub closed spec fn spec_current(&self) -> usize {
        self.current_version
    }

    pub closed spec fn spec_tainted(&self) -> bool {
        self.base_path_tainted
    }

    /// Versions are ordered by date, the current index points at a version or
    /// is `NO_CURRENT_VERSION`, and each version lies directly in the base directory.
    pub open spec fn wf(&self) -> bool {
        &&& sorted_by_date(self.spec_versions())
        &&& (self.spec_current() == NO_CURRENT_VERSION || self.spec_current()
            < self.spec_versions().len())
        &&& forall|i: int|
            0 <= i < self.spec_versions().len() ==> (#[trigger] self.spec_versions()[i]).path
                == join(self.spec_base(), self.spec_versions()[i].nice_name)
    }

    /// The base directory that was scanned.
    pub fn base_path(&self) -> (r: &str)
        ensures
            r@ == self.spec_base(),
    {
        self.base_path.as_str()
    }

    /// True when the base directory holds things unrelated to Lifeblood.
    pub fn is_base_path_tainted(&self) -> (r: bool)
        ensures
            r == self.spec_tainted(),
    {
        self.base_path_tainted
    }

    pub fn version(&self, i: usize) -> (r: Option<&InstalledVersion>)
        ensures
            match r {
                Some(v) => i < self.spec_versions().len() && v@ == self.spec_versions()[i as int],
                None => i >= self.spec_versions().len(),
            },
    {
        if i < self.versions.len() {
            Some(&self.versions[i])
        } else {
            None
        }
    }

    pub fn current_version(&self) -> (r: Option<&InstalledVersion>)
        requires
            self.wf(),
        ensures
            match r {
                Some(v) => self.spec_current() != NO_CURRENT_VERSION && v@
                    == self.spec_versions()[self.spec_current() as int],
                None => self.spec_current() == NO_CURRENT_VERSION,
            },
    {
        if self.current_version == NO_CURRENT_VERSION {
            None
        } else {
            Some(&self.versions[self.current_version])
        }
    }

    pub fn current_version_index(&self) -> (r: usize)
        ensures
            r == self.spec_current(),
    {
        self.current_version
    }

    /// All versions, from the oldest to the newest.
    pub fn iter_versions(&self) -> (r: &[InstalledVersion])
        ensures
            versions_view(r@) == self.spec_versions(),
    {
        self.versions.as_slice()
    }

    pub fn version_count(&self) -> (r: usize)
        ensures
            r == self.spec_versions().len(),
    {
        self.versions.len()
    }

    /// The first version built from `commit`, with the viewer if `with_viewer`.
    pub fn find_installed_build(&self, commit: &str, with_viewer: bool) -> (r: Option<usize>)
        ensures
            match r {
                Some(i) => i < self.spec_versions().len() && is_installed_build(
                    self.spec_versions()[i as int],
                    commit@,
                    with_viewer,
                ) && forall|j: int|
                    0 <= j < i ==> !is_installed_build(
                        #[trigger] self.spec_versions()[j],
                        commit@,
                        with_viewer,
                    ),
                None => forall|j: int|
                    0 <= j < self.spec_versions().len() ==> !is_installed_build(
                        #[trigger] self.spec_versions()[j],
                        commit@,
                        with_viewer,
                    ),
            },
    {
        let c = to_chars(commit);
        let mut i: usize = 0;
        while i < self.versions.len()
            invariant
                i <= self.versions@.len(),
                c@ == commit@,
                forall|j: int|
                    0 <= j < i ==> !is_installed_build(
                        #[trigger] versions_view(self.versions@)[j],
                        commit@,
                        with_viewer,
                    ),
            decreases self.versions@.len() - i,
        {
            let v = &self.versions[i];
            let vc = to_chars(v.commit.as_str());
            if chars_equal(&vc, &c) && (v.has_viewer || !with_viewer) {
                return Some(i);
            }
            i = i + 1;
        }
        None
    }

    /// Where a version dated `d` goes: after every version not later than `d`.
    fn insertion_index(&self, d: VersionDate) -> (idx: usize)
        requires
            sorted_by_date(self.spec_versions()),
        ensures
            idx == count_not_after(self.spec_versions(), d),
    {
        let ghost s = self.spec_versions();
        let mut lo: usize = 0;
        let mut hi: usize = self.versions.len();
        while lo < hi
            invariant
                s == versions_view(self.versions@),
                sorted_by_date(s),
                lo <= hi <= s.len(),
                forall|j: int| 0 <= j < lo ==> date_le(#[trigger] s[j].date, d),
                forall|j: int| hi <= j < s.len() ==> !date_le(#[trigger] s[j].date, d),
            decreases hi - lo,
        {
            let mid: usize = lo + (hi - lo) / 2;
            if date_not_after(&self.versions[mid].date, &d) {
                assert forall|j: int| 0 <= j < mid + 1 implies date_le(#[trigger] s[j].date, d) by {
                    if j < mid {
                        assert(date_le(s[j].date, s[mid as int].date));
                    }
                }
                lo = mid + 1;
            } else {
                assert forall|j: int| mid <= j < s.len() implies !date_le(#[trigger] s[j].date, d) by {
                    if j > mid {
                        assert(date_le(s[mid as int].date, s[j].date));
                    }
                }
                hi = mid;
            }
        }
        proof {
            lemma_count_at_partition(s, d, lo as int);
        }
        lo
    }

    /// Add a version, keeping versions ordered by date (a new version goes after
    /// those of the same date) and the current version the same version.
    /// Returns the index at which it was inserted.
    pub fn register_version(&mut self, ver: InstalledVersion) -> (idx: usize)
        requires
            old(self).wf(),
            ver@.path == join(old(self).spec_base(), ver@.nice_name),
        ensures
            final(self).wf(),
            idx == count_not_after(old(self).spec_versions(), ver@.date),
            final(self).spec_versions() == insert_by_date(old(self).spec_versions(), ver@),
            final(self).spec_current() == if old(self).spec_current() != NO_CURRENT_VERSION
                && idx <= old(self).spec_current() {
                (old(self).spec_current() + 1) as usize
            } else {
                old(self).spec_current()
            },
            final(self).spec_base() == old(self).spec_base(),
            final(self).spec_tainted() == old(self).spec_tainted(),
    {
        let ghost s = self.spec_versions();
        let ghost vv = ver@;
        let idx = self.insertion_index(ver.date);
        proof {
            lemma_count_partition_facts(s, vv.date);
        }
        self.versions.insert(idx, ver);
        assert(self.spec_versions() =~= s.insert(idx as int, vv));
        if self.current_version != NO_CURRENT_VERSION && idx <= self.current_version {
            self.current_version = self.current_version + 1;
        }
        proof {
            let t = self.spec_versions();
            assert forall|i: int, j: int| 0 <= i < j < t.len() implies date_le(
                t[i].date,
                t[j].date,
            ) by {
                if i < idx && j < idx {
                    assert(t[i] == s[i] && t[j] == s[j]);
                } else if i < idx && j == idx {
                    assert(t[i] == s[i]);
                } else if i < idx {
                    assert(t[i] == s[i] && t[j] == s[j - 1]);
                } else if i == idx {
                    assert(t[j] == s[j - 1]);
                    assert(!date_le(s[j - 1].date, vv.date));
                } else {
                    assert(t[i] == s[i - 1] && t[j] == s[j - 1]);
                }
            }
            assert forall|i: int| 0 <= i < t.len() implies (#[trigger] t[i]).path == join(
                self.spec_base(),
                t[i].nice_name,
            ) by {
                if i < idx {
                    assert(t[i] == s[i]);
                } else if i > idx {
                    assert(t[i] == s[i - 1]);
                }
            }
        }
        idx
    }

    /// Record `i` as the current version; an index with no version is refused.
    pub fn make_version_current(&mut self, i: usize) -> (r: Result<(), InstallError>)
        requires
            old(self).wf(),
        ensures
            final(self).wf(),
            final(self).spec_versions() == old(self).spec_versions(),
            final(self).spec_base() == old(self).spec_base(),
            final(self).spec_tainted() == old(self).spec_tainted(),
            i < old(self).spec_versions().len() ==> r is Ok && final(self).spec_current() == i,
            i >= old(self).spec_versions().len() ==> (r matches Err(e) && e.kind
                == ErrorKind::NotFound) && final(self).spec_current() == old(self).spec_current(),
    {
        if i < self.versions.len() {
            self.current_version = i;
            Ok(())
        } else {
            Err(InstallError { kind: ErrorKind::NotFound, message: "no such version".to_string() })
        }
    }

    /// The target of the `current` link for version `i`: its directory relative
    /// to the base directory.
    pub fn current_link_target(&self, i: usize) -> (r: Option<String>)
        ensures
            match r {
                Some(t) => i < self.spec_versions().len() && t@ == relative_to(
                    self.spec_versions()[i as int].path,
                    self.spec_base(),
                ),
                None => i >= self.spec_versions().len(),
            },
    {
        if i < self.versions.len() {
            let p = to_chars(self.versions[i].path.as_str());
            let b = to_chars(self.base_path.as_str());
            let r = relative_to_chars(&p, &b);
            Some(from_chars(&r))
        } else {
            None
        }
    }

    /// Where version `version_id` is moved when renamed to `new_name`.
    pub fn renamed_version_path(&self, version_id: usize, new_name: &str) -> (r: Result<
        String,
        InstallError,
    >)
        ensures
            match r {
                Ok(p) => version_id < self.spec_versions().len() && p@ == join(
                    self.spec_base(),
                    new_name@,
                ),
                Err(e) => version_id >= self.spec_versions().len() && e.kind
                    == ErrorKind::InvalidData,
            },
    {
        if version_id >= self.versions.len() {
            return Err(
                InstallError {
                    kind: ErrorKind::InvalidData,
                    message: "given version_id does not exist".to_string(),
                },
            );
        }
        Ok(crate::paths::join_path(self.base_path.as_str(), new_name))
    }

    /// Record that version `version_id` was renamed to `new_name`; answers
    /// whether it is the current version (whose link must then be remade).
    pub fn rename_version(&mut self, version_id: usize, new_name: String) -> (r: Result<
        bool,
        InstallError,
    >)
        requires
            old(self).wf(),
        ensures
            final(self).wf(),
            final(self).spec_base() == old(self).spec_base(),
            final(self).spec_tainted() == old(self).spec_tainted(),
            final(self).spec_current() == old(self).spec_current(),
            match r {
                Ok(is_current) => {
                    &&& version_id < old(self).spec_versions().len()
                    &&& is_current == (version_id == old(self).spec_current())
                    &&& final(self).spec_versions() == old(self).spec_versions().update(
                        version_id as int,
                        VersionView {
                            path: join(old(self).spec_base(), new_name@),
                            nice_name: new_name@,
                            ..old(self).spec_versions()[version_id as int]
                        },
                    )
                },
                Err(e) => version_id >= old(self).spec_versions().len() && e.kind
                    == ErrorKind::InvalidData && final(self).spec_versions()
                    == old(self).spec_versions(),
            },
    {
        if version_id >= self.versions.len() {
            return Err(
                InstallError {
                    kind: ErrorKind::InvalidData,
                    message: "given version_id does not exist".to_string(),
                },
            );
        }
        let ghost s = self.spec_versions();
        let new_path = crate::paths::join_path(self.base_path.as_str(), new_name.as_str());
        self.versions[version_id].path = new_path;
        self.versions[version_id].nice_name = new_name;
        let ghost t = self.spec_versions();
        assert(t =~= s.update(
            version_id as int,
            VersionView {
                path: join(self.spec_base(), new_name@),
                nice_name: new_name@,
                ..s[version_id as int]
            },
        ));
        Ok(version_id == self.current_version)
    }
}

proof fn lemma_count_partition_facts(s: Seq<VersionView>, d: VersionDate)
    requires
        sorted_by_date(s),
    ensures
        count_not_after(s, d) <= s.len(),
        forall|j: int| 0 <= j < count_not_after(s, d) ==> date_le(#[trigger] s[j].date, d),
        forall|j: int| count_not_after(s, d) <= j < s.len() ==> !date_le(#[trigger] s[j].date, d),
    decreases s.len(),
{
    if s.len() > 0 {
        let t = s.drop_last();
        assert(sorted_by_date(t));
        lemma_count_partition_facts(t, d);
        if date_le(s.last().date, d) {
            assert forall|j: int| 0 <= j < s.len() implies date_le(#[trigger] s[j].date, d) by {
                if j < s.len() - 1 {
                    assert(date_le(s[j].date, s[s.len() - 1].date));
                }
            }
            assert(count_not_after(t, d) == t.len()) by {
                lemma_count_at_partition(t, d, t.len() as int);
            }
        } else {
            assert forall|j: int| 0 <= j < count_not_after(s, d) implies date_le(
                #[trigger] s[j].date,
                d,
            ) by {
                assert(t[j] == s[j]);
            }
            assert forall|j: int| count_not_after(s, d) <= j < s.len() implies !date_le(
                #[trigger] s[j].date,
                d,
            ) by {
                if j < s.len() - 1 {
                    assert(t[j] == s[j]);
                }
            }
        }
    }
}

/// What was found about a directory that may hold an installed version.
pub struct VersionDirFacts {
    pub is_dir: bool,
    /// The directory's own name, when the path has one.
    pub file_name: Option<String>,
    /// The names of the entries inside the directory.
    pub entry_names: Vec<String>,
    /// The text of its `meta.info`, when that file could be read as text.
    pub metadata: Option<String>,
    /// The directory's creation time, when the system gives one.
    pub created: Option<VersionDate>,
    /// Whether it holds `lifeblood_viewer`.
    pub has_viewer: bool,
}

/// Why a directory is not taken as an installed version.
#[derive(Clone, Copy, Debug, PartialEq, Eq, Structural)]
pub enum VersionScanError {
    NotADirectory,
    BadFileName,
    /// One of `venv`, `lifeblood`, `entry.py` is missing.
    NotAVersion,
    /// There is no usable metadata and no creation time to fall back on.
    NoCreationTime,
}

/// The entries that make a directory look like an installed version.
pub open spec fn has_version_entries(names: Seq<Seq<char>>) -> bool {
    names.contains("venv"@) && names.contains("lifeblood"@) && names.contains("entry.py"@)
}

/// The version a directory holds: its name and path, the commit and date read
/// from its metadata, or the commit `unknown` and the directory's creation time
/// when the metadata cannot be read.
pub open spec fn version_from_facts(
    path: Seq<char>,
    file_name: Option<Seq<char>>,
    f: VersionDirFacts,
) -> Result<VersionView, VersionScanError> {
    if !f.is_dir {
        Err(VersionScanError::NotADirectory)
    } else {
        match file_name {
            None => Err(VersionScanError::BadFileName),
            Some(name) => if !has_version_entries(strings_view(f.entry_names@)) {
                Err(VersionScanError::NotAVersion)
            } else {
                let md = match f.metadata {
                    Some(t) => parse_metadata_spec(t@),
                    None => Err(crate::version_metadata::MetadataError::UnknownFormat),
                };
                match md {
                    Ok((_, commit, d)) => Ok(
                        VersionView {
                            path,
                            nice_name: name,
                            commit,
                            date: VersionDate { secs: d.0, nanos: d.1 },
                            has_viewer: f.has_viewer,
                        },
                    ),
                    Err(_) => match f.created {
                        Some(d) => Ok(
                            VersionView {
                                path,
                                nice_name: name,
                                commit: "unknown"@,
                                date: d,
                                has_viewer: f.has_viewer,
                            },
                        ),
                        None => Err(VersionScanError::NoCreationTime),
                    },
                }
            },
        }
    }
}

fn names_contain(names: &Vec<String>, n: &str) -> (b: bool)
    ensures
        b == strings_view(names@).contains(n@),
{
    let nc = to_chars(n);
    let mut i: usize = 0;
    while i < names.len()
        invariant
            i <= names@.len(),
            nc@ == n@,
            forall|j: int| 0 <= j < i ==> names@[j]@ != n@,
        decreases names@.len() - i,
    {
        let c = to_chars(names[i].as_str());
        if chars_equal(&c, &nc) {
            assert(strings_view(names@)[i as int] == n@);
            return true;
        }
        i = i + 1;
    }
    assert forall|j: int| 0 <= j < strings_view(names@).len() implies strings_view(names@)[j]
        != n@ by {
        assert(strings_view(names@)[j] == names@[j]@);
    }
    false
}

fn version_from(path: String, file_name: Option<&str>, f: &VersionDirFacts) -> (r: Result<
    InstalledVersion,
    VersionScanError,
>)
    ensures
        match (r, version_from_facts(
            path@,
            match file_name {
                Some(n) => Some(n@),
                None => None,
            },
            *f,
        )) {
            (Ok(v), Ok(w)) => v@ == w,
            (Err(e), Err(x)) => e == x,
            _ => false,
        },
{
    if !f.is_dir {
        return Err(VersionScanError::NotADirectory);
    }
    let name = match file_name {
        None => {
            return Err(VersionScanError::BadFileName);
        },
        Some(n) => n,
    };
    if !(names_contain(&f.entry_names, "venv") && names_contain(&f.entry_names, "lifeblood")
        && names_contain(&f.entry_names, "entry.py")) {
        return Err(VersionScanError::NotAVersion);
    }
    let md = match &f.metadata {
        Some(t) => match parse_metadata(t.as_str()) {
            Ok(x) => Some(x),
            Err(_) => None,
        },
        None => None,
    };
    match md {
        Some((_, commit, d)) => Ok(
            InstalledVersion {
                path,
                nice_name: name.to_owned(),
                commit,
                date: d,
                has_viewer: f.has_viewer,
            },
        ),
        None => match f.created {
            Some(d) => Ok(
                InstalledVersion {
                    path,
                    nice_name: name.to_owned(),
                    commit: "unknown".to_owned(),
                    date: d,
                    has_viewer: f.has_viewer,
                },
            ),
            None => Err(VersionScanError::NoCreationTime),
        },
    }
}

impl InstalledVersion {
    /// The version that the directory at `path` holds, judged from what was
    /// found there.
    pub fn from_path(path: String, facts: &VersionDirFacts) -> (r: Result<
        InstalledVersion,
        VersionScanError,
    >)
        ensures
            match (r, version_from_facts(
                path@,
                match facts.file_name {
                    Some(n) => Some(n@),
                    None => None,
                },
                *facts,
            )) {
                (Ok(v), Ok(w)) => v@ == w,
                (Err(e), Err(x)) => e == x,
                _ => false,
            },
    {
        match &facts.file_name {
            Some(n) => version_from(path, Some(n.as_str()), facts),
            None => version_from(path, None, facts),
        }
    }
}

/// One entry of a base directory, as found on disk.
pub enum ScannedEntry {
    /// The directory listing failed for this entry.
    Unreadable,
    Entry {
        name: String,
        is_symlink: bool,
        /// Whether it is a directory (a link to a directory counts).
        is_dir: bool,
        /// Where it points, for a link that could be read.
        link_target: Option<String>,
        /// What was found inside, for a directory.
        facts: VersionDirFacts,
        /// The text of the file, where a scan reads it (the Windows launcher
        /// `lifeblood.cmd`); empty otherwise.
        contents: String,
    },
}

/// What a scan has gathered so far: the versions in date order, the path the
/// `current` link points to, and whether anything unrelated was seen.
pub struct ScanState {
    pub versions: Seq<VersionView>,
    pub current_path: Seq<char>,
    pub tainted: bool,
}

/// The files a base directory may hold besides versions.
pub open spec fn is_known_file(name: Seq<char>) -> bool {
    ||| name == "lifeblood"@
    ||| name == "lifeblood.cmd"@
    ||| name == "lifeblood_viewer"@
    ||| name == "lifeblood_viewer.cmd"@
    ||| name == "lifeblood-manager.config"@
}

/// Where the Windows launcher `lifeblood.cmd` with text `text` says the current
/// version lies: its first line past the five bytes of `@rem `, trimmed and
/// joined to `base`; `None` when the text has no line.
pub open spec fn launcher_current_path(base: Seq<char>, text: Seq<char>) -> Option<Seq<char>> {
    if lines(text).len() == 0 {
        None
    } else {
        let line = lines(text)[0];
        Some(join(base, trim(line.skip(chars_before_byte(line, 5)))))
    }
}

/// The entry is the Windows launcher, read on Windows for the current version.
pub open spec fn is_windows_launcher(e: ScannedEntry, windows: bool) -> bool {
    match e {
        ScannedEntry::Entry { name, is_symlink, is_dir, .. } => {
            &&& windows
            &&& !(is_symlink && name@ == "current"@)
            &&& !is_dir
            &&& name@ == "lifeblood.cmd"@
        },
        _ => false,
    }
}

/// A launcher whose first line can be cut after its first five bytes.
pub open spec fn launcher_readable(e: ScannedEntry) -> bool {
    match e {
        ScannedEntry::Entry { contents, .. } => lines(contents@).len() == 0 || is_char_boundary(
            lines(contents@)[0],
            5,
        ),
        _ => true,
    }
}

/// The scan after one more entry: the `current` link gives the current path,
/// a directory holding a version adds it, on Windows the launcher
/// `lifeblood.cmd` gives the current path, and anything else unexpected (a
/// directory that holds no version, a file other than the launchers, the
/// settings file and the manager's own binary `me`) taints the base directory.
/// Paths are compared as `Path`s, component by component.
pub open spec fn scan_step(
    st: ScanState,
    e: ScannedEntry,
    base: Seq<char>,
    me: Option<Seq<char>>,
    windows: bool,
) -> ScanState {
    match e {
        ScannedEntry::Unreadable => ScanState { tainted: true, ..st },
        ScannedEntry::Entry { name, is_symlink, is_dir, link_target, facts, contents } => {
            if is_symlink && name@ == "current"@ {
                match link_target {
                    Some(t) => ScanState {
                        current_path: if is_absolute(t@) {
                            t@
                        } else {
                            join(base, t@)
                        },
                        ..st
                    },
                    None => ScanState { tainted: true, ..st },
                }
            } else if is_dir {
                match version_from_facts(join(base, name@), Some(name@), facts) {
                    Ok(v) => ScanState { versions: insert_by_date(st.versions, v), ..st },
                    Err(_) => ScanState { tainted: true, ..st },
                }
            } else if windows && name@ == "lifeblood.cmd"@ {
                match launcher_current_path(base, contents@) {
                    Some(p) => ScanState { current_path: p, ..st },
                    None => st,
                }
            } else if !(me matches Some(m) && same_path(m, join(base, name@))) && !is_known_file(
                name@,
            ) {
                ScanState { tainted: true, ..st }
            } else {
                st
            }
        },
    }
}

pub open spec fn scan_all(
    entries: Seq<ScannedEntry>,
    base: Seq<char>,
    me: Option<Seq<char>>,
    windows: bool,
) -> ScanState
    decreases entries.len(),
{
    if entries.len() == 0 {
        ScanState { versions: seq![], current_path: seq![], tainted: false }
    } else {
        scan_step(scan_all(entries.drop_last(), base, me, windows), entries.last(), base, me, windows)
    }
}

/// The last index of a version whose path is the same path as `p`, or
/// `NO_CURRENT_VERSION`.
pub open spec fn last_index_at_path(s: Seq<VersionView>, p: Seq<char>) -> usize
    decreases s.len(),
{
    if s.len() == 0 {
        NO_CURRENT_VERSION
    } else if same_path(s.last().path, p) {
        (s.len() - 1) as usize
    } else {
        last_index_at_path(s.drop_last(), p)
    }
}

proof fn lemma_last_index_bound(s: Seq<VersionView>, p: Seq<char>)
    requires
        s.len() <= NO_CURRENT_VERSION,
    ensures
        last_index_at_path(s, p) == NO_CURRENT_VERSION || last_index_at_path(s, p) < s.len(),
    decreases s.len(),
{
    if s.len() > 0 {
        lemma_last_index_bound(s.drop_last(), p);
    }
}

/// An entry that a scan takes as unrelated to Lifeblood: a directory that
/// holds no version (the `current` link aside).
pub open spec fn is_stray_dir(e: ScannedEntry, base: Seq<char>) -> bool {
    match e {
        ScannedEntry::Entry { name, is_symlink, is_dir, facts, .. } => {
            &&& !(is_symlink && name@ == "current"@)
            &&& is_dir
            &&& version_from_facts(join(base, name@), Some(name@), facts) is Err
        },
        _ => false,
    }
}

/// Once a scan is tainted it stays tainted, and a stray directory taints it.
proof fn lemma_scan_tainted(
    entries: Seq<ScannedEntry>,
    base: Seq<char>,
    me: Option<Seq<char>>,
    windows: bool,
    i: int,
)
    requires
        0 <= i < entries.len(),
        is_stray_dir(entries[i], base),
    ensures
        scan_all(entries, base, me, windows).tainted,
    decreases entries.len(),
{
    if i < entries.len() - 1 {
        lemma_scan_tainted(entries.drop_last(), base, me, windows, i);
        let st = scan_all(entries.drop_last(), base, me, windows);
        let e = entries.last();
        assert(scan_step(st, e, base, me, windows).tainted);
    } else {
        assert(entries.last() == entries[i]);
    }
}

/// Whether entry `e` alone taints a scan.
spec fn entry_taints(e: ScannedEntry, base: Seq<char>, me: Option<Seq<char>>, windows: bool) -> bool {
    scan_step(ScanState { versions: seq![], current_path: seq![], tainted: false }, e, base, me, windows).tainted
}

proof fn lemma_step_taint(st: ScanState, e: ScannedEntry, base: Seq<char>, me: Option<Seq<char>>, windows: bool)
    ensures
        scan_step(st, e, base, me, windows).tainted == (st.tainted || entry_taints(e, base, me, windows)),
{
}

/// A scan is tainted exactly when one of its entries taints it.
proof fn lemma_scan_taint_any(entries: Seq<ScannedEntry>, base: Seq<char>, me: Option<Seq<char>>, windows: bool)
    ensures
        scan_all(entries, base, me, windows).tainted <==> exists|j: int|
            0 <= j < entries.len() && entry_taints(#[trigger] entries[j], base, me, windows),
    decreases entries.len(),
{
    if entries.len() > 0 {
        let t = entries.drop_last();
        lemma_scan_taint_any(t, base, me, windows);
        lemma_step_taint(scan_all(t, base, me, windows), entries.last(), base, me, windows);
        if scan_all(entries, base, me, windows).tainted {
            if scan_all(t, base, me, windows).tainted {
                let j = choose|j: int| 0 <= j < t.len() && entry_taints(#[trigger] t[j], base, me, windows);
                assert(entries[j] == t[j]);
            } else {
                assert(entries[entries.len() - 1] == entries.last());
            }
        }
        if exists|j: int| 0 <= j < entries.len() && entry_taints(#[trigger] entries[j], base, me, windows) {
            let j = choose|j: int| 0 <= j < entries.len() && entry_taints(#[trigger] entries[j], base, me, windows);
            if j < entries.len() - 1 {
                assert(t[j] == entries[j]);
            }
        }
    }
}

/// A file (not a directory) named like a launcher, a viewer launcher or the
/// settings never taints a base directory: scanning the entries with such a
/// file put anywhere among them gives the same taint as without it.
pub proof fn law_known_files_do_not_taint(
    entries: Seq<ScannedEntry>,
    i: int,
    e: ScannedEntry,
    base: Seq<char>,
    me: Option<Seq<char>>,
    windows: bool,
)
    requires
        0 <= i <= entries.len(),
        e matches ScannedEntry::Entry { name, is_dir, .. } && !is_dir && (name@ == "lifeblood"@
            || name@ == "lifeblood.cmd"@ || name@ == "lifeblood_viewer"@ || name@
            == "lifeblood_viewer.cmd"@ || name@ == "lifeblood-manager.config"@),
    ensures
        scan_all(entries.insert(i, e), base, me, windows).tainted == scan_all(entries, base, me, windows).tainted,
{
    reveal_strlit("current");
    reveal_strlit("lifeblood");
    reveal_strlit("lifeblood.cmd");
    reveal_strlit("lifeblood_viewer");
    reveal_strlit("lifeblood_viewer.cmd");
    reveal_strlit("lifeblood-manager.config");
    assert(!entry_taints(e, base, me, windows)) by {
        if let ScannedEntry::Entry { name, .. } = e {
            assert(name@ != "current"@) by {
                assert(name@.len() != "current"@.len() || name@[0] != "current"@[0]);
            }
        }
    }
    let s = entries.insert(i, e);
    lemma_scan_taint_any(s, base, me, windows);
    lemma_scan_taint_any(entries, base, me, windows);
    if exists|j: int| 0 <= j < s.len() && entry_taints(#[trigger] s[j], base, me, windows) {
        let j = choose|j: int| 0 <= j < s.len() && entry_taints(#[trigger] s[j], base, me, windows);
        if j < i {
            assert(s[j] == entries[j]);
        } else if j > i {
            assert(s[j] == entries[j - 1]);
        }
    }
    if exists|j: int| 0 <= j < entries.len() && entry_taints(#[trigger] entries[j], base, me, windows) {
        let j = choose|j: int| 0 <= j < entries.len() && entry_taints(#[trigger] entries[j], base, me, windows);
        if j < i {
            assert(s[j] == entries[j]);
        } else {
            assert(s[j + 1] == entries[j]);
        }
    }
}

impl InstallationsData {
    /// The installations in `base_path`, from the entries found there, in
    /// listing order; `me` is the path of the running manager binary, and
    /// `windows` says whether the Windows launcher is read.
    pub fn from_dir(
        base_path: String,
        entries: Vec<ScannedEntry>,
        me: Option<String>,
        windows: bool,
    ) -> (r: InstallationsData)
        requires
            forall|i: int|
                0 <= i < entries@.len() && is_windows_launcher(#[trigger] entries@[i], windows)
                    ==> launcher_readable(entries@[i]),
        ensures
            r.wf(),
            r.spec_base() == base_path@,
            ({
                let st = scan_all(entries@, base_path@, opt_view(me), windows);
                &&& r.spec_versions() == st.versions
                &&& r.spec_tainted() == st.tainted
                &&& r.spec_current() == last_index_at_path(st.versions, st.current_path)
            }),
            (exists|i: int| 0 <= i < entries@.len() && is_stray_dir(#[trigger] entries@[i], base_path@))
                ==> r.spec_tainted(),
    {
        let ghost mev = opt_view(me);
        let ghost bv = base_path@;
        proof {
            if exists|i: int| 0 <= i < entries@.len() && is_stray_dir(#[trigger] entries@[i], bv) {
                let i = choose|i: int| 0 <= i < entries@.len() && is_stray_dir(#[trigger] entries@[i], bv);
                lemma_scan_tainted(entries@, bv, mev, windows, i);
            }
        }
        let mut data = InstallationsData {
            base_path,
            versions: Vec::new(),
            current_version: NO_CURRENT_VERSION,
            base_path_tainted: false,
        };
        let mut current_path = String::new();
        let ghost base = data.base_path@;
        let mut i: usize = 0;
        assert(entries@.take(0) =~= Seq::<ScannedEntry>::empty());
        assert(data.spec_versions() =~= Seq::<VersionView>::empty());
        while i < entries.len()
            invariant
                i <= entries@.len(),
                data.wf(),
                data.spec_base() == base,
                data.spec_current() == NO_CURRENT_VERSION,
                mev == opt_view(me),
                forall|j: int|
                    0 <= j < entries@.len() && is_windows_launcher(#[trigger] entries@[j], windows)
                        ==> launcher_readable(entries@[j]),
                ({
                    let st = scan_all(entries@.take(i as int), base, mev, windows);
                    &&& data.spec_versions() == st.versions
                    &&& data.spec_tainted() == st.tainted
                    &&& current_path@ == st.current_path
                }),
            decreases entries@.len() - i,
        {
            assert(entries@.take(i as int + 1).drop_last() =~= entries@.take(i as int));
            assert(entries@.take(i as int + 1).last() == entries@[i as int]);
            match &entries[i] {
                ScannedEntry::Unreadable => {
                    data.base_path_tainted = true;
                },
                ScannedEntry::Entry { name, is_symlink, is_dir, link_target, facts, contents } => {
                    let nc = to_chars(name.as_str());
                    let cur = to_chars("current");
                    if *is_symlink && chars_equal(&nc, &cur) {
                        match link_target {
                            Some(t) => {
                                let tc = to_chars(t.as_str());
                                if tc.len() > 0 && tc[0] == '/' {
                                    current_path = t.clone();
                                } else {
                                    current_path = join_path(data.base_path.as_str(), t.as_str());
                                }
                            },
                            None => {
                                data.base_path_tainted = true;
                            },
                        }
                    } else if *is_dir {
                        let p = join_path(data.base_path.as_str(), name.as_str());
                        match version_from(p, Some(name.as_str()), facts) {
                            Ok(v) => {
                                data.register_version(v);
                            },
                            Err(_) => {
                                data.base_path_tainted = true;
                            },
                        }
                    } else if windows && chars_equal(&nc, &to_chars("lifeblood.cmd")) {
                        assert(is_windows_launcher(entries@[i as int], windows));
                        let text = to_chars(contents.as_str());
                        let ls = split_lines(&text);
                        if ls.len() > 0 {
                            assert(ls@[0]@ == lines(contents@)[0]);
                            let k = chars_in_bytes(ls[0].as_slice(), 5);
                            let rest = slice_chars(ls[0].as_slice(), k, ls[0].len());
                            assert(rest@ =~= lines(contents@)[0].skip(k as int));
                            let t = trim_chars(&rest);
                            let tp = from_chars(&t);
                            current_path = join_path(data.base_path.as_str(), tp.as_str());
                        }
                    } else {
                        let p = join_path(data.base_path.as_str(), name.as_str());
                        let pc = to_chars(p.as_str());
                        let itsa_me = match &me {
                            Some(m) => {
                                let mc = to_chars(m.as_str());
                                same_path_chars(&mc, &pc)
                            },
                            None => false,
                        };
                        let known = {
                            let a = to_chars("lifeblood");
                            let b = to_chars("lifeblood.cmd");
                            let c = to_chars("lifeblood_viewer");
                            let d = to_chars("lifeblood_viewer.cmd");
                            let e = to_chars("lifeblood-manager.config");
                            chars_equal(&nc, &a) || chars_equal(&nc, &b) || chars_equal(&nc, &c)
                                || chars_equal(&nc, &d) || chars_equal(&nc, &e)
                        };
                        if !itsa_me && !known {
                            data.base_path_tainted = true;
                        }
                    }
                },
            }
            i = i + 1;
        }
        assert(entries@.take(entries@.len() as int) =~= entries@);
        let cp = to_chars(current_path.as_str());
        let mut k: usize = 0;
        let mut found: usize = NO_CURRENT_VERSION;
        assert(data.spec_versions().take(0) =~= Seq::<VersionView>::empty());
        while k < data.versions.len()
            invariant
                k <= data.spec_versions().len(),
                cp@ == current_path@,
                found == last_index_at_path(data.spec_versions().take(k as int), cp@),
            decreases data.spec_versions().len() - k,
        {
            let vp = to_chars(data.versions[k].path.as_str());
            assert(data.spec_versions().take(k as int + 1).drop_last() =~= data.spec_versions().take(
                k as int,
            ));
            assert(data.spec_versions().take(k as int + 1).last() == data.spec_versions()[k as int]);
            if same_path_chars(&vp, &cp) {
                found = k;
            }
            k = k + 1;
        }
        assert(data.spec_versions().take(data.spec_versions().len() as int)
            =~= data.spec_versions());
        let n: usize = data.versions.len();
        proof {
            lemma_last_index_bound(data.spec_versions(), cp@);
        }
        data.current_version = found;
        data
    }
}

/// Registering a version keeps the versions ordered by date, keeps the
/// current version the same version (its index moves up when the new one
/// comes before it), and the registered version is found where it was put.
pub proof fn law_register_keeps_order_and_current(s: Seq<VersionView>, v: VersionView, cur: int)
    requires
        sorted_by_date(s),
        0 <= cur < s.len(),
    ensures
        sorted_by_date(insert_by_date(s, v)),
        insert_by_date(s, v)[count_not_after(s, v.date) as int] == v,
        insert_by_date(s, v)[if count_not_after(s, v.date) <= cur {
            cur + 1
        } else {
            cur
        }] == s[cur],
        is_installed_build(insert_by_date(s, v)[count_not_after(s, v.date) as int], v.commit, v.has_viewer),
{
    lemma_count_partition_facts(s, v.date);
    let idx = count_not_after(s, v.date) as int;
    let t = insert_by_date(s, v);
    assert forall|i: int, j: int| 0 <= i < j < t.len() implies date_le(t[i].date, t[j].date) by {
        if i < idx && j < idx {
            assert(t[i] == s[i] && t[j] == s[j]);
        } else if i < idx && j == idx {
            assert(t[i] == s[i]);
        } else if i < idx {
            assert(t[i] == s[i] && t[j] == s[j - 1]);
        } else if i == idx {
            assert(t[j] == s[j - 1]);
            assert(!date_le(s[j - 1].date, v.date));
        } else {
            assert(t[i] == s[i - 1] && t[j] == s[j - 1]);
        }
    }
}

/// A directory name joined to a base directory is read back, relative to that base, as the name.
proof fn lemma_relative_join(base: Seq<char>, n: Seq<char>)
    requires
        n.len() > 0,
        !n.contains('/'),
    ensures
        relative_to(join(base, n), base) == n,
        !is_absolute(n),
{
    assert(!is_absolute(n)) by {
        if is_absolute(n) {
            assert(n[0] == '/');
        }
    }
    if base.len() == 0 {
        assert(join(base, n) == n);
        if crate::text::starts_with(n, base + seq!['/']) {
            assert((base + seq!['/']) =~= seq!['/']);
            assert(n.take(1)[0] == '/');
            assert(n[0] == '/');
        }
    } else if base.last() == '/' {
        assert((base + n).take(base.len() as int) =~= base);
        assert((base + n).skip(base.len() as int) =~= n);
    } else {
        let j = base + seq!['/'] + n;
        assert(j.take(base.len() as int + 1) =~= base + seq!['/']);
        assert(j.skip(base.len() as int + 1) =~= n);
    }
}

/// A version whose path no later version shares is the one found last at that path.
proof fn lemma_last_index_at(s: Seq<VersionView>, i: int)
    requires
        0 <= i < s.len(),
        s.len() < NO_CURRENT_VERSION,
        forall|k: int| i < k < s.len() ==> !same_path((#[trigger] s[k]).path, s[i].path),
    ensures
        last_index_at_path(s, s[i].path) == i,
    decreases s.len(),
{
    if i < s.len() - 1 {
        let t = s.drop_last();
        assert forall|k: int| i < k < t.len() implies !same_path((#[trigger] t[k]).path, t[i].path) by {
            assert(t[k] == s[k]);
        }
        lemma_last_index_at(t, i);
        assert(s.last() == s[s.len() - 1]);
    }
}

/// The `current` link written for version `i` (its directory relative to the
/// base directory) leads a later scan of the base directory back to version
/// `i`, when version names are distinct directory names.
pub proof fn law_current_link_reads_back(s: Seq<VersionView>, base: Seq<char>, i: int)
    requires
        0 <= i < s.len(),
        s.len() < NO_CURRENT_VERSION,
        forall|j: int|
            0 <= j < s.len() ==> (#[trigger] s[j]).path == join(base, s[j].nice_name)
                && s[j].nice_name.len() > 0 && !s[j].nice_name.contains('/'),
        forall|j: int, k: int| 0 <= j < k < s.len() ==> (#[trigger] s[j]).nice_name != (#[trigger] s[k]).nice_name,
    ensures
        ({
            let t = relative_to(s[i].path, base);
            last_index_at_path(s, if is_absolute(t) { t } else { join(base, t) }) == i
        }),
{
    lemma_relative_join(base, s[i].nice_name);
    assert forall|k: int| i < k < s.len() implies !same_path((#[trigger] s[k]).path, s[i].path) by {
        let a = s[k].nice_name;
        let b = s[i].nice_name;
        lemma_join_named_pieces(base, a);
        lemma_join_named_pieces(base, b);
        let pre = named_pieces(split(base, '/'));
        if same_path(s[k].path, s[i].path) {
            let na = named_pieces(seq![a]);
            let nb = named_pieces(seq![b]);
            assert(seq![a].drop_last() =~= Seq::<Seq<char>>::empty());
            assert(seq![b].drop_last() =~= Seq::<Seq<char>>::empty());
            assert(named_pieces(Seq::<Seq<char>>::empty()) =~= Seq::<Seq<char>>::empty());
            assert(pre + na == pre + nb);
            assert(na.len() == nb.len());
            if na.len() == 1 {
                assert((pre + na)[pre.len() as int] == (pre + nb)[pre.len() as int]);
                assert(na[0] == a && nb[0] == b);
            } else {
                assert(a == seq!['.'] && b == seq!['.']);
            }
        }
    }
    lemma_last_index_at(s, i);
}

} // verus!
