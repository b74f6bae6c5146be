//! Where Houdini keeps its user preferences: the directories that Houdini
//! tools can be installed into.
use crate::paths::{join, join_path};
use crate::text::{chars_start_with, starts_with, str_eq, strings_view, to_chars};
use vstd::prelude::*;

verus! {

/// Whether `char::is_numeric` holds of `c` (the Unicode numeric classes).
pub uninterp spec fn char_numeric(c: char) -> bool;

/// `char::is_numeric` from std. The contract claims that the answer depends
/// on the character alone and that the ASCII digits are numeric, as the
/// documentation shows; the Unicode tables are not stated.
#[verifier::external_body]
fn is_numeric_char(c: char) -> (r: bool)
    ensures
        r == char_numeric(c),
        '0' <= c <= '9' ==> r,
{
    c.is_numeric()
}

/// The directory whose entries may be Houdini preference directories, given
/// the home directory and the operating system (`windows`, `macos`,
/// `linux`); `None` for another system.
pub open spec fn pref_base_dir(home: Seq<char>, os: Seq<char>) -> Option<Seq<char>> {
    if os == "windows"@ {
        Some(join(home, "Documents"@))
    } else if os == "macos"@ {
        Some(join(home, "Library/Preferences/houdini"@))
    } else if os == "linux"@ {
        Some(home)
    } else {
        None
    }
}

pub fn pref_base_dir_path(home: &str, os: &str) -> (r: Option<String>)
    ensures
        match pref_base_dir(home@, os@) {
            Some(p) => r matches Some(rp) && rp@ == p,
            None => r is None,
        },
{
    if str_eq(os, "windows") {
        Some(join_path(home, "Documents"))
    } else if str_eq(os, "macos") {
        Some(join_path(home, "Library/Preferences/houdini"))
    } else if str_eq(os, "linux") {
        Some(home.to_owned())
    } else {
        None
    }
}

/// A directory name that Houdini gives its preferences: `houdini<version>`
/// (the character after `houdini` numeric), or on macOS `<version>` (the
/// first character numeric).
pub open spec fn is_pref_dir_name(name: Seq<char>, macos: bool) -> bool {
    if !macos {
        starts_with(name, "houdini"@) && name.len() > 7 && char_numeric(name[7])
    } else {
        name.len() > 0 && char_numeric(name[0])
    }
}

pub fn pref_dir_name_accepted(name: &str, macos: bool) -> (r: bool)
    ensures
        r == is_pref_dir_name(name@, macos),
{
    let c = to_chars(name);
    if !macos {
        let prefix = to_chars("houdini");
        if !chars_start_with(&c, &prefix) {
            return false;
        }
        proof {
            reveal_strlit("houdini");
        }
        if c.len() <= 7 {
            return false;
        }
        is_numeric_char(c[7])
    } else {
        if c.len() == 0 {
            return false;
        }
        is_numeric_char(c[0])
    }
}

/// An entry of the base directory: its name and whether it is a directory.
pub type DirEntry = (String, bool);

/// The Houdini preference directories among the entries of `base`, in order.
pub open spec fn pref_dirs(base: Seq<char>, entries: Seq<(Seq<char>, bool)>, macos: bool) -> Seq<
    Seq<char>,
>
    decreases entries.len(),
{
    if entries.len() == 0 {
        seq![]
    } else {
        let e = entries.last();
        pref_dirs(base, entries.drop_last(), macos) + if e.1 && is_pref_dir_name(e.0, macos) {
            seq![join(base, e.0)]
        } else {
            seq![]
        }
    }
}

pub open spec fn entries_view(v: Seq<DirEntry>) -> Seq<(Seq<char>, bool)> {
    v.map_values(|e: DirEntry| (e.0@, e.1))
}

/// The possible Houdini user preference directories: the directories among
/// the entries of `base` whose names Houdini gives to its preferences.
pub fn possible_user_pref_dirs(base: &str, entries: &Vec<DirEntry>, macos: bool) -> (r: Vec<String>)
    ensures
        strings_view(r@) == pref_dirs(base@, entries_view(entries@), macos),
{
    let ghost ev = entries_view(entries@);
    let mut r: Vec<String> = Vec::new();
    let mut i: usize = 0;
    while i < entries.len()
        invariant
            i <= entries@.len(),
            ev == entries_view(entries@),
            strings_view(r@) == pref_dirs(base@, ev.take(i as int), macos),
        decreases entries@.len() - i,
    {
        assert(ev.take(i as int + 1).drop_last() =~= ev.take(i as int));
        assert(ev.take(i as int + 1).last() == ev[i as int]);
        let ghost before = r@;
        if entries[i].1 && pref_dir_name_accepted(entries[i].0.as_str(), macos) {
            r.push(join_path(base, entries[i].0.as_str()));
            assert(strings_view(r@) =~= strings_view(before).push(join(base@, ev[i as int].0)));
        } else {
            assert(strings_view(r@) =~= strings_view(before) + seq![]);
        }
        i = i + 1;
    }
    assert(ev.take(entries@.len() as int) =~= ev);
    r
}

} // verus!
