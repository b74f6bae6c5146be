//! What the wizard's pages accept from the user: paths and versions typed in,
//! checked before the page can be left.
use crate::paths::is_absolute;
use crate::text::{parse_u32_chars, parse_unsigned, to_chars};
use vstd::prelude::*;

verus! {

/// The Houdini tools locations in use: the first `count` of the fields shown.
pub fn tools_install_locations(inputs: &Vec<String>, count: usize) -> (r: Vec<String>)
    ensures
        r@.map_values(|s: String| s@) == inputs@.take(
            if count < inputs@.len() { count as int } else { inputs@.len() as int },
        ).map_values(|s: String| s@),
{
    let n: usize = if count < inputs.len() {
        count
    } else {
        inputs.len()
    };
    let mut r: Vec<String> = Vec::new();
    let mut i: usize = 0;
    while i < n
        invariant
            i <= n <= inputs@.len(),
            r@.map_values(|s: String| s@) == inputs@.take(i as int).map_values(|s: String| s@),
        decreases n - i,
    {
        let ghost before = r@;
        r.push(inputs[i].clone());
        assert(r@.map_values(|s: String| s@) =~= before.map_values(|s: String| s@).push(inputs@[i as int]@));
        assert(inputs@.take(i as int + 1).map_values(|s: String| s@) =~= inputs@.take(i as int).map_values(
            |s: String| s@,
        ).push(inputs@[i as int]@));
        i = i + 1;
    }
    r
}

/// Houdini tools can only be installed into absolute paths.
pub fn validate_tools_locations(paths: &Vec<String>) -> (r: Result<(), String>)
    ensures
        match r {
            Ok(()) => forall|i: int| 0 <= i < paths@.len() ==> is_absolute((#[trigger] paths@[i])@),
            Err(m) => m@ == "path must be absolute"@ && exists|i: int|
                0 <= i < paths@.len() && !is_absolute((#[trigger] paths@[i])@),
        },
{
    let mut i: usize = 0;
    while i < paths.len()
        invariant
            i <= paths@.len(),
            forall|j: int| 0 <= j < i ==> is_absolute((#[trigger] paths@[j])@),
        decreases paths@.len() - i,
    {
        let c = to_chars(paths[i].as_str());
        if !(c.len() > 0 && c[0] == '/') {
            assert(!is_absolute(paths@[i as int]@));
            return Err("path must be absolute".to_owned());
        }
        i = i + 1;
    }
    Ok(())
}

/// A chosen path (scratch location, database) must exist when one is chosen.
pub fn validate_chosen_path(chosen: bool, exists: bool) -> (r: Result<(), String>)
    ensures
        (!chosen || exists) <==> r is Ok,
        r matches Err(m) ==> m@ == "given path does not exist"@,
{
    if chosen && !exists {
        Err("given path does not exist".to_owned())
    } else {
        Ok(())
    }
}

/// One row of the Redshift page: the `bin` directory typed in, what the file
/// system says of it, and the three version fields.
pub struct RedshiftRow {
    pub bin_path: String,
    /// The directory exists.
    pub exists: bool,
    /// It holds the `redshiftCmdLine` executable.
    pub has_cmdline: bool,
    pub major: String,
    pub minor: String,
    pub build: String,
}

/// Why a Redshift row is refused, in the order the checks are made.
pub open spec fn redshift_row_error(r: RedshiftRow) -> Option<Seq<char>> {
    if !is_absolute(r.bin_path@) {
        Some("provided path to redshift bin is not an absolute path"@)
    } else if !r.exists {
        Some("provided path to redshift bin does not exist"@)
    } else if !r.has_cmdline {
        Some("provided path does not contain redshiftCmdLine executable"@)
    } else if parse_unsigned(r.major@, u32::MAX as nat) is None || parse_unsigned(
        r.minor@,
        u32::MAX as nat,
    ) is None || parse_unsigned(r.build@, u32::MAX as nat) is None {
        Some("Redshift version components must be set"@)
    } else {
        None
    }
}

/// The Redshift rows shown are accepted when each of them is; the first
/// refused row gives the error.
pub fn validate_redshift_rows(rows: &Vec<RedshiftRow>) -> (r: Result<(), String>)
    ensures
        match r {
            Ok(()) => forall|i: int| 0 <= i < rows@.len() ==> redshift_row_error(#[trigger] rows@[i]) is None,
            Err(m) => exists|i: int|
                0 <= i < rows@.len() && redshift_row_error(#[trigger] rows@[i]) == Some(m@) && forall|j: int|
                    0 <= j < i ==> redshift_row_error(#[trigger] rows@[j]) is None,
        },
{
    let mut i: usize = 0;
    while i < rows.len()
        invariant
            i <= rows@.len(),
            forall|j: int| 0 <= j < i ==> redshift_row_error(#[trigger] rows@[j]) is None,
        decreases rows@.len() - i,
    {
        let row = &rows[i];
        let c = to_chars(row.bin_path.as_str());
        let msg: Option<String> = if !(c.len() > 0 && c[0] == '/') {
            Some("provided path to redshift bin is not an absolute path".to_owned())
        } else if !row.exists {
            Some("provided path to redshift bin does not exist".to_owned())
        } else if !row.has_cmdline {
            Some("provided path does not contain redshiftCmdLine executable".to_owned())
        } else {
            let a = parse_u32_chars(&to_chars(row.major.as_str()));
            let b = parse_u32_chars(&to_chars(row.minor.as_str()));
            let d = parse_u32_chars(&to_chars(row.build.as_str()));
            if a.is_none() || b.is_none() || d.is_none() {
                Some("Redshift version components must be set".to_owned())
            } else {
                None
            }
        };
        match msg {
            Some(m) => {
                assert(redshift_row_error(rows@[i as int]) == Some(m@));
                return Err(m);
            },
            None => {},
        }
        i = i + 1;
    }
    Ok(())
}

/// The version a field pair gives: the number, or 0 when it is not one.
pub open spec fn field_number(t: Seq<char>) -> u32 {
    match parse_unsigned(t, u32::MAX as nat) {
        Some(v) => v as u32,
        None => 0,
    }
}

fn field_number_of(t: &str) -> (r: u32)
    ensures
        r == field_number(t@),
{
    match parse_u32_chars(&to_chars(t)) {
        Some(v) => v,
        None => 0,
    }
}

/// The Redshift installations the rows describe: each `bin` directory with
/// its version (0 for a field that is not a number).
pub fn selected_redshift_versions(rows: &Vec<RedshiftRow>) -> (r: Vec<(String, (u32, u32, u32))>)
    ensures
        r@.len() == rows@.len(),
        forall|i: int|
            0 <= i < rows@.len() ==> (#[trigger] r@[i]).0@ == rows@[i].bin_path@ && r@[i].1 == (
                field_number(rows@[i].major@),
                field_number(rows@[i].minor@),
                field_number(rows@[i].build@),
            ),
{
    let mut r: Vec<(String, (u32, u32, u32))> = Vec::new();
    let mut i: usize = 0;
    while i < rows.len()
        invariant
            i <= rows@.len(),
            r@.len() == i,
            forall|j: int|
                0 <= j < i ==> (#[trigger] r@[j]).0@ == rows@[j].bin_path@ && r@[j].1 == (
                    field_number(rows@[j].major@),
                    field_number(rows@[j].minor@),
                    field_number(rows@[j].build@),
                ),
        decreases rows@.len() - i,
    {
        let row = &rows[i];
        r.push(
            (
                row.bin_path.clone(),
                (
                    field_number_of(row.major.as_str()),
                    field_number_of(row.minor.as_str()),
                    field_number_of(row.build.as_str()),
                ),
            ),
        );
        i = i + 1;
    }
    r
}

} // verus!
