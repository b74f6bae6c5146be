use lifeblood_manager::installation_data::{
    ErrorKind, InstallationsData, InstalledVersion, ScannedEntry, VersionDate, VersionDirFacts,
    NO_CURRENT_VERSION,
};

fn version_dir(name: &str, commit: &str, date: &str) -> ScannedEntry {
    ScannedEntry::Entry {
        name: name.to_owned(),
        is_symlink: false,
        is_dir: true,
        link_target: None,
        facts: VersionDirFacts {
            is_dir: true,
            file_name: Some(name.to_owned()),
            entry_names: vec!["venv".to_owned(), "lifeblood".to_owned(), "entry.py".to_owned(), "meta.info".to_owned()],
            metadata: Some(format!("1\n{}\n{}\n{}\n", name, commit, date)),
            created: None,
            has_viewer: false,
        },
        contents: String::new(),
    }
}

fn plain_entry(name: &str, is_dir: bool) -> ScannedEntry {
    ScannedEntry::Entry {
        name: name.to_owned(),
        is_symlink: false,
        is_dir,
        link_target: None,
        facts: VersionDirFacts {
            is_dir,
            file_name: Some(name.to_owned()),
            entry_names: vec![],
            metadata: None,
            created: None,
            has_viewer: false,
        },
        contents: String::new(),
    }
}

fn current_link(target: &str) -> ScannedEntry {
    ScannedEntry::Entry {
        name: "current".to_owned(),
        is_symlink: true,
        is_dir: true,
        link_target: Some(target.to_owned()),
        facts: VersionDirFacts {
            is_dir: true,
            file_name: Some("current".to_owned()),
            entry_names: vec![],
            metadata: None,
            created: None,
            has_viewer: false,
        },
        contents: String::new(),
    }
}

/// The layout of a base directory with three versions, `current` pointing at the oldest.
fn struct_entries() -> Vec<ScannedEntry> {
    vec![
        version_dir("hash1", "hash1", "2023-02-01T10:00:00Z"),
        version_dir("hash3", "hash3", "2023-03-01T10:00:00Z"),
        current_link("hash2"),
        plain_entry("lifeblood", false),
        version_dir("hash2", "hash2", "2023-01-01T10:00:00Z"),
    ]
}

#[test]
fn test_read_unix_struct1() {
    let ins = InstallationsData::from_dir("./tests/data/u_struct1".to_owned(), struct_entries(), None, false);
    assert_eq!("./tests/data/u_struct1", ins.base_path(), "base path wrong");
    assert_eq!(3, ins.version_count());
    assert_eq!("hash2", ins.version(0).unwrap().source_commit());
    assert_eq!("hash1", ins.version(1).unwrap().source_commit());
    assert_eq!("hash3", ins.version(2).unwrap().source_commit());
    assert_eq!(0, ins.current_version_index());
    assert!(!ins.is_base_path_tainted());
}

#[test]
fn test_read_unix_struct2() {
    let mut ins =
        InstallationsData::from_dir("./tests/data/u_struct2_act".to_owned(), struct_entries(), None, false);
    assert_eq!(0, ins.current_version_index());

    ins.make_version_current(1).unwrap();
    assert_eq!(1, ins.current_version_index());
    assert_eq!(Some("hash1".to_owned()), ins.current_link_target(1), "incorrect current set");

    ins.make_version_current(2).unwrap();
    assert_eq!(2, ins.current_version_index());
    assert_eq!(Some("hash3".to_owned()), ins.current_link_target(2), "incorrect current set");

    ins.make_version_current(0).unwrap();
    assert_eq!(0, ins.current_version_index());
    assert_eq!(Some("hash2".to_owned()), ins.current_link_target(0), "incorrect current set");
}

#[test]
fn unknown_entries_taint_the_base_directory() {
    let mut entries = struct_entries();
    entries.push(plain_entry("holiday_photos", true));
    entries.push(plain_entry("notes.txt", false));
    let ins = InstallationsData::from_dir("/b".to_owned(), entries, None, false);
    assert_eq!(3, ins.version_count());
    assert!(ins.is_base_path_tainted());
    // the manager's own binary does not taint
    let ins = InstallationsData::from_dir(
        "/b".to_owned(),
        vec![plain_entry("lifeblood-manager", false)],
        Some("/b/lifeblood-manager".to_owned()),
        false,
    );
    assert!(!ins.is_base_path_tainted());
    assert_eq!(ins.current_version_index(), NO_CURRENT_VERSION);
    assert!(ins.current_version().is_none());
    let ins = InstallationsData::from_dir("/b".to_owned(), vec![ScannedEntry::Unreadable], None, false);
    assert!(ins.is_base_path_tainted());
}

#[test]
fn versions_without_metadata_fall_back_to_creation_time() {
    let entry = ScannedEntry::Entry {
        name: "old".to_owned(),
        is_symlink: false,
        is_dir: true,
        link_target: None,
        facts: VersionDirFacts {
            is_dir: true,
            file_name: Some("old".to_owned()),
            entry_names: vec!["venv".to_owned(), "lifeblood".to_owned(), "entry.py".to_owned()],
            metadata: None,
            created: Some(VersionDate { secs: 5, nanos: 0 }),
            has_viewer: true,
        },
        contents: String::new(),
    };
    let ins = InstallationsData::from_dir("/b".to_owned(), vec![entry], None, false);
    assert_eq!(ins.version_count(), 1);
    let v = ins.version(0).unwrap();
    assert_eq!(v.source_commit(), "unknown");
    assert_eq!(v.nice_name(), "old");
    assert_eq!(v.path(), "/b/old");
    assert!(v.has_viewer());
    assert_eq!(v.date().secs, 5);
}

#[test]
fn registering_keeps_order_and_current_version() {
    let mut ins = InstallationsData::from_dir("/b".to_owned(), struct_entries(), None, false);
    ins.make_version_current(1).unwrap(); // hash1
    let newest = InstalledVersion::new(
        "/b/hash0".to_owned(),
        "hash0".to_owned(),
        "hash0".to_owned(),
        VersionDate { secs: 0, nanos: 0 },
        true,
    );
    let idx = ins.register_version(newest);
    assert_eq!(idx, 0);
    assert_eq!(ins.current_version_index(), 2);
    assert_eq!(ins.current_version().unwrap().source_commit(), "hash1");
    let same_date = InstalledVersion::new(
        "/b/hashX".to_owned(),
        "hashX".to_owned(),
        "hashX".to_owned(),
        ins.version(3).unwrap().date(),
        false,
    );
    assert_eq!(ins.register_version(same_date), 4);
    assert_eq!(ins.find_installed_build("hash0", true), Some(0));
    assert_eq!(ins.find_installed_build("hashX", true), None);
    assert_eq!(ins.find_installed_build("hashX", false), Some(4));
    assert_eq!(ins.iter_versions().len(), 5);
}

#[test]
fn renaming_and_bad_indices() {
    let mut ins = InstallationsData::from_dir("/b".to_owned(), struct_entries(), None, false);
    assert_eq!(ins.renamed_version_path(1, "nice").unwrap(), "/b/nice");
    assert!(ins.renamed_version_path(7, "nice").is_err());
    assert_eq!(ins.rename_version(0, "renamed".to_owned()).unwrap(), true);
    assert_eq!(ins.version(0).unwrap().path(), "/b/renamed");
    assert_eq!(ins.version(0).unwrap().nice_name(), "renamed");
    assert_eq!(ins.rename_version(1, "other".to_owned()).unwrap(), false);
    let e = ins.make_version_current(3).unwrap_err();
    assert_eq!(e.kind, ErrorKind::NotFound);
    assert_eq!(ins.current_version_index(), 0);
    assert!(ins.version(3).is_none());
    assert_eq!(ins.current_link_target(3), None);
}

#[test]
fn a_version_is_read_from_its_directory() {
    let facts = VersionDirFacts {
        is_dir: true,
        file_name: Some("v1".to_owned()),
        entry_names: vec!["venv".to_owned(), "lifeblood".to_owned(), "entry.py".to_owned()],
        metadata: Some("1\nv1\nabcdef\n2021-06-01T00:00:00Z\n".to_owned()),
        created: None,
        has_viewer: true,
    };
    let mut v = InstalledVersion::from_path("/b/v1".to_owned(), &facts).unwrap();
    assert_eq!(v.path(), "/b/v1");
    assert_eq!(v.nice_name(), "v1");
    assert_eq!(v.source_commit(), "abcdef");
    assert_eq!(v.date().secs, 1622505600);
    assert!(v.has_viewer());
    v.set_nice_name("/b", "better".to_owned());
    assert_eq!(v.nice_name(), "better");
    assert_eq!(v.path(), "/b/better");

    let not_a_version = VersionDirFacts { entry_names: vec!["venv".to_owned()], ..facts };
    assert_eq!(
        InstalledVersion::from_path("/b/v1".to_owned(), &not_a_version).err(),
        Some(lifeblood_manager::installation_data::VersionScanError::NotAVersion)
    );
}

#[test]
fn the_current_link_leads_back_to_the_current_version() {
    let mut ins = InstallationsData::from_dir("/b".to_owned(), struct_entries(), None, false);
    for i in 0..3 {
        ins.make_version_current(i).unwrap();
        let target = ins.current_link_target(i).unwrap();
        let mut entries = struct_entries();
        entries.retain(|e| !matches!(e, ScannedEntry::Entry { name, .. } if name == "current"));
        entries.push(current_link(&target));
        let rescanned = InstallationsData::from_dir("/b".to_owned(), entries, None, false);
        assert_eq!(rescanned.current_version_index(), i);
    }
}

#[test]
fn a_directory_that_is_not_a_version_taints_the_base_directory() {
    let ins = InstallationsData::from_dir("/b".to_owned(), vec![plain_entry("holiday_photos", true)], None, false);
    assert_eq!(ins.version_count(), 0);
    assert!(ins.is_base_path_tainted());
    let ins = InstallationsData::from_dir("/b".to_owned(), struct_entries(), None, false);
    assert!(!ins.is_base_path_tainted());
}

fn with_current(target: &str) -> Vec<ScannedEntry> {
    let mut entries = struct_entries();
    entries.retain(|e| !matches!(e, ScannedEntry::Entry { name, .. } if name == "current"));
    entries.push(current_link(target));
    entries
}

#[test]
fn link_targets_are_compared_as_paths() {
    // `hash2` is version 0, `hash1` version 1
    for target in ["hash2/", "./hash2", "hash2//", "/b/hash2", "/b//./hash2/"] {
        let ins = InstallationsData::from_dir("/b".to_owned(), with_current(target), None, false);
        assert_eq!(ins.current_version_index(), 0, "target {:?}", target);
    }
    let ins = InstallationsData::from_dir("/b".to_owned(), with_current("hash1/."), None, false);
    assert_eq!(ins.current_version_index(), 1);
    let ins = InstallationsData::from_dir("/b".to_owned(), with_current("hash"), None, false);
    assert_eq!(ins.current_version_index(), NO_CURRENT_VERSION);
    let ins = InstallationsData::from_dir("/b".to_owned(), with_current("../b/hash2"), None, false);
    assert_eq!(ins.current_version_index(), NO_CURRENT_VERSION);
    // the manager's own binary, written another way
    let ins = InstallationsData::from_dir(
        "/b".to_owned(),
        vec![plain_entry("lifeblood-manager", false)],
        Some("/b//lifeblood-manager".to_owned()),
        false,
    );
    assert!(!ins.is_base_path_tainted());
}

fn launcher(text: &str) -> ScannedEntry {
    ScannedEntry::Entry {
        name: "lifeblood.cmd".to_owned(),
        is_symlink: false,
        is_dir: false,
        link_target: None,
        facts: VersionDirFacts {
            is_dir: false,
            file_name: Some("lifeblood.cmd".to_owned()),
            entry_names: vec![],
            metadata: None,
            created: None,
            has_viewer: false,
        },
        contents: text.to_owned(),
    }
}

#[test]
fn the_windows_launcher_names_the_current_version() {
    let text = "@rem hash3 \r\n@echo off\r\n%~dp0\\hash3\\venv\\Scripts\\python %*";
    let with_launcher = || {
        let mut entries = struct_entries();
        entries.retain(|e| !matches!(e, ScannedEntry::Entry { name, .. } if name == "current"));
        entries.push(launcher(text));
        entries
    };
    let ins = InstallationsData::from_dir("/b".to_owned(), with_launcher(), None, true);
    assert_eq!(ins.current_version_index(), 2);
    assert!(!ins.is_base_path_tainted());
    // elsewhere the launcher is only a known file
    let ins = InstallationsData::from_dir("/b".to_owned(), with_launcher(), None, false);
    assert_eq!(ins.current_version_index(), NO_CURRENT_VERSION);
    assert!(!ins.is_base_path_tainted());
    // an empty launcher names nothing
    let mut entries = struct_entries();
    entries.retain(|e| !matches!(e, ScannedEntry::Entry { name, .. } if name == "current"));
    entries.push(launcher(""));
    let ins = InstallationsData::from_dir("/b".to_owned(), entries, None, true);
    assert_eq!(ins.current_version_index(), NO_CURRENT_VERSION);
}
