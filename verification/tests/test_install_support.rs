use lifeblood_manager::install_support::{
    branch_archive_url, nice_name_from_commit, python_candidates, python_probe_accepted,
    python_version_supported, pyvers_from_setupcfg, requirements_from_setupcfg, script_link_contents,
    unsupported_python_message, venv_python_bin_path, PythonCheckError,
};
use lifeblood_manager::installation_data::{ErrorKind, VersionDate};
use lifeblood_manager::version_metadata::{metadata_text, parse_metadata, MetadataError};

const SETUP_CFG: &str = "[metadata]
name = lifeblood

[options]
python_requires = >=3.8, <3.12
install_requires =
    lifeblood_viewer
    numpy >= 1.20
    psutil

[options.package_data]
* = *.txt
";

#[test]
fn requirements_are_read_from_setup_cfg() {
    assert_eq!(requirements_from_setupcfg(SETUP_CFG), vec!["numpy >= 1.20", "psutil"]);
    assert!(requirements_from_setupcfg("[options]\nname = x\n").is_empty());
    assert_eq!(requirements_from_setupcfg("install_requires =\r\n  a\r\n\r\n  b\r\n"), vec!["a"]);
}

#[test]
fn supported_python_versions_are_read_from_setup_cfg() {
    assert_eq!(pyvers_from_setupcfg(SETUP_CFG).unwrap(), vec![(3, 8), (3, 9), (3, 10), (3, 11)]);
    assert_eq!(pyvers_from_setupcfg("[options]\n").unwrap(), vec![]);
    let e = pyvers_from_setupcfg("python_requires = not a requirement\n").unwrap_err();
    assert_eq!(e.kind, ErrorKind::InvalidData);
}

#[test]
fn python_version_is_checked_against_the_supported_ones() {
    let supported = [(3, 9), (3, 10)];
    assert_eq!(python_version_supported(Some("Python 3.10.4\n"), &supported), Ok(true));
    assert_eq!(python_version_supported(Some("Python 3.12.0"), &supported), Ok(false));
    assert_eq!(python_version_supported(Some("Python x.y"), &supported), Ok(false));
    assert_eq!(python_version_supported(Some("nospace"), &supported), Err(PythonCheckError::UnexpectedOutput));
    assert_eq!(python_version_supported(None, &supported), Err(PythonCheckError::UnreadableOutput));
    assert_eq!(
        unsupported_python_message(&supported),
        "given python version is not supported. supported: 3.9, 3.10"
    );
}

#[test]
fn launcher_scripts_and_paths() {
    assert_eq!(
        script_link_contents("current", "viewer", false),
        "#!/bin/sh\ncwd=`dirname \\`readlink -f $0\\``\nexec $cwd/current/venv/bin/python $cwd/current/entry.py viewer \"$@\""
    );
    assert_eq!(
        script_link_contents("abc", "", true),
        "@rem abc\n@echo off\n%~dp0\\abc\\venv\\Scripts\\python %~dp0\\abc\\entry.py  %*"
    );
    assert_eq!(venv_python_bin_path("/b/v", false), "/b/v/venv/bin/python");
    assert_eq!(venv_python_bin_path("/b/v", true), "/b/v/venv/Scripts/python.exe");
    assert_eq!(
        branch_archive_url("dev"),
        "https://github.com/pedohorse/lifeblood/archive/refs/heads/dev.zip"
    );
    assert_eq!(nice_name_from_commit("0123456789abcdef0123"), "0123456789abc");
}

#[test]
fn version_name_takes_thirteen_bytes() {
    // each 'é' takes two bytes in UTF-8
    assert_eq!(nice_name_from_commit("éééééé0123456789"), "éééééé0");
    assert_eq!(nice_name_from_commit("0123456789abc"), "0123456789abc");
}

#[test]
fn python_commands_to_try() {
    assert_eq!(python_candidates(None), vec!["python", "python3"]);
    assert_eq!(python_candidates(Some("/usr/bin/python3.11".to_owned())), vec!["/usr/bin/python3.11"]);
    assert!(python_probe_accepted(true, Some(0), false));
    assert!(python_probe_accepted(true, Some(9009), false));
    assert!(!python_probe_accepted(true, Some(9009), true));
    assert!(!python_probe_accepted(true, None, false));
    assert!(!python_probe_accepted(false, Some(0), false));
}

#[test]
fn metadata_is_read_back() {
    let date = VersionDate { secs: 1_700_000_000, nanos: 5 };
    let text = metadata_text("nice", "0123456789abcdef", date).unwrap();
    assert!(text.starts_with("1\nnice\n0123456789abcdef\n"));
    let (name, commit, back) = parse_metadata(&text).unwrap();
    assert_eq!(name, "nice");
    assert_eq!(commit, "0123456789abcdef");
    assert_eq!((back.secs, back.nanos), (date.secs, date.nanos));
    assert!(matches!(parse_metadata("2\na\nb\n2020-01-01T00:00:00Z"), Err(MetadataError::UnknownFormat)));
    assert!(matches!(parse_metadata("1\na\nb\nyesterday"), Err(MetadataError::BadDate)));
    let (n, c, d) = parse_metadata(" 1 \n  name  \n commit\n2020-01-01T00:00:01Z\n").unwrap();
    assert_eq!((n.as_str(), c.as_str(), d.secs), ("name", "commit", 1_577_836_801));
}

#[test]
fn metadata_dates_are_read_back() {
    let dates = [
        (-62_167_219_200, 0),
        (253_402_300_799, 999_999_999),
        (0, 0),
        (1_700_000_000, 120_000_000),
        (1_700_000_000, 120_000),
        (-1, 1),
        (300_000_000_000, 7),
        (-62_167_219_201, 0),
        (-100_000_000_000, 42_000_000),
    ];
    for (secs, nanos) in dates {
        let date = VersionDate { secs, nanos };
        let text = metadata_text("v", "c", date).unwrap();
        let (_, _, back) = parse_metadata(&text).unwrap();
        assert_eq!((back.secs, back.nanos), (secs, nanos), "{}", text);
    }
    assert_eq!(metadata_text("v", "c", VersionDate { secs: 0, nanos: 0 }).unwrap(), "1\nv\nc\n1970-01-01T00:00:00Z");
}

#[test]
fn archive_tells_its_version() {
    let (commit, name, date) =
        lifeblood_manager::version_metadata::unpacked_version("0123456789abcdef0123", 2023, 5, 17, 10, 0, 0).unwrap();
    assert_eq!(commit, "0123456789abcdef0123");
    assert_eq!(name, "0123456789abc");
    assert_eq!((date.secs, date.nanos), (1684317600, 0));
    assert!(lifeblood_manager::version_metadata::unpacked_version("0123456789abcdef0123", 2023, 13, 1, 0, 0, 0).is_none());
}
