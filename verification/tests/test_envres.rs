use lifeblood_manager::config_data::{ConfigData, ConfigError, FileCheck};
use lifeblood_manager::config_data_collection::ConfigDataCollection;

#[test]
fn test_default_location() {
    if let Some(home_path) = home::home_dir() {
        let home_text = home_path.to_string_lossy().to_string();
        let loc = ConfigDataCollection::default_config_location(None, Some(home_text.clone()), "linux");
        assert!(loc.starts_with(&home_text));
        assert_eq!(loc, format!("{}/lifeblood", home_text.trim_end_matches('/')));
    }
}

#[test]
fn default_location_prefers_the_variable_and_knows_macos() {
    assert_eq!(
        ConfigDataCollection::default_config_location(Some("/etc/lb".to_owned()), Some("/home/u".to_owned()), "linux"),
        "/etc/lb"
    );
    assert_eq!(
        ConfigDataCollection::default_config_location(None, Some("/Users/u".to_owned()), "macos"),
        "/Users/u/Library/Preferences/lifeblood"
    );
    assert_eq!(ConfigDataCollection::default_config_location(None, None, "linux"), "");
}

#[test]
fn config_files_are_found_in_their_directory() {
    let mut col = ConfigDataCollection::new("/cfg");
    assert_eq!(col.config_dir("scheduler"), "/cfg/scheduler");
    col.change_location("/other");
    let cfg = col.get_config_data(
        "scheduler",
        vec!["b.toml".to_owned(), "notes.txt".to_owned(), "a.toml".to_owned(), "toml".to_owned()],
    );
    assert_eq!(cfg.name(), "config");
    assert_eq!(cfg.main_config_path(), "/other/scheduler/config.toml");
    assert_eq!(
        cfg.additional_config_files(),
        &["/other/scheduler/config.d/a.toml".to_owned(), "/other/scheduler/config.d/b.toml".to_owned()]
    );
    assert_eq!(ConfigData::d_dir_path("/x", "config"), "/x/config.d");
}

#[test]
fn validate_reports_unreadable_and_broken_files() {
    let cfg = ConfigData::load("/x", "config", vec!["part.toml".to_owned(), "zz.toml".to_owned()]);
    let ok = cfg.validate(&vec![
        FileCheck::Missing,
        FileCheck::Read("a = 1\n".to_owned()),
        FileCheck::Read("".to_owned()),
    ]);
    assert!(ok.is_ok());
    let err = cfg
        .validate(&vec![
            FileCheck::Unreadable,
            FileCheck::Read("a = = 1".to_owned()),
            FileCheck::Read("b = 2".to_owned()),
        ])
        .unwrap_err();
    assert_eq!(err.access_error, vec!["/x/config.toml".to_owned()]);
    assert_eq!(err.syntax_error.len(), 1);
    assert_eq!(err.syntax_error[0].0, "/x/config.d/part.toml");
    assert!(err.syntax_error[0].1 .1.is_some());
    assert!(err.schema_error.is_empty());
}

#[test]
fn schema_accepts_documents_without_packages_and_names_its_error() {
    assert!(ConfigData::validate_config_text("[scheduler.globals]\nx = 1\n").is_ok());
    match ConfigData::validate_config_text("packages = \"none\"") {
        Err(ConfigError::SchemaError(m)) => {
            assert_eq!(m, "configuration does not follow the schema of packages")
        }
        _ => panic!("expected a schema error"),
    }
    assert!(ConfigData::validate_config_text(
        "[packages.\"houdini.py3_11\".\"20.5.569\"]\nlabel = \"h\"\nenv.PATH.prepend = [\"/a\", \"/b\"]\nenv.X.set = \"1\"\n"
    )
    .is_ok());
    assert!(matches!(
        ConfigData::validate_config_text("[packages.foo.\"1.2.3\"]\nlabel = 3\n"),
        Err(ConfigError::SchemaError(_))
    ));
    assert!(matches!(
        ConfigData::validate_config_text("[packages.foo.\"1.2.3\"]\nenv.PATH.append = [1]\n"),
        Err(ConfigError::SchemaError(_))
    ));
    assert!(matches!(
        ConfigData::validate_config_text("[packages.foo.\"99999999999.2.3\"]\n"),
        Err(ConfigError::SchemaError(_))
    ));
}


#[test]
fn test_validation_syntax() {
    //
    // good ones
    assert!(if let Ok(()) = ConfigData::validate_config_text(
        r#"
[packages.foo."1.2.3"]
qet="aj qooq lalala"
env.FOOBAR.append = ["/q/w/e", "/zxc"]
"#
    ) { true } else { false });

    //
    // bad ones
    assert!(if let Err(ConfigError::SyntaxError(_, _)) = ConfigData::validate_config_text(
        r#"
[packages.foo."1.2.3"]
qet="aj qooq lalala'
env.FOOBAR.append = ["/q/w/e", "/zxc"]
"#
    ) { true } else { false });
    assert!(if let Err(ConfigError::SyntaxError(_, _)) = ConfigData::validate_config_text(
        r#"
[packages.foo."1.2.3"]
qet="aj qooq lalala"
env.FOO BAR.append = ["/q/w/e", "/zxc"]
"#
    ) { true } else { false });
    assert!(if let Err(ConfigError::SyntaxError(_, _)) = ConfigData::validate_config_text(
        r#"
[packages.foo."1.2.3"]
qet="aj qooq lalala"
env.FOOBAR.append = ["/q/w/e" "/zxc"]
"#
    ) { true } else { false });
}
#[test]
fn test_validation_schema1() {
    //
    // good ones
    assert!(if let Ok(()) = ConfigData::validate_config_text(
        r#"
[packages.foo."1.2.3"]
qet="aj qooq lalala"
env.FOOBAR.append = ["/q/w/e", "/zxc"]
"#
    ) { true } else { false });

    //
    // bad ones
    assert!(if let Err(ConfigError::SchemaError(_)) = ConfigData::validate_config_text(
        r#"
packages=1.2
"#
    ) { true } else { false });
    assert!(if let Err(ConfigError::SchemaError(_)) = ConfigData::validate_config_text(
        r#"
packages.foo = 2
"#
    ) { true } else { false });
    assert!(if let Err(ConfigError::SchemaError(_)) = ConfigData::validate_config_text(
        r#"
[packages.foo.1.2.3]
qet="aj qooq lalala"
env.FOOBAR.append = ["/q/w/e", "/zxc"]
"#
    ) { true } else { false });
    assert!(if let Err(ConfigError::SchemaError(_)) = ConfigData::validate_config_text(
        r#"
[packages.foo."1.2"]
qet="aj qooq lalala"
env.FOOBAR.append = ["/q/w/e", "/zxc"]
"#
    ) { true } else { false });
    assert!(if let Err(ConfigError::SchemaError(_)) = ConfigData::validate_config_text(
        r#"
[packages.foo."1.2.3.4"]
qet="aj qooq lalala"
env.FOOBAR.append = ["/q/w/e", "/zxc"]
"#
    ) { true } else { false });
    assert!(if let Err(ConfigError::SchemaError(_)) = ConfigData::validate_config_text(
        r#"
[packages.foo."1.2.q"]
qet="aj qooq lalala"
env.FOOBAR.append = ["/q/w/e", "/zxc"]
"#
    ) { true } else { false });
    assert!(if let Err(ConfigError::SchemaError(_)) = ConfigData::validate_config_text(
        r#"
[packages.foo."1.2..3"]
qet="aj qooq lalala"
env.FOOBAR.append = ["/q/w/e", "/zxc"]
"#
    ) { true } else { false });
}