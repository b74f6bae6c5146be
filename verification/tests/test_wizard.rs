use lifeblood_manager::config_data::{ConfigData, FileCheck, TomlValue};
use lifeblood_manager::wizard::{
    next_step, ActivityOutcome, ActivityResult, BlenderVersion, HoudiniVersion, RedshiftVersion, Wizard,
    WizardData, WizardForToolsOnly, WizardState, WizardStep,
};
use lifeblood_manager::wizard_config::{EnvConfig, StringOrList};
use lifeblood_manager::wizard_to_config::scratch_config_doc;
use lifeblood_manager::wizard_pages::{
    selected_redshift_versions, tools_install_locations, validate_chosen_path, validate_redshift_rows,
    validate_tools_locations, RedshiftRow,
};
use lifeblood_manager::config_data::ConfigError;
use lifeblood_manager::wizard_summary::{GpuDevice, SummaryActivity};

const ENV_CONF: &str = "\
[packages.\"houdini.py3_9\".\"19.0.720\"]
label = \"SideFX Houdini, with python version 3\"
env.PATH.prepend = \"/sw/houdini-19.0.720/bin\"

[packages.\"houdini.py3_11\".\"20.5.569\"]
label = \"SideFX Houdini, with python version 3\"
env.PATH.prepend = [\"/sw/houdini-20.5.569/bin\"]

[packages.\"houdini.py3_11\".\"20.5.1\"]
env.PATH.prepend = [\"/a\", \"/b\"]

[packages.blender.\"4.1.0\"]
env.PATH.append = \"/sw/blender\"

[packages.redshift.\"3.5.16\"]
env.PATH.prepend = \"/sw/redshift/bin\"

[packages.redshift.\"bad\"]
env.PATH.prepend = \"/nowhere\"

[packages.other.\"1.0.0\"]
env.PATH.prepend = \"/other\"
";

fn env_config() -> ConfigData {
    ConfigData::load("/cfg/standard_environment_resolver", "config", vec![])
}

#[test]
fn next_and_back_through_the_pages() {
    assert_eq!(
        next_step(WizardState::Intro, ActivityResult::Next, false, false, false),
        WizardStep::Show(WizardState::DoScratchPath)
    );
    assert_eq!(
        next_step(WizardState::ChooseDCCs, ActivityResult::Next, false, true, false),
        WizardStep::Show(WizardState::FindHoudini)
    );
    assert_eq!(
        next_step(WizardState::FindHoudini, ActivityResult::Prev, true, true, false),
        WizardStep::Show(WizardState::FindBlender)
    );
    assert_eq!(
        next_step(WizardState::GPUDevices, ActivityResult::Prev, false, true, true),
        WizardStep::Show(WizardState::FindRedshift)
    );
    assert_eq!(next_step(WizardState::Finalize, ActivityResult::Next, false, false, false), WizardStep::Finish);
    assert_eq!(next_step(WizardState::Intro, ActivityResult::Prev, false, false, false), WizardStep::Exit);
    assert_eq!(next_step(WizardState::FindBlender, ActivityResult::Abort, true, false, false), WizardStep::Exit);
}

#[test]
fn the_wizard_keeps_the_choices_of_each_page() {
    let mut w = Wizard::new("/cfg".to_owned(), None);
    assert_eq!(w.state(), WizardState::Intro);
    assert_eq!(w.config_root(), "/cfg");
    assert_eq!(w.on_activity_finished(ActivityResult::Next, ActivityOutcome::Nothing), WizardStep::Show(WizardState::DoScratchPath));
    w.on_activity_finished(ActivityResult::Next, ActivityOutcome::ScratchPath(Some("/scratch".to_owned())));
    assert_eq!(w.data().scratch_path.as_deref(), Some("/scratch"));
    assert_eq!(w.state(), WizardState::ChooseDCCs);
    let step = w.on_activity_finished(ActivityResult::Next, ActivityOutcome::Dccs(false, true, false));
    assert_eq!(step, WizardStep::Show(WizardState::FindHoudini));
    let found = vec![HoudiniVersion { bin_path: "/h/bin".to_owned(), python_version: (3, 11), version: (20, 5, 1) }];
    w.on_activity_finished(ActivityResult::Next, ActivityOutcome::HoudiniVersions(Some(found)));
    assert_eq!(w.state(), WizardState::HoudiniTools);
    assert_eq!(w.data().houdini_versions.len(), 1);
    assert_eq!(w.prepare_houdini_tools(vec!["/home/u/houdini20.5".to_owned()]), &vec!["/home/u/houdini20.5".to_owned()]);
    // the defaults are only taken on the first visit
    assert_eq!(w.prepare_houdini_tools(vec!["/elsewhere".to_owned()]), &vec!["/home/u/houdini20.5".to_owned()]);
    let step = w.on_activity_finished(ActivityResult::Prev, ActivityOutcome::Nothing);
    assert_eq!(step, WizardStep::Show(WizardState::FindHoudini));
    assert_eq!(w.on_activity_finished(ActivityResult::Abort, ActivityOutcome::Nothing), WizardStep::Exit);
}

#[test]
fn the_tools_wizard_has_two_pages() {
    let mut w = WizardForToolsOnly::new();
    assert_eq!(w.state(), WizardState::HoudiniTools);
    assert_eq!(w.on_activity_finished(ActivityResult::Next, Some(vec!["/p".to_owned()])), WizardStep::Show(WizardState::Finalize));
    assert_eq!(w.data().houdini_plugins_installation_paths, vec!["/p".to_owned()]);
    assert_eq!(w.on_activity_finished(ActivityResult::Prev, None), WizardStep::Show(WizardState::HoudiniTools));
    assert_eq!(w.on_activity_finished(ActivityResult::Prev, None), WizardStep::Exit);
}

fn s(x: &str) -> TomlValue {
    TomlValue::String(x.to_owned())
}

fn table(entries: Vec<(&str, TomlValue)>) -> TomlValue {
    TomlValue::Table(entries.into_iter().map(|(k, v)| (k.to_owned(), v)).collect())
}

#[test]
fn environment_configuration_is_read_as_packages() {
    let package = table(vec![
        ("label", s("SideFX Houdini, with python version 3")),
        ("env", table(vec![("PATH", table(vec![("prepend", s("/sw/houdini-19.0.720/bin"))]))])),
        ("unknown", TomlValue::Integer(3)),
    ]);
    let listed = table(vec![(
        "env",
        table(vec![("PATH", table(vec![("append", TomlValue::Array(vec![s("/a"), s("/b")])), ("set", s("x"))]))]),
    )]);
    let doc = table(vec![(
        "packages",
        table(vec![
            ("houdini.py3_9", table(vec![("19.0.720", package)])),
            ("blender", table(vec![("4.1.0", listed)])),
        ]),
    )]);
    let env = EnvConfig::from_toml(&doc).unwrap();
    assert_eq!(env.packages.len(), 2);
    let h = &env.packages[0];
    assert_eq!(h.0, "houdini.py3_9");
    assert_eq!(h.1.len(), 1);
    assert_eq!(h.1[0].0, "19.0.720");
    assert_eq!(h.1[0].1.label.as_deref(), Some("SideFX Houdini, with python version 3"));
    let env_actions = h.1[0].1.env.as_ref().unwrap();
    assert_eq!(env_actions[0].0, "PATH");
    assert!(matches!(env_actions[0].1.prepend, Some(StringOrList::String(ref p)) if p == "/sw/houdini-19.0.720/bin"));
    let b = &env.packages[1].1[0].1;
    assert!(b.label.is_none());
    let action = &b.env.as_ref().unwrap()[0].1;
    assert!(matches!(action.append, Some(StringOrList::List(ref l)) if l.len() == 2));
    assert_eq!(action.set.as_deref(), Some("x"));
    // a document without packages, or with a value of the wrong type, cannot be read
    assert!(EnvConfig::from_toml(&table(vec![("a", TomlValue::Integer(1))])).is_none());
    assert!(EnvConfig::from_toml(&table(vec![(
        "packages",
        table(vec![("x", table(vec![("1.0.0", table(vec![("label", TomlValue::Integer(5))]))]))])
    )]))
    .is_none());
    assert!(EnvConfig::from_toml(&table(vec![(
        "packages",
        table(vec![("x", table(vec![("1.0.0", table(vec![("env", table(vec![("P", table(vec![("prepend", TomlValue::Array(vec![TomlValue::Boolean(true)]))]))]))]))]))])
    )]))
    .is_none());
}

#[test]
fn wizard_data_is_read_from_the_configuration() {
    let cfg = env_config();
    let data = WizardData::new_from_config(&cfg, &vec![FileCheck::Read(ENV_CONF.to_owned())], None).unwrap();
    let mut hou: Vec<(String, (u32, u32), (u32, u32, u32))> =
        data.houdini_versions.iter().map(|h| (h.bin_path.clone(), h.python_version, h.version)).collect();
    hou.sort();
    assert_eq!(
        hou,
        vec![
            ("/sw/houdini-19.0.720/bin".to_owned(), (3, 9), (19, 0, 720)),
            ("/sw/houdini-20.5.569/bin".to_owned(), (3, 11), (20, 5, 569)),
        ]
    );
    assert_eq!(data.blender_versions.len(), 1);
    assert_eq!(data.blender_versions[0].bin_path, "/sw/blender");
    assert_eq!(data.blender_versions[0].version, (4, 1, 0));
    assert_eq!(data.redshift_versions.len(), 1);
    assert_eq!(data.redshift_versions[0].version, (3, 5, 16));
    assert!(data.do_houdini && data.do_blender && data.do_redshift);
    assert!(data.scratch_path.is_none());

    let scratch = "[scheduler.globals]\nglobal_scratch_location = \"/mnt/scratch\"\n";
    let data = WizardData::new_from_config(
        &cfg,
        &vec![FileCheck::Read(ENV_CONF.to_owned())],
        Some(("/cfg/scheduler/config.d/00-autolbm-scratch-location.toml".to_owned(), scratch.to_owned())),
    )
    .unwrap();
    assert_eq!(data.scratch_path.as_deref(), Some("/mnt/scratch"));
}

#[test]
fn unreadable_configuration_gives_errors() {
    let cfg = env_config();
    // a missing main file has no packages
    let e = WizardData::new_from_config(&cfg, &vec![FileCheck::Missing], None).unwrap_err();
    assert_eq!(e.schema_error.len(), 1);
    assert_eq!(e.schema_error[0].0, "/cfg/standard_environment_resolver/config.toml");
    // a syntax error is reported as such
    let e = WizardData::new_from_config(&cfg, &vec![FileCheck::Read("a = = 2".to_owned())], None).unwrap_err();
    assert_eq!(e.syntax_error.len(), 1);
    assert!(e.schema_error.is_empty());
    let e = WizardData::new_from_config(&cfg, &vec![FileCheck::Unreadable], None).unwrap_err();
    assert_eq!(e.access_error.len(), 1);
    // a broken scratch part is a schema error of that part
    let e = WizardData::new_from_config(
        &cfg,
        &vec![FileCheck::Read(ENV_CONF.to_owned())],
        Some(("/s.toml".to_owned(), "x = [".to_owned())),
    )
    .unwrap_err();
    assert_eq!(e.schema_error.len(), 1);
    assert_eq!(e.schema_error[0].0, "/s.toml");
}

#[test]
fn written_configuration_is_read_back() {
    let mut data = WizardData::new();
    data.scratch_path = Some("/scratch".to_owned());
    data.houdini_versions = vec![
        HoudiniVersion { bin_path: "/h19/bin".to_owned(), python_version: (3, 9), version: (19, 0, 720) },
        HoudiniVersion { bin_path: "/h20/bin".to_owned(), python_version: (3, 11), version: (20, 5, 569) },
        HoudiniVersion { bin_path: "/h20b/bin".to_owned(), python_version: (3, 11), version: (20, 5, 569) },
        HoudiniVersion { bin_path: "/h20c/bin".to_owned(), python_version: (3, 11), version: (20, 5, 1) },
    ];
    data.blender_versions = vec![BlenderVersion { bin_path: "/bl".to_owned(), version: (4, 1, 0) }];
    data.redshift_versions = vec![RedshiftVersion { bin_path: "/rs".to_owned(), version: (3, 5, 16) }];
    let (scratch, env) = data.config_to_write();
    let mut names: Vec<&str> = env.packages.iter().map(|p| p.0.as_str()).collect();
    names.sort();
    assert_eq!(names, vec!["blender", "houdini.py3_11", "houdini.py3_9"]);
    let p311 = env.packages.iter().find(|p| p.0 == "houdini.py3_11").unwrap();
    assert_eq!(p311.1.len(), 2);
    let v = p311.1.iter().find(|v| v.0 == "20.5.569").unwrap();
    assert_eq!(v.1.label.as_deref(), Some("SideFX Houdini version 20.5.569"));
    assert!(matches!(v.1.env.as_ref().unwrap()[0].1.prepend, Some(StringOrList::String(ref s)) if s == "/h20b/bin"));
    let back = WizardData::from_env_config(&env);
    let mut hou: Vec<(String, (u32, u32), (u32, u32, u32))> =
        back.houdini_versions.iter().map(|h| (h.bin_path.clone(), h.python_version, h.version)).collect();
    hou.sort();
    assert_eq!(
        hou,
        vec![
            ("/h19/bin".to_owned(), (3, 9), (19, 0, 720)),
            ("/h20b/bin".to_owned(), (3, 11), (20, 5, 569)),
            ("/h20c/bin".to_owned(), (3, 11), (20, 5, 1)),
        ]
    );
    assert_eq!(back.blender_versions.len(), 1);
    assert_eq!(back.blender_versions[0].bin_path, "/bl");
    assert!(back.redshift_versions.is_empty());
    match scratch {
        Some(TomlValue::Table(t)) => assert_eq!(t[0].0, "scheduler"),
        _ => panic!("scratch part expected"),
    }
    let doc = scratch_config_doc("/s");
    match doc {
        TomlValue::Table(t) => match &t[0].1 {
            TomlValue::Table(g) => match &g[0].1 {
                TomlValue::Table(l) => {
                    assert_eq!(l[0].0, "global_scratch_location");
                    assert!(matches!(l[0].1, TomlValue::String(ref s) if s == "/s"));
                }
                _ => panic!(),
            },
            _ => panic!(),
        },
        _ => panic!(),
    }
}

#[test]
fn page_inputs_are_checked() {
    let inputs = vec!["/a".to_owned(), "b".to_owned(), "/c".to_owned()];
    assert_eq!(tools_install_locations(&inputs, 1), vec!["/a".to_owned()]);
    assert_eq!(tools_install_locations(&inputs, 9).len(), 3);
    assert!(validate_tools_locations(&tools_install_locations(&inputs, 1)).is_ok());
    assert_eq!(validate_tools_locations(&inputs), Err("path must be absolute".to_owned()));
    assert_eq!(validate_chosen_path(true, false), Err("given path does not exist".to_owned()));
    assert!(validate_chosen_path(false, false).is_ok());
    assert!(validate_chosen_path(true, true).is_ok());
    let row = |p: &str, exists: bool, exe: bool, v: (&str, &str, &str)| RedshiftRow {
        bin_path: p.to_owned(),
        exists,
        has_cmdline: exe,
        major: v.0.to_owned(),
        minor: v.1.to_owned(),
        build: v.2.to_owned(),
    };
    assert!(validate_redshift_rows(&vec![row("/rs/bin", true, true, ("3", "5", "16"))]).is_ok());
    assert_eq!(
        validate_redshift_rows(&vec![row("rs/bin", true, true, ("3", "5", "16"))]),
        Err("provided path to redshift bin is not an absolute path".to_owned())
    );
    assert_eq!(
        validate_redshift_rows(&vec![row("/rs/bin", true, true, ("3", "5", "16")), row("/x", false, true, ("1", "1", "1"))]),
        Err("provided path to redshift bin does not exist".to_owned())
    );
    assert_eq!(
        validate_redshift_rows(&vec![row("/x", true, false, ("1", "1", "1"))]),
        Err("provided path does not contain redshiftCmdLine executable".to_owned())
    );
    assert_eq!(
        validate_redshift_rows(&vec![row("/x", true, true, ("1", "", "1"))]),
        Err("Redshift version components must be set".to_owned())
    );
    let sel = selected_redshift_versions(&vec![row("/x", true, true, ("3", "q", "16"))]);
    assert_eq!(sel, vec![("/x".to_owned(), (3, 0, 16))]);
}

#[test]
fn configuration_errors_are_described() {
    assert_eq!(
        ConfigError::SyntaxError("expected `=`".to_owned(), Some((3, 17))).describe(),
        "Syntax Error (expected `=`): at [3-17]"
    );
    assert_eq!(ConfigError::SyntaxError("bad".to_owned(), None).describe(), "Syntax Error (bad)");
    assert_eq!(ConfigError::SchemaError("x".to_owned()).describe(), "Schema Error");
}

#[test]
fn a_validated_configuration_can_be_read_by_the_wizard() {
    let text = "[packages.foo.\"1.2.3\"]\nqet=\"aj qooq lalala\"\nenv.FOOBAR.append = [\"/q/w/e\", \"/zxc\"]\n\n[packages.\"houdini.py3_10\".\"20.0.1\"]\nenv.PATH.prepend = \"/h/bin\"\n";
    assert!(ConfigData::validate_config_text(text).is_ok());
    let data = WizardData::new_from_config(&env_config(), &vec![FileCheck::Read(text.to_owned())], None).unwrap();
    assert_eq!(data.houdini_versions.len(), 1);
    assert_eq!(data.houdini_versions[0].python_version, (3, 10));
    assert_eq!(data.houdini_versions[0].version, (20, 0, 1));
}

#[test]
fn going_back_undoes_going_forward() {
    for (s, b, h, rs) in [
        (WizardState::ChooseDCCs, true, false, false),
        (WizardState::ChooseDCCs, false, true, true),
        (WizardState::FindBlender, true, true, false),
        (WizardState::HoudiniTools, false, true, true),
        (WizardState::FindRedshift, true, false, true),
    ] {
        match next_step(s, ActivityResult::Next, b, h, rs) {
            WizardStep::Show(t) => assert_eq!(next_step(t, ActivityResult::Prev, b, h, rs), WizardStep::Show(s)),
            _ => panic!("a page should follow"),
        }
    }
}

#[test]
fn the_summary_page() {
    let s = SummaryActivity::new(
        true,
        true,
        None,
        Some("/scratch"),
        &[BlenderVersion { bin_path: "/bl".to_owned(), version: (4, 1, 0) }],
        &[HoudiniVersion { bin_path: "/h/bin".to_owned(), python_version: (3, 11), version: (20, 5, 1) }],
        &["/home/u/houdini20.5".to_owned()],
        &[],
        &[GpuDevice {
            name: "gpu0".to_owned(),
            mem_gb: 8,
            opencl: "3".to_owned(),
            cuda: "8.6".to_owned(),
            tags: vec![("a".to_owned(), "b".to_owned())],
        }],
    );
    assert_eq!(
        s.text(),
        "<h1>Summary</h1><h5>Note: existing config files will be overwritten!</h5><h3>Database location:</h3>default location\n<h3>Shared Scratch location:</h3>/scratch\n<h3>Blender Versions:</h3><ul><li>blender [4.1.0]: \"/bl\"</ul>\n<h3>Houdini Versions:</h3><ul><li>houdini.py3_11 [20.5.1]: \"/h/bin\"</ul>\n<h4>No Redshift versions</h4>\n<h3>GPU devices</h3><ul>\n                <li>gpu0 (8GB): ocl:3, cuda:8.6<ul><li>a=b</ul></ul>\n<h3>Tools:</h3><h4>Submitting tools for Houdini installed to:</h4><ul><li>/home/u/houdini20.5</ul>"
    );
    let t = SummaryActivity::new(false, true, None, None, &[], &[], &[], &[], &[]);
    assert_eq!(
        t.text(),
        "<h1>Summary</h1><h3>Tools:</h3><br>No Lifeblood submitting tools for Houdini will be installed"
    );
}

#[test]
fn basic() {
    let conf_text = "\
    [packages.\"houdini.py3_9\".\"19.0.720\"]\n\
    label = \"SideFX Houdini, with python version 3\"\n\
    env.PATH.prepend = \"/sw/houdinii-19.0.720/bin\"\n\
    \n\
    [packages.\"houdini.py3_11\".\"20.5.569\"]\n\
    label = \"SideFX Houdini, with python version 3\"\n\
    env.PATH.prepend = [\"/sw/houdini-20.5.569/bin\"]\n\
    ";

    let config: EnvConfig = EnvConfig::from_toml_text(conf_text).unwrap();

    println!("{:?}", config);
    assert_eq!(config.packages.len(), 2);
}

#[test]
fn env_config_text_errors() {
    let e = EnvConfig::from_toml_text("[packages\n").unwrap_err();
    assert!(e.1.is_some());
    let e = EnvConfig::from_toml_text("other = 1").unwrap_err();
    assert_eq!(e, ("configuration has no packages table of the expected form".to_owned(), None));
}
