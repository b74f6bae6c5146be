use lifeblood_manager::main_widget_config::{
    ConfigReadError, ExtraFieldValue, MainWidgetConfig, MainWidgetConfigData,
};
use lifeblood_manager::paths::{join_path, relative_to_chars};

const SETTINGS: &str = "base_install_dir = \"/opt/lifeblood\"
launch_ids_to_autostart = [\"scheduler\", \"worker pool\"]

[extra_fields]
theme = { String = \"dark\" }
width = { Int = 800 }
recent = { StringList = [\"/a\", \"/b\"] }
";

#[test]
fn settings_are_read_from_their_text() {
    let d = MainWidgetConfigData::from_settings_text(Ok(SETTINGS.to_owned())).unwrap();
    assert_eq!(d.base_install_dir, "/opt/lifeblood");
    assert_eq!(d.launch_ids_to_autostart, vec!["scheduler", "worker pool"]);
    assert_eq!(d.extra_fields.len(), 3);
    assert!(matches!(d.extra_fields.iter().find(|e| e.0 == "width").unwrap().1, ExtraFieldValue::Int(800)));
    assert!(matches!(d.extra_fields.iter().find(|e| e.0 == "theme").unwrap().1, ExtraFieldValue::String(ref s) if s == "dark"));
    match &d.extra_fields.iter().find(|e| e.0 == "recent").unwrap().1 {
        ExtraFieldValue::StringList(l) => assert_eq!(l, &vec!["/a".to_owned(), "/b".to_owned()]),
        _ => panic!("a list expected"),
    }
    assert!(matches!(
        MainWidgetConfigData::from_settings_text(Ok("base_install_dir = 3".to_owned())),
        Err(ConfigReadError::InvalidData(_))
    ));
    assert!(matches!(
        MainWidgetConfigData::from_settings_text(Ok("x = [".to_owned())),
        Err(ConfigReadError::InvalidData(_))
    ));
    assert!(matches!(
        MainWidgetConfigData::from_settings_text(Ok(
            "base_install_dir = \"/b\"\nlaunch_ids_to_autostart = []\n[extra_fields]\nx = { Float = 1 }\n".to_owned()
        )),
        Err(ConfigReadError::InvalidData(_))
    ));
    assert!(matches!(
        MainWidgetConfigData::from_settings_text(Err(ConfigReadError::NotFound("gone".to_owned()))),
        Err(ConfigReadError::NotFound(ref m)) if m == "gone"
    ));
}

#[test]
fn settings_fall_back_as_asked() {
    let c = MainWidgetConfig::new_from_file(
        "/home/u/lb",
        true,
        false,
        Err(ConfigReadError::NotFound("no file".to_owned())),
    )
    .unwrap();
    assert_eq!(c.config_path(), "/home/u/lb/lifeblood-manager.config");
    assert_eq!(c.base_install_path(), "/home/u/lb");
    assert!(c.launch_ids_to_autostart().is_empty());
    assert!(matches!(
        MainWidgetConfig::new_from_file("/x", false, true, Err(ConfigReadError::NotFound("no".to_owned()))),
        Err(ConfigReadError::NotFound(_))
    ));
    assert!(MainWidgetConfig::new_from_file("/x", false, true, Err(ConfigReadError::InvalidData("bad".to_owned()))).is_ok());
    assert!(matches!(
        MainWidgetConfig::new_from_file("/x", true, true, Err(ConfigReadError::Other("denied".to_owned()))),
        Err(ConfigReadError::Other(_))
    ));
    let loaded = MainWidgetConfigData::from_settings_text(Ok(SETTINGS.to_owned()));
    let c = MainWidgetConfig::new_from_file("/x", false, false, loaded).unwrap();
    assert_eq!(c.base_install_path(), "/opt/lifeblood");
    assert!(c.has_autostart_launch_id("worker pool"));
}

#[test]
fn autostart_ids_form_a_set() {
    let mut c = MainWidgetConfig::new("/b");
    assert!(!c.has_autostart_launch_id("scheduler"));
    c.add_autostart_launch_id("scheduler");
    c.add_autostart_launch_id("scheduler");
    assert!(c.has_autostart_launch_id("scheduler"));
    assert_eq!(c.launch_ids_to_autostart().len(), 1);
    c.add_autostart_launch_id("viewer");
    c.remove_autostart_launch_id("scheduler");
    assert!(!c.has_autostart_launch_id("scheduler"));
    assert!(c.has_autostart_launch_id("viewer"));
    c.remove_autostart_launch_id("nothing");
    assert_eq!(c.launch_ids_to_autostart().len(), 1);
    c.set_base_install_path("/elsewhere");
    assert_eq!(c.base_install_path(), "/elsewhere");
    assert_eq!(c.config_path(), "/b/lifeblood-manager.config");
    let mut bad = MainWidgetConfig::new("/b");
    assert!(bad.reload_from_file(Err(ConfigReadError::InvalidData("x".to_owned()))).is_err());
    assert_eq!(bad.base_install_path(), "/b");
    assert!(bad.reload_from_file(MainWidgetConfigData::from_settings_text(Ok(SETTINGS.to_owned()))).is_ok());
    assert_eq!(bad.base_install_path(), "/opt/lifeblood");
    assert_eq!(bad.config_data().extra_fields.len(), 3);
}

#[test]
fn paths_join_like_path_push() {
    assert_eq!(join_path("/a", "b"), "/a/b");
    assert_eq!(join_path("/a/", "b"), "/a/b");
    assert_eq!(join_path("/a", "/abs"), "/abs");
    assert_eq!(join_path("", "b"), "b");
    let rel: String = relative_to_chars(&"/base/v1".chars().collect::<Vec<_>>(), &"/base".chars().collect::<Vec<_>>())
        .into_iter()
        .collect();
    assert_eq!(rel, "v1");
    let other: String = relative_to_chars(&"/x/v1".chars().collect::<Vec<_>>(), &"/base".chars().collect::<Vec<_>>())
        .into_iter()
        .collect();
    assert_eq!(other, "/x/v1");
}
