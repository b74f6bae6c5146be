use lifeblood_manager::launch_data::{
    full_launch_args, LaunchControlData, LaunchControlDataOption, LaunchControlDataOptionValue,
    LaunchControlDataOptionValueStorage, LaunchError,
};

fn log_level() -> LaunchControlDataOption {
    LaunchControlDataOption::new(
        "log level",
        LaunchControlDataOptionValueStorage::new_enum(vec![("INFO", "info"), ("DEBUG", "debug")]),
        Some("--loglevel"),
    )
}

#[test]
fn option_arguments_follow_the_value() {
    let mut opt = log_level();
    assert_eq!(opt.label(), "log level");
    assert_eq!(opt.get_args(), &["--loglevel".to_owned(), "INFO".to_owned()]);
    opt.set_value(LaunchControlDataOptionValue::Enum(1));
    assert_eq!(opt.get_args(), &["--loglevel".to_owned(), "DEBUG".to_owned()]);
    match opt.value() {
        LaunchControlDataOptionValueStorage::Enum((menu, i)) => {
            assert_eq!(*i, 1);
            assert_eq!(menu.len(), 2);
            assert_eq!(menu[1].1, "debug");
        }
        _ => panic!("menu expected"),
    }

    let mut interval = LaunchControlDataOption::new(
        "broadcast interval",
        LaunchControlDataOptionValueStorage::new_int(10),
        Some("--broadcast-interval"),
    );
    assert_eq!(interval.get_args(), &["--broadcast-interval".to_owned(), "10".to_owned()]);
    interval.set_value(LaunchControlDataOptionValue::Int(-42));
    assert_eq!(interval.get_args(), &["--broadcast-interval".to_owned(), "-42".to_owned()]);

    let mut component =
        LaunchControlDataOption::new("component", LaunchControlDataOptionValueStorage::Nothing, Some("scheduler"));
    assert_eq!(component.get_args(), &["scheduler".to_owned()]);

    let mut text = LaunchControlDataOption::new("text", LaunchControlDataOptionValueStorage::new_string("a b"), None);
    assert_eq!(text.get_args(), &["a b".to_owned()]);
    text.set_value(LaunchControlDataOptionValue::String("c".to_owned()));
    assert_eq!(text.compute_args(), vec!["c".to_owned()]);
}

#[test]
fn full_arguments_are_fixed_then_options() {
    let options = vec![
        log_level(),
        LaunchControlDataOption::new("component", LaunchControlDataOptionValueStorage::Nothing, Some("pool")),
        LaunchControlDataOption::new("component", LaunchControlDataOptionValueStorage::Nothing, Some("simple")),
    ];
    let args = full_launch_args(&vec!["-v".to_owned()], &options);
    assert_eq!(args, vec!["-v", "--loglevel", "INFO", "pool", "simple"]);
}

#[test]
fn a_launch_needs_an_installation_and_records_exit_codes() {
    let mut launch = LaunchControlData::new(
        "scheduler",
        None,
        "Scheduler",
        "the main component",
        "./lifeblood",
        vec!["--x"],
        Some(vec![log_level()]),
    );
    assert!(launch.options_ready());
    assert_eq!(launch.launch_id(), "scheduler");
    assert_eq!(launch.command(), "./lifeblood");
    assert_eq!(launch.command_label(), "Scheduler");
    assert_eq!(launch.description(), "the main component");
    assert!(!launch.is_current_installation_set());
    assert_eq!(launch.start_request().err(), Some(LaunchError::InstallationNotSet));
    assert_eq!(LaunchError::InstallationNotSet.message(), "installation data is not set");

    assert_eq!(launch.install_location_changed(Some("/opt/lb".to_owned())), None);
    assert_eq!(launch.current_installation(), Some("/opt/lb"));
    let req = launch.start_request().unwrap();
    assert_eq!(req.base_path, "/opt/lb");
    assert_eq!(req.command, "./lifeblood");
    assert_eq!(req.args, vec!["--x", "--loglevel", "INFO"]);

    launch.set_option_value(0, LaunchControlDataOptionValue::Enum(1));
    assert_eq!(launch.start_request().unwrap().args, vec!["--x", "--loglevel", "DEBUG"]);
    assert_eq!(launch.args_options().len(), 1);

    assert!(!launch.is_process_running());
    assert_eq!(launch.waited_process(), Err(LaunchError::NotStarted));
    launch.process_started(77);
    assert!(launch.is_process_running());
    assert_eq!(launch.process_pid(), Some(77));
    assert_eq!(launch.waited_process(), Ok(77));
    launch.process_exited(Some(3));
    assert!(!launch.is_process_running());
    assert_eq!(launch.last_run_exit_code(), Some(3));
    assert_eq!(launch.install_location_changed(None), Some("/opt/lb".to_owned()));
}

#[test]
fn a_selection_outside_its_menu_is_not_ready() {
    let mut opt = log_level();
    opt.set_value(LaunchControlDataOptionValue::Enum(5));
    let launch = LaunchControlData::new("x", Some("/b"), "X", "", "./x", vec![], Some(vec![opt]));
    assert!(!launch.options_ready());
    let empty = LaunchControlData::new("y", None, "Y", "", "./y", vec![], None);
    assert!(empty.options_ready());
    assert!(empty.args_options().is_empty());
}

#[test]
fn the_standard_launches() {
    let mut launches = lifeblood_manager::launch_data::standard_launches(true);
    assert_eq!(launches.len(), 3);
    let ids: Vec<&str> = launches.iter().map(|l| l.launch_id()).collect();
    assert_eq!(ids, vec!["scheduler", "worker pool", "viewer"]);
    assert_eq!(launches[2].command(), "./lifeblood_viewer");
    for l in launches.iter_mut() {
        l.install_location_changed(Some("/b".to_owned()));
    }
    assert_eq!(
        launches[0].start_request().unwrap().args,
        vec!["--loglevel", "INFO", "scheduler", "--verbosity-pinger", "INFO", "--broadcast-interval", "10"]
    );
    assert_eq!(launches[1].start_request().unwrap().args, vec!["--loglevel", "INFO", "pool", "simple"]);
    assert_eq!(launches[2].start_request().unwrap().args, vec!["--loglevel", "INFO"]);
    let win = lifeblood_manager::launch_data::standard_launches(false);
    assert_eq!(win[0].command(), "./lifeblood.cmd");
    assert_eq!(win[2].command(), "./lifeblood_viewer.cmd");
    assert_eq!(win[1].command_label(), "Worker Pool");
}
