use lifeblood_manager::cli::{
    parse_command_line, parse_list_args, parse_new_args, parse_set_current_args,
    resolve_version_index, CliError, InstallsCommand,
};
use lifeblood_manager::houdini_utils::{
    pref_base_dir_path, pref_dir_name_accepted, possible_user_pref_dirs,
};

fn args(a: &[&str]) -> Vec<String> {
    a.iter().map(|s| s.to_string()).collect()
}

#[test]
fn commands_are_recognised() {
    let (c, rest) = parse_command_line(&args(&["lbm", "installs", "new", "--branch", "x"])).unwrap();
    assert_eq!(c, InstallsCommand::New);
    assert_eq!(rest, args(&["--branch", "x"]));
    assert_eq!(parse_command_line(&args(&["lbm"])).err(), Some(CliError::NotEnoughArguments));
    assert_eq!(parse_command_line(&args(&["lbm", "launch"])).err(), Some(CliError::InvalidCommand));
    assert_eq!(parse_command_line(&args(&["lbm", "installs"])).err(), Some(CliError::NotEnoughArguments));
    assert_eq!(parse_command_line(&args(&["lbm", "installs", "drop"])).err(), Some(CliError::UnknownSubcommand));
    assert_eq!(parse_command_line(&args(&["lbm", "installs", "list"])).unwrap().0, InstallsCommand::List);
    assert_eq!(
        parse_command_line(&args(&["lbm", "installs", "set_current", "2"])).unwrap().0,
        InstallsCommand::SetCurrent
    );
}

#[test]
fn list_arguments() {
    assert_eq!(parse_list_args(&args(&[])).unwrap(), ".");
    assert_eq!(parse_list_args(&args(&["/base"])).unwrap(), "/base");
    assert_eq!(parse_list_args(&args(&["--x"])).err(), Some(CliError::UnexpectedFlag));
    assert_eq!(parse_list_args(&args(&["/a", "/b"])).err(), Some(CliError::UnexpectedArgument));
}

#[test]
fn new_arguments() {
    assert_eq!(parse_new_args(&args(&[])).unwrap(), ("dev".to_owned(), ".".to_owned(), true));
    assert_eq!(
        parse_new_args(&args(&["--branch", "master", "--no-viewer", "/base"])).unwrap(),
        ("master".to_owned(), "/base".to_owned(), false)
    );
    assert_eq!(parse_new_args(&args(&["--branch"])).unwrap(), ("dev".to_owned(), ".".to_owned(), true));
    assert_eq!(parse_new_args(&args(&["/base", "--no-viewer"])).err(), Some(CliError::UnexpectedArgument));
}

#[test]
fn set_current_arguments() {
    assert_eq!(parse_set_current_args(&args(&[])).unwrap(), (None, ".".to_owned()));
    assert_eq!(parse_set_current_args(&args(&["2", "/b"])).unwrap(), (Some(2), "/b".to_owned()));
    assert_eq!(parse_set_current_args(&args(&["+7"])).unwrap(), (Some(7), ".".to_owned()));
    assert_eq!(parse_set_current_args(&args(&["two"])).err(), Some(CliError::InvalidIndex));
    assert_eq!(parse_set_current_args(&args(&["1", "/b", "x"])).err(), Some(CliError::UnexpectedArgument));
    assert_eq!(resolve_version_index(None, 3), Some(2));
    assert_eq!(resolve_version_index(None, 0), None);
    assert_eq!(resolve_version_index(Some(1), 3), Some(1));
    assert_eq!(resolve_version_index(Some(3), 3), None);
}

#[test]
fn houdini_preference_directories() {
    assert_eq!(pref_base_dir_path("/home/u", "linux").unwrap(), "/home/u");
    assert_eq!(pref_base_dir_path("C:/Users/u", "windows").unwrap(), "C:/Users/u/Documents");
    assert_eq!(pref_base_dir_path("/Users/u", "macos").unwrap(), "/Users/u/Library/Preferences/houdini");
    assert!(pref_base_dir_path("/home/u", "haiku").is_none());
    assert!(pref_dir_name_accepted("houdini20.5", false));
    assert!(!pref_dir_name_accepted("houdini", false));
    assert!(!pref_dir_name_accepted("houdinix", false));
    assert!(pref_dir_name_accepted("20.5", true));
    assert!(!pref_dir_name_accepted("", true));
    let entries = vec![
        ("houdini19.5".to_owned(), true),
        ("houdini20.0".to_owned(), false),
        ("Documents".to_owned(), true),
        ("houdini20.5".to_owned(), true),
    ];
    assert_eq!(
        possible_user_pref_dirs("/home/u", &entries, false),
        vec!["/home/u/houdini19.5".to_owned(), "/home/u/houdini20.5".to_owned()]
    );
}
