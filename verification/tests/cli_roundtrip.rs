use wsw::cli::{encode_launch_arguments, parse_run_command, LaunchSpec, LogRotation};
use wsw::cmdline::{tokenize, wrapped_command_of};
use wsw::digits::{parse_usize, u64_to_string};
use wsw::logs::{choose_log_dir, get_log_filename_prefix};

#[test]
fn rotation_keywords_round_trip() {
    assert_eq!(LogRotation::Minutely.to_string(), String::from("minutely"));
    assert_eq!(LogRotation::Never.to_string(), String::from("never"));
    assert_eq!(LogRotation::from_str("MINUTELY"), Ok(LogRotation::Minutely));
    assert_eq!(LogRotation::from_str("daily"), Ok(LogRotation::Daily));
    assert_eq!(
        LogRotation::from_str("weekly"),
        Err(String::from("Invalid log rotation: weekly"))
    );
}

#[test]
fn launch_arguments_encode_every_field() {
    let launch = LaunchSpec {
        command: String::from("ping -t 127.0.0.1"),
        working_dir: Some(String::from("C:\\work")),
        disable_logs: true,
        log_rotation: LogRotation::Minutely,
        max_log_files: 3,
    };
    let args = encode_launch_arguments("t1", &launch);
    assert_eq!(
        args,
        vec![
            String::from("run"),
            String::from("--cmd"),
            String::from("ping -t 127.0.0.1"),
            String::from("--name"),
            String::from("t1"),
            String::from("--working-dir"),
            String::from("C:\\work"),
            String::from("--disable-logs"),
            String::from("--log-rotation"),
            String::from("minutely"),
            String::from("--max-log-files"),
            String::from("3"),
        ]
    );
}

#[test]
fn registered_arguments_parse_back_to_the_same_launch() {
    let launch = LaunchSpec {
        command: String::from("ping -t 127.0.0.1"),
        working_dir: Some(String::from("C:\\work")),
        disable_logs: true,
        log_rotation: LogRotation::Minutely,
        max_log_files: 3,
    };
    let args = encode_launch_arguments("t1", &launch);
    let parsed = parse_run_command(&args).unwrap();
    assert_eq!(parsed.name, String::from("t1"));
    assert_eq!(parsed.launch.command, launch.command);
    assert_eq!(parsed.launch.working_dir, launch.working_dir);
    assert_eq!(parsed.launch.disable_logs, launch.disable_logs);
    assert_eq!(parsed.launch.log_rotation, launch.log_rotation);
    assert_eq!(parsed.launch.max_log_files, launch.max_log_files);
}

#[test]
fn run_defaults_match_the_install_defaults() {
    let args = vec![
        String::from("run"),
        String::from("--cmd"),
        String::from("ping localhost"),
    ];
    let parsed = parse_run_command(&args).unwrap();
    assert_eq!(parsed.name, String::from("wsw"));
    assert_eq!(parsed.launch.working_dir, None);
    assert!(!parsed.launch.disable_logs);
    assert_eq!(parsed.launch.log_rotation, LogRotation::Daily);
    assert_eq!(parsed.launch.max_log_files, 30);
}

#[test]
fn run_without_cmd_is_rejected() {
    let args = vec![String::from("run"), String::from("--name"), String::from("t1")];
    assert!(parse_run_command(&args).is_none());
    let not_run = vec![String::from("list")];
    assert!(parse_run_command(&not_run).is_none());
    let unknown_flag = vec![
        String::from("run"),
        String::from("--cmd"),
        String::from("x"),
        String::from("--bogus"),
    ];
    assert!(parse_run_command(&unknown_flag).is_none());
}

#[test]
fn decimal_strings_round_trip() {
    assert_eq!(u64_to_string(0), String::from("0"));
    assert_eq!(u64_to_string(1056), String::from("1056"));
    assert_eq!(parse_usize("42"), Some(42));
    assert_eq!(parse_usize(""), None);
    assert_eq!(parse_usize("12a"), None);
    assert_eq!(parse_usize("99999999999999999999999999"), None);
}

#[test]
fn stored_command_line_splits_into_tokens() {
    let line = r#"C:\wsw.exe run --cmd "ping -t 127.0.0.1" --name t1"#;
    let tokens = tokenize(line);
    assert_eq!(
        tokens,
        vec![
            String::from(r#"C:\wsw.exe"#),
            String::from("run"),
            String::from("--cmd"),
            String::from("ping -t 127.0.0.1"),
            String::from("--name"),
            String::from("t1"),
        ]
    );
}

#[test]
fn wrapped_command_is_read_from_the_stored_line() {
    let line = r#"C:\wsw.exe run --cmd "ping -t 127.0.0.1" --name t1"#;
    assert_eq!(wrapped_command_of(line), Some(String::from("ping -t 127.0.0.1")));
    assert_eq!(wrapped_command_of(r#"C:\wsw.exe run --name t1"#), None);
}

#[test]
fn log_paths_follow_the_directory_ladder() {
    assert_eq!(get_log_filename_prefix("wsw-t1"), String::from("wsw-t1.log"));
    assert_eq!(
        choose_log_dir(&Some(String::from("C:\\ProgramData")), &None),
        String::from("C:\\ProgramData\\wsw\\logs")
    );
    assert_eq!(
        choose_log_dir(&None, &Some(String::from("C:\\Tools"))),
        String::from("C:\\Tools\\logs")
    );
    assert_eq!(choose_log_dir(&None, &None), String::from("logs"));
}

#[test]
fn unclosed_quote_takes_the_rest_of_the_line() {
    let tokens = tokenize(r#"run --cmd "ping -t"#);
    assert_eq!(
        tokens,
        vec![String::from("run"), String::from("--cmd"), String::from("ping -t")]
    );
}

#[test]
fn cmd_flag_without_a_value_yields_nothing() {
    assert_eq!(wrapped_command_of("C:\\wsw.exe run --cmd"), None);
    assert_eq!(wrapped_command_of(""), None);
}
