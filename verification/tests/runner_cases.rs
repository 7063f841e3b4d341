use wsw::runner::{
    extract_executable, find_working_dir, parent_dir, resolve_with_lookup, spawn_plan,
    SpawnPlanError,
};

#[test]
fn test_extract_executable_with_quoted_path() {
    let command = r#""C:\Program Files\SomeApp\app.exe" --arg1 --arg2"#;
    let result = extract_executable(command);
    assert_eq!(result, Some(String::from(r#"C:\Program Files\SomeApp\app.exe"#)));
}

#[test]
fn test_extract_executable_with_unquoted_path() {
    let command = r#"C:\SomeApp\app.exe --arg1 --arg2"#;
    let result = extract_executable(command);
    assert_eq!(result, Some(String::from(r#"C:\SomeApp\app.exe"#)));
}

#[test]
fn test_extract_executable_with_no_arguments() {
    let command = r#"C:\SomeApp\app.exe"#;
    let result = extract_executable(command);
    assert_eq!(result, Some(String::from(r#"C:\SomeApp\app.exe"#)));
}

#[test]
fn test_extract_executable_with_empty_string() {
    let command = r#""#;
    let result = extract_executable(command);
    assert_eq!(result, None);
}

#[test]
fn test_find_working_dir_with_provided_working_dir() {
    let cmdline = r#"C:\SomeApp\app.exe --arg1"#;
    let working_dir = Some(String::from(r#"C:\CustomDir"#));
    let result = find_working_dir(cmdline, working_dir);
    assert_eq!(result, String::from(r#"C:\CustomDir"#));
}

#[test]
fn test_find_working_dir_with_executable_path() {
    let cmdline = r#"C:\SomeApp\app.exe --arg1"#;
    let result = find_working_dir(cmdline, None);
    assert_eq!(result, String::from(r#"C:\SomeApp"#));
}

#[test]
fn test_find_working_dir_with_empty_command() {
    let cmdline = r#""#;
    let result = find_working_dir(cmdline, None);
    assert_eq!(result, String::from(r#"."#));
}

#[test]
fn quoted_path_resolves_to_its_parent() {
    let cmdline = r#""C:\Some App\tool.exe" -a 1"#;
    let result = find_working_dir(cmdline, None);
    assert_eq!(result, String::from(r#"C:\Some App"#));
}

#[test]
fn empty_provided_working_dir_falls_back_to_command_line() {
    let cmdline = r#"C:\SomeApp\app.exe --arg1"#;
    let result = find_working_dir(cmdline, Some(String::new()));
    assert_eq!(result, String::from(r#"C:\SomeApp"#));
}

#[test]
fn parent_dir_of_bare_name_is_empty() {
    assert_eq!(parent_dir("app.exe"), String::new());
    assert_eq!(parent_dir(r#"C:\SomeApp\app.exe"#), String::from(r#"C:\SomeApp"#));
    assert_eq!(parent_dir("a/b/c.exe"), String::from("a/b"));
}

#[test]
fn spawn_plan_runs_the_shell_with_the_whole_command() {
    let plan = spawn_plan("ping -t 127.0.0.1", None, false).unwrap();
    assert_eq!(plan.program, "powershell.exe");
    assert_eq!(plan.args, vec![String::from("-Command"), String::from("ping -t 127.0.0.1")]);
    assert!(plan.capture_output);
}

#[test]
fn spawn_plan_rejects_a_blank_command() {
    let result = spawn_plan("   ", None, false);
    assert!(matches!(result, Err(SpawnPlanError::NotFound)));
}

#[test]
fn spawn_plan_honors_disable_logs() {
    let plan = spawn_plan(r#"C:\SomeApp\app.exe"#, None, true).unwrap();
    assert!(!plan.capture_output);
    assert_eq!(plan.working_dir, String::from(r#"C:\SomeApp"#));
}

#[test]
fn path_lookup_answer_decides_the_bare_name_case() {
    assert_eq!(
        resolve_with_lookup("app.exe --arg1", &Some(String::from(r#"C:\bin\app.exe"#))),
        String::from(r#"C:\bin"#)
    );
    assert_eq!(resolve_with_lookup("app.exe --arg1", &None), String::from("."));
    // A token with its own parent ignores the lookup answer entirely.
    assert_eq!(
        resolve_with_lookup(r#"C:\SomeApp\app.exe"#, &Some(String::from(r#"C:\bin\app.exe"#))),
        String::from(r#"C:\SomeApp"#)
    );
}
