use wsw::service::{
    classify_error, display_service_name, get_service_name, handle_start_error,
    handle_stop_error, install_error_message, state_from_code, status_label, status_rows,
    uninstall_error_message, wait_for_state_step, wrapper_service_rows, ServiceStateKind,
    ServiceStatus, WaitOutcome, WinErrorKind,
};

#[test]
fn bare_prefix_keeps_its_name() {
    assert_eq!(get_service_name("wsw"), String::from("wsw"));
    assert_eq!(get_service_name("t1"), String::from("wsw-t1"));
}

#[test]
fn prefix_round_trips_as_default() {
    assert_eq!(display_service_name(&get_service_name("wsw")), String::from("[default]"));
    assert_eq!(display_service_name(&get_service_name("t1")), String::from("t1"));
    assert_eq!(display_service_name("unrelated"), String::from("unrelated"));
}

#[test]
fn list_rows_keep_exactly_the_owned_services() {
    let entries = vec![
        (String::from("wsw-a"), 4u32),
        (String::from("Spooler"), 1u32),
        (String::from("wsw"), 1u32),
        (String::from("wsw-b"), 3u32),
    ];
    let rows = wrapper_service_rows(&entries);
    assert_eq!(
        rows,
        vec![
            (String::from("a"), String::from("Running")),
            (String::from("[default]"), String::from("Stopped")),
            (String::from("b"), String::from("StopPending")),
        ]
    );
}

#[test]
fn status_labels_are_the_closed_set() {
    let labels: Vec<String> = (0u32..9u32).map(|c| status_label(state_from_code(c))).collect();
    assert_eq!(
        labels,
        vec![
            String::from("Unknown"),
            String::from("Stopped"),
            String::from("StartPending"),
            String::from("StopPending"),
            String::from("Running"),
            String::from("ContinuePending"),
            String::from("PausePending"),
            String::from("Paused"),
            String::from("Unknown"),
        ]
    );
}

#[test]
fn error_codes_classify_distinctly() {
    assert_eq!(classify_error(5), WinErrorKind::AccessDenied);
    assert_eq!(classify_error(1056), WinErrorKind::ServiceAlreadyRunning);
    assert_eq!(classify_error(1060), WinErrorKind::ServiceDoesNotExist);
    assert_eq!(classify_error(1062), WinErrorKind::ServiceNotActive);
    assert_eq!(classify_error(1073), WinErrorKind::ServiceAlreadyExists);
    assert_eq!(classify_error(87), WinErrorKind::Other);
}

#[test]
fn access_denied_is_surfaced_with_the_exact_phrase() {
    let message = install_error_message(5, "t1");
    assert!(message.contains("Access denied"));
    assert!(handle_start_error(5, "t1").contains("Access denied"));
    assert!(handle_stop_error(5, "t1").contains("Access denied"));
    assert!(uninstall_error_message(5, "t1").contains("Access denied"));
}

#[test]
fn start_and_stop_errors_name_the_service() {
    assert_eq!(handle_start_error(1060, "t1"), String::from("Service 't1' is not installed."));
    assert_eq!(
        handle_start_error(1056, "t1"),
        String::from("Service 't1' is already running.")
    );
    assert_eq!(handle_stop_error(1062, "t1"), String::from("Service 't1' is already stopped."));
    assert_eq!(
        handle_start_error(87, "t1"),
        String::from("Failed to start service 't1' (OS error 87).")
    );
    assert_eq!(install_error_message(1073, "t1"), String::from("Service 't1' already exists."));
}

#[test]
fn wait_step_polls_until_target_or_timeout() {
    assert_eq!(
        wait_for_state_step(ServiceStateKind::Running, ServiceStateKind::Running, 3, 10),
        WaitOutcome::Reached
    );
    assert_eq!(
        wait_for_state_step(ServiceStateKind::StopPending, ServiceStateKind::Stopped, 11, 10),
        WaitOutcome::TimedOut
    );
    assert_eq!(
        wait_for_state_step(ServiceStateKind::StopPending, ServiceStateKind::Stopped, 10, 10),
        WaitOutcome::Poll
    );
}

#[test]
fn status_rows_show_pid_and_exit_code() {
    let running = ServiceStatus {
        current_state: ServiceStateKind::Running,
        exit_code: 0,
        process_id: Some(4242),
    };
    let rows = status_rows("wsw-t1", &running, &Some(String::from("ping -t 127.0.0.1")));
    assert_eq!(
        rows,
        vec![
            (String::from("Service Name"), String::from("wsw-t1")),
            (String::from("Status"), String::from("Running")),
            (String::from("PID"), String::from("4242")),
            (String::from("Command"), String::from("ping -t 127.0.0.1")),
            (String::from("Exit Code"), String::from("N/A")),
        ]
    );

    let stopped = ServiceStatus {
        current_state: ServiceStateKind::Stopped,
        exit_code: 1,
        process_id: None,
    };
    let rows = status_rows("wsw-t1", &stopped, &None);
    assert_eq!(
        rows,
        vec![
            (String::from("Service Name"), String::from("wsw-t1")),
            (String::from("Status"), String::from("Stopped")),
            (String::from("PID"), String::from("Not running")),
            (String::from("Exit Code"), String::from("1")),
        ]
    );
}

#[test]
fn dangling_prefix_displays_an_empty_remainder() {
    assert_eq!(display_service_name("wsw-"), String::from(""));
}
