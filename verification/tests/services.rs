use xamppify::credentials::{
    credential_blob, delete_mysql_credentials, get_mysql_credentials, mysql_target,
    save_mysql_credentials, wide, ReadOutcome, StoreOutcome, ERROR_NOT_FOUND,
};
use xamppify::service::{
    command_failure, parse_sc_query, remote_service_address, remote_status, sc_control_args,
    service_name, service_port, ServiceAction,
};
use xamppify::{ServiceState, ServiceType};

#[test]
fn service_names_and_ports() {
    assert_eq!(service_name(&ServiceType::Apache), "Apache2.4");
    assert_eq!(service_name(&ServiceType::MySQL), "mysql");
    assert_eq!(service_port(&ServiceType::FileZilla), 21);
    assert_eq!(remote_service_address("10.0.0.2", &ServiceType::MySQL), "10.0.0.2:3306");
}

#[test]
fn sc_arguments() {
    assert_eq!(
        sc_control_args(&ServiceType::Apache, ServiceAction::Start, Some("pc-01")),
        ["\\\\pc-01", "start", "Apache2.4"]
    );
    assert_eq!(sc_control_args(&ServiceType::MySQL, ServiceAction::Stop, None), ["stop", "mysql"]);
}

#[test]
fn reads_sc_query_output() {
    let out = "SERVICE_NAME: mysql\n        STATE              : 4  RUNNING\n        PID                : 4242\n";
    let status = parse_sc_query(out, &ServiceType::MySQL, 8080);
    assert_eq!(status.status, ServiceState::Running);
    assert_eq!(status.pid, Some(4242));
    assert_eq!(status.port, 3306);
    let apache = parse_sc_query("STATE : 1 STOPPED\n", &ServiceType::Apache, 8080);
    assert_eq!(apache.status, ServiceState::Stopped);
    assert_eq!(apache.port, 8080);
    assert_eq!(apache.pid, None);
    assert_eq!(parse_sc_query("STATE : 2 START_PENDING", &ServiceType::Apache, 80).status, ServiceState::Starting);
    assert_eq!(parse_sc_query("nothing", &ServiceType::Apache, 80).status, ServiceState::Error);
    assert_eq!(parse_sc_query("PID : x\nPID : 7\n", &ServiceType::Apache, 80).pid, None);
}

#[test]
fn failure_prefers_error_output() {
    assert_eq!(command_failure("  denied \n", "out"), "Service command failed: denied");
    assert_eq!(command_failure("  ", " out "), "Service command failed: out");
}

#[test]
fn remote_state_follows_connection() {
    assert_eq!(remote_status(&ServiceType::Apache, true).status, ServiceState::Running);
    assert_eq!(remote_status(&ServiceType::Apache, false).port, 80);
}

#[test]
fn credential_results() {
    assert_eq!(mysql_target(), "Xamppify/MySQL");
    assert_eq!(
        save_mysql_credentials(StoreOutcome::Unsupported),
        Err("Windows Credential Manager is only available on Windows".to_string())
    );
    assert_eq!(save_mysql_credentials(StoreOutcome::Done), Ok(()));
    assert_eq!(
        save_mysql_credentials(StoreOutcome::Failed(5)),
        Err("Failed to save credentials (error 5)".to_string())
    );
    assert_eq!(delete_mysql_credentials(StoreOutcome::Failed(ERROR_NOT_FOUND)), Ok(()));
    assert_eq!(
        delete_mysql_credentials(StoreOutcome::Failed(6)),
        Err("Failed to delete credentials (error 6)".to_string())
    );
    assert!(matches!(get_mysql_credentials(ReadOutcome::Failed(ERROR_NOT_FOUND)), Ok(None)));
    assert_eq!(
        get_mysql_credentials(ReadOutcome::Failed(87)).err(),
        Some("Failed to read credentials (error 87)".to_string())
    );
}

#[test]
fn saved_login_reads_back() {
    let user = "röot😀";
    let mut units = wide(user);
    assert_eq!(units.pop(), Some(0));
    assert_eq!(units, user.encode_utf16().collect::<Vec<u16>>());
    let blob = credential_blob("pässword");
    assert_eq!(blob.last(), Some(&0));
    let read = get_mysql_credentials(ReadOutcome::Found { user: Some(units), secret: Some(blob) })
        .unwrap()
        .unwrap();
    assert_eq!(read.user, user);
    assert_eq!(read.password, "pässword");
    let empty = get_mysql_credentials(ReadOutcome::Found { user: None, secret: None }).unwrap().unwrap();
    assert_eq!(empty.user, "");
    assert_eq!(empty.password, "");
}
