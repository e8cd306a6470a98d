use codewalker_cli::error::CliError;
use codewalker_cli::path::{validate_gta_path, PathProbe, GAME_EXECUTABLE};
use codewalker_cli::session::{
    command_outcome, CliProcess, CLI_MODE_PIPED, CLI_MODE_VAR, CLI_PROGRAM, GTA_PATH_VAR,
};

fn installed() -> PathProbe {
    PathProbe { exists: true, is_dir: true, has_executable: true }
}

fn ready_session() -> CliProcess<u32> {
    let mut session = CliProcess::new(7u32);
    session.set_ready();
    session
}

#[test]
fn executable_name_is_fixed() {
    assert_eq!(GAME_EXECUTABLE, "GTA5.exe");
}

#[test]
fn a_valid_installation_is_returned_as_given() {
    let checked = validate_gta_path("C:/Games/GTA V".to_string(), &installed());
    assert!(matches!(checked, Ok(ref path) if path == "C:/Games/GTA V"));
}

#[test]
fn a_missing_path_is_not_found() {
    let probe = PathProbe { exists: false, is_dir: false, has_executable: false };
    let checked = validate_gta_path("/nowhere".to_string(), &probe);
    assert!(matches!(checked, Err(CliError::PathNotFound(ref path)) if path == "/nowhere"));
}

#[test]
fn a_missing_path_is_not_found_whatever_else_the_probe_says() {
    let probe = PathProbe { exists: false, is_dir: true, has_executable: true };
    let checked = validate_gta_path("/nowhere".to_string(), &probe);
    assert!(matches!(checked, Err(CliError::PathNotFound(ref path)) if path == "/nowhere"));
}

#[test]
fn a_file_in_place_of_the_directory_is_not_found() {
    let probe = PathProbe { exists: true, is_dir: false, has_executable: false };
    let checked = validate_gta_path("/some/file.txt".to_string(), &probe);
    assert!(matches!(checked, Err(CliError::PathNotFound(ref path)) if path == "/some/file.txt"));
}

#[test]
fn a_directory_without_the_executable_is_refused() {
    let probe = PathProbe { exists: true, is_dir: true, has_executable: false };
    let checked = validate_gta_path("/games/empty".to_string(), &probe);
    assert!(
        matches!(checked, Err(CliError::ExecutableNotFound(ref path)) if path == "/games/empty")
    );
}

#[test]
fn a_new_session_is_neither_ready_nor_busy() {
    let session = CliProcess::new(7u32);
    assert_eq!(session.command, Some(7));
    assert!(!session.ready);
    assert!(!session.processing_command);
    assert!(!session.is_ready());
}

#[test]
fn set_ready_changes_only_readiness() {
    let mut session = CliProcess::new(7u32);
    session.set_ready();
    assert!(session.is_ready());
    assert!(!session.processing_command);
    assert_eq!(session.command, Some(7));
    session.set_ready();
    assert!(session.is_ready());
}

#[test]
fn set_processing_changes_only_the_busy_flag() {
    let mut session = CliProcess::new(7u32);
    session.set_processing(true);
    assert!(session.processing_command);
    assert!(!session.ready);
    session.set_processing(false);
    assert!(!session.processing_command);
    assert_eq!(session.command, Some(7));
}

#[test]
fn start_asks_for_the_tool_in_piped_mode() {
    assert_eq!(CLI_PROGRAM, "CodeWalkerCli");
    assert_eq!(CLI_MODE_VAR, "CLIMODE");
    assert_eq!(CLI_MODE_PIPED, "PIPED");
    assert_eq!(GTA_PATH_VAR, "GTA_PATH");
    let request = CliProcess::<u32>::start("D:/GTA".to_string(), &installed()).unwrap();
    assert_eq!(request.program, "CodeWalkerCli");
    assert_eq!(
        request.env,
        vec![
            ("CLIMODE".to_string(), "PIPED".to_string()),
            ("GTA_PATH".to_string(), "D:/GTA".to_string()),
        ]
    );
}

#[test]
fn start_fails_as_validation_does() {
    let missing = PathProbe { exists: false, is_dir: false, has_executable: false };
    let request = CliProcess::<u32>::start("D:/GTA".to_string(), &missing);
    assert!(matches!(request, Err(CliError::PathNotFound(ref path)) if path == "D:/GTA"));
    let bare = PathProbe { exists: true, is_dir: true, has_executable: false };
    let request = CliProcess::<u32>::start("D:/GTA".to_string(), &bare);
    assert!(matches!(request, Err(CliError::ExecutableNotFound(ref path)) if path == "D:/GTA"));
}

#[test]
fn a_session_that_is_not_ready_takes_no_command() {
    let session = CliProcess::new(7u32);
    assert!(matches!(session.send_command("help"), Err(CliError::NotReady)));
}

#[test]
fn not_ready_is_reported_before_busy_and_before_a_lost_handle() {
    let session: CliProcess<u32> =
        CliProcess { command: None, ready: false, processing_command: true };
    assert!(matches!(session.send_command("help"), Err(CliError::NotReady)));
}

#[test]
fn a_busy_session_takes_no_command() {
    let mut session = ready_session();
    session.set_processing(true);
    assert!(matches!(session.send_command("help"), Err(CliError::Busy)));
}

#[test]
fn busy_is_reported_before_a_lost_handle() {
    let session: CliProcess<u32> = CliProcess { command: None, ready: true, processing_command: true };
    assert!(matches!(session.send_command("help"), Err(CliError::Busy)));
}

#[test]
fn a_session_without_handle_is_not_running() {
    let session: CliProcess<u32> =
        CliProcess { command: None, ready: true, processing_command: false };
    assert!(matches!(session.send_command("help"), Err(CliError::NotRunning)));
}

#[test]
fn an_accepted_command_is_written_with_a_line_break() {
    let session = ready_session();
    assert_eq!(session.send_command("exportxml a.ymap").unwrap(), "exportxml a.ymap\n");
    assert_eq!(session.send_command("").unwrap(), "\n");
    assert!(!session.processing_command);
}

#[test]
fn a_successful_write_makes_the_session_busy() {
    let mut session = ready_session();
    assert!(session.command_written(Ok(())).is_ok());
    assert!(session.processing_command);
    assert!(session.ready);
    assert_eq!(session.command, Some(7));
}

#[test]
fn a_failed_write_is_a_command_error_and_changes_nothing() {
    let mut session = ready_session();
    let sent = session.command_written(Err("broken pipe".to_string()));
    assert!(matches!(sent, Err(CliError::CommandError(ref reason)) if reason == "broken pipe"));
    assert!(!session.processing_command);
    assert!(session.ready);
    assert_eq!(session.command, Some(7));
}

#[test]
fn stop_hands_out_the_handle_once() {
    let mut session = ready_session();
    assert!(matches!(session.stop(), Ok(7)));
    assert_eq!(session.command, None);
    assert!(session.ready);
    assert!(matches!(session.stop(), Err(CliError::NotRunning)));
    assert_eq!(session.command, None);
}

#[test]
fn outcomes_of_outside_work_map_to_command_errors() {
    assert!(matches!(command_outcome::<u8>(Ok(3)), Ok(3)));
    let failed = command_outcome::<u8>(Err("no such process".to_string()));
    assert!(matches!(failed, Err(CliError::CommandError(ref reason)) if reason == "no such process"));
}
