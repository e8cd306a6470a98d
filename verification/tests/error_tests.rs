use codewalker_cli::error::CliError;

#[test]
fn messages_without_payload() {
    assert_eq!(CliError::AlreadyRunning.message(), "CLI is already running");
    assert_eq!(CliError::NotRunning.message(), "CLI is not running");
    assert_eq!(CliError::NotReady.message(), "CLI is not ready");
    assert_eq!(CliError::Busy.message(), "CLI is busy processing");
}

#[test]
fn messages_with_payload() {
    assert_eq!(
        CliError::InvalidInstallation("Path is not a directory".to_string()).message(),
        "Invalid GTA V installation: Path is not a directory"
    );
    assert_eq!(
        CliError::PathNotFound("C:/x".to_string()).message(),
        "GTA V path not found at path: C:/x"
    );
    assert_eq!(
        CliError::ExecutableNotFound("C:/x".to_string()).message(),
        "GTA5.exe not found in GTA V path: C:/x"
    );
    assert_eq!(
        CliError::LockError("poisoned".to_string()).message(),
        "Lock acquisition failed: poisoned"
    );
    assert_eq!(CliError::CommandError("exit 1".to_string()).message(), "Command failed: exit 1");
    assert_eq!(CliError::CommandError(String::new()).message(), "Command failed: ");
}

#[test]
fn message_of_an_io_error_begins_with_its_head() {
    let inner = std::io::Error::new(std::io::ErrorKind::NotFound, "gone");
    let message = CliError::IoError(inner).message();
    assert_eq!(message, "IO error: gone");
}

#[test]
fn errors_print_for_debugging() {
    assert_eq!(format!("{:?}", CliError::Busy), "Busy");
    assert_eq!(format!("{:?}", CliError::PathNotFound("p".to_string())), "PathNotFound(\"p\")");
}
