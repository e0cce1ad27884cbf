use rosenpass_core::secret_alloc::SecretAllocCell;
use rosenpass_core::secret_alloc::SecretAllocType;
use rosenpass_core::startup::effective_log_level;
use rosenpass_core::startup::error_line;
use rosenpass_core::startup::exit_code_for;
use rosenpass_core::startup::parse_log_level;
use rosenpass_core::startup::select_startup_policy;
use rosenpass_core::startup::DaemonError;
use rosenpass_core::startup::LogLevel;

#[test]
fn default_startup_uses_info_and_malloc() {
    let mut cell = SecretAllocCell::new(true);
    let policy = select_startup_policy(&mut cell, false);
    assert_eq!(policy, SecretAllocType::MemsecMalloc);
    assert_eq!(cell.get(), Some(SecretAllocType::MemsecMalloc));
    let level = effective_log_level(Some(LogLevel::Info), None);
    assert_eq!(level, LogLevel::Info);
    // the daemon entry runs once and returns cleanly: the process exits 0
    assert_eq!(exit_code_for(&Ok(())), 0);
}

#[test]
fn cli_level_overrides_environment() {
    let level = effective_log_level(Some(LogLevel::Warn), Some(LogLevel::Debug));
    assert_eq!(level, LogLevel::Debug);
}

#[test]
fn absent_levels_fall_back_to_info() {
    assert_eq!(effective_log_level(None, None), LogLevel::Info);
    assert_eq!(
        effective_log_level(Some(LogLevel::Warn), None),
        LogLevel::Warn
    );
}

#[test]
fn level_names_parse() {
    assert_eq!(parse_log_level("trace"), Some(LogLevel::Trace));
    assert_eq!(parse_log_level("debug"), Some(LogLevel::Debug));
    assert_eq!(parse_log_level("info"), Some(LogLevel::Info));
    assert_eq!(parse_log_level("warn"), Some(LogLevel::Warn));
    assert_eq!(parse_log_level("error"), Some(LogLevel::Error));
    assert_eq!(parse_log_level("verbose"), None);
    assert_eq!(parse_log_level("warne"), None);
    assert_eq!(parse_log_level(""), None);
}

#[test]
fn unsupported_memfd_falls_back_to_malloc() {
    let mut cell = SecretAllocCell::new(false);
    let policy = select_startup_policy(&mut cell, true);
    assert_eq!(policy, SecretAllocType::MemsecMalloc);
    assert_eq!(cell.get(), Some(SecretAllocType::MemsecMalloc));
}

#[test]
fn supported_memfd_is_preferred() {
    let mut cell = SecretAllocCell::new(true);
    let policy = select_startup_policy(&mut cell, true);
    assert_eq!(policy, SecretAllocType::MemsecMemfdSec);
    assert_eq!(cell.get(), Some(SecretAllocType::MemsecMemfdSec));
}

#[test]
fn daemon_error_exits_one_with_its_cause() {
    let outcome: Result<(), DaemonError> = Err(DaemonError::StartupFailed {
        cause: String::from("denied"),
    });
    assert_eq!(exit_code_for(&outcome), 1);
    match outcome {
        Err(e) => {
            let line = error_line(&e);
            assert!(line.contains("denied"));
        }
        Ok(()) => unreachable!(),
    }
}
