//! Startup sequencing: the decisions the process entry point takes before
//! handing off to the daemon — the effective log level, secret-memory
//! policy installation with its platform fallback, and the exit status.
//!
//! The surrounding process performs the steps in a fixed order: parse the
//! arguments, install the secret-memory policy, initialize the logger, then
//! invoke the daemon entry; the policy must precede any secret allocation
//! and the logger any step whose failure ought to be observable.

use crate::secret_alloc::SecretAllocCell;
use crate::secret_alloc::SecretAllocType;
use crate::secret_alloc::set_secret_alloc_type;
use vstd::prelude::*;
use vstd::string::StrSliceExecFns;

verus! {

/// Verbosity levels of the logger, from most to least chatty.
#[derive(Debug, Clone, Copy, PartialEq, Eq, Structural)]
pub enum LogLevel {
    Trace,
    Debug,
    Info,
    Warn,
    Error,
}

/// The effective log level: a CLI-supplied level overrides the environment
/// baseline, which in turn overrides the default of `Info`.
pub fn effective_log_level(env_level: Option<LogLevel>, cli_level: Option<LogLevel>) -> (r:
    LogLevel)
    ensures
        r == (match cli_level {
            Some(cli) => cli,
            None => match env_level {
                Some(env) => env,
                None => LogLevel::Info,
            },
        }),
{
    match cli_level {
        Some(cli) => cli,
        None => match env_level {
            Some(env) => env,
            None => LogLevel::Info,
        },
    }
}

/// The log level a lowercase level name denotes, if any.
pub open spec fn spec_parse_log_level(s: Seq<char>) -> Option<LogLevel> {
    if s == seq!['t', 'r', 'a', 'c', 'e'] {
        Some(LogLevel::Trace)
    } else if s == seq!['d', 'e', 'b', 'u', 'g'] {
        Some(LogLevel::Debug)
    } else if s == seq!['i', 'n', 'f', 'o'] {
        Some(LogLevel::Info)
    } else if s == seq!['w', 'a', 'r', 'n'] {
        Some(LogLevel::Warn)
    } else if s == seq!['e', 'r', 'r', 'o', 'r'] {
        Some(LogLevel::Error)
    } else {
        None
    }
}

/// Parses a log-level name as the CLI accepts it: one of `trace`, `debug`,
/// `info`, `warn`, `error`.
pub fn parse_log_level(name: &str) -> (r: Option<LogLevel>)
    ensures
        r == spec_parse_log_level(name@),
{
    let n = name.unicode_len();
    if n == 5 {
        if name.get_char(0) == 't' && name.get_char(1) == 'r' && name.get_char(2) == 'a'
            && name.get_char(3) == 'c' && name.get_char(4) == 'e' {
            proof {
                assert(name@ =~= seq!['t', 'r', 'a', 'c', 'e']);
            }
            return Some(LogLevel::Trace);
        }
        if name.get_char(0) == 'd' && name.get_char(1) == 'e' && name.get_char(2) == 'b'
            && name.get_char(3) == 'u' && name.get_char(4) == 'g' {
            proof {
                assert(name@ =~= seq!['d', 'e', 'b', 'u', 'g']);
            }
            return Some(LogLevel::Debug);
        }
        if name.get_char(0) == 'e' && name.get_char(1) == 'r' && name.get_char(2) == 'r'
            && name.get_char(3) == 'o' && name.get_char(4) == 'r' {
            proof {
                assert(name@ =~= seq!['e', 'r', 'r', 'o', 'r']);
            }
            return Some(LogLevel::Error);
        }
        return None;
    }
    if n == 4 {
        if name.get_char(0) == 'i' && name.get_char(1) == 'n' && name.get_char(2) == 'f'
            && name.get_char(3) == 'o' {
            proof {
                assert(name@ =~= seq!['i', 'n', 'f', 'o']);
            }
            return Some(LogLevel::Info);
        }
        if name.get_char(0) == 'w' && name.get_char(1) == 'a' && name.get_char(2) == 'r'
            && name.get_char(3) == 'n' {
            proof {
                assert(name@ =~= seq!['w', 'a', 'r', 'n']);
            }
            return Some(LogLevel::Warn);
        }
        return None;
    }
    None
}

/// What the daemon entry reports when it could not run to clean completion.
#[derive(Debug, Clone, PartialEq, Eq)]
pub enum DaemonError {
    /// Startup could not complete; `cause` carries the human-readable
    /// diagnostic chain.
    StartupFailed { cause: String },
}

impl DaemonError {
    /// The human-readable cause.
    pub closed spec fn cause_spec(&self) -> Seq<char> {
        match self {
            DaemonError::StartupFailed { cause } => cause@,
        }
    }
}

/// The process exit status for a daemon report: 0 after a clean run, 1
/// when the daemon reported an error.
pub fn exit_code_for(outcome: &Result<(), DaemonError>) -> (code: i32)
    ensures
        outcome is Ok ==> code == 0,
        outcome is Err ==> code == 1,
{
    match outcome {
        Ok(_) => 0,
        Err(_) => 1,
    }
}

/// The single error line logged before a failing exit: exactly the failure
/// cause the daemon reported.
pub fn error_line(e: &DaemonError) -> (line: String)
    ensures
        line@ == e.cause_spec(),
{
    match e {
        DaemonError::StartupFailed { cause } => cause.clone(),
    }
}

/// Installs the startup secret-memory policy on a still-unset selector: try
/// the secret-memfd variant when the experimental feature asks for it and
/// fall back to the universally available malloc-backed variant where the
/// platform refuses it; without the feature install the malloc-backed
/// variant directly. Returns the variant that ended up installed.
pub fn select_startup_policy(cell: &mut SecretAllocCell, prefer_memfd: bool) -> (r:
    SecretAllocType)
    requires
        old(cell).installed() is None,
    ensures
        final(cell).installed() == Some(r),
        final(cell).memfd_supported() == old(cell).memfd_supported(),
        r == (if prefer_memfd && old(cell).memfd_supported() {
            SecretAllocType::MemsecMemfdSec
        } else {
            SecretAllocType::MemsecMalloc
        }),
{
    if prefer_memfd {
        match set_secret_alloc_type(cell, SecretAllocType::MemsecMemfdSec) {
            Ok(_) => SecretAllocType::MemsecMemfdSec,
            Err(_) => {
                let _ = set_secret_alloc_type(cell, SecretAllocType::MemsecMalloc);
                SecretAllocType::MemsecMalloc
            },
        }
    } else {
        let _ = set_secret_alloc_type(cell, SecretAllocType::MemsecMalloc);
        SecretAllocType::MemsecMalloc
    }
}

} // verus!
