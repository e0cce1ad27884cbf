use rosenpass_core::fd::claim_fd_finish;
use rosenpass_core::fd::claim_fd_step;
use rosenpass_core::fd::interpret_transfer_ret;
use rosenpass_core::fd::reassemble;
use rosenpass_core::fd::write_all_outcomes;
use rosenpass_core::fd::ClaimStep;
use rosenpass_core::fd::Errno;
use rosenpass_core::fd::FdError;
use rosenpass_core::fd::IntoStdioErr;
use rosenpass_core::fd::TransferStop;
use rosenpass_core::fd::EBADF;
use rosenpass_core::fd::EINTR;

#[test]
fn errno_round_trip() {
    let eacces = Errno::from_raw_os_error(13);
    assert_eq!(eacces.raw_os_error(), 13);
    assert!(!eacces.is_interrupted());
    let eintr = Errno::from_raw_os_error(EINTR);
    assert_eq!(eintr.raw_os_error(), EINTR);
    assert!(eintr.is_interrupted());
}

#[test]
fn negative_fd_is_rejected_before_any_syscall() {
    assert_eq!(claim_fd_step(-1), ClaimStep::Reject);
    assert_eq!(claim_fd_step(i32::MIN), ClaimStep::Reject);
    assert_eq!(claim_fd_step(0), ClaimStep::DupCloexec { fd: 0 });
    assert_eq!(claim_fd_step(3), ClaimStep::DupCloexec { fd: 3 });
}

#[test]
fn dup_outcomes_decide_adoption() {
    assert_eq!(claim_fd_finish(Ok(7)), Ok(7));
    let ebadf = Errno::from_raw_os_error(EBADF);
    assert_eq!(claim_fd_finish(Err(ebadf)), Err(FdError::InvalidFd));
    let emfile = Errno::from_raw_os_error(24);
    assert_eq!(claim_fd_finish(Err(emfile)), Err(FdError::OsIo(emfile)));
}

#[test]
fn transfer_returns_surface_the_errno() {
    let eintr = Errno::from_raw_os_error(EINTR);
    assert_eq!(interpret_transfer_ret(5, eintr), Ok(5));
    assert_eq!(interpret_transfer_ret(0, eintr), Ok(0));
    assert_eq!(interpret_transfer_ret(-1, eintr), Err(eintr));
}

#[test]
fn retry_loop_reassembles_an_interrupted_transfer() {
    let sent: Vec<u8> = b"hello".to_vec();
    let eintr = Errno::from_raw_os_error(EINTR);
    let outcomes: Vec<Result<usize, Errno>> = vec![Ok(2), Err(eintr), Ok(0), Ok(3)];
    let received = write_all_outcomes(&sent, &outcomes).unwrap();
    assert_eq!(received, sent);
}

#[test]
fn fatal_error_stops_the_transfer() {
    let sent: Vec<u8> = b"hello".to_vec();
    let epipe = Errno::from_raw_os_error(32);
    let outcomes: Vec<Result<usize, Errno>> = vec![Ok(2), Err(epipe)];
    assert_eq!(
        write_all_outcomes(&sent, &outcomes),
        Err(TransferStop::Os(epipe))
    );
}

#[test]
fn exhausted_run_is_reported() {
    let sent: Vec<u8> = b"hi".to_vec();
    let outcomes: Vec<Result<usize, Errno>> = vec![Ok(1)];
    assert_eq!(
        write_all_outcomes(&sent, &outcomes),
        Err(TransferStop::Exhausted)
    );
}

#[test]
fn short_reads_reassemble_to_the_sent_bytes() {
    let chunks: Vec<Vec<u8>> = vec![b"he".to_vec(), b"l".to_vec(), Vec::new(), b"lo".to_vec()];
    assert_eq!(reassemble(&chunks), b"hello".to_vec());
}

#[test]
fn descriptor_adoption_round_trip() {
    // adopting the read end of a pipe: a valid integer is duplicated, the
    // duplicate's identity replaces the ambient one
    assert_eq!(claim_fd_step(4), ClaimStep::DupCloexec { fd: 4 });
    assert_eq!(claim_fd_finish(Ok(9)), Ok(9));
    // "hello" crosses the pipe in short writes and short reads
    let sent: Vec<u8> = b"hello".to_vec();
    let outcomes: Vec<Result<usize, Errno>> = vec![Ok(3), Ok(2)];
    let pipe = write_all_outcomes(&sent, &outcomes).unwrap();
    let chunks: Vec<Vec<u8>> = vec![pipe[..2].to_vec(), pipe[2..].to_vec()];
    assert_eq!(reassemble(&chunks), sent);
}

#[test]
fn into_stdio_err_preserves_the_result() {
    let ok: Result<u32, Errno> = Ok(3);
    assert_eq!(ok.into_stdio_err(), Ok(3));
    let enoent = Errno::from_raw_os_error(2);
    let err: Result<u32, Errno> = Err(enoent);
    assert_eq!(err.into_stdio_err(), Err(enoent));
}
