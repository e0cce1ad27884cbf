//! Adoption of externally supplied file descriptors and the byte-transfer
//! discipline of the unbuffered descriptor adapter.
//!
//! The system calls themselves (duplicate, close, read, write) live outside
//! this crate; here stand the decisions around them: which descriptor
//! integers are rejected outright, how a kernel report is interpreted, and
//! how a retry loop reassembles short and interrupted transfers without
//! losing or duplicating a byte.

use vstd::prelude::*;

verus! {

/// The "interrupted system call" error number, as Linux numbers it.
pub const EINTR: i32 = 4;

/// The "bad file descriptor" error number, as Linux numbers it.
pub const EBADF: i32 = 9;

/// A nonzero kernel error code, kept in the negated form the low-level I/O
/// layer stores it in: error number `e` (1 ..= 4095) is held as the 16-bit
/// value `0x10000 - e`.
#[derive(Debug, Clone, Copy, PartialEq, Eq, Hash, Structural)]
pub struct Errno {
    raw: u16,
}

impl Errno {
    /// Valid encodings: the negated form of an error number in 1 ..= 4095.
    pub closed spec fn wf(&self) -> bool {
        0xf001 <= self.raw
    }

    /// The positive OS error number this value encodes.
    pub closed spec fn code(&self) -> int {
        0x10000 - self.raw
    }

    /// Encodes the OS error number `e`.
    pub fn from_raw_os_error(e: i32) -> (r: Errno)
        requires
            1 <= e <= 4095,
        ensures
            r.wf(),
            r.code() == e,
    {
        Errno { raw: (0x10000i64 - e as i64) as u16 }
    }

    /// The positive OS error number.
    pub fn raw_os_error(&self) -> (e: i32)
        requires
            self.wf(),
        ensures
            e == self.code(),
            1 <= e <= 4095,
    {
        (0x10000i64 - self.raw as i64) as i32
    }

    /// Whether this is the "interrupted system call" error.
    pub fn is_interrupted(&self) -> (r: bool)
        requires
            self.wf(),
        ensures
            r == (self.code() == EINTR as int),
    {
        self.raw_os_error() == EINTR
    }
}

/// Failures of descriptor adoption and of adapter I/O.
#[derive(Debug, Clone, Copy, PartialEq, Eq, Structural)]
pub enum FdError {
    /// The supplied integer is negative or names no open descriptor.
    InvalidFd,
    /// The kernel reported an error; the originating errno is preserved.
    OsIo(Errno),
}

/// First step of adopting an externally supplied raw descriptor.
#[derive(Debug, Clone, Copy, PartialEq, Eq, Structural)]
pub enum ClaimStep {
    /// The integer can never name an open descriptor; reject with
    /// `InvalidFd` before any system call.
    Reject,
    /// Duplicate `fd` with close-on-exec and report the outcome back.
    DupCloexec { fd: i32 },
}

/// Decides how adoption of `fd` starts: a negative integer is rejected
/// outright, any other is duplicated with close-on-exec so that the ambient
/// identity can be severed afterwards.
pub fn claim_fd_step(fd: i32) -> (r: ClaimStep)
    ensures
        fd < 0 ==> r == ClaimStep::Reject,
        fd >= 0 ==> r == (ClaimStep::DupCloexec { fd }),
{
    if fd < 0 {
        ClaimStep::Reject
    } else {
        ClaimStep::DupCloexec { fd }
    }
}

/// Decides how adoption ends from the duplication outcome: success hands
/// out the duplicate's identity (the caller must then close the original to
/// sever its ambient identity); a kernel report of "bad file descriptor"
/// means the supplied integer named nothing open, and every other kernel
/// error is surfaced with its errno preserved.
pub fn claim_fd_finish(dup_outcome: Result<i32, Errno>) -> (r: Result<i32, FdError>)
    requires
        dup_outcome matches Err(e) ==> e.wf(),
    ensures
        dup_outcome matches Ok(new_fd) ==> r == Ok::<i32, FdError>(new_fd),
        dup_outcome matches Err(e) ==> r == (
        if e.code() == EBADF as int {
            Err::<i32, FdError>(FdError::InvalidFd)
        } else {
            Err::<i32, FdError>(FdError::OsIo(e))
        }),
{
    match dup_outcome {
        Ok(new_fd) => Ok(new_fd),
        Err(e) => {
            if e.raw_os_error() == EBADF {
                Err(FdError::InvalidFd)
            } else {
                Err(FdError::OsIo(e))
            }
        },
    }
}

/// Interprets the raw return of a single `read` or `write` system call: a
/// negative return means the kernel reported the accompanying errno, any
/// other return is the number of bytes transferred (0 is end-of-stream for a
/// read). Interruption (EINTR) is surfaced like every other error, never
/// retried here.
pub fn interpret_transfer_ret(ret: isize, errno: Errno) -> (r: Result<usize, Errno>)
    ensures
        ret >= 0 ==> r == Ok::<usize, Errno>(ret as usize),
        ret < 0 ==> r == Err::<usize, Errno>(errno),
{
    if ret < 0 {
        Err(errno)
    } else {
        Ok(ret as usize)
    }
}

/// Why a write-to-completion retry run stopped early.
#[derive(Debug, Clone, Copy, PartialEq, Eq, Structural)]
pub enum TransferStop {
    /// The kernel failed a call with this error (never EINTR, which is
    /// retried).
    Os(Errno),
    /// The recorded run ended before the buffer was fully delivered.
    Exhausted,
}

/// A recorded run of transfer outcomes is faithful to the kernel when no
/// call reports more bytes accepted than were still outstanding.
pub open spec fn wf_outcomes(len: int, offset: int, outcomes: Seq<Result<usize, Errno>>) -> bool
    decreases outcomes.len(),
{
    if outcomes.len() == 0 {
        true
    } else {
        match outcomes[0] {
            Ok(n) => offset + n <= len && wf_outcomes(len, offset + n, outcomes.skip(1)),
            Err(_) => wf_outcomes(len, offset, outcomes.skip(1)),
        }
    }
}

/// Every kernel error in the run carries a valid errno encoding.
pub open spec fn wf_errnos(outcomes: Seq<Result<usize, Errno>>) -> bool {
    forall|j: int|
        0 <= j < outcomes.len() ==> ((#[trigger] outcomes[j]) matches Err(e) ==> e.wf())
}

/// What the write-to-completion retry discipline delivers when it runs the
/// recorded outcomes against `buf` from `offset` on: an accepted count moves
/// that many of the next outstanding bytes into the sink, an interrupted
/// call is retried at the same offset, any other error stops the run, and a
/// run that ends with bytes still outstanding is exhausted.
pub open spec fn spec_write_run(
    buf: Seq<u8>,
    offset: int,
    outcomes: Seq<Result<usize, Errno>>,
) -> Result<Seq<u8>, TransferStop>
    decreases outcomes.len(),
{
    if offset >= buf.len() {
        Ok(Seq::empty())
    } else if outcomes.len() == 0 {
        Err(TransferStop::Exhausted)
    } else {
        match outcomes[0] {
            Ok(n) => match spec_write_run(buf, offset + n, outcomes.skip(1)) {
                Ok(rest) => Ok(buf.subrange(offset, offset + n) + rest),
                Err(stop) => Err(stop),
            },
            Err(e) => if e.code() == EINTR as int {
                spec_write_run(buf, offset, outcomes.skip(1))
            } else {
                Err(TransferStop::Os(e))
            },
        }
    }
}

/// Already-delivered bytes prefixed onto the rest of a run.
pub open spec fn prepend_write_run(
    p: Seq<u8>,
    r: Result<Seq<u8>, TransferStop>,
) -> Result<Seq<u8>, TransferStop> {
    match r {
        Ok(v) => Ok(p + v),
        Err(stop) => Err(stop),
    }
}

/// Round-trip law: whenever the retry discipline reports completion, the
/// sink received exactly the outstanding bytes — short writes and
/// interruptions lose nothing and duplicate nothing.
pub proof fn lemma_write_run_complete(
    buf: Seq<u8>,
    offset: int,
    outcomes: Seq<Result<usize, Errno>>,
)
    requires
        0 <= offset <= buf.len(),
        wf_outcomes(buf.len() as int, offset, outcomes),
    ensures
        spec_write_run(buf, offset, outcomes) matches Ok(v) ==> v == buf.subrange(
            offset,
            buf.len() as int,
        ),
    decreases outcomes.len(),
{
    if offset >= buf.len() {
        assert(buf.subrange(offset, buf.len() as int) =~= Seq::<u8>::empty());
    } else if outcomes.len() > 0 {
        match outcomes[0] {
            Ok(n) => {
                lemma_write_run_complete(buf, offset + n, outcomes.skip(1));
                match spec_write_run(buf, offset + n, outcomes.skip(1)) {
                    Ok(rest) => {
                        assert(buf.subrange(offset, offset + n) + buf.subrange(
                            offset + n,
                            buf.len() as int,
                        ) =~= buf.subrange(offset, buf.len() as int));
                    },
                    Err(_) => {},
                }
            },
            Err(e) => {
                if e.code() == EINTR as int {
                    lemma_write_run_complete(buf, offset, outcomes.skip(1));
                }
            },
        }
    }
}

/// EINTR transparency: an interrupted call moves no bytes and the run
/// continues exactly where it stood, so wrapping retries neither lose nor
/// duplicate data.
pub proof fn lemma_interrupt_is_transparent(
    buf: Seq<u8>,
    offset: int,
    e: Errno,
    rest: Seq<Result<usize, Errno>>,
)
    requires
        e.code() == EINTR as int,
    ensures
        spec_write_run(buf, offset, seq![Err::<usize, Errno>(e)] + rest) == spec_write_run(
            buf,
            offset,
            rest,
        ),
{
    let run = seq![Err::<usize, Errno>(e)] + rest;
    assert(run[0] == Err::<usize, Errno>(e));
    assert(run.skip(1) =~= rest);
}

/// Runs the write-to-completion retry discipline over a recorded run of
/// system-call outcomes and collects the bytes the sink receives, in order.
///
/// `Ok(n)` stands for a call in which the kernel accepted the next `n`
/// outstanding bytes, `Err(e)` for one that moved nothing. An interrupted
/// call is retried at the same offset; any other error stops the transfer.
/// On completion the sink holds exactly the buffer.
pub fn write_all_outcomes(buf: &[u8], outcomes: &Vec<Result<usize, Errno>>) -> (r: Result<
    Vec<u8>,
    TransferStop,
>)
    requires
        wf_outcomes(buf@.len() as int, 0, outcomes@),
        wf_errnos(outcomes@),
    ensures
        r matches Ok(v) ==> Ok::<Seq<u8>, TransferStop>(v@) == spec_write_run(buf@, 0, outcomes@)
            && v@ == buf@,
        r matches Err(stop) ==> Err::<Seq<u8>, TransferStop>(stop) == spec_write_run(
            buf@,
            0,
            outcomes@,
        ),
{
    let blen: usize = buf.len();
    let mut received: Vec<u8> = Vec::new();
    let mut offset: usize = 0;
    let mut i: usize = 0;
    proof {
        assert(outcomes@.skip(0) =~= outcomes@);
    }
    while offset < blen
        invariant
            buf@.len() == blen,
            offset <= blen,
            i <= outcomes@.len(),
            received@ == buf@.subrange(0, offset as int),
            wf_outcomes(buf@.len() as int, offset as int, outcomes@.skip(i as int)),
            wf_errnos(outcomes@),
            spec_write_run(buf@, 0, outcomes@) == prepend_write_run(
                received@,
                spec_write_run(buf@, offset as int, outcomes@.skip(i as int)),
            ),
        decreases outcomes@.len() - i,
    {
        let ghost pre_received = received@;
        let ghost pre_offset = offset as int;
        if i >= outcomes.len() {
            proof {
                assert(outcomes@.skip(i as int) =~= Seq::<Result<usize, Errno>>::empty());
            }
            return Err(TransferStop::Exhausted);
        }
        proof {
            assert(outcomes@.skip(i as int)[0] == outcomes@[i as int]);
            assert(outcomes@.skip(i as int).skip(1) =~= outcomes@.skip(i as int + 1));
        }
        match outcomes[i] {
            Ok(n) => {
                let mut k: usize = 0;
                while k < n
                    invariant
                        buf@.len() == blen,
                        k <= n,
                        pre_offset == offset as int,
                        pre_offset + n <= blen,
                        received@ == buf@.subrange(0, pre_offset + k as int),
                    decreases n - k,
                {
                    received.push(buf[offset + k]);
                    proof {
                        assert(buf@.subrange(0, pre_offset + k as int).push(
                            buf@[pre_offset + k as int],
                        ) =~= buf@.subrange(0, pre_offset + k as int + 1));
                    }
                    k += 1;
                }
                offset += n;
                proof {
                    let ghost chunk = buf@.subrange(pre_offset, pre_offset + n as int);
                    assert(received@ =~= pre_received + chunk);
                    match spec_write_run(buf@, pre_offset + n, outcomes@.skip(i as int + 1)) {
                        Ok(rest) => {
                            assert((pre_received + chunk) + rest =~= pre_received + (chunk
                                + rest));
                        },
                        Err(_) => {},
                    }
                }
            },
            Err(e) => {
                if e.is_interrupted() {
                } else {
                    return Err(TransferStop::Os(e));
                }
            },
        }
        i += 1;
    }
    proof {
        assert(received@ + Seq::<u8>::empty() =~= received@);
        assert(received@ =~= buf@);
        lemma_write_run_complete(buf@, 0, outcomes@);
    }
    Ok(received)
}

/// Concatenation of the byte chunks that a run of short reads handed back,
/// in arrival order.
pub open spec fn concat_chunks(chunks: Seq<Seq<u8>>) -> Seq<u8>
    decreases chunks.len(),
{
    if chunks.len() == 0 {
        Seq::empty()
    } else {
        chunks[0] + concat_chunks(chunks.skip(1))
    }
}

/// Reassembles the chunks that a run of short reads delivered: the result
/// is exactly their concatenation, so a reader that stitches short reads
/// back together sees precisely the bytes that crossed the descriptor.
pub fn reassemble(chunks: &Vec<Vec<u8>>) -> (r: Vec<u8>)
    ensures
        r@ == concat_chunks(chunks@.map_values(|c: Vec<u8>| c@)),
{
    let mut out: Vec<u8> = Vec::new();
    let mut i: usize = 0;
    proof {
        assert(chunks@.map_values(|c: Vec<u8>| c@).skip(0) =~= chunks@.map_values(
            |c: Vec<u8>| c@,
        ));
    }
    while i < chunks.len()
        invariant
            i <= chunks@.len(),
            concat_chunks(chunks@.map_values(|c: Vec<u8>| c@)) == out@ + concat_chunks(
                chunks@.map_values(|c: Vec<u8>| c@).skip(i as int),
            ),
        decreases chunks@.len() - i,
    {
        let ghost pre_out = out@;
        let ghost mapped = chunks@.map_values(|c: Vec<u8>| c@);
        let chunk = &chunks[i];
        let mut k: usize = 0;
        while k < chunk.len()
            invariant
                k <= chunk@.len(),
                out@ == pre_out + chunk@.subrange(0, k as int),
            decreases chunk@.len() - k,
        {
            out.push(chunk[k]);
            proof {
                assert(pre_out + chunk@.subrange(0, k as int + 1) =~= (pre_out + chunk@.subrange(
                    0,
                    k as int,
                )).push(chunk@[k as int]));
            }
            k += 1;
        }
        proof {
            assert(chunk@.subrange(0, chunk@.len() as int) =~= chunk@);
            assert(mapped.skip(i as int)[0] == mapped[i as int]);
            assert(mapped[i as int] == chunk@);
            assert(mapped.skip(i as int).skip(1) =~= mapped.skip(i as int + 1));
            assert((pre_out + chunk@) + concat_chunks(mapped.skip(i as int + 1)) =~= pre_out + (
            chunk@ + concat_chunks(mapped.skip(i as int + 1))));
        }
        i += 1;
    }
    proof {
        let ghost mapped = chunks@.map_values(|c: Vec<u8>| c@);
        assert(mapped.skip(i as int) =~= Seq::<Seq<u8>>::empty());
        assert(out@ + Seq::<u8>::empty() =~= out@);
    }
    out
}

/// Convert low-level errors into the adapter's portable error form.
pub trait IntoStdioErr {
    type Target;

    fn into_stdio_err(self) -> Self::Target;
}

impl<T> IntoStdioErr for Result<T, Errno> {
    type Target = Result<T, Errno>;

    fn into_stdio_err(self) -> (r: Result<T, Errno>)
        ensures
            r == self,
    {
        self
    }
}

} // verus!
