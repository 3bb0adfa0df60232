use vstd::prelude::*;

verus! {

/// The system call that failed while a queue was being built.
#[derive(Clone, Copy, Debug, PartialEq, Eq, Structural)]
pub enum SyscallOp {
    /// Creating the anonymous memory file.
    CreateMemFile,
    /// Sizing the memory file.
    Truncate,
    /// Reserving the address range for both windows.
    MapReserve,
    /// Mapping the primary window of the buffer.
    MapPrimary,
    /// Mapping the alias window right after the primary one.
    MapAlias,
}

impl SyscallOp {
    /// A short hint that names the step that failed.
    pub open spec fn spec_hint(self) -> Seq<char> {
        match self {
            SyscallOp::CreateMemFile => "memfd_create"@,
            SyscallOp::Truncate => "ftruncate"@,
            SyscallOp::MapReserve => "mmap-reserve"@,
            SyscallOp::MapPrimary => "mmap-first"@,
            SyscallOp::MapAlias => "mmap-second"@,
        }
    }

    /// A short hint that names the step that failed.
    pub fn hint(&self) -> (r: &'static str)
        ensures
            r@ == self.spec_hint(),
    {
        match self {
            SyscallOp::CreateMemFile => "memfd_create",
            SyscallOp::Truncate => "ftruncate",
            SyscallOp::MapReserve => "mmap-reserve",
            SyscallOp::MapPrimary => "mmap-first",
            SyscallOp::MapAlias => "mmap-second",
        }
    }
}

/// Why a queue could not be built. Once built, no operation fails.
#[derive(Clone, Copy, Debug, PartialEq, Eq, Structural)]
pub enum CueueError {
    /// No power of two at least as large as the request fits in `usize`.
    CapacityOverflow,
    /// The byte size of the doubly mapped region does not fit in `isize`.
    LayoutTooLarge,
    /// A system call failed; `code` is the OS error number.
    Syscall { op: SyscallOp, code: i32 },
}

/// Relies on `std::io::Error` as an opaque value: the OS error is read out
/// of it by `raw_os_error` alone.
#[verifier::external_type_specification]
#[verifier::external_body]
pub struct ExIoError(std::io::Error);

/// Relies on `std::io::Error::last_os_error`: the error of the last system
/// call of this thread. Nothing is said of which one it is.
pub assume_specification[ std::io::Error::last_os_error ]() -> std::io::Error;

/// Relies on `std::io::Error::raw_os_error`: the OS error number, where the
/// error has one.
pub assume_specification[ std::io::Error::raw_os_error ](e: &std::io::Error) -> Option<i32>;

/// The error for a failed system call `op` that left the OS error `os_error`
/// behind: its number, or 0 where there is none.
pub fn syscall_error(op: SyscallOp, os_error: Option<i32>) -> (e: CueueError)
    ensures
        e == (CueueError::Syscall {
            op,
            code: match os_error {
                Some(c) => c,
                None => 0,
            },
        }),
{
    let code = match os_error {
        Some(c) => c,
        None => 0,
    };
    CueueError::Syscall { op, code }
}

/// The error for a failed system call `op`, with the OS error that the call
/// left behind in this thread.
pub fn errno_with_hint(op: SyscallOp) -> (e: CueueError)
    ensures
        e matches CueueError::Syscall { op: o, .. } && o == op,
{
    syscall_error(op, std::io::Error::last_os_error().raw_os_error())
}

} // verus!
