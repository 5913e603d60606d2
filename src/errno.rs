use vstd::prelude::*;

verus! {

/// Status reported by every operation of the layer.
#[derive(PartialEq, Eq, Structural, Clone, Copy, Debug)]
pub enum Errno {
    Success,
    /// Missing right, or a path that leaves the sandbox.
    NotCapable,
    /// A protected (preopened) descriptor would be closed or replaced.
    NotSupported,
    /// Malformed combination of arguments.
    Invalid,
    NotDir,
    IsDir,
    NotEmpty,
    /// Symlink cycle, or a symlink where following it was not requested.
    Loop,
    /// Embedded NUL byte in a path.
    IllegalSequence,
    NotFound,
    BadDescriptor,
    /// The entry to create is already there.
    Exist,
    /// The descriptor table is full.
    TooManyFiles,
    /// The file would grow past the largest size the layer holds.
    FileTooBig,
    /// The tree holds as many nodes as it can.
    NoSpace,
    /// The host reported a failure.
    Io,
}

impl Errno {
    /// The numeric code of the status in the WASI error numbering.
    pub fn code(&self) -> (r: u16)
        ensures
            r == errno_code(*self),
    {
        match self {
            Errno::Success => 0,
            Errno::NotCapable => 76,
            Errno::NotSupported => 58,
            Errno::Invalid => 28,
            Errno::NotDir => 54,
            Errno::IsDir => 31,
            Errno::NotEmpty => 55,
            Errno::Loop => 32,
            Errno::IllegalSequence => 25,
            Errno::NotFound => 44,
            Errno::BadDescriptor => 8,
            Errno::Exist => 20,
            Errno::TooManyFiles => 41,
            Errno::FileTooBig => 22,
            Errno::NoSpace => 51,
            Errno::Io => 29,
        }
    }
}

/// The WASI error number of each status.
pub open spec fn errno_code(e: Errno) -> u16 {
    match e {
        Errno::Success => 0,
        Errno::NotCapable => 76,
        Errno::NotSupported => 58,
        Errno::Invalid => 28,
        Errno::NotDir => 54,
        Errno::IsDir => 31,
        Errno::NotEmpty => 55,
        Errno::Loop => 32,
        Errno::IllegalSequence => 25,
        Errno::NotFound => 44,
        Errno::BadDescriptor => 8,
        Errno::Exist => 20,
        Errno::TooManyFiles => 41,
        Errno::FileTooBig => 22,
        Errno::NoSpace => 51,
        Errno::Io => 29,
    }
}

/// The status that a `Result` of the layer reports.
pub open spec fn status_of<T>(r: Result<T, Errno>) -> Errno {
    match r {
        Ok(_) => Errno::Success,
        Err(e) => e,
    }
}

} // verus!
