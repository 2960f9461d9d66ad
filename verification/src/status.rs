//! Error taxonomy of the crate and the classification of driver status codes.

use vstd::prelude::*;

verus! {

/// Status code with which every driver call reports success.
pub const STATUS_SUCCESS: i32 = 0;

/// Status code with which a bounded wait reports that no frame arrived in time.
pub const STATUS_TIMEOUT: i32 = 5;

/// Failure of one of the driver's start-up or hand-over calls, carrying the
/// status code the driver returned.
#[derive(Debug, Clone, Copy, PartialEq, Eq, Structural)]
pub enum Error {
    /// The driver's shared library could not be loaded.
    LibraryNotLoaded { internal: i32 },
    /// The driver rejected its initialisation from the command line.
    NotInitialized { internal: i32 },
    /// The driver failed to hand over a point-cloud message.
    NoCloudMessage { internal: i32 },
}

/// A received schema differs from the expected one.
///
/// Every positional variant names the position of the first field that
/// differs, and the first attribute of that field that differs, in the order
/// name, offset, datatype, count.
#[derive(Debug, Clone, Copy, PartialEq, Eq, Structural)]
pub enum SchemaError {
    /// The two schemas hold different numbers of fields.
    FieldCountMismatch { expected: usize, actual: usize },
    /// The field at `position` has another name than expected.
    NameMismatch { position: usize },
    /// The field at `position` starts at another byte offset than expected.
    OffsetMismatch { position: usize },
    /// The field at `position` has another element datatype than expected.
    DatatypeMismatch { position: usize },
    /// The field at `position` has another element count than expected.
    CountMismatch { position: usize },
}

/// A frame cannot be built or decoded.
#[derive(Debug, Clone, Copy, PartialEq, Eq, Structural)]
pub enum DecodeError {
    /// The frame is tagged big-endian; only little-endian frames are decoded.
    UnsupportedEndianness,
    /// Some element named by the schema lies outside the raw buffer.
    BufferTooShort,
    /// The row stride is zero or does not divide the buffer length.
    InvalidStride,
}

/// The driver reported a hard error while waiting for a frame.
#[derive(Debug, Clone, Copy, PartialEq, Eq, Structural)]
pub enum AcquisitionError {
    /// The wait ended with `code`, which is neither success nor timeout.
    DriverFailure { code: i32 },
}

/// What can go wrong with one delivered frame; fatal to that frame only.
#[derive(Debug, Clone, Copy, PartialEq, Eq, Structural)]
pub enum FrameError {
    /// The frame's schema is not the expected one.
    Schema(SchemaError),
    /// The frame's bytes cannot be decoded.
    Decode(DecodeError),
}

impl Error {
    /// The status code the driver returned.
    pub open spec fn spec_internal(self) -> i32 {
        match self {
            Error::LibraryNotLoaded { internal } => internal,
            Error::NotInitialized { internal } => internal,
            Error::NoCloudMessage { internal } => internal,
        }
    }

    /// The status code the driver returned.
    #[verifier::when_used_as_spec(spec_internal)]
    pub fn internal(self) -> (code: i32)
        ensures
            code == self.spec_internal(),
    {
        match self {
            Error::LibraryNotLoaded { internal } => internal,
            Error::NotInitialized { internal } => internal,
            Error::NoCloudMessage { internal } => internal,
        }
    }

    /// Classifies the status with which the driver answered the request to
    /// load its shared library.
    pub fn check_loaded(status: i32) -> (r: Result<(), Error>)
        ensures
            status == STATUS_SUCCESS ==> r == Ok::<(), Error>(()),
            status != STATUS_SUCCESS ==> r == Err::<(), Error>(
                Error::LibraryNotLoaded { internal: status },
            ),
    {
        if status == STATUS_SUCCESS {
            Ok(())
        } else {
            Err(Error::LibraryNotLoaded { internal: status })
        }
    }

    /// Classifies the status with which the driver answered its
    /// initialisation from the command line.
    pub fn check_initialized(status: i32) -> (r: Result<(), Error>)
        ensures
            status == STATUS_SUCCESS ==> r == Ok::<(), Error>(()),
            status != STATUS_SUCCESS ==> r == Err::<(), Error>(
                Error::NotInitialized { internal: status },
            ),
    {
        if status == STATUS_SUCCESS {
            Ok(())
        } else {
            Err(Error::NotInitialized { internal: status })
        }
    }
}

} // verus!
