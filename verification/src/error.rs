//! The failures that decoding can report.

use vstd::prelude::*;
use vstd::std_specs::convert::FromSpecImpl;
use crate::commands::CommandErrors;

verus! {

/// Why a buffer could not be decoded.
#[derive(Debug, Clone, Copy, PartialEq, Eq, Structural)]
pub enum FormatError {
    /// The database header buffer is not exactly 100 bytes long.
    WrongHeaderSize,
    /// A fixed-width field of the database header could not be taken from the buffer.
    FieldConversion,
    /// The database header names a text encoding other than 1, 2 or 3.
    UnknownTextEncoding,
    /// The page type byte is none of 0x02, 0x05, 0x0a and 0x0d.
    UnknownPageType,
    /// A record refers to bytes beyond its own end.
    TruncatedRecord,
    /// A text value is not valid UTF-8.
    InvalidText,
    /// A serial type code is one of the two reserved codes, 10 and 11.
    ReservedSerialType,
    /// The page is a valid b-tree page, but not a table leaf.
    UnsupportedPageType,
    /// A row of the schema table does not have the five expected values.
    MalformedSchemaRow,
    /// A text value is stored in UTF-16, which is not decoded.
    UnsupportedTextEncoding,
    /// The page header, the cell pointer array or the head of a cell reaches
    /// beyond the end of the page.
    TruncatedPage,
    /// A cell's payload does not fit in the page that holds the cell; the rest
    /// of it lies on overflow pages, which are not followed.
    PayloadOverflow,
}

/// Every failure of the library, by the part that reports it.
#[derive(Debug, Clone, Copy, PartialEq, Eq, Structural)]
pub enum ErrorEnum {
    CommandError(CommandErrors),
    FormatError(FormatError),
}

/// The error type at the library's outer boundary.
#[derive(Debug, Clone, Copy, PartialEq, Eq, Structural)]
pub struct BackendError {
    pub errors: ErrorEnum,
}

impl From<CommandErrors> for BackendError {
    fn from(val: CommandErrors) -> (r: Self) {
        BackendError { errors: ErrorEnum::CommandError(val) }
    }
}

impl FromSpecImpl<CommandErrors> for BackendError {
    open spec fn obeys_from_spec() -> bool {
        true
    }

    open spec fn from_spec(val: CommandErrors) -> Self {
        BackendError { errors: ErrorEnum::CommandError(val) }
    }
}

impl From<FormatError> for BackendError {
    fn from(val: FormatError) -> (r: Self) {
        BackendError { errors: ErrorEnum::FormatError(val) }
    }
}

impl FromSpecImpl<FormatError> for BackendError {
    open spec fn obeys_from_spec() -> bool {
        true
    }

    open spec fn from_spec(val: FormatError) -> Self {
        BackendError { errors: ErrorEnum::FormatError(val) }
    }
}

} // verus!
