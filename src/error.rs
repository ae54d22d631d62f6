use vstd::prelude::*;

verus! {

/// The failures that the archive operations report.
#[derive(Debug)]
pub enum ZArchiveError {
    /// A path that cannot be represented as UTF-8 text.
    InvalidFilePath(String),
    /// The entry exists but is not a directory.
    NotADirectory(String),
    /// The extraction destination exists and is not a directory.
    InvalidDestination(String),
    /// No entry of the requested kind exists at this path.
    MissingFile(String),
    /// The requested byte range does not lie inside the file.
    OutOfRange { size: u64, offset: u64, length: u64 },
    /// The engine wrote another number of bytes than it was asked for: the
    /// container or the engine is broken, and no data is returned.
    ShortRead { expected: u64, written: u64 },
    /// A directory lies deeper than the listing is willing to follow.
    TooDeep(String),
    /// The directory to pack is missing or is not a directory.
    MissingPackInput,
    /// The engine answered with a reply of another kind than was asked for.
    UnexpectedReply,
    /// A host file-system failure, with its message.
    IOError(String),
    /// A failure raised by the engine, with its message.
    Other(String),
}

/// [`ZArchiveError`] as a value.
pub enum ErrorView {
    InvalidFilePath(Seq<char>),
    NotADirectory(Seq<char>),
    InvalidDestination(Seq<char>),
    MissingFile(Seq<char>),
    OutOfRange { size: u64, offset: u64, length: u64 },
    ShortRead { expected: u64, written: u64 },
    TooDeep(Seq<char>),
    MissingPackInput,
    UnexpectedReply,
    IOError(Seq<char>),
    Other(Seq<char>),
}

impl View for ZArchiveError {
    type V = ErrorView;

    open spec fn view(&self) -> ErrorView {
        match self {
            ZArchiveError::InvalidFilePath(s) => ErrorView::InvalidFilePath(s@),
            ZArchiveError::NotADirectory(s) => ErrorView::NotADirectory(s@),
            ZArchiveError::InvalidDestination(s) => ErrorView::InvalidDestination(s@),
            ZArchiveError::MissingFile(s) => ErrorView::MissingFile(s@),
            ZArchiveError::OutOfRange { size, offset, length } => ErrorView::OutOfRange {
                size: *size,
                offset: *offset,
                length: *length,
            },
            ZArchiveError::ShortRead { expected, written } => ErrorView::ShortRead {
                expected: *expected,
                written: *written,
            },
            ZArchiveError::TooDeep(s) => ErrorView::TooDeep(s@),
            ZArchiveError::MissingPackInput => ErrorView::MissingPackInput,
            ZArchiveError::UnexpectedReply => ErrorView::UnexpectedReply,
            ZArchiveError::IOError(s) => ErrorView::IOError(s@),
            ZArchiveError::Other(s) => ErrorView::Other(s@),
        }
    }
}

} // verus!
