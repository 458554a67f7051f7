//! The closed set of failures of unfolding and folding, with their context.
use vstd::prelude::*;

use crate::text::{decimal_of, decimal_text};

verus! {

/// Two digests that should have been equal, as hex text.
#[derive(Debug, Clone, PartialEq, Eq)]
pub struct Mismatch {
    pub expected: String,
    pub actual: String,
}

/// Why a source path cannot be used.
#[derive(Debug, Clone, PartialEq, Eq)]
pub enum InputFault {
    NotAFile { path: String },
    NotADirectory { path: String },
    TooLarge { path: String, size: u64 },
}

/// Why a destination cannot be written.
#[derive(Debug, Clone, PartialEq, Eq)]
pub enum OutputFault {
    AlreadyExists { path: String },
    WriteFailed { path: String, message: String },
    IndexNotSerialized { message: String },
}

/// Why an index file could not be read as an index.
#[derive(Debug, Clone, PartialEq, Eq)]
pub enum ReadFault {
    NotAFile { path: String },
    Malformed { message: String },
}

/// How an index breaks the rules of its format.
#[derive(Debug, Clone, PartialEq, Eq)]
pub enum IndexFault {
    MissingDigest,
    InvalidDigest { digest: String },
    Empty,
    InvalidKey { key: String },
    NestedName { key: String, name: String },
    MissingChunk { key: String, name: String, path: String },
    UnreadableChunk { key: String, name: String, path: String },
    PositionMismatch { expected: usize, found: usize },
}

/// How stored data failed its digest.
#[derive(Debug, Clone, PartialEq, Eq)]
pub enum Corruption {
    InvalidChunkName { name: String, path: String },
    Chunk { name: String, path: String, mismatch: Mismatch },
    Whole { mismatch: Mismatch },
}

#[derive(Debug, Clone, PartialEq, Eq)]
pub enum Error {
    IOError(String),
    FlattenFileInputError(InputFault),
    FlattenFileOutputError(OutputFault),
    UnflattenFileInputError(InputFault),
    UnflattenFileOutputError(OutputFault),
    InvalidIndexError(IndexFault),
    MissingIndexError(String),
    UnreadableIndexError(ReadFault),
    CorruptedDataError(Corruption),
    ChecksumMismatch(Mismatch),
}

pub open spec fn variant_name(e: Error) -> Seq<char> {
    match e {
        Error::IOError(_) => "IOError"@,
        Error::FlattenFileInputError(_) => "FlattenFileInputError"@,
        Error::FlattenFileOutputError(_) => "FlattenFileOutputError"@,
        Error::UnflattenFileInputError(_) => "UnflattenFileInputError"@,
        Error::UnflattenFileOutputError(_) => "UnflattenFileOutputError"@,
        Error::InvalidIndexError(_) => "InvalidIndexError"@,
        Error::MissingIndexError(_) => "MissingIndexError"@,
        Error::UnreadableIndexError(_) => "UnreadableIndexError"@,
        Error::CorruptedDataError(_) => "CorruptedDataError"@,
        Error::ChecksumMismatch(_) => "ChecksumMismatch"@,
    }
}

pub open spec fn mismatch_text(m: Mismatch) -> Seq<char> {
    "expected: "@ + m.expected@ + " actual: "@ + m.actual@
}

pub open spec fn input_text(f: InputFault) -> Seq<char> {
    match f {
        InputFault::NotAFile { path } => path@ + " is not a file"@,
        InputFault::NotADirectory { path } => path@ + " is not a directory"@,
        InputFault::TooLarge { path, size } => path@ + " is too large: "@ + decimal_of(
            size as nat,
        ) + " bytes (max = 4294967295)"@,
    }
}

pub open spec fn output_text(f: OutputFault) -> Seq<char> {
    match f {
        OutputFault::AlreadyExists { path } => path@ + " already exists"@,
        OutputFault::WriteFailed { path, message } => "failed to write "@ + path@ + ": "@
            + message@,
        OutputFault::IndexNotSerialized { message } => "failed to serialize index as yaml: "@
            + message@,
    }
}

pub open spec fn read_text(f: ReadFault) -> Seq<char> {
    match f {
        ReadFault::NotAFile { path } => "'"@ + path@ + "' is not a readable file"@,
        ReadFault::Malformed { message } => "invalid yaml: "@ + message@,
    }
}

pub open spec fn index_text(f: IndexFault) -> Seq<char> {
    match f {
        IndexFault::MissingDigest => "missing 'sha256' field"@,
        IndexFault::InvalidDigest { digest } => "invalid hex in 'sha256' field: '"@ + digest@
            + "'"@,
        IndexFault::Empty => "empty index"@,
        IndexFault::InvalidKey { key } => "invalid hex in key '"@ + key@ + "'"@,
        IndexFault::NestedName { key, name } => "'"@ + key@ + "' points outside the directory: '"@
            + name@ + "'"@,
        IndexFault::MissingChunk { key, name, path } => "'"@ + key@
            + "' points to missing file '"@ + name@ + "' at "@ + path@,
        IndexFault::UnreadableChunk { key, name, path } => "'"@ + key@
            + "' points to unreadable file '"@ + name@ + "' at "@ + path@,
        IndexFault::PositionMismatch { expected, found } => "mismatch index "@ + decimal_of(
            expected as nat,
        ) + " != "@ + decimal_of(found as nat),
    }
}

pub open spec fn corruption_text(c: Corruption) -> Seq<char> {
    match c {
        Corruption::InvalidChunkName { name, path } => "invalid hex in chunk name "@ + name@
            + " at "@ + path@,
        Corruption::Chunk { name, path, mismatch } => "in chunk "@ + name@ + " at "@ + path@
            + ": "@ + mismatch_text(mismatch),
        Corruption::Whole { mismatch } => "invalid checksum of the whole file: "@ + mismatch_text(
            mismatch,
        ),
    }
}

/// What went wrong, with its context.
pub open spec fn detail_text(e: Error) -> Seq<char> {
    match e {
        Error::IOError(message) => message@,
        Error::FlattenFileInputError(f) => input_text(f),
        Error::FlattenFileOutputError(f) => output_text(f),
        Error::UnflattenFileInputError(f) => input_text(f),
        Error::UnflattenFileOutputError(f) => output_text(f),
        Error::InvalidIndexError(f) => index_text(f),
        Error::MissingIndexError(path) => "'"@ + path@ + "' does not exist"@,
        Error::UnreadableIndexError(f) => read_text(f),
        Error::CorruptedDataError(c) => corruption_text(c),
        Error::ChecksumMismatch(m) => mismatch_text(m),
    }
}

fn cat(a: &str, b: &str) -> (r: String)
    ensures
        r@ == a@ + b@,
{
    let mut r = a.to_owned();
    r.append(b);
    r
}

fn cat3(a: &str, b: &str, c: &str) -> (r: String)
    ensures
        r@ == a@ + b@ + c@,
{
    let mut r = cat(a, b);
    r.append(c);
    r
}

fn cat5(a: &str, b: &str, c: &str, d: &str, e: &str) -> (r: String)
    ensures
        r@ == a@ + b@ + c@ + d@ + e@,
{
    let mut r = cat3(a, b, c);
    r.append(d);
    r.append(e);
    r
}

impl Mismatch {
    pub fn message(&self) -> (r: String)
        ensures
            r@ == mismatch_text(*self),
    {
        cat(&cat3("expected: ", self.expected.as_str(), " actual: "), self.actual.as_str())
    }
}

impl InputFault {
    pub fn message(&self) -> (r: String)
        ensures
            r@ == input_text(*self),
    {
        match self {
            InputFault::NotAFile { path } => cat(path.as_str(), " is not a file"),
            InputFault::NotADirectory { path } => cat(path.as_str(), " is not a directory"),
            InputFault::TooLarge { path, size } => cat3(
                &cat(path.as_str(), " is too large: "),
                decimal_text(*size).as_str(),
                " bytes (max = 4294967295)",
            ),
        }
    }
}

impl OutputFault {
    pub fn message(&self) -> (r: String)
        ensures
            r@ == output_text(*self),
    {
        match self {
            OutputFault::AlreadyExists { path } => cat(path.as_str(), " already exists"),
            OutputFault::WriteFailed { path, message } => cat(
                &cat3("failed to write ", path.as_str(), ": "),
                message.as_str(),
            ),
            OutputFault::IndexNotSerialized { message } => cat(
                "failed to serialize index as yaml: ",
                message.as_str(),
            ),
        }
    }
}

impl ReadFault {
    pub fn message(&self) -> (r: String)
        ensures
            r@ == read_text(*self),
    {
        match self {
            ReadFault::NotAFile { path } => cat3("'", path.as_str(), "' is not a readable file"),
            ReadFault::Malformed { message } => cat("invalid yaml: ", message.as_str()),
        }
    }
}

impl IndexFault {
    pub fn message(&self) -> (r: String)
        ensures
            r@ == index_text(*self),
    {
        match self {
            IndexFault::MissingDigest => "missing 'sha256' field".to_owned(),
            IndexFault::InvalidDigest { digest } => cat3(
                "invalid hex in 'sha256' field: '",
                digest.as_str(),
                "'",
            ),
            IndexFault::Empty => "empty index".to_owned(),
            IndexFault::InvalidKey { key } => cat3("invalid hex in key '", key.as_str(), "'"),
            IndexFault::NestedName { key, name } => cat5(
                "'",
                key.as_str(),
                "' points outside the directory: '",
                name.as_str(),
                "'",
            ),
            IndexFault::MissingChunk { key, name, path } => cat(
                &cat5("'", key.as_str(), "' points to missing file '", name.as_str(), "' at "),
                path.as_str(),
            ),
            IndexFault::UnreadableChunk { key, name, path } => cat(
                &cat5(
                    "'",
                    key.as_str(),
                    "' points to unreadable file '",
                    name.as_str(),
                    "' at ",
                ),
                path.as_str(),
            ),
            IndexFault::PositionMismatch { expected, found } => cat(
                &cat3("mismatch index ", decimal_text(*expected as u64).as_str(), " != "),
                decimal_text(*found as u64).as_str(),
            ),
        }
    }
}

impl Corruption {
    pub fn message(&self) -> (r: String)
        ensures
            r@ == corruption_text(*self),
    {
        match self {
            Corruption::InvalidChunkName { name, path } => cat(
                &cat3("invalid hex in chunk name ", name.as_str(), " at "),
                path.as_str(),
            ),
            Corruption::Chunk { name, path, mismatch } => cat(
                &cat5("in chunk ", name.as_str(), " at ", path.as_str(), ": "),
                mismatch.message().as_str(),
            ),
            Corruption::Whole { mismatch } => cat(
                "invalid checksum of the whole file: ",
                mismatch.message().as_str(),
            ),
        }
    }
}

impl Error {
    /// The name of the kind of failure.
    pub fn variant(&self) -> (r: String)
        ensures
            r@ == variant_name(*self),
    {
        let name = match self {
            Error::IOError(_) => "IOError",
            Error::FlattenFileInputError(_) => "FlattenFileInputError",
            Error::FlattenFileOutputError(_) => "FlattenFileOutputError",
            Error::UnflattenFileInputError(_) => "UnflattenFileInputError",
            Error::UnflattenFileOutputError(_) => "UnflattenFileOutputError",
            Error::InvalidIndexError(_) => "InvalidIndexError",
            Error::MissingIndexError(_) => "MissingIndexError",
            Error::UnreadableIndexError(_) => "UnreadableIndexError",
            Error::CorruptedDataError(_) => "CorruptedDataError",
            Error::ChecksumMismatch(_) => "ChecksumMismatch",
        };
        name.to_owned()
    }

    /// The kind of failure and what went wrong, as one line.
    pub fn message(&self) -> (r: String)
        ensures
            r@ == variant_name(*self) + ": "@ + detail_text(*self),
    {
        let detail = match self {
            Error::IOError(message) => message.clone(),
            Error::FlattenFileInputError(f) => f.message(),
            Error::FlattenFileOutputError(f) => f.message(),
            Error::UnflattenFileInputError(f) => f.message(),
            Error::UnflattenFileOutputError(f) => f.message(),
            Error::InvalidIndexError(f) => f.message(),
            Error::MissingIndexError(path) => cat3("'", path.as_str(), "' does not exist"),
            Error::UnreadableIndexError(f) => f.message(),
            Error::CorruptedDataError(c) => c.message(),
            Error::ChecksumMismatch(m) => m.message(),
        };
        cat3(self.variant().as_str(), ": ", detail.as_str())
    }
}

pub type Result<T> = core::result::Result<T, Error>;

/// How a run ends: with success, or with the error that stopped it.
#[derive(Debug, Clone)]
pub enum Exit {
    Success,
    Error(Error),
}

impl Exit {
    pub fn from_result<T>(result: Result<T>) -> (r: Exit)
        ensures
            result is Ok ==> r is Success,
            result matches Err(e) ==> r == Exit::Error(e),
    {
        match result {
            Ok(_) => Exit::Success,
            Err(e) => Exit::Error(e),
        }
    }
}

} // verus!
