//! The error a caller of the library sees, and how the errors of the
//! individual stages map onto it.

use crate::download::SyncError;
use crate::remote::RemoteError;
use vstd::prelude::*;
use vstd::string::StringExecFns;

verus! {

#[derive(Clone, Debug)]
pub enum ClientError {
    Io(String),
    Network(String),
    Iced(String),
    Ron(String),
    Rss(String),
    Opener(String),
    UrlParse(String),
    Readline(String),
    Image(String),
    Task(String),
    GameUpdate(String),
    Custom(String),
}

/// The message of each manifest error.
pub open spec fn remote_text(e: RemoteError) -> Seq<char> {
    match e {
        RemoteError::Network => "Network request for the remote zip failed"@,
        RemoteError::NoEocdFound => "Remote Zip invalid, no EOCD found"@,
        RemoteError::ContentLengthUnavailable => "Content Length of Remote Zip unavailable"@,
        RemoteError::InvalidSignature => "Remote Zip invalid, invalid CentralDirectoryHeader signature"@,
        RemoteError::NoCentralDirectoryHeaderFound => "Remote Zip invalid, no CentralDirectoryHeaders found"@,
        RemoteError::InvalidFileName => "Remote Zip invalid, CentralDirectoryHeader has invalid file name"@,
    }
}

/// The message of each batch error but a status code's.
pub open spec fn sync_text(e: SyncError) -> Seq<char> {
    match e {
        SyncError::Network => "Network request for a batch failed"@,
        SyncError::InvalidStatus(_) => "Non-OK Status"@,
        SyncError::FileError => "I/O Error"@,
        SyncError::EmptyDownload => "Download batch cannot be empty!"@,
        SyncError::InvalidLocalHeaderSignature => "Invalid local header signature"@,
        SyncError::ParseError => "zip-core parse error"@,
        SyncError::InvalidHash => "The remote file hash doesn't match its calculated one"@,
        SyncError::UnsupportedCompressionMethod => "Unsupported compression method found"@,
        SyncError::JoinFailure => "Task join error"@,
        SyncError::WrongDownloadRange => "The calculated byte range to download a batch is inaccurate"@,
        SyncError::WrongBytesLength => "The bytes length passed to unzip doesn't match the file size"@,
        SyncError::UnsafePath => "Zip Escape Attack: an entry tries to write outside the root"@,
    }
}

impl RemoteError {
    pub fn message(&self) -> (r: String)
        ensures
            r@ == remote_text(*self),
    {
        match self {
            RemoteError::Network => String::from_str("Network request for the remote zip failed"),
            RemoteError::NoEocdFound => String::from_str("Remote Zip invalid, no EOCD found"),
            RemoteError::ContentLengthUnavailable => String::from_str("Content Length of Remote Zip unavailable"),
            RemoteError::InvalidSignature => String::from_str(
                "Remote Zip invalid, invalid CentralDirectoryHeader signature",
            ),
            RemoteError::NoCentralDirectoryHeaderFound => String::from_str(
                "Remote Zip invalid, no CentralDirectoryHeaders found",
            ),
            RemoteError::InvalidFileName => String::from_str(
                "Remote Zip invalid, CentralDirectoryHeader has invalid file name",
            ),
        }
    }

    /// Transport failures are network errors; everything else is a fault
    /// of the archive.
    pub fn to_client_error(&self) -> (r: ClientError)
        ensures
            *self is Network ==> (r matches ClientError::Network(m) && m@ == remote_text(*self)),
            !(*self is Network) ==> (r matches ClientError::Custom(m) && m@ == remote_text(*self)),
    {
        let m = self.message();
        match self {
            RemoteError::Network => ClientError::Network(m),
            _ => ClientError::Custom(m),
        }
    }
}

impl SyncError {
    pub fn message(&self) -> (r: String)
        ensures
            r@ == sync_text(*self),
    {
        match self {
            SyncError::Network => String::from_str("Network request for a batch failed"),
            SyncError::InvalidStatus(_) => String::from_str("Non-OK Status"),
            SyncError::FileError => String::from_str("I/O Error"),
            SyncError::EmptyDownload => String::from_str("Download batch cannot be empty!"),
            SyncError::InvalidLocalHeaderSignature => String::from_str("Invalid local header signature"),
            SyncError::ParseError => String::from_str("zip-core parse error"),
            SyncError::InvalidHash => String::from_str("The remote file hash doesn't match its calculated one"),
            SyncError::UnsupportedCompressionMethod => String::from_str("Unsupported compression method found"),
            SyncError::JoinFailure => String::from_str("Task join error"),
            SyncError::WrongDownloadRange => String::from_str(
                "The calculated byte range to download a batch is inaccurate",
            ),
            SyncError::WrongBytesLength => String::from_str(
                "The bytes length passed to unzip doesn't match the file size",
            ),
            SyncError::UnsafePath => String::from_str(
                "Zip Escape Attack: an entry tries to write outside the root",
            ),
        }
    }

    /// Transport and status failures are network errors, file-system
    /// failures I/O errors, join failures task errors; the rest are faults
    /// of the archive or of its integrity.
    pub fn to_client_error(&self) -> (r: ClientError)
        ensures
            (*self is Network || *self is InvalidStatus) ==> (r matches ClientError::Network(m) && m@
                == sync_text(*self)),
            *self is FileError ==> (r matches ClientError::Io(m) && m@ == sync_text(*self)),
            *self is JoinFailure ==> (r matches ClientError::Task(m) && m@ == sync_text(*self)),
            !(*self is Network || *self is InvalidStatus || *self is FileError || *self is JoinFailure)
                ==> (r matches ClientError::Custom(m) && m@ == sync_text(*self)),
    {
        let m = self.message();
        match self {
            SyncError::Network | SyncError::InvalidStatus(_) => ClientError::Network(m),
            SyncError::FileError => ClientError::Io(m),
            SyncError::JoinFailure => ClientError::Task(m),
            _ => ClientError::Custom(m),
        }
    }
}

} // verus!
