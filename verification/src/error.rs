//! The closed set of failures an update run can end with.

use vstd::prelude::*;
use vstd::string::*;

verus! {

/// Why an update run stopped. Every variant is terminal for the run;
/// `NoUpdatesAvailable` is the ordinary "already up to date" outcome.
#[derive(Debug)]
pub enum UpdaterError {
    NetworkError(String),
    VersionParseError(String),
    FileSystemError(String),
    ZipExtractionError(String),
    NoUpdateUrlConfigured,
    NoUpdatesAvailable,
}

/// The mathematical value of an error: its kind, and the message it carries.
pub enum ErrorView {
    NetworkError(Seq<char>),
    VersionParseError(Seq<char>),
    FileSystemError(Seq<char>),
    ZipExtractionError(Seq<char>),
    NoUpdateUrlConfigured,
    NoUpdatesAvailable,
}

impl ErrorView {
    /// The human-readable text of the error.
    pub open spec fn text(self) -> Seq<char> {
        match self {
            ErrorView::NetworkError(msg) => "Network error: "@ + msg,
            ErrorView::VersionParseError(msg) => "Version parse error: "@ + msg,
            ErrorView::FileSystemError(msg) => "File system error: "@ + msg,
            ErrorView::ZipExtractionError(msg) => "Zip extraction error: "@ + msg,
            ErrorView::NoUpdateUrlConfigured => "No update URL configured"@,
            ErrorView::NoUpdatesAvailable => "No updates available"@,
        }
    }
}

impl View for UpdaterError {
    type V = ErrorView;

    open spec fn view(&self) -> ErrorView {
        match self {
            UpdaterError::NetworkError(msg) => ErrorView::NetworkError(msg@),
            UpdaterError::VersionParseError(msg) => ErrorView::VersionParseError(msg@),
            UpdaterError::FileSystemError(msg) => ErrorView::FileSystemError(msg@),
            UpdaterError::ZipExtractionError(msg) => ErrorView::ZipExtractionError(msg@),
            UpdaterError::NoUpdateUrlConfigured => ErrorView::NoUpdateUrlConfigured,
            UpdaterError::NoUpdatesAvailable => ErrorView::NoUpdatesAvailable,
        }
    }
}

impl UpdaterError {
    /// Whether the error is the ordinary outcome "already up to date", which
    /// callers present otherwise than a fault.
    pub fn is_no_updates_available(&self) -> (yes: bool)
        ensures
            yes == (self@ == ErrorView::NoUpdatesAvailable),
    {
        match self {
            UpdaterError::NoUpdatesAvailable => true,
            _ => false,
        }
    }

    /// Renders the error for display.
    pub fn to_string(&self) -> (out: String)
        ensures
            out@ == self@.text(),
    {
        match self {
            UpdaterError::NetworkError(msg) => String::from_str("Network error: ").concat(
                msg.as_str(),
            ),
            UpdaterError::VersionParseError(msg) => String::from_str(
                "Version parse error: ",
            ).concat(msg.as_str()),
            UpdaterError::FileSystemError(msg) => String::from_str("File system error: ").concat(
                msg.as_str(),
            ),
            UpdaterError::ZipExtractionError(msg) => String::from_str(
                "Zip extraction error: ",
            ).concat(msg.as_str()),
            UpdaterError::NoUpdateUrlConfigured => String::from_str("No update URL configured"),
            UpdaterError::NoUpdatesAvailable => String::from_str("No updates available"),
        }
    }
}

/// An outside operation that failed, as whoever performed it reports it:
/// which operation it was, and the detail that the system gave. A refused
/// request carries the status line of the answer instead.
#[derive(Debug)]
pub enum Failure {
    CurrentDirectory(String),
    CreateUpdatesDirectory(String),
    FetchCatalog(String),
    ServerStatus(String),
    ReadResponse(String),
    CreatePatchFile(String),
    DownloadPatch(String),
    WritePatchFile(String),
    OpenPatchFile(String),
    OpenArchive(String),
    AccessArchiveEntry(String),
    CreateDirectory(String),
    CreateParentDirectory(String),
    CreateOutputFile(String),
    WriteOutputFile(String),
}

/// The three kinds of error that an outside failure can become.
pub enum FailureKind {
    Network,
    FileSystem,
    Archive,
}

impl Failure {
    /// The kind of the failed operation. Requests and reads from the server
    /// are network failures. An archive that cannot be opened, be it the
    /// file or the container in it, and an entry that cannot be reached are
    /// archive failures. Everything else on disk is a file-system failure.
    pub open spec fn kind(self) -> FailureKind {
        match self {
            Failure::FetchCatalog(_) | Failure::ServerStatus(_) | Failure::ReadResponse(_)
            | Failure::DownloadPatch(_) => FailureKind::Network,
            Failure::OpenPatchFile(_) | Failure::OpenArchive(_) | Failure::AccessArchiveEntry(_) =>
                FailureKind::Archive,
            Failure::CurrentDirectory(_) | Failure::CreateUpdatesDirectory(_)
            | Failure::CreatePatchFile(_) | Failure::WritePatchFile(_) | Failure::CreateDirectory(_)
            | Failure::CreateParentDirectory(_) | Failure::CreateOutputFile(_)
            | Failure::WriteOutputFile(_) => FailureKind::FileSystem,
        }
    }

    /// The words that say which operation failed.
    pub open spec fn context(self) -> Seq<char> {
        match self {
            Failure::CurrentDirectory(_) => "Failed to get current directory: "@,
            Failure::CreateUpdatesDirectory(_) => "Failed to create updates directory: "@,
            Failure::FetchCatalog(_) => "Failed to fetch update list: "@,
            Failure::ServerStatus(_) => "Server returned error: "@,
            Failure::ReadResponse(_) => "Failed to read response: "@,
            Failure::CreatePatchFile(_) => "Failed to create output file: "@,
            Failure::DownloadPatch(_) => "Failed to download patch: "@,
            Failure::WritePatchFile(_) => "Failed to write to file: "@,
            Failure::OpenPatchFile(_) => "Failed to open patch file: "@,
            Failure::OpenArchive(_) => "Failed to open zip archive: "@,
            Failure::AccessArchiveEntry(_) => "Failed to access file in archive: "@,
            Failure::CreateDirectory(_) => "Failed to create directory: "@,
            Failure::CreateParentDirectory(_) => "Failed to create parent directory: "@,
            Failure::CreateOutputFile(_) => "Failed to create output file: "@,
            Failure::WriteOutputFile(_) => "Failed to write output file: "@,
        }
    }

    /// The detail that came with the failure.
    pub open spec fn detail(self) -> Seq<char> {
        match self {
            Failure::CurrentDirectory(d) => d@,
            Failure::CreateUpdatesDirectory(d) => d@,
            Failure::FetchCatalog(d) => d@,
            Failure::ServerStatus(d) => d@,
            Failure::ReadResponse(d) => d@,
            Failure::CreatePatchFile(d) => d@,
            Failure::DownloadPatch(d) => d@,
            Failure::WritePatchFile(d) => d@,
            Failure::OpenPatchFile(d) => d@,
            Failure::OpenArchive(d) => d@,
            Failure::AccessArchiveEntry(d) => d@,
            Failure::CreateDirectory(d) => d@,
            Failure::CreateParentDirectory(d) => d@,
            Failure::CreateOutputFile(d) => d@,
            Failure::WriteOutputFile(d) => d@,
        }
    }

    /// The message of the error that the failure becomes: what failed, then
    /// the detail.
    pub open spec fn message(self) -> Seq<char> {
        self.context() + self.detail()
    }

    /// The error that the failure becomes.
    pub open spec fn error(self) -> ErrorView {
        match self.kind() {
            FailureKind::Network => ErrorView::NetworkError(self.message()),
            FailureKind::FileSystem => ErrorView::FileSystemError(self.message()),
            FailureKind::Archive => ErrorView::ZipExtractionError(self.message()),
        }
    }

    /// The error with which a run ends after this failure.
    pub fn into_error(self) -> (error: UpdaterError)
        ensures
            error@ == self.error(),
    {
        match self {
            Failure::CurrentDirectory(d) => UpdaterError::FileSystemError(
                String::from_str("Failed to get current directory: ").concat(d.as_str()),
            ),
            Failure::CreateUpdatesDirectory(d) => UpdaterError::FileSystemError(
                String::from_str("Failed to create updates directory: ").concat(d.as_str()),
            ),
            Failure::FetchCatalog(d) => UpdaterError::NetworkError(
                String::from_str("Failed to fetch update list: ").concat(d.as_str()),
            ),
            Failure::ServerStatus(d) => UpdaterError::NetworkError(
                String::from_str("Server returned error: ").concat(d.as_str()),
            ),
            Failure::ReadResponse(d) => UpdaterError::NetworkError(
                String::from_str("Failed to read response: ").concat(d.as_str()),
            ),
            Failure::CreatePatchFile(d) => UpdaterError::FileSystemError(
                String::from_str("Failed to create output file: ").concat(d.as_str()),
            ),
            Failure::DownloadPatch(d) => UpdaterError::NetworkError(
                String::from_str("Failed to download patch: ").concat(d.as_str()),
            ),
            Failure::WritePatchFile(d) => UpdaterError::FileSystemError(
                String::from_str("Failed to write to file: ").concat(d.as_str()),
            ),
            Failure::OpenPatchFile(d) => UpdaterError::ZipExtractionError(
                String::from_str("Failed to open patch file: ").concat(d.as_str()),
            ),
            Failure::OpenArchive(d) => UpdaterError::ZipExtractionError(
                String::from_str("Failed to open zip archive: ").concat(d.as_str()),
            ),
            Failure::AccessArchiveEntry(d) => UpdaterError::ZipExtractionError(
                String::from_str("Failed to access file in archive: ").concat(d.as_str()),
            ),
            Failure::CreateDirectory(d) => UpdaterError::FileSystemError(
                String::from_str("Failed to create directory: ").concat(d.as_str()),
            ),
            Failure::CreateParentDirectory(d) => UpdaterError::FileSystemError(
                String::from_str("Failed to create parent directory: ").concat(d.as_str()),
            ),
            Failure::CreateOutputFile(d) => UpdaterError::FileSystemError(
                String::from_str("Failed to create output file: ").concat(d.as_str()),
            ),
            Failure::WriteOutputFile(d) => UpdaterError::FileSystemError(
                String::from_str("Failed to write output file: ").concat(d.as_str()),
            ),
        }
    }
}

} // verus!
