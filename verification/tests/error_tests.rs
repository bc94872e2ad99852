use patch_updater::error::{Failure, UpdaterError};

#[test]
fn errors_render_with_their_kind() {
    assert_eq!(UpdaterError::NetworkError("down".to_string()).to_string(), "Network error: down");
    assert_eq!(UpdaterError::VersionParseError("bad".to_string()).to_string(), "Version parse error: bad");
    assert_eq!(UpdaterError::FileSystemError("full".to_string()).to_string(), "File system error: full");
    assert_eq!(UpdaterError::ZipExtractionError("crc".to_string()).to_string(), "Zip extraction error: crc");
    assert_eq!(UpdaterError::NoUpdateUrlConfigured.to_string(), "No update URL configured");
    assert_eq!(UpdaterError::NoUpdatesAvailable.to_string(), "No updates available");
}

#[test]
fn only_no_updates_available_is_the_up_to_date_outcome() {
    assert!(UpdaterError::NoUpdatesAvailable.is_no_updates_available());
    assert!(!UpdaterError::NoUpdateUrlConfigured.is_no_updates_available());
    assert!(!UpdaterError::NetworkError(String::new()).is_no_updates_available());
    assert!(!UpdaterError::VersionParseError(String::new()).is_no_updates_available());
    assert!(!UpdaterError::FileSystemError(String::new()).is_no_updates_available());
    assert!(!UpdaterError::ZipExtractionError(String::new()).is_no_updates_available());
}

fn network(failure: Failure) -> String {
    match failure.into_error() {
        UpdaterError::NetworkError(message) => message,
        other => panic!("{:?}", other),
    }
}

fn file_system(failure: Failure) -> String {
    match failure.into_error() {
        UpdaterError::FileSystemError(message) => message,
        other => panic!("{:?}", other),
    }
}

fn archive(failure: Failure) -> String {
    match failure.into_error() {
        UpdaterError::ZipExtractionError(message) => message,
        other => panic!("{:?}", other),
    }
}

#[test]
fn requests_and_reads_are_network_errors() {
    let d = || "timed out".to_string();
    assert_eq!(network(Failure::FetchCatalog(d())), "Failed to fetch update list: timed out");
    assert_eq!(network(Failure::ServerStatus("404 Not Found".to_string())), "Server returned error: 404 Not Found");
    assert_eq!(network(Failure::ReadResponse(d())), "Failed to read response: timed out");
    assert_eq!(network(Failure::DownloadPatch(d())), "Failed to download patch: timed out");
}

#[test]
fn trouble_on_disk_is_a_file_system_error() {
    let d = || "denied".to_string();
    assert_eq!(file_system(Failure::CurrentDirectory(d())), "Failed to get current directory: denied");
    assert_eq!(file_system(Failure::CreateUpdatesDirectory(d())), "Failed to create updates directory: denied");
    assert_eq!(file_system(Failure::CreatePatchFile(d())), "Failed to create output file: denied");
    assert_eq!(file_system(Failure::WritePatchFile(d())), "Failed to write to file: denied");
    assert_eq!(file_system(Failure::CreateDirectory(d())), "Failed to create directory: denied");
    assert_eq!(file_system(Failure::CreateParentDirectory(d())), "Failed to create parent directory: denied");
    assert_eq!(file_system(Failure::CreateOutputFile(d())), "Failed to create output file: denied");
    assert_eq!(file_system(Failure::WriteOutputFile(d())), "Failed to write output file: denied");
}

#[test]
fn trouble_with_the_archive_is_an_extraction_error() {
    assert_eq!(archive(Failure::OpenPatchFile("no such file".to_string())), "Failed to open patch file: no such file");
    assert_eq!(archive(Failure::OpenArchive("bad magic".to_string())), "Failed to open zip archive: bad magic");
    assert_eq!(
        archive(Failure::AccessArchiveEntry("bad index".to_string())),
        "Failed to access file in archive: bad index"
    );
}
