use patch_updater::download::{patch_file_name, status_is_success, DownloadTracker, UPDATES_DIR};
use patch_updater::progress::UpdateProgress;
use patch_updater::text::{chars_of, version_field_bounds};
use patch_updater::version::Version;

#[test]
fn the_staging_directory_is_called_updates() {
    assert_eq!(UPDATES_DIR, "updates");
}

#[test]
fn file_name_is_made_from_the_version() {
    assert_eq!(patch_file_name(&Version::parse("1.0.1").unwrap()), "patch-1.0.1.zip");
    assert_eq!(patch_file_name(&Version::parse("2.0.0-rc.1+b7").unwrap()), "patch-2.0.0-rc.1+b7.zip");
    assert_eq!(patch_file_name(&Version::new(0, 0, 0)), "patch-0.0.0.zip");
}

#[test]
fn file_name_reads_back_as_its_version() {
    for text in ["1.0.1", "10.20.30", "1.0.0-alpha.1", "1.0.0+build"] {
        let name = patch_file_name(&Version::parse(text).unwrap());
        let chars = chars_of(&name);
        let (from, to) = version_field_bounds(&chars, 0, chars.len()).unwrap();
        let field: String = chars[from..to].iter().collect();
        assert_eq!(field, text);
    }
}

#[test]
fn success_is_a_status_from_200_to_299() {
    assert!(!status_is_success(0));
    assert!(!status_is_success(199));
    assert!(status_is_success(200));
    assert!(status_is_success(204));
    assert!(status_is_success(299));
    assert!(!status_is_success(300));
    assert!(!status_is_success(404));
    assert!(!status_is_success(500));
    assert!(!status_is_success(u16::MAX));
}

#[test]
fn tracker_reports_each_chunk_when_the_size_is_known() {
    let mut tracker = DownloadTracker::new("1.0.1".to_string(), Some(20000));
    assert_eq!(tracker.bytes_received(), 0);
    match tracker.record(8192) {
        Some(UpdateProgress::Downloading { current, total, version, received, expected }) => {
            assert_eq!((current, total), (1, 1));
            assert_eq!(version, "1.0.1");
            assert_eq!((received, expected), (8192, 20000));
        }
        other => panic!("{:?}", other),
    }
    match tracker.record(8192) {
        Some(UpdateProgress::Downloading { received, expected, .. }) => {
            assert_eq!((received, expected), (16384, 20000))
        }
        other => panic!("{:?}", other),
    }
    match tracker.record(3616) {
        Some(UpdateProgress::Downloading { received, expected, .. }) => {
            assert_eq!((received, expected), (20000, 20000))
        }
        other => panic!("{:?}", other),
    }
    assert_eq!(tracker.bytes_received(), 20000);
}

#[test]
fn tracker_is_silent_when_the_size_is_unknown() {
    let mut tracker = DownloadTracker::new("1.0.1".to_string(), None);
    assert!(tracker.record(100).is_none());
    assert!(tracker.record(50).is_none());
    assert_eq!(tracker.bytes_received(), 150);
    let mut zero = DownloadTracker::new("1.0.1".to_string(), Some(0));
    assert!(zero.record(7).is_none());
    assert_eq!(zero.bytes_received(), 7);
}

#[test]
fn tracker_may_receive_more_than_was_announced() {
    let mut tracker = DownloadTracker::new("3.0.0".to_string(), Some(10));
    match tracker.record(25) {
        Some(UpdateProgress::Downloading { received, expected, .. }) => {
            assert_eq!((received, expected), (25, 10))
        }
        other => panic!("{:?}", other),
    }
}

#[test]
fn tracker_knows_what_still_fits() {
    let mut tracker = DownloadTracker::new("1.0.0".to_string(), Some(u64::MAX));
    assert!(tracker.can_record(usize::MAX));
    tracker.record(1);
    assert_eq!(tracker.can_record(usize::MAX), (usize::MAX as u64) < u64::MAX);
    assert!(tracker.can_record(0));
}
