use rcdir::cloud_status::CloudStatus;
use rcdir::cloud_status::get_cloud_status;
use rcdir::directory_info::DirectoryInfo;
use rcdir::directory_info::accumulate_totals;
use rcdir::ehm::AppError;
use rcdir::file_info::FILE_ATTRIBUTE_ARCHIVE;
use rcdir::file_info::FILE_ATTRIBUTE_OFFLINE;
use rcdir::file_info::FILE_ATTRIBUTE_PINNED;
use rcdir::file_info::FILE_ATTRIBUTE_RECALL_ON_DATA_ACCESS;
use rcdir::file_info::FILE_ATTRIBUTE_RECALL_ON_OPEN;
use rcdir::file_info::FILE_ATTRIBUTE_UNPINNED;
use rcdir::listing_totals::ListingTotals;



#[test]
fn cloud_status_none_when_not_in_sync_root() {
    assert_eq!(get_cloud_status(0, false), CloudStatus::NotCloud);
    assert_eq!(get_cloud_status(FILE_ATTRIBUTE_PINNED, false), CloudStatus::NotCloud);
}

#[test]
fn cloud_status_pinned_takes_priority() {
    let attrs = FILE_ATTRIBUTE_PINNED | FILE_ATTRIBUTE_UNPINNED;
    assert_eq!(get_cloud_status(attrs, true), CloudStatus::Pinned);
}

#[test]
fn cloud_status_cloud_only() {
    assert_eq!(get_cloud_status(FILE_ATTRIBUTE_OFFLINE, true), CloudStatus::CloudOnly);
    assert_eq!(get_cloud_status(FILE_ATTRIBUTE_RECALL_ON_OPEN, true), CloudStatus::CloudOnly);
    assert_eq!(get_cloud_status(FILE_ATTRIBUTE_RECALL_ON_DATA_ACCESS, true), CloudStatus::CloudOnly);
}

#[test]
fn cloud_status_local_when_unpinned() {
    assert_eq!(get_cloud_status(FILE_ATTRIBUTE_UNPINNED, true), CloudStatus::Local);
}

#[test]
fn cloud_status_local_when_no_cloud_attrs() {
    assert_eq!(get_cloud_status(0x20, true), CloudStatus::Local); // FILE_ATTRIBUTE_ARCHIVE
}

#[test]
fn display_invalid_arg() {
    let e = AppError::InvalidArg("bad switch".into());
    assert_eq!(e.message(), "bad switch");
}

#[test]
fn display_path_not_found() {
    let e = AppError::PathNotFound(String::from(r"C:\NoSuchDir"));
    assert_eq!(e.message(), r"Error:   C:\NoSuchDir does not exist");
}

#[test]
fn accumulate_totals_adds() {
    let mut di = DirectoryInfo::new (String::from("C:\\test"), "*".into());
    di.file_count         = 5;
    di.subdirectory_count = 2;
    di.bytes_used         = 1024;
    di.stream_count       = 1;
    di.stream_bytes_used  = 256;

    let mut totals = ListingTotals::default();
    accumulate_totals (&di, &mut totals);

    assert_eq!(totals.file_count,      5);
    assert_eq!(totals.directory_count,  2);
    assert_eq!(totals.file_bytes,       1024);
    assert_eq!(totals.stream_count,     1);
    assert_eq!(totals.stream_bytes,     256);
}

#[test]
fn accumulate_totals_multiple() {
    let mut totals = ListingTotals::default();

    let mut di1 = DirectoryInfo::new (String::from("C:\\a"), "*".into());
    di1.file_count = 3;
    di1.bytes_used = 500;
    accumulate_totals (&di1, &mut totals);

    let mut di2 = DirectoryInfo::new (String::from("C:\\b"), "*".into());
    di2.file_count = 7;
    di2.bytes_used = 1500;
    accumulate_totals (&di2, &mut totals);

    assert_eq!(totals.file_count, 10);
    assert_eq!(totals.file_bytes, 2000);
}
