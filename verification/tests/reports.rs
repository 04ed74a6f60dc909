use shiromana::library::Library;
use shiromana::library::LibraryFeatures;
use shiromana::library::LibrarySummary;
use shiromana::media::ImageDetail;
use shiromana::misc::Lock;
use shiromana::misc::LockType;

#[test]
fn summary_reports_counts_and_whole_kilobytes() {
    let s = LibrarySummary { media_count: 3, series_count: 2, tag_count: 7, media_size: 4096 };
    assert_eq!(s.to_string(), "Media count: 3\nSeries count: 2\nMedia Size: 4 KB\n");
    let s = LibrarySummary { media_count: 0, series_count: 0, tag_count: 0, media_size: 1023 };
    assert_eq!(s.to_string(), "Media count: 0\nSeries count: 0\nMedia Size: 0 KB\n");
    let s = LibrarySummary { media_count: 12, series_count: 0, tag_count: 0, media_size: 2047 };
    assert_eq!(s.to_string(), "Media count: 12\nSeries count: 0\nMedia Size: 1 KB\n");
}

#[test]
fn image_detail_reports_resolution_and_format() {
    let d = ImageDetail { height: 480, width: 640, format: "PNG".to_string() };
    assert_eq!(d.to_string(), "Image Resolution: 640 x 480\nImage Format: PNG");
}

#[test]
fn media_filter_is_passed_through() {
    let lock = Lock::acquire(LockType::FolderLock, "/data/q.mlib", true, true, false).unwrap();
    let lib = Library::create(
        "/data/q.mlib".to_string(),
        "q".to_string(),
        None,
        None,
        LibraryFeatures::new(),
        semver::Version::new(0, 1, 0),
        false,
        lock,
    )
    .unwrap();
    assert_eq!(lib.query_media("hash = 'AB'"), "SELECT id FROM media WHERE hash = 'AB';");
    assert_eq!(lib.query_media(""), "SELECT id FROM media WHERE ;");
}
