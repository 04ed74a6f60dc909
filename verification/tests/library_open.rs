use shiromana::library::open_ops::check_structure;
use shiromana::library::open_ops::Snapshot;
use shiromana::library::Library;
use shiromana::library::LibraryFeature;
use shiromana::library::LibraryMetadata;
use shiromana::library::LibrarySummary;
use shiromana::library::LocationRef;
use shiromana::library::MediaRow;
use shiromana::library::MediaSet;
use shiromana::library::SeriesRef;
use shiromana::library::TagRef;
use shiromana::library::Thumbnail;
use shiromana::media::MediaType;
use shiromana::media::SeriesNo;
use shiromana::misc::Error;
use shiromana::misc::HashAlgo;
use shiromana::misc::Lock;
use shiromana::misc::LockType;
use shiromana::misc::Uuid;

const FINGERPRINT: &str = "01234567-89AB-CDEF-0123-456789ABCDEF";

fn open_metadata(algo: &str, summary: LibrarySummary) -> LibraryMetadata {
    LibraryMetadata {
        UUID: FINGERPRINT.to_string(),
        library_name: "kept".to_string(),
        master_name: Some("master".to_string()),
        media_folder: "medias".to_string(),
        schema: "Default".to_string(),
        hash_algo: algo.to_string(),
        summary,
    }
}

fn open_summary(media: usize, series: usize, tags: usize, size: usize) -> LibrarySummary {
    LibrarySummary { media_count: media, series_count: series, tag_count: tags, media_size: size }
}

fn open_row(id: u64, content: &[u8], name: &str) -> MediaRow {
    MediaRow {
        id,
        hash: HashAlgo::MD5.do_hash(content).unwrap(),
        filename: name.to_string(),
        filesize: content.len(),
        caption: None,
        time_add: 0,
        kind: MediaType::Image,
        sub_kind: None,
        kind_addition: None,
        comment: None,
        detail: None,
    }
}

fn open_rows() -> Snapshot {
    Snapshot {
        last_media_id: 7,
        medias: vec![open_row(2, b"two", "2.jpg"), open_row(5, b"five!", "5.jpg")],
        series: vec![MediaSet { uuid: Uuid(1), caption: "s".to_string(), comment: None }],
        tags: vec![MediaSet { uuid: Uuid(2), caption: "t".to_string(), comment: None }],
        series_refs: vec![
            SeriesRef { media_id: 2, series_uuid: Uuid(1), series_no: SeriesNo::Ordered(4) },
            SeriesRef { media_id: 5, series_uuid: Uuid(1), series_no: SeriesNo::Unordered },
        ],
        tag_refs: vec![TagRef { media_id: 5, tag_uuid: Uuid(2) }],
        locations: vec![LocationRef {
            media_id: 2,
            path: "/src/2.jpg".to_string(),
            filename: "2".to_string(),
        }],
        thumbnails: vec![Thumbnail {
            hash: HashAlgo::MD5.do_hash(b"two").unwrap(),
            image: vec![1, 2, 3],
            size: 3,
        }],
    }
}

fn open_files() -> Vec<String> {
    ["shared.db", ".shiromana", "metadata.json", "shiromana.db", "thumbnail.db"]
        .iter()
        .map(|s| s.to_string())
        .collect()
}

fn open_with(metadata: LibraryMetadata, fingerprint: &str, rows: Snapshot) -> Result<Library, Error> {
    let lock = Lock::acquire(LockType::FolderLock, "/data/kept.mlib", true, true, false).unwrap();
    Library::open(
        "/data/kept.mlib".to_string(),
        true,
        false,
        &open_files(),
        metadata,
        fingerprint.to_string(),
        semver::Version::new(0, 1, 0),
        "generate_thumbnail_at_adding",
        lock,
        rows,
    )
}

#[test]
fn complete_folder_passes_the_check() {
    let files: Vec<String> =
        ["shared.db", ".shiromana", "extra", "metadata.json", "shiromana.db", "thumbnail.db"]
            .iter()
            .map(|s| s.to_string())
            .collect();
    assert!(check_structure(&files).is_ok());
}

#[test]
fn folder_that_lacks_a_file_is_not_match() {
    let all = ["shared.db", ".shiromana", "metadata.json", "shiromana.db"];
    for missing in all {
        let files: Vec<String> =
            all.iter().filter(|s| **s != missing).map(|s| s.to_string()).collect();
        match check_structure(&files) {
            Err(Error::NotMatch(m)) => assert_eq!(m, "Library structure not match."),
            other => panic!("unexpected: {:?}", other),
        }
    }
    assert!(check_structure(&vec![]).is_err());
}

#[test]
fn library_opens_with_its_rows() {
    let lib = open_with(open_metadata("MD5", open_summary(2, 1, 1, 8)), FINGERPRINT, open_rows())
        .unwrap();
    assert_eq!(lib.get_uuid(), &Uuid(0x0123456789abcdef0123456789abcdef));
    assert_eq!(lib.get_library_name(), "kept");
    assert_eq!(lib.get_master_name(), &Some("master".to_string()));
    assert_eq!(lib.get_hash_algo(), HashAlgo::MD5);
    assert_eq!(lib.get_hash_size(), 16);
    assert_eq!(lib.get_path(), "/data/kept.mlib");
    assert!(lib.get_features().contains(LibraryFeature::GenerateThumbnailAtAdding));
    assert_eq!(*lib.get_summary(), open_summary(2, 1, 1, 8));
    assert!(lib.is_media_existed(2));
    assert!(lib.is_media_existed(5));
    assert!(lib.is_thumbnailed(2));
    assert!(!lib.is_thumbnailed(5));
    assert_eq!(lib.series_media_count(&Uuid(1)).unwrap(), 2);
    assert_eq!(lib.get_next_no_in_series(&Uuid(1)).unwrap(), Some(5));
    assert_eq!(lib.get_media(5).unwrap().tag, vec![Uuid(2)]);
    assert_eq!(lib.get_media_by_filename("2.jpg".to_string()).unwrap(), vec![2]);
    assert!(lib.verify_integrity());
}

#[test]
fn ids_continue_after_the_last_one_handed_out() {
    let mut lib =
        open_with(open_metadata("MD5", open_summary(2, 1, 1, 8)), FINGERPRINT, open_rows())
            .unwrap();
    let id = lib.add_url("https://example.org".to_string(), None, None, None, None, 0).unwrap();
    assert_eq!(id, 8);
}

#[test]
fn fingerprint_must_match_the_metadata() {
    let r = open_with(
        open_metadata("MD5", open_summary(2, 1, 1, 8)),
        "11111111-89AB-CDEF-0123-456789ABCDEF",
        open_rows(),
    );
    match r {
        Err(Error::NotMatch(m)) => assert_eq!(m, "Library UUID"),
        other => panic!("unexpected: {:?}", other),
    }
}

#[test]
fn fingerprint_must_be_an_identifier() {
    let mut metadata = open_metadata("MD5", open_summary(2, 1, 1, 8));
    metadata.UUID = "garbage".to_string();
    assert!(matches!(open_with(metadata, "garbage", open_rows()), Err(Error::Other(_))));
    let mut metadata = open_metadata("MD5", open_summary(2, 1, 1, 8));
    metadata.UUID = String::new();
    assert!(matches!(open_with(metadata, "", open_rows()), Err(Error::NotMatch(_))));
}

#[test]
fn algorithm_must_be_known() {
    let r = open_with(open_metadata("CRC32", open_summary(2, 1, 1, 8)), FINGERPRINT, open_rows());
    match r {
        Err(Error::NotExists(m)) => assert_eq!(m, "Hash algo not exists: CRC32"),
        other => panic!("unexpected: {:?}", other),
    }
}

#[test]
fn lock_must_be_held_to_open() {
    let mut lock = Lock::acquire(LockType::FolderLock, "/data/kept.mlib", true, true, false).unwrap();
    lock.release(true).unwrap();
    let r = Library::open(
        "/data/kept.mlib".to_string(),
        true,
        false,
        &open_files(),
        open_metadata("MD5", open_summary(2, 1, 1, 8)),
        FINGERPRINT.to_string(),
        semver::Version::new(0, 1, 0),
        "",
        lock,
        open_rows(),
    );
    assert!(matches!(r, Err(Error::LockError(_))));
}

fn refused(rows: Snapshot, summary: LibrarySummary) {
    match open_with(open_metadata("MD5", summary), FINGERPRINT, rows) {
        Err(Error::NotMatch(m)) => assert_eq!(m, "Library catalog"),
        other => panic!("unexpected: {:?}", other.map(|_| ())),
    }
}

#[test]
fn counters_must_say_what_the_rows_hold() {
    refused(open_rows(), open_summary(3, 1, 1, 8));
    refused(open_rows(), open_summary(2, 0, 1, 8));
    refused(open_rows(), open_summary(2, 1, 2, 8));
    refused(open_rows(), open_summary(2, 1, 1, 9));
}

#[test]
fn media_rows_must_be_in_order_with_distinct_hashes() {
    let mut rows = open_rows();
    rows.medias.swap(0, 1);
    refused(rows, open_summary(2, 1, 1, 8));
    let mut rows = open_rows();
    rows.medias[1].hash = rows.medias[0].hash.clone();
    refused(rows, open_summary(2, 1, 1, 8));
    let mut rows = open_rows();
    rows.last_media_id = 4;
    refused(rows, open_summary(2, 1, 1, 8));
    let mut rows = open_rows();
    rows.last_media_id = u64::MAX;
    refused(rows, open_summary(2, 1, 1, 8));
    let mut rows = open_rows();
    rows.medias[0].id = 0;
    refused(rows, open_summary(2, 1, 1, 8));
}

#[test]
fn hashes_must_be_of_the_algorithm() {
    let mut rows = open_rows();
    rows.medias[0].hash = HashAlgo::SHA1.do_hash(b"two").unwrap();
    refused(rows, open_summary(2, 1, 1, 8));
    let mut rows = open_rows();
    rows.medias[0].hash = rows.medias[0].hash.to_lowercase();
    refused(rows, open_summary(2, 1, 1, 8));
}

#[test]
fn memberships_must_refer_to_what_exists() {
    let mut rows = open_rows();
    rows.series_refs[0].media_id = 3;
    refused(rows, open_summary(2, 1, 1, 8));
    let mut rows = open_rows();
    rows.series_refs[0].series_uuid = Uuid(9);
    refused(rows, open_summary(2, 1, 1, 8));
    let mut rows = open_rows();
    rows.tag_refs[0].tag_uuid = Uuid(1);
    refused(rows, open_summary(2, 1, 1, 8));
    let mut rows = open_rows();
    rows.tag_refs[0].media_id = 6;
    refused(rows, open_summary(2, 1, 1, 8));
    let mut rows = open_rows();
    rows.locations[0].media_id = 6;
    refused(rows, open_summary(2, 1, 1, 8));
}

#[test]
fn memberships_must_not_repeat() {
    let mut rows = open_rows();
    rows.series_refs[1].media_id = 2;
    refused(rows, open_summary(2, 1, 1, 8));
    let mut rows = open_rows();
    rows.series_refs[1].series_no = SeriesNo::Ordered(4);
    refused(rows, open_summary(2, 1, 1, 8));
    let mut rows = open_rows();
    rows.tag_refs.push(TagRef { media_id: 5, tag_uuid: Uuid(2) });
    refused(rows, open_summary(2, 1, 1, 8));
    let mut rows = open_rows();
    rows.locations.push(LocationRef {
        media_id: 2,
        path: "/src/2.jpg".to_string(),
        filename: "other".to_string(),
    });
    refused(rows, open_summary(2, 1, 1, 8));
}

#[test]
fn sets_must_be_distinct() {
    let mut rows = open_rows();
    rows.series.push(MediaSet { uuid: Uuid(1), caption: "other".to_string(), comment: None });
    refused(rows, open_summary(2, 2, 1, 8));
    let mut rows = open_rows();
    rows.tags.push(MediaSet { uuid: Uuid(3), caption: "t".to_string(), comment: None });
    refused(rows, open_summary(2, 1, 2, 8));
}

#[test]
fn previews_must_be_as_long_as_declared() {
    let mut rows = open_rows();
    rows.thumbnails[0].size = 4;
    refused(rows, open_summary(2, 1, 1, 8));
    let mut rows = open_rows();
    rows.thumbnails[0] = Thumbnail { hash: "X".to_string(), image: vec![], size: 0 };
    refused(rows, open_summary(2, 1, 1, 8));
    let mut rows = open_rows();
    let again = Thumbnail { hash: rows.thumbnails[0].hash.clone(), image: vec![1], size: 1 };
    rows.thumbnails.push(again);
    refused(rows, open_summary(2, 1, 1, 8));
}

#[test]
fn library_of_each_algorithm_counts_ten_bytes() {
    for algo in [HashAlgo::MD5, HashAlgo::SHA1, HashAlgo::SHA256, HashAlgo::BLAKE3] {
        let rows = Snapshot {
            last_media_id: 0,
            medias: vec![],
            series: vec![],
            tags: vec![],
            series_refs: vec![],
            tag_refs: vec![],
            locations: vec![],
            thumbnails: vec![],
        };
        let mut lib =
            open_with(open_metadata(&algo.to_string(), open_summary(0, 0, 0, 0)), FINGERPRINT, rows)
                .unwrap();
        let content = b"0123456789";
        let ingest = lib.ingest(content, "ten.bin");
        assert_eq!(ingest.hash, algo.do_hash(content).unwrap());
        let file = shiromana::library::media_ops::AddedFile {
            is_file: true,
            hash: ingest.hash,
            filename: "ten.bin".to_string(),
            filesize: 10,
            dest_exists: false,
            source_path: "/src/ten.bin".to_string(),
            source_stem: "ten".to_string(),
            time_add: 0,
        };
        let id = lib.add_media(file, MediaType::Other, None, None, None, None).unwrap().id;
        assert_eq!(id, 1);
        assert_eq!(lib.get_summary().media_size, 10);
        assert_eq!(lib.get_summary().media_count, 1);
        lib.remove_media(id).unwrap();
        assert_eq!(lib.get_summary().media_size, 0);
        assert_eq!(lib.get_summary().media_count, 0);
    }
}

fn open_probed(exists: bool, is_file: bool, files: Vec<String>) -> Result<Library, Error> {
    let lock = Lock::acquire(LockType::FolderLock, "/data/kept.mlib", true, true, false).unwrap();
    Library::open(
        "/data/kept.mlib".to_string(),
        exists,
        is_file,
        &files,
        open_metadata("MD5", open_summary(2, 1, 1, 8)),
        FINGERPRINT.to_string(),
        semver::Version::new(0, 1, 0),
        "",
        lock,
        open_rows(),
    )
}

#[test]
fn nothing_at_the_path_is_not_exists() {
    match Library::open_precheck("/data/kept.mlib", false, false, &vec![]) {
        Err(Error::NotExists(p)) => assert_eq!(p, "/data/kept.mlib"),
        other => panic!("unexpected: {:?}", other),
    }
    match open_probed(false, false, open_files()) {
        Err(Error::NotExists(p)) => assert_eq!(p, "/data/kept.mlib"),
        other => panic!("unexpected: {:?}", other.map(|_| ())),
    }
    assert!(matches!(open_probed(false, true, vec![]), Err(Error::NotExists(_))));
}

#[test]
fn file_at_the_path_is_not_match() {
    match Library::open_precheck("/data/kept.mlib", true, true, &open_files()) {
        Err(Error::NotMatch(m)) => assert_eq!(m, "Library is not a folder."),
        other => panic!("unexpected: {:?}", other),
    }
    match open_probed(true, true, open_files()) {
        Err(Error::NotMatch(m)) => assert_eq!(m, "Library is not a folder."),
        other => panic!("unexpected: {:?}", other.map(|_| ())),
    }
}

#[test]
fn folder_that_lacks_a_file_is_not_opened() {
    let files: Vec<String> = open_files().into_iter().filter(|f| f != ".shiromana").collect();
    match Library::open_precheck("/data/kept.mlib", true, false, &files) {
        Err(Error::NotMatch(m)) => assert_eq!(m, "Library structure not match."),
        other => panic!("unexpected: {:?}", other),
    }
    match open_probed(true, false, files) {
        Err(Error::NotMatch(m)) => assert_eq!(m, "Library structure not match."),
        other => panic!("unexpected: {:?}", other.map(|_| ())),
    }
    assert!(Library::open_precheck("/data/kept.mlib", true, false, &open_files()).is_ok());
    assert!(open_probed(true, false, open_files()).is_ok());
}

#[test]
fn closed_library_opens_again_as_itself() {
    let lock = Lock::acquire(LockType::FolderLock, "/data/again.mlib", true, true, false).unwrap();
    let mut lib = Library::create(
        "/data/again.mlib".to_string(),
        "again".to_string(),
        None,
        None,
        shiromana::library::LibraryFeatures::new(),
        Library::current_version(),
        false,
        lock,
    )
    .unwrap();
    let series = lib.create_series("s".to_string(), Some("c".to_string())).unwrap();
    let uuid = *lib.get_uuid();
    let (metadata, lock) = lib.close();
    let fingerprint = metadata.UUID.clone();
    let rows = Snapshot {
        last_media_id: 0,
        medias: vec![],
        series: vec![MediaSet { uuid: series, caption: "s".to_string(), comment: Some("c".to_string()) }],
        tags: vec![],
        series_refs: vec![],
        tag_refs: vec![],
        locations: vec![],
        thumbnails: vec![],
    };
    let again = Library::open(
        "/data/again.mlib".to_string(),
        true,
        false,
        &open_files(),
        metadata,
        fingerprint,
        Library::current_version(),
        "",
        lock,
        rows,
    )
    .unwrap();
    assert_eq!(again.get_uuid(), &uuid);
    assert_eq!(again.get_hash_algo(), HashAlgo::BLAKE3);
    assert_eq!(again.get_summary().series_count, 1);
    assert_eq!(again.get_series_by_name("s".to_string()).unwrap(), (Some(series), None));
}
