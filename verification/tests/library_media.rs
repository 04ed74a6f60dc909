use shiromana::library::media_ops::AddedFile;
use shiromana::library::media_update::FileAction;
use shiromana::library::Library;
use shiromana::library::LibraryFeature;
use shiromana::library::LibraryFeatures;
use shiromana::media::ImageDetail;
use shiromana::media::ImageFormatName;
use shiromana::media::MediaDetail;
use shiromana::media::MediaType;
use shiromana::media::SeriesNo;
use shiromana::media::TypesDetail;
use shiromana::misc::tools::file_stem;
use shiromana::misc::Error;
use shiromana::misc::HashAlgo;
use shiromana::misc::Lock;
use shiromana::misc::LockType;

fn media_library() -> Library {
    let lock = Lock::acquire(LockType::FolderLock, "/data/test.mlib", true, true, false).unwrap();
    Library::create(
        "/data/test.mlib".to_string(),
        "test".to_string(),
        None,
        Some("Mass".to_string()),
        LibraryFeatures::new(),
        semver::Version::new(0, 1, 0),
        false,
        lock,
    )
    .unwrap()
}

fn media_file(lib: &Library, name: &str, content: &[u8], from: &str) -> AddedFile {
    let ingest = lib.ingest(content, name);
    AddedFile {
        is_file: true,
        hash: ingest.hash,
        filename: name.to_string(),
        filesize: content.len(),
        dest_exists: false,
        source_path: format!("{}/{}", from, name),
        source_stem: file_stem(name),
        time_add: 1_600_000_000_000,
    }
}

fn media_add(lib: &mut Library, name: &str, content: &[u8]) -> Result<u64, Error> {
    let file = media_file(lib, name, content, "/src");
    lib.add_media(file, MediaType::Image, None, None, None, None).map(|a| a.id)
}

#[test]
fn new_library_is_empty_and_sound() {
    let lib = media_library();
    assert_eq!(lib.get_library_name(), "test");
    assert_eq!(lib.get_master_name(), &None);
    assert_eq!(lib.get_path(), "/data/test.mlib");
    assert_eq!(lib.get_schema(), "Default");
    assert_eq!(lib.get_media_folder(), "Mass");
    assert_eq!(lib.get_hash_algo(), HashAlgo::BLAKE3);
    assert_eq!(lib.get_hash_size(), 32);
    assert_eq!(lib.get_version(), &semver::Version::new(0, 1, 0));
    assert!(lib.get_lock().is_locked());
    assert!(!lib.get_features().contains(LibraryFeature::GenerateThumbnailAtAdding));
    let s = lib.get_summary();
    assert_eq!((s.media_count, s.series_count, s.tag_count, s.media_size), (0, 0, 0, 0));
    assert!(lib.verify_integrity());
    assert_eq!(Library::folder_name("test"), "test.mlib");
}

#[test]
fn invalid_media_folder_falls_back_to_the_default() {
    let lock = Lock::acquire(LockType::FolderLock, "/d", true, true, false).unwrap();
    let lib = Library::create(
        "/d".to_string(),
        "n".to_string(),
        Some("master".to_string()),
        Some("bad/name".to_string()),
        LibraryFeatures::new().with(LibraryFeature::GenerateThumbnailAtAdding),
        semver::Version::new(1, 2, 3),
        false,
        lock,
    )
    .unwrap();
    assert_eq!(lib.get_media_folder(), "medias");
    assert_eq!(lib.get_master_name(), &Some("master".to_string()));
    assert!(lib.get_features().contains(LibraryFeature::GenerateThumbnailAtAdding));
    let lock = Lock::acquire(LockType::FolderLock, "/d", true, true, false).unwrap();
    let lib = Library::create(
        "/d".to_string(),
        "n".to_string(),
        None,
        None,
        LibraryFeatures::new(),
        semver::Version::new(1, 2, 3),
        false,
        lock,
    )
    .unwrap();
    assert_eq!(lib.get_media_folder(), "medias");
}

#[test]
fn library_needs_a_held_lock() {
    let mut lock = Lock::acquire(LockType::FolderLock, "/d", true, true, false).unwrap();
    lock.release(true).unwrap();
    let r = Library::create(
        "/d".to_string(),
        "n".to_string(),
        None,
        None,
        LibraryFeatures::new(),
        semver::Version::new(1, 2, 3),
        false,
        lock,
    );
    assert!(matches!(r, Err(Error::LockError(_))));
}

#[test]
fn ingest_hashes_and_shards() {
    let lib = media_library();
    let ingest = lib.ingest(b"abc", "photo.jpg");
    let hash = HashAlgo::BLAKE3.do_hash(b"abc").unwrap();
    assert_eq!(ingest.hash, hash);
    assert_eq!(
        ingest.stored_path,
        format!("/data/test.mlib/Mass/{}/{}.jpg", &hash[..2], &hash[2..])
    );
    let ingest = lib.ingest(b"abc", "noext");
    assert_eq!(ingest.stored_path, format!("/data/test.mlib/Mass/{}/{}", &hash[..2], &hash[2..]));
    assert_eq!(
        lib.get_media_path_by_hash("ABCD", "png"),
        "/data/test.mlib/Mass/AB/CD.png"
    );
}

#[test]
fn adding_counts_the_media_and_its_size() {
    let mut lib = media_library();
    let id = media_add(&mut lib, "1.jpg", b"0123456789").unwrap();
    assert_eq!(id, 1);
    assert_eq!(lib.get_summary().media_count, 1);
    assert_eq!(lib.get_summary().media_size, 10);
    let id = media_add(&mut lib, "2.jpg", b"01234").unwrap();
    assert_eq!(id, 2);
    assert_eq!(lib.get_summary().media_count, 2);
    assert_eq!(lib.get_summary().media_size, 15);
    assert!(lib.is_media_existed(1));
    assert!(lib.is_media_existed(2));
    assert!(!lib.is_media_existed(3));
    assert!(lib.media_exist_guard(2).is_ok());
    match lib.media_exist_guard(3) {
        Err(Error::NotExists(m)) => assert_eq!(m, "Media with id 3 not exists."),
        other => panic!("unexpected: {:?}", other),
    }
    assert!(lib.verify_integrity());
}

#[test]
fn adding_then_removing_restores_the_counters() {
    let mut lib = media_library();
    media_add(&mut lib, "1.jpg", b"first").unwrap();
    let before = *lib.get_summary();
    let id = media_add(&mut lib, "2.jpg", b"0123456789").unwrap();
    assert_eq!(lib.get_summary().media_size, before.media_size + 10);
    let hash = lib.get_media_hash(id).unwrap();
    let path = lib.remove_media(id).unwrap();
    assert_eq!(
        path,
        Some(format!("/data/test.mlib/Mass/{}/{}.jpg", &hash[..2], &hash[2..]))
    );
    assert_eq!(*lib.get_summary(), before);
    assert!(!lib.is_media_existed(id));
    assert!(lib.get_media_id(&hash).is_none());
    assert!(lib.get_media_by_filename("2.jpg".to_string()).unwrap().is_empty());
    assert!(lib.verify_integrity());
}

#[test]
fn removing_an_unknown_media_is_not_exists() {
    let mut lib = media_library();
    match lib.remove_media(5) {
        Err(Error::NotExists(m)) => assert_eq!(m, "Media with id 5 not exists."),
        other => panic!("unexpected: {:?}", other),
    }
    assert_eq!(lib.get_summary().media_count, 0);
}

#[test]
fn same_content_is_not_added_twice() {
    let mut lib = media_library();
    let id = media_add(&mut lib, "1.jpg", b"same bytes").unwrap();
    let before = *lib.get_summary();
    let again = media_file(&lib, "copy.jpg", b"same bytes", "/elsewhere");
    match lib.add_media(again, MediaType::Image, None, None, None, None) {
        Err(Error::AlreadyExists(m)) => assert_eq!(m, id.to_string()),
        other => panic!("unexpected: {:?}", other),
    }
    assert_eq!(*lib.get_summary(), before);
    assert_eq!(lib.get_media_by_filename("copy.jpg".to_string()).unwrap(), vec![id]);
    assert_eq!(lib.get_media_by_filename("1".to_string()).unwrap(), vec![id]);
    let mut again = media_file(&lib, "copy.jpg", b"same bytes", "/elsewhere");
    again.dest_exists = true;
    assert!(matches!(
        lib.add_media(again, MediaType::Image, None, None, None, None),
        Err(Error::AlreadyExists(_))
    ));
    assert_eq!(lib.get_media_by_filename("copy".to_string()).unwrap(), vec![id]);
    assert!(lib.verify_integrity());
}

#[test]
fn file_without_a_row_is_reported_with_its_hash() {
    let mut lib = media_library();
    let mut file = media_file(&lib, "1.jpg", b"orphan", "/src");
    file.dest_exists = true;
    let hash = file.hash.clone();
    match lib.add_media(file, MediaType::Image, None, None, None, None) {
        Err(Error::AlreadyExists(m)) => assert_eq!(m, hash),
        other => panic!("unexpected: {:?}", other),
    }
    assert_eq!(lib.get_summary().media_count, 0);
}

#[test]
fn text_that_is_no_hash_is_not_match() {
    let mut lib = media_library();
    let mut file = media_file(&lib, "1.jpg", b"x", "/src");
    file.hash = "nothex".to_string();
    match lib.add_media(file, MediaType::Image, None, None, None, None) {
        Err(Error::NotMatch(m)) => assert_eq!(m, "Content hash"),
        other => panic!("unexpected: {:?}", other),
    }
    let mut file = media_file(&lib, "1.jpg", b"x", "/src");
    file.hash = file.hash.to_lowercase();
    assert!(matches!(
        lib.add_media(file, MediaType::Image, None, None, None, None),
        Err(Error::NotMatch(_))
    ));
    assert_eq!(lib.get_summary().media_count, 0);
}

#[test]
fn urls_are_media_without_a_file() {
    let mut lib = media_library();
    let url = "https://doc.rust-lang.org/stable/std/index.html";
    let id = lib.add_url(url.to_string(), None, None, Some("docs".to_string()), None, 5).unwrap();
    assert_eq!(id, 1);
    assert_eq!(lib.get_summary().media_count, 1);
    assert_eq!(lib.get_summary().media_size, 0);
    let m = lib.get_media(id).unwrap();
    assert_eq!(m.kind, MediaType::URL);
    assert_eq!(m.filename, url);
    assert_eq!(m.hash, HashAlgo::BLAKE3.do_hash_str(url).unwrap());
    assert_eq!(m.caption, Some("docs".to_string()));
    assert_eq!(m.time_add, 5);
    match lib.add_url(url.to_string(), None, None, None, None, 6) {
        Err(Error::AlreadyExists(m)) => assert_eq!(m, "1"),
        other => panic!("unexpected: {:?}", other),
    }
    let file = media_file(&lib, "ignored", b"ignored", "https://example.org");
    let added = lib.add_media(file, MediaType::URL, None, None, None, None).unwrap();
    assert!(added.preview.is_none());
    let id2 = added.id;
    assert_eq!(id2, 2);
    assert_eq!(lib.get_media(id2).unwrap().filename, "https://example.org/ignored");
    assert_eq!(lib.remove_media(id).unwrap(), None);
    assert!(lib.verify_integrity());
}

#[test]
fn media_is_read_back_with_all_fields() {
    let mut lib = media_library();
    let file = media_file(&lib, "cat.png", b"meow", "/pics");
    let hash = file.hash.clone();
    let id = lib
        .add_media(
            file,
            MediaType::Image,
            Some("sub".to_string()),
            Some("addition".to_string()),
            Some("a cat".to_string()),
            Some("nice".to_string()),
        )
        .unwrap()
        .id;
    let series = lib.create_series("cats".to_string(), None).unwrap();
    let tag = lib.create_tag("animal".to_string(), None).unwrap();
    lib.add_to_series(id, &series, Some(3), false).unwrap();
    lib.add_tag(id, &tag).unwrap();
    let m = lib.get_media(id).unwrap();
    assert_eq!(m.id, id);
    assert_eq!(&m.library_uuid, lib.get_uuid());
    assert_eq!(m.hash, hash);
    assert_eq!(m.filename, "cat.png");
    assert_eq!(m.filepath, format!("/data/test.mlib/Mass/{}/{}.png", &hash[..2], &hash[2..]));
    assert_eq!(m.filesize, 4);
    assert_eq!(m.caption, Some("a cat".to_string()));
    assert_eq!(m.time_add, 1_600_000_000_000);
    assert_eq!(m.kind, MediaType::Image);
    assert_eq!(m.sub_kind, Some("sub".to_string()));
    assert_eq!(m.kind_addition, Some("addition".to_string()));
    assert_eq!(m.comment, Some("nice".to_string()));
    assert_eq!(m.series.len(), 1);
    assert_eq!(m.series[0].uuid, series);
    assert_eq!(m.series[0].no, SeriesNo::Ordered(3));
    assert_eq!(m.tag, vec![tag]);
    assert!(m.detail.is_none());
    assert!(matches!(lib.get_media(id + 1), Err(Error::NotExists(_))));
    assert_eq!(lib.get_media_hash(id), Some(hash.clone()));
    assert_eq!(lib.get_media_hash(id + 1), None);
    assert_eq!(lib.get_media_id(&hash), Some(id));
    assert_eq!(lib.get_media_id("nope"), None);
}

#[test]
fn media_is_found_by_the_name_it_came_from() {
    let mut lib = media_library();
    let a = media_add(&mut lib, "holiday.jpg", b"a").unwrap();
    let b = media_add(&mut lib, "holiday.png", b"b").unwrap();
    let c = media_add(&mut lib, "work.jpg", b"c").unwrap();
    assert_eq!(lib.get_media_by_filename("holiday.jpg".to_string()).unwrap(), vec![a, b]);
    assert_eq!(lib.get_media_by_filename("holiday".to_string()).unwrap(), vec![a, b]);
    assert_eq!(lib.get_media_by_filename("work.gif".to_string()).unwrap(), vec![c]);
    assert!(lib.get_media_by_filename("holi".to_string()).unwrap().is_empty());
}

#[test]
fn patch_writes_the_fields_in_place() {
    let mut lib = media_library();
    let id = media_add(&mut lib, "1.jpg", b"0123456789").unwrap();
    media_add(&mut lib, "2.jpg", b"xx").unwrap();
    let mut m = lib.get_media(id).unwrap();
    m.caption = Some("new caption".to_string());
    m.comment = Some("new comment".to_string());
    m.sub_kind = Some("photo".to_string());
    m.kind_addition = Some("raw".to_string());
    m.detail = Some(MediaDetail::new(
        ImageDetail::get_detail(4, 5, Some(ImageFormatName::Jpeg)).unwrap(),
        vec![("lens".to_string(), "50mm".to_string())],
    ));
    let action = lib.update_media(&mut m).unwrap();
    assert!(matches!(action, FileAction::Keep));
    let back = lib.get_media(id).unwrap();
    assert_eq!(back.caption, Some("new caption".to_string()));
    assert_eq!(back.comment, Some("new comment".to_string()));
    assert_eq!(back.sub_kind, Some("photo".to_string()));
    assert_eq!(back.kind_addition, Some("raw".to_string()));
    let detail = back.detail.unwrap();
    assert!(matches!(detail.detail(), TypesDetail::Image(_)));
    assert_eq!(detail.other(), &vec![("lens".to_string(), "50mm".to_string())]);
    assert_eq!(lib.get_summary().media_size, 12);
    let mut m = lib.get_media(id).unwrap();
    m.detail = None;
    m.filesize = 20;
    lib.update_media(&mut m).unwrap();
    assert!(lib.get_media(id).unwrap().detail.is_some());
    assert_eq!(lib.get_summary().media_size, 22);
    assert!(lib.verify_integrity());
}

#[test]
fn patch_of_the_name_moves_the_file() {
    let mut lib = media_library();
    let id = media_add(&mut lib, "1.jpg", b"0123456789").unwrap();
    let mut m = lib.get_media(id).unwrap();
    let old_path = m.filepath.clone();
    m.filename = "1.png".to_string();
    match lib.update_media(&mut m).unwrap() {
        FileAction::Rename(from, to) => {
            assert_eq!(from, old_path);
            assert_eq!(to, format!("{}.png", &old_path[..old_path.len() - 4]));
            assert_eq!(m.filepath, to);
        }
        other => panic!("unexpected: {:?}", other),
    }
    assert_eq!(lib.get_media(id).unwrap().filename, "1.png");
    let mut m = lib.get_media(id).unwrap();
    m.filename = "renamed.png".to_string();
    assert!(matches!(lib.update_media(&mut m).unwrap(), FileAction::Keep));
}

#[test]
fn hash_change_merges_into_the_owner_of_the_hash() {
    let mut lib = media_library();
    let mine = media_add(&mut lib, "mine.jpg", b"0123456789").unwrap();
    let other = media_add(&mut lib, "other.png", b"abc").unwrap();
    let series = lib.create_series("s".to_string(), None).unwrap();
    lib.add_to_series(other, &series, Some(1), false).unwrap();
    lib.add_to_series(mine, &series, Some(2), false).unwrap();
    let other_hash = lib.get_media_hash(other).unwrap();
    let mut m = lib.get_media(mine).unwrap();
    let my_old_path = m.filepath.clone();
    m.hash = other_hash.clone();
    m.caption = Some("merged".to_string());
    match lib.update_media(&mut m).unwrap() {
        FileAction::Remove(p) => assert_eq!(p, my_old_path),
        other => panic!("unexpected: {:?}", other),
    }
    assert_eq!(m.filename, "other.png");
    assert_eq!(m.filesize, 3);
    assert!(m.filepath.ends_with(".png"));
    assert!(!lib.is_media_existed(other));
    let back = lib.get_media(mine).unwrap();
    assert_eq!(back.id, mine);
    assert_eq!(back.hash, other_hash);
    assert_eq!(back.filename, "other.png");
    assert_eq!(back.filesize, 3);
    assert_eq!(back.caption, Some("merged".to_string()));
    assert_eq!(back.filepath, m.filepath);
    assert_eq!(lib.get_summary().media_count, 1);
    assert_eq!(lib.get_summary().media_size, 3);
    assert_eq!(lib.get_series_members(&series).len(), 1);
    assert_eq!(lib.get_media_id(&other_hash), Some(mine));
    assert!(lib.verify_integrity());
}

#[test]
fn hash_change_needs_an_owner_of_the_hash() {
    let mut lib = media_library();
    let id = media_add(&mut lib, "1.jpg", b"0123456789").unwrap();
    let mut m = lib.get_media(id).unwrap();
    let free = HashAlgo::BLAKE3.do_hash(b"nobody has this").unwrap();
    m.hash = free.clone();
    match lib.update_media(&mut m) {
        Err(Error::NotExists(msg)) => {
            assert_eq!(msg, format!("Media with Hash {} do not exists.", free))
        }
        other => panic!("unexpected: {:?}", other),
    }
    assert_eq!(lib.get_summary().media_count, 1);
    assert_eq!(lib.get_summary().media_size, 10);
    let mut ghost = lib.get_media(id).unwrap();
    ghost.id = 77;
    assert!(matches!(lib.update_media(&mut ghost), Err(Error::NotExists(_))));
}

#[test]
fn detailize_checks_that_the_media_exists() {
    let mut lib = media_library();
    let id = media_add(&mut lib, "1.jpg", b"0123456789").unwrap();
    let probe = ImageDetail::get_detail(1, 1, Some(ImageFormatName::Jpeg)).unwrap();
    assert!(lib.detailize(id, Some(probe)).is_ok());
    assert!(lib.get_media(id).unwrap().detail.is_none());
    assert!(matches!(lib.detailize(id + 1, None), Err(Error::NotExists(_))));
}

#[test]
fn metadata_says_what_the_library_holds() {
    let mut lib = media_library();
    media_add(&mut lib, "1.jpg", b"0123456789").unwrap();
    lib.create_series("s".to_string(), None).unwrap();
    let m = lib.metadata();
    assert_eq!(m.UUID, lib.get_uuid().to_string());
    assert_eq!(m.library_name, "test");
    assert_eq!(m.master_name, None);
    assert_eq!(m.media_folder, "Mass");
    assert_eq!(m.schema, "Default");
    assert_eq!(m.hash_algo, "BLAKE3");
    assert_eq!(m.summary, *lib.get_summary());
    assert_eq!(m.summary.media_count, 1);
    assert_eq!(m.summary.series_count, 1);
    let (m2, lock) = lib.close();
    assert_eq!(m2.summary.media_size, 10);
    assert!(lock.is_locked());
    assert_eq!(lock.location(), "/data/test.mlib");
}

#[test]
fn taken_path_is_already_exists() {
    match Library::create_precheck("/data/test.mlib", true) {
        Err(Error::AlreadyExists(p)) => assert_eq!(p, "/data/test.mlib"),
        other => panic!("unexpected: {:?}", other),
    }
    assert!(Library::create_precheck("/data/test.mlib", false).is_ok());
    let lock = Lock::acquire(LockType::FolderLock, "/data/test.mlib", true, true, false).unwrap();
    let r = Library::create(
        "/data/test.mlib".to_string(),
        "test".to_string(),
        None,
        None,
        LibraryFeatures::new(),
        Library::current_version(),
        true,
        lock,
    );
    match r {
        Err(Error::AlreadyExists(p)) => assert_eq!(p, "/data/test.mlib"),
        other => panic!("unexpected: {:?}", other.map(|_| ())),
    }
    assert_eq!(Library::current_version(), semver::Version::new(0, 1, 0));
}

#[test]
fn path_that_is_no_file_is_type_mismatch() {
    let mut lib = media_library();
    media_add(&mut lib, "1.jpg", b"first").unwrap();
    let before = *lib.get_summary();
    let mut file = media_file(&lib, "2.jpg", b"second", "/src");
    file.is_file = false;
    match lib.add_media(file, MediaType::Image, None, None, None, None) {
        Err(Error::TypeMismatch { val, expect, found }) => {
            assert_eq!(val, "/src/2.jpg");
            assert_eq!(expect, "Dir");
            assert_eq!(found, "File");
        }
        other => panic!("unexpected: {:?}", other),
    }
    assert_eq!(*lib.get_summary(), before);
    assert!(lib.get_media_by_filename("2.jpg".to_string()).unwrap().is_empty());
    let mut same = media_file(&lib, "1.jpg", b"first", "/other");
    same.is_file = false;
    assert!(matches!(
        lib.add_media(same, MediaType::Image, None, None, None, None),
        Err(Error::TypeMismatch { .. })
    ));
    assert_eq!(lib.get_media_by_filename("1.jpg".to_string()).unwrap(), vec![1]);
    assert!(lib.verify_integrity());
}

#[test]
fn preview_is_ordered_at_adding_where_the_feature_is_set() {
    let lock = Lock::acquire(LockType::FolderLock, "/data/test.mlib", true, true, false).unwrap();
    let mut lib = Library::create(
        "/data/test.mlib".to_string(),
        "test".to_string(),
        None,
        None,
        LibraryFeatures::new().with(LibraryFeature::GenerateThumbnailAtAdding),
        Library::current_version(),
        false,
        lock,
    )
    .unwrap();
    let file = media_file(&lib, "1.jpg", b"picture", "/src");
    let hash = file.hash.clone();
    let added = lib.add_media(file, MediaType::Image, None, None, None, None).unwrap();
    match added.preview {
        Some(shiromana::library::thumbnail::ThumbnailStep::Render {
            hash: h,
            filepath,
            width,
            height,
        }) => {
            assert_eq!(h, hash);
            assert_eq!(filepath, lib.get_media(added.id).unwrap().filepath);
            assert_eq!((width, height), (256, 256));
        }
        other => panic!("unexpected: {:?}", other),
    }
    assert!(lib.is_media_existed(added.id));
    let text = media_file(&lib, "notes.txt", b"words", "/src");
    let added = lib.add_media(text, MediaType::Text, None, None, None, None).unwrap();
    assert!(added.preview.is_none());
    lib.make_thumbnail_no_check(&hash, vec![1, 2, 3]).unwrap();
    lib.remove_media(1).unwrap();
    let again = media_file(&lib, "1.jpg", b"picture", "/src");
    let added = lib.add_media(again, MediaType::Image, None, None, None, None).unwrap();
    assert!(added.preview.is_none());
    let mut plain = media_library();
    let file = media_file(&plain, "1.jpg", b"picture", "/src");
    assert!(plain
        .add_media(file, MediaType::Image, None, None, None, None)
        .unwrap()
        .preview
        .is_none());
}
