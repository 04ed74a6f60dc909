use shiromana::library::media_ops::AddedFile;
use shiromana::library::Library;
use shiromana::library::LibraryFeatures;
use shiromana::library::MediaSetType;
use shiromana::media::MediaType;
use shiromana::misc::tools::file_stem;
use shiromana::misc::Error;
use shiromana::misc::Lock;
use shiromana::misc::LockType;
use shiromana::misc::Uuid;

fn tag_library() -> Library {
    let lock = Lock::acquire(LockType::FolderLock, "/data/t.mlib", true, true, false).unwrap();
    Library::create(
        "/data/t.mlib".to_string(),
        "t".to_string(),
        None,
        None,
        LibraryFeatures::new(),
        semver::Version::new(0, 1, 0),
        false,
        lock,
    )
    .unwrap()
}

fn tag_media(lib: &mut Library, name: &str) -> u64 {
    let ingest = lib.ingest(name.as_bytes(), name);
    let file = AddedFile {
        is_file: true,
        hash: ingest.hash,
        filename: name.to_string(),
        filesize: name.len(),
        dest_exists: false,
        source_path: format!("/src/{}", name),
        source_stem: file_stem(name),
        time_add: 0,
    };
    lib.add_media(file, MediaType::Image, None, None, None, None).unwrap().id
}

#[test]
fn creating_a_tag_twice_gives_the_same_tag() {
    let mut lib = tag_library();
    let a = lib.create_tag("cat".to_string(), None).unwrap();
    let b = lib.create_tag("cat".to_string(), Some("again".to_string())).unwrap();
    assert_eq!(a, b);
    assert_eq!(lib.get_summary().tag_count, 1);
    let c = lib.create_set(MediaSetType::Tag, "dog".to_string(), None).unwrap();
    assert_ne!(a, c);
    assert_eq!(lib.get_summary().tag_count, 2);
    assert_eq!(lib.get_tag_by_caption("cat").unwrap(), a);
    assert_eq!(lib.get_set_by_name("dog".to_string()).unwrap(), (None, Some(c)));
    match lib.get_tag_by_caption("bird") {
        Err(Error::NotExists(m)) => assert_eq!(m, "Tag with caption bird not exists."),
        other => panic!("unexpected: {:?}", other),
    }
    assert!(lib.verify_integrity());
}

#[test]
fn tag_identifiers_are_unique() {
    let mut lib = tag_library();
    lib.insert_tag(Uuid(5), "a".to_string(), None).unwrap();
    assert!(matches!(lib.insert_tag(Uuid(5), "b".to_string(), None), Err(Error::AlreadyExists(_))));
    assert!(matches!(lib.insert_tag(Uuid(6), "a".to_string(), None), Err(Error::AlreadyExists(_))));
    assert_eq!(lib.get_summary().tag_count, 1);
    assert!(lib.is_tag_existed(&Uuid(5)));
    assert!(!lib.is_tag_existed(&Uuid(6)));
    assert!(lib.tag_exist_guard(&Uuid(5)).is_ok());
    match lib.tag_exist_guard(&Uuid(6)) {
        Err(Error::NotExists(m)) => {
            assert_eq!(m, format!("Tag with uuid {} not exists.", Uuid(6).to_string()))
        }
        other => panic!("unexpected: {:?}", other),
    }
}

#[test]
fn media_is_tagged_once() {
    let mut lib = tag_library();
    let id = tag_media(&mut lib, "1.jpg");
    let tag = lib.create_tag("cat".to_string(), None).unwrap();
    lib.add_tag(id, &tag).unwrap();
    assert_eq!(lib.tag_media_count(&tag).unwrap(), 1);
    assert!(matches!(lib.add_tag(id, &tag), Err(Error::AlreadyExists(_))));
    assert!(matches!(
        lib.add_to_set(MediaSetType::Tag, id, &tag, Some(3), false),
        Err(Error::AlreadyExists(_))
    ));
    assert_eq!(lib.tag_media_count(&tag).unwrap(), 1);
    assert_eq!(lib.get_media(id).unwrap().tag, vec![tag]);
}

#[test]
fn tagging_needs_tag_and_media() {
    let mut lib = tag_library();
    let id = tag_media(&mut lib, "1.jpg");
    let tag = lib.create_tag("cat".to_string(), None).unwrap();
    assert!(matches!(lib.add_tag(id, &Uuid(1)), Err(Error::NotExists(_))));
    assert!(matches!(lib.add_tag(id + 1, &tag), Err(Error::NotExists(_))));
    assert!(matches!(lib.remove_tag(id, &Uuid(1)), Err(Error::NotExists(_))));
    assert!(matches!(lib.remove_tag(id + 1, &tag), Err(Error::NotExists(_))));
    assert!(matches!(lib.tag_media_count(&Uuid(1)), Err(Error::NotExists(_))));
    assert_eq!(lib.tag_media_count(&tag).unwrap(), 0);
}

#[test]
fn removing_a_tag_that_is_not_carried_changes_nothing() {
    let mut lib = tag_library();
    let a = tag_media(&mut lib, "1.jpg");
    let b = tag_media(&mut lib, "2.jpg");
    let tag = lib.create_tag("cat".to_string(), None).unwrap();
    lib.add_tag(a, &tag).unwrap();
    lib.remove_tag(b, &tag).unwrap();
    assert_eq!(lib.tag_media_count(&tag).unwrap(), 1);
    lib.remove_from_set(MediaSetType::Tag, a, &tag).unwrap();
    assert_eq!(lib.tag_media_count(&tag).unwrap(), 0);
    assert!(lib.get_media(a).unwrap().tag.is_empty());
    assert!(lib.verify_integrity());
}

#[test]
fn deleting_a_tag_takes_it_off_every_media() {
    let mut lib = tag_library();
    let a = tag_media(&mut lib, "1.jpg");
    let b = tag_media(&mut lib, "2.jpg");
    let cat = lib.create_tag("cat".to_string(), None).unwrap();
    let dog = lib.create_tag("dog".to_string(), None).unwrap();
    lib.add_tag(a, &cat).unwrap();
    lib.add_tag(b, &cat).unwrap();
    lib.add_tag(a, &dog).unwrap();
    lib.delete_tag(cat).unwrap();
    assert_eq!(lib.get_summary().tag_count, 1);
    assert_eq!(lib.get_media(a).unwrap().tag, vec![dog]);
    assert!(lib.get_media(b).unwrap().tag.is_empty());
    assert!(matches!(lib.delete_tag(cat), Err(Error::NotExists(_))));
    assert!(matches!(lib.delete_set(MediaSetType::Tag, &cat), Err(Error::NotExists(_))));
    assert_eq!(lib.get_summary().tag_count, 1);
    assert!(lib.verify_integrity());
}

#[test]
fn series_and_tags_may_share_a_caption() {
    let mut lib = tag_library();
    let s = lib.create_set(MediaSetType::Series, "same".to_string(), None).unwrap();
    let t = lib.create_set(MediaSetType::Tag, "same".to_string(), None).unwrap();
    assert_eq!(lib.get_set_by_name("same".to_string()).unwrap(), (Some(s), Some(t)));
    assert_eq!(lib.get_summary().series_count, 1);
    assert_eq!(lib.get_summary().tag_count, 1);
}
