use shiromana::library::media_ops::AddedFile;
use shiromana::library::Library;
use shiromana::library::LibraryFeatures;
use shiromana::library::MediaSetType;
use shiromana::library::SeriesRef;
use shiromana::media::MediaType;
use shiromana::media::SeriesNo;
use shiromana::misc::tools::file_stem;
use shiromana::misc::Error;
use shiromana::misc::Lock;
use shiromana::misc::LockType;
use shiromana::misc::Uuid;

fn series_library() -> Library {
    let lock = Lock::acquire(LockType::FolderLock, "/data/s.mlib", true, true, false).unwrap();
    Library::create(
        "/data/s.mlib".to_string(),
        "s".to_string(),
        None,
        None,
        LibraryFeatures::new(),
        semver::Version::new(0, 1, 0),
        false,
        lock,
    )
    .unwrap()
}

fn series_media(lib: &mut Library, name: &str) -> u64 {
    let ingest = lib.ingest(name.as_bytes(), name);
    let file = AddedFile {
        is_file: true,
        hash: ingest.hash,
        filename: name.to_string(),
        filesize: name.len(),
        dest_exists: false,
        source_path: format!("/src/{}", name),
        source_stem: file_stem(name),
        time_add: 0,
    };
    lib.add_media(file, MediaType::Image, None, None, None, None).unwrap().id
}

fn ordinal_of(lib: &Library, series: &Uuid, id: u64) -> SeriesNo {
    let members = lib.get_series_members(series);
    members.iter().find(|r| r.media_id == id).unwrap().series_no
}

fn four_media(lib: &mut Library) -> [u64; 4] {
    [
        series_media(lib, "1.jpg"),
        series_media(lib, "2.jpg"),
        series_media(lib, "3.jpg"),
        series_media(lib, "4.jpg"),
    ]
}

#[test]
fn series_are_created_and_deleted() {
    let mut lib = series_library();
    let a = lib.create_series("first".to_string(), Some("c".to_string())).unwrap();
    let b = lib.create_series("second".to_string(), None).unwrap();
    assert_ne!(a, b);
    assert_eq!(lib.get_summary().series_count, 2);
    assert_eq!(lib.get_series_by_name("first".to_string()).unwrap(), (Some(a), None));
    assert_eq!(lib.get_series_by_name("none".to_string()).unwrap(), (None, None));
    lib.delete_series(&a).unwrap();
    assert_eq!(lib.get_summary().series_count, 1);
    assert_eq!(lib.get_series_by_name("first".to_string()).unwrap(), (None, None));
    match lib.delete_series(&a) {
        Err(Error::NotExists(m)) => {
            assert_eq!(m, format!("Series with uuid {} not exists.", a.to_string()))
        }
        other => panic!("unexpected: {:?}", other),
    }
    assert_eq!(lib.get_summary().series_count, 1);
    assert!(lib.verify_integrity());
}

#[test]
fn series_captions_are_unique() {
    let mut lib = series_library();
    lib.create_series("same".to_string(), None).unwrap();
    match lib.create_series("same".to_string(), None) {
        Err(Error::AlreadyExists(m)) => assert_eq!(m, "same"),
        other => panic!("unexpected: {:?}", other),
    }
    assert_eq!(lib.get_summary().series_count, 1);
    match lib.insert_series(Uuid(1), "same".to_string(), None) {
        Err(Error::AlreadyExists(m)) => assert_eq!(m, "same"),
        other => panic!("unexpected: {:?}", other),
    }
    lib.insert_series(Uuid(1), "other".to_string(), None).unwrap();
    match lib.insert_series(Uuid(1), "third".to_string(), None) {
        Err(Error::AlreadyExists(m)) => assert_eq!(m, Uuid(1).to_string()),
        other => panic!("unexpected: {:?}", other),
    }
    assert_eq!(lib.get_summary().series_count, 2);
}

#[test]
fn next_ordinal_is_one_past_the_largest() {
    let mut lib = series_library();
    let id = series_media(&mut lib, "1.jpg");
    let s = lib.create_series("s".to_string(), None).unwrap();
    assert_eq!(lib.get_next_no_in_series(&s).unwrap(), Some(1));
    lib.add_to_series(id, &s, Some(9), false).unwrap();
    assert_eq!(lib.get_next_no_in_series(&s).unwrap(), Some(10));
    assert!(matches!(lib.get_next_no_in_series(&Uuid(42)), Err(Error::NotExists(_))));
}

#[test]
fn next_ordinal_ends_at_the_largest_number() {
    let mut lib = series_library();
    let [a, b, _, _] = four_media(&mut lib);
    let s = lib.create_series("s".to_string(), None).unwrap();
    lib.add_to_series(a, &s, Some(u64::MAX), false).unwrap();
    assert_eq!(lib.get_next_no_in_series(&s).unwrap(), None);
    match lib.add_to_series(b, &s, None, false) {
        Err(Error::Other(m)) => assert_eq!(m, "Library is full."),
        other => panic!("unexpected: {:?}", other),
    }
    lib.add_to_series(b, &s, None, true).unwrap();
    assert_eq!(ordinal_of(&lib, &s, b), SeriesNo::Unordered);
}

#[test]
fn members_join_at_the_given_or_the_next_ordinal() {
    let mut lib = series_library();
    let [a, b, c, d] = four_media(&mut lib);
    let s = lib.create_series("s".to_string(), None).unwrap();
    lib.add_to_series(a, &s, None, false).unwrap();
    assert_eq!(ordinal_of(&lib, &s, a), SeriesNo::Ordered(1));
    lib.add_to_series(b, &s, Some(7), false).unwrap();
    assert_eq!(ordinal_of(&lib, &s, b), SeriesNo::Ordered(7));
    lib.add_to_series(c, &s, None, false).unwrap();
    assert_eq!(ordinal_of(&lib, &s, c), SeriesNo::Ordered(8));
    lib.add_to_series(d, &s, None, true).unwrap();
    assert_eq!(ordinal_of(&lib, &s, d), SeriesNo::Unordered);
    assert_eq!(lib.series_media_count(&s).unwrap(), 4);
    assert_eq!(lib.get_next_no_in_series(&s).unwrap(), Some(9));
    assert!(lib.verify_integrity());
}

#[test]
fn occupied_ordinal_is_refused_and_nothing_changes() {
    let mut lib = series_library();
    let [a, b, _, _] = four_media(&mut lib);
    let s = lib.create_series("s".to_string(), None).unwrap();
    lib.add_to_series(a, &s, Some(5), false).unwrap();
    let before: Vec<SeriesRef> = lib.get_series_members(&s);
    match lib.add_to_series(b, &s, Some(5), false) {
        Err(Error::Occupied(m)) => assert_eq!(
            m,
            format!("occupied when add media(id {}) to series {} with no 5", b, s.to_string())
        ),
        other => panic!("unexpected: {:?}", other),
    }
    assert_eq!(lib.get_series_members(&s), before);
    assert!(matches!(lib.add_to_series(999, &s, Some(5), true), Err(Error::Occupied(_))));
    assert!(matches!(
        lib.add_to_set(MediaSetType::Series, b, &s, Some(5), false),
        Err(Error::Occupied(_))
    ));
    assert_eq!(lib.get_series_members(&s), before);
    assert_eq!(lib.series_media_count(&s).unwrap(), 1);
}

#[test]
fn joining_needs_series_and_media_and_happens_once() {
    let mut lib = series_library();
    let [a, _, _, _] = four_media(&mut lib);
    let s = lib.create_series("s".to_string(), None).unwrap();
    assert!(matches!(lib.add_to_series(a, &Uuid(3), Some(1), false), Err(Error::NotExists(_))));
    match lib.add_to_series(99, &s, Some(1), false) {
        Err(Error::NotExists(m)) => assert_eq!(m, "Media with id 99 not exists."),
        other => panic!("unexpected: {:?}", other),
    }
    lib.add_to_series(a, &s, Some(1), false).unwrap();
    assert!(matches!(lib.add_to_series(a, &s, Some(2), false), Err(Error::AlreadyExists(_))));
    assert!(matches!(lib.add_to_series(a, &s, Some(1), false), Err(Error::AlreadyExists(_))));
    assert_eq!(lib.series_media_count(&s).unwrap(), 1);
}

#[test]
fn members_leave_a_series() {
    let mut lib = series_library();
    let [a, b, _, _] = four_media(&mut lib);
    let s = lib.create_series("s".to_string(), None).unwrap();
    lib.add_to_series(a, &s, Some(1), false).unwrap();
    lib.add_to_series(b, &s, Some(2), false).unwrap();
    lib.remove_from_series(a, &s).unwrap();
    assert_eq!(lib.series_media_count(&s).unwrap(), 1);
    match lib.remove_from_series(a, &s) {
        Err(Error::NotIn { a: what, b: wherein }) => {
            assert_eq!(what, format!("Media with id {}", a));
            assert_eq!(wherein, format!("series {}", s.to_string()));
        }
        other => panic!("unexpected: {:?}", other),
    }
    lib.add_to_series(a, &s, Some(1), false).unwrap();
    assert_eq!(lib.series_media_count(&s).unwrap(), 2);
    assert!(lib.verify_integrity());
}

#[test]
fn free_ordinal_is_taken_in_place() {
    let mut lib = series_library();
    let [a, b, _, _] = four_media(&mut lib);
    let s = lib.create_series("s".to_string(), None).unwrap();
    lib.add_to_series(a, &s, Some(1), false).unwrap();
    lib.add_to_series(b, &s, Some(2), false).unwrap();
    lib.update_series_no(a, &s, 10, false).unwrap();
    assert_eq!(ordinal_of(&lib, &s, a), SeriesNo::Ordered(10));
    assert_eq!(ordinal_of(&lib, &s, b), SeriesNo::Ordered(2));
    lib.update_series_no(a, &s, 10, false).unwrap();
    assert_eq!(ordinal_of(&lib, &s, a), SeriesNo::Ordered(10));
}

#[test]
fn occupied_ordinal_needs_insert() {
    let mut lib = series_library();
    let [a, b, c, d] = four_media(&mut lib);
    let s = lib.create_series("s".to_string(), None).unwrap();
    lib.add_to_series(a, &s, Some(1), false).unwrap();
    lib.add_to_series(b, &s, Some(2), false).unwrap();
    lib.add_to_series(c, &s, Some(3), false).unwrap();
    lib.add_to_series(d, &s, Some(9), false).unwrap();
    assert!(matches!(lib.update_series_no(d, &s, 2, false), Err(Error::Occupied(_))));
    assert_eq!(ordinal_of(&lib, &s, d), SeriesNo::Ordered(9));
    lib.update_series_no(d, &s, 2, true).unwrap();
    assert_eq!(ordinal_of(&lib, &s, a), SeriesNo::Ordered(1));
    assert_eq!(ordinal_of(&lib, &s, d), SeriesNo::Ordered(2));
    assert_eq!(ordinal_of(&lib, &s, b), SeriesNo::Ordered(3));
    assert_eq!(ordinal_of(&lib, &s, c), SeriesNo::Ordered(4));
    assert!(lib.verify_integrity());
}

#[test]
fn insert_does_not_touch_other_series() {
    let mut lib = series_library();
    let [a, b, _, _] = four_media(&mut lib);
    let s = lib.create_series("s".to_string(), None).unwrap();
    let t = lib.create_series("t".to_string(), None).unwrap();
    lib.add_to_series(a, &s, Some(1), false).unwrap();
    lib.add_to_series(b, &s, Some(2), false).unwrap();
    lib.add_to_series(a, &t, Some(1), false).unwrap();
    lib.add_to_series(b, &t, Some(2), false).unwrap();
    lib.update_series_no(b, &s, 1, true).unwrap();
    assert_eq!(ordinal_of(&lib, &s, b), SeriesNo::Ordered(1));
    assert_eq!(ordinal_of(&lib, &s, a), SeriesNo::Ordered(2));
    assert_eq!(ordinal_of(&lib, &t, a), SeriesNo::Ordered(1));
    assert_eq!(ordinal_of(&lib, &t, b), SeriesNo::Ordered(2));
}

#[test]
fn insert_fails_where_a_member_cannot_move_up() {
    let mut lib = series_library();
    let [a, b, c, _] = four_media(&mut lib);
    let s = lib.create_series("s".to_string(), None).unwrap();
    lib.add_to_series(a, &s, Some(5), false).unwrap();
    lib.add_to_series(b, &s, Some(u64::MAX), false).unwrap();
    lib.add_to_series(c, &s, Some(1), false).unwrap();
    assert!(matches!(lib.update_series_no(c, &s, 5, true), Err(Error::Other(_))));
    assert_eq!(ordinal_of(&lib, &s, a), SeriesNo::Ordered(5));
    assert_eq!(ordinal_of(&lib, &s, c), SeriesNo::Ordered(1));
}

#[test]
fn only_members_can_be_moved() {
    let mut lib = series_library();
    let [a, b, _, _] = four_media(&mut lib);
    let s = lib.create_series("s".to_string(), None).unwrap();
    lib.add_to_series(a, &s, Some(1), false).unwrap();
    assert!(matches!(lib.update_series_no(b, &s, 1, true), Err(Error::NotIn { .. })));
    assert!(matches!(lib.update_series_no(b, &s, 4, false), Err(Error::NotIn { .. })));
    assert_eq!(ordinal_of(&lib, &s, a), SeriesNo::Ordered(1));
}

#[test]
fn trim_renumbers_from_one_in_the_old_order() {
    let mut lib = series_library();
    let [a, b, c, d] = four_media(&mut lib);
    let s = lib.create_series("s".to_string(), None).unwrap();
    lib.add_to_series(a, &s, Some(9), false).unwrap();
    lib.add_to_series(b, &s, Some(2), false).unwrap();
    lib.add_to_series(c, &s, Some(4), false).unwrap();
    lib.add_to_series(d, &s, Some(6), false).unwrap();
    lib.trim_series_no(&s).unwrap();
    assert_eq!(ordinal_of(&lib, &s, b), SeriesNo::Ordered(1));
    assert_eq!(ordinal_of(&lib, &s, c), SeriesNo::Ordered(2));
    assert_eq!(ordinal_of(&lib, &s, d), SeriesNo::Ordered(3));
    assert_eq!(ordinal_of(&lib, &s, a), SeriesNo::Ordered(4));
    let once = lib.get_series_members(&s);
    lib.trim_series_no(&s).unwrap();
    assert_eq!(lib.get_series_members(&s), once);
    assert_eq!(lib.get_next_no_in_series(&s).unwrap(), Some(5));
    assert!(lib.verify_integrity());
}

#[test]
fn trim_leaves_unordered_members_and_other_series() {
    let mut lib = series_library();
    let [a, b, c, _] = four_media(&mut lib);
    let s = lib.create_series("s".to_string(), None).unwrap();
    let t = lib.create_series("t".to_string(), None).unwrap();
    lib.add_to_series(a, &s, Some(0), false).unwrap();
    lib.add_to_series(b, &s, None, true).unwrap();
    lib.add_to_series(c, &s, Some(100), false).unwrap();
    lib.add_to_series(a, &t, Some(50), false).unwrap();
    lib.trim_series_no(&s).unwrap();
    assert_eq!(ordinal_of(&lib, &s, a), SeriesNo::Ordered(1));
    assert_eq!(ordinal_of(&lib, &s, b), SeriesNo::Unordered);
    assert_eq!(ordinal_of(&lib, &s, c), SeriesNo::Ordered(2));
    assert_eq!(ordinal_of(&lib, &t, a), SeriesNo::Ordered(50));
}

#[test]
fn trim_of_an_empty_or_unknown_series() {
    let mut lib = series_library();
    let s = lib.create_series("s".to_string(), None).unwrap();
    lib.trim_series_no(&s).unwrap();
    assert!(lib.get_series_members(&s).is_empty());
    assert!(matches!(lib.trim_series_no(&Uuid(1)), Err(Error::NotExists(_))));
}

#[test]
fn deleting_a_series_drops_its_memberships() {
    let mut lib = series_library();
    let [a, b, _, _] = four_media(&mut lib);
    let s = lib.create_series("s".to_string(), None).unwrap();
    let t = lib.create_series("t".to_string(), None).unwrap();
    lib.add_to_series(a, &s, Some(1), false).unwrap();
    lib.add_to_series(b, &s, Some(2), false).unwrap();
    lib.add_to_series(a, &t, Some(1), false).unwrap();
    lib.delete_set(MediaSetType::Series, &s).unwrap();
    assert!(lib.get_series_members(&s).is_empty());
    assert_eq!(lib.get_series_members(&t).len(), 1);
    let m = lib.get_media(a).unwrap();
    assert_eq!(m.series.len(), 1);
    assert_eq!(m.series[0].uuid, t);
    assert!(lib.verify_integrity());
}

#[test]
fn removing_a_media_drops_its_memberships() {
    let mut lib = series_library();
    let [a, b, _, _] = four_media(&mut lib);
    let s = lib.create_series("s".to_string(), None).unwrap();
    let tag = lib.create_tag("t".to_string(), None).unwrap();
    lib.add_to_series(a, &s, Some(1), false).unwrap();
    lib.add_to_series(b, &s, Some(2), false).unwrap();
    lib.add_tag(a, &tag).unwrap();
    lib.remove_media(a).unwrap();
    assert_eq!(lib.series_media_count(&s).unwrap(), 1);
    assert_eq!(lib.tag_media_count(&tag).unwrap(), 0);
    assert_eq!(lib.get_series_members(&s)[0].media_id, b);
    assert!(lib.verify_integrity());
}
