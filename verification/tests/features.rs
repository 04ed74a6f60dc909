use std::str::FromStr;

use shiromana::library::LibraryFeature;
use shiromana::library::LibraryFeatures;

#[test]
fn new_set_of_features_is_empty() {
    let f = LibraryFeatures::new();
    assert!(!f.contains(LibraryFeature::NoFeature));
    assert!(!f.contains(LibraryFeature::GenerateThumbnailAtAdding));
    assert_eq!(f.to_string(), "");
}

#[test]
fn features_are_added_and_removed() {
    let mut f = LibraryFeatures::new();
    f.add(LibraryFeature::GenerateThumbnailAtAdding);
    assert!(f.contains(LibraryFeature::GenerateThumbnailAtAdding));
    assert!(!f.contains(LibraryFeature::NoFeature));
    f.add(LibraryFeature::GenerateThumbnailAtAdding);
    assert!(f.contains(LibraryFeature::GenerateThumbnailAtAdding));
    f.remove(LibraryFeature::GenerateThumbnailAtAdding);
    assert!(!f.contains(LibraryFeature::GenerateThumbnailAtAdding));
    f.remove(LibraryFeature::NoFeature);
    assert!(!f.contains(LibraryFeature::NoFeature));
}

#[test]
fn with_adds_a_feature() {
    let f = LibraryFeatures::new().with(LibraryFeature::GenerateThumbnailAtAdding);
    assert!(f.contains(LibraryFeature::GenerateThumbnailAtAdding));
    let f = f.with(LibraryFeature::NoFeature);
    assert!(f.contains(LibraryFeature::NoFeature));
    assert!(f.contains(LibraryFeature::GenerateThumbnailAtAdding));
}

#[test]
fn feature_names() {
    assert_eq!(LibraryFeature::NoFeature.to_string(), "None");
    assert_eq!(
        LibraryFeature::GenerateThumbnailAtAdding.to_string(),
        "generate_thumbnail_at_adding"
    );
    assert_eq!(
        LibraryFeature::parse("generate_thumbnail_at_adding"),
        LibraryFeature::GenerateThumbnailAtAdding
    );
    assert_eq!(LibraryFeature::parse("none"), LibraryFeature::NoFeature);
    assert_eq!(LibraryFeature::parse("anything"), LibraryFeature::NoFeature);
    assert_eq!(
        LibraryFeature::from_str("generate_thumbnail_at_adding").unwrap(),
        LibraryFeature::GenerateThumbnailAtAdding
    );
}

#[test]
fn feature_lists_are_read() {
    let f = LibraryFeatures::parse("generate_thumbnail_at_adding");
    assert!(f.contains(LibraryFeature::GenerateThumbnailAtAdding));
    assert!(!f.contains(LibraryFeature::NoFeature));

    let f = LibraryFeatures::parse("None,generate_thumbnail_at_adding");
    assert!(f.contains(LibraryFeature::GenerateThumbnailAtAdding));
    assert!(f.contains(LibraryFeature::NoFeature));

    let f = LibraryFeatures::parse("");
    assert!(!f.contains(LibraryFeature::GenerateThumbnailAtAdding));
    assert!(f.contains(LibraryFeature::NoFeature));

    let f = LibraryFeatures::parse("generate_thumbnail_at_adding,");
    assert!(f.contains(LibraryFeature::GenerateThumbnailAtAdding));
    assert!(f.contains(LibraryFeature::NoFeature));

    let f = LibraryFeatures::from_str("a,b").unwrap();
    assert!(!f.contains(LibraryFeature::GenerateThumbnailAtAdding));
    assert!(f.contains(LibraryFeature::NoFeature));
}

#[test]
fn feature_lists_are_written_in_a_fixed_order() {
    let both = LibraryFeatures::new()
        .with(LibraryFeature::GenerateThumbnailAtAdding)
        .with(LibraryFeature::NoFeature);
    assert_eq!(both.to_string(), "None,generate_thumbnail_at_adding");
    assert_eq!(LibraryFeatures::new().with(LibraryFeature::NoFeature).to_string(), "None");
    assert_eq!(
        LibraryFeatures::new().with(LibraryFeature::GenerateThumbnailAtAdding).to_string(),
        "generate_thumbnail_at_adding"
    );
}

#[test]
fn written_feature_lists_read_back() {
    for f in [
        LibraryFeatures::new().with(LibraryFeature::NoFeature),
        LibraryFeatures::new().with(LibraryFeature::GenerateThumbnailAtAdding),
        LibraryFeatures::new()
            .with(LibraryFeature::GenerateThumbnailAtAdding)
            .with(LibraryFeature::NoFeature),
    ] {
        let back = LibraryFeatures::parse(&f.to_string());
        for feature in [LibraryFeature::NoFeature, LibraryFeature::GenerateThumbnailAtAdding] {
            assert_eq!(back.contains(feature), f.contains(feature));
        }
    }
}
