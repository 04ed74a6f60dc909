use std::str::FromStr;

use shiromana::media::AddingMediaParam;
use shiromana::media::ImageDetail;
use shiromana::media::ImageFormatName;
use shiromana::media::Media;
use shiromana::media::MediaDetail;
use shiromana::media::MediaType;
use shiromana::media::MediaUpdateKey;
use shiromana::media::TextDetail;
use shiromana::media::TypesDetail;
use shiromana::misc::Error;
use shiromana::misc::Uuid;

fn media_of_kind(kind: MediaType) -> Media {
    Media {
        id: 1,
        library_uuid: Uuid(9),
        hash: "AB".to_string(),
        filename: "1.jpg".to_string(),
        filepath: "/lib/medias/AB/.jpg".to_string(),
        filesize: 10,
        caption: None,
        time_add: 0,
        kind,
        sub_kind: None,
        kind_addition: None,
        series: vec![],
        tag: vec![],
        comment: None,
        detail: None,
    }
}

#[test]
fn type_ids_are_fixed() {
    assert_eq!(MediaType::Image.get_typeid(), 1);
    assert_eq!(MediaType::Text.get_typeid(), 2);
    assert_eq!(MediaType::Audio.get_typeid(), 3);
    assert_eq!(MediaType::Video.get_typeid(), 4);
    assert_eq!(MediaType::URL.get_typeid(), 5);
    assert_eq!(MediaType::Other.get_typeid(), 10);
    assert_eq!(MediaType::Unset.get_typeid(), 99999);
}

#[test]
fn type_ids_round_trip() {
    for kind in [
        MediaType::Image,
        MediaType::Text,
        MediaType::Audio,
        MediaType::Video,
        MediaType::URL,
        MediaType::Other,
        MediaType::Unset,
    ] {
        assert_eq!(MediaType::from_typeid(kind.get_typeid()).unwrap(), kind);
    }
}

#[test]
fn unknown_type_id_is_type_mismatch() {
    match MediaType::from_typeid(6) {
        Err(Error::TypeMismatch { val, expect, found }) => {
            assert_eq!(val, "6");
            assert_eq!(expect, "valid type id");
            assert_eq!(found, "invalid type id");
        }
        other => panic!("unexpected: {:?}", other),
    }
    assert!(MediaType::from_typeid(0).is_err());
    assert!(MediaType::from_typeid(99998).is_err());
}

#[test]
fn only_the_unset_type_is_none() {
    assert!(MediaType::Unset.is_none());
    assert!(!MediaType::Unset.is_some());
    assert!(MediaType::Image.is_some());
    assert!(MediaType::Other.is_some());
    assert!(!MediaType::URL.is_none());
}

#[test]
fn type_names_are_read_in_any_case() {
    assert_eq!(MediaType::parse("image"), MediaType::Image);
    assert_eq!(MediaType::parse("IMAGE"), MediaType::Image);
    assert_eq!(MediaType::parse("Text"), MediaType::Text);
    assert_eq!(MediaType::parse("audio"), MediaType::Audio);
    assert_eq!(MediaType::parse("Video"), MediaType::Video);
    assert_eq!(MediaType::parse("URL"), MediaType::URL);
    assert_eq!(MediaType::parse("other"), MediaType::Other);
    assert_eq!(MediaType::parse("None"), MediaType::Unset);
    assert_eq!(MediaType::parse("something"), MediaType::Other);
    assert_eq!(MediaType::from_str("iMaGe").unwrap(), MediaType::Image);
    assert_eq!(MediaType::from_lowercase("IMAGE"), MediaType::Other);
}

#[test]
fn type_names_are_displayed() {
    assert_eq!(MediaType::Image.to_string(), "Image");
    assert_eq!(MediaType::URL.to_string(), "URL");
    assert_eq!(MediaType::Unset.to_string(), "None");
}

#[test]
fn update_keys_name_their_columns() {
    assert_eq!(MediaUpdateKey::Filename.to_key(), "filename");
    assert_eq!(MediaUpdateKey::Caption.to_key(), "caption");
    assert_eq!(MediaUpdateKey::SubType.to_key(), "sub_type");
    assert_eq!(MediaUpdateKey::TypeAddition.to_key(), "type_addition");
    assert_eq!(MediaUpdateKey::Comment.to_key(), "comment");
}

#[test]
fn default_parameters_are_empty() {
    let p = AddingMediaParam::default();
    assert!(p.caption.is_none());
    assert_eq!(p.kind, MediaType::Unset);
    assert!(p.sub_kind.is_none());
    assert!(p.kind_addition.is_none());
    assert!(p.comment.is_none());
}

#[test]
fn image_detail_names_the_format() {
    match ImageDetail::get_detail(640, 480, Some(ImageFormatName::Jpeg)).unwrap() {
        TypesDetail::Image(d) => {
            assert_eq!(d.width, 640);
            assert_eq!(d.height, 480);
            assert_eq!(d.format, "JPG");
        }
        other => panic!("unexpected: {:?}", other),
    }
    assert_eq!(ImageFormatName::Png.to_string(), "PNG");
    assert_eq!(ImageFormatName::Gif.to_string(), "GIF");
    assert_eq!(ImageFormatName::WebP.to_string(), "WEBP");
    assert_eq!(ImageFormatName::Tiff.to_string(), "TIFF");
    assert_eq!(ImageFormatName::Bmp.to_string(), "BMP");
    assert_eq!(ImageFormatName::Ico.to_string(), "ICO");
    assert_eq!(ImageFormatName::Other.to_string(), "OTHER");
}

#[test]
fn image_of_unknown_format_is_a_decode_error() {
    match ImageDetail::get_detail(1, 1, None) {
        Err(Error::MediaDecode(m)) => assert_eq!(m, "Unknown Image format."),
        other => panic!("unexpected: {:?}", other),
    }
}

#[test]
fn detailize_attaches_a_probe_of_the_same_type() {
    let probe = ImageDetail::get_detail(2, 3, Some(ImageFormatName::Png)).unwrap();
    let other = vec![("camera".to_string(), "x100".to_string())];
    let m = media_of_kind(MediaType::Image).detailize(Some(probe), Some(other));
    let d = m.detail.unwrap();
    assert!(matches!(d.detail(), TypesDetail::Image(_)));
    assert_eq!(d.other(), &vec![("camera".to_string(), "x100".to_string())]);
    assert_eq!(d.detail().get_kind(), MediaType::Image);
}

#[test]
fn detailize_leaves_the_item_without_a_fitting_probe() {
    let m = media_of_kind(MediaType::Image).detailize(None, None);
    assert!(m.detail.is_none());
    let wrong = TypesDetail::Text(TextDetail { words: 3, language: "en".to_string() });
    let m = media_of_kind(MediaType::Image).detailize(Some(wrong), None);
    assert!(m.detail.is_none());
    let probe = ImageDetail::get_detail(2, 3, Some(ImageFormatName::Png)).unwrap();
    let m = media_of_kind(MediaType::Unset).detailize(Some(probe), None);
    assert!(m.detail.is_none());
}

#[test]
fn detailize_of_other_needs_no_probe() {
    let m = media_of_kind(MediaType::Other).detailize(None, None);
    let d = m.detail.unwrap();
    assert!(matches!(d.detail(), TypesDetail::Other));
    assert!(d.other().is_empty());
}

#[test]
fn only_images_have_a_thumbnail_source() {
    let image = media_of_kind(MediaType::Image);
    assert_eq!(image.get_thumbnail().unwrap(), "/lib/medias/AB/.jpg");
    for kind in [MediaType::Text, MediaType::Audio, MediaType::Video, MediaType::URL,
        MediaType::Other, MediaType::Unset]
    {
        assert!(matches!(media_of_kind(kind).get_thumbnail(), Err(Error::NoThumbnail)));
    }
}

#[test]
fn detail_copies_hold_the_same() {
    let d = MediaDetail::new(
        TypesDetail::Text(TextDetail { words: 5, language: "de".to_string() }),
        vec![("k".to_string(), "v".to_string())],
    );
    let c = d.duplicate();
    assert_eq!(c.other(), d.other());
    match c.into_parts() {
        (TypesDetail::Text(t), other) => {
            assert_eq!(t.words, 5);
            assert_eq!(t.language, "de");
            assert_eq!(other, vec![("k".to_string(), "v".to_string())]);
        }
        other => panic!("unexpected: {:?}", other),
    }
}

#[test]
fn later_value_under_a_key_replaces_the_earlier() {
    let pair = |k: &str, v: &str| (k.to_string(), v.to_string());
    let d = MediaDetail::new(
        TypesDetail::Other,
        vec![pair("a", "1"), pair("b", "2"), pair("a", "3"), pair("c", "4"), pair("b", "5")],
    );
    assert_eq!(d.other(), &vec![pair("a", "3"), pair("b", "5"), pair("c", "4")]);
    assert_eq!(
        shiromana::media::detail::merge_pairs(&vec![pair("x", "1"), pair("x", "2")]),
        vec![pair("x", "2")]
    );
    let as_map: std::collections::HashMap<String, String> =
        vec![pair("a", "1"), pair("b", "2"), pair("a", "3")].into_iter().collect();
    let merged = MediaDetail::new(
        TypesDetail::Other,
        vec![pair("a", "1"), pair("b", "2"), pair("a", "3")],
    );
    assert_eq!(merged.other().len(), as_map.len());
    for (k, v) in merged.other() {
        assert_eq!(as_map.get(k), Some(v));
    }
}

#[test]
fn type_converts_into_its_id() {
    let id: u32 = MediaType::Other.into();
    assert_eq!(id, 10);
    assert_eq!(u32::from(MediaType::Image), 1);
}
