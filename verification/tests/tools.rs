use shiromana::misc::tools::concat2;
use shiromana::misc::tools::concat3;
use shiromana::misc::tools::file_extension;
use shiromana::misc::tools::file_stem;
use shiromana::misc::tools::is_valid_filename;
use shiromana::misc::tools::make_shard_path;
use shiromana::misc::tools::str_eq;
use shiromana::misc::tools::u64_to_string;

#[test]
fn plain_names_are_valid() {
    assert!(is_valid_filename("medias"));
    assert!(is_valid_filename("Mass"));
    assert!(is_valid_filename("a"));
    assert!(is_valid_filename("with space.and.dots"));
    assert!(is_valid_filename("名前"));
}

#[test]
fn forbidden_characters_are_refused() {
    for bad in ["a/b", "a\\b", "a:b", "a*b", "a?b", "a\"b", "a'b", "a<b", "a>b", "a|b"] {
        assert!(!is_valid_filename(bad), "{}", bad);
    }
}

#[test]
fn length_of_a_name_is_between_1_and_120_characters() {
    assert!(!is_valid_filename(""));
    assert!(is_valid_filename(&"x".repeat(120)));
    assert!(!is_valid_filename(&"x".repeat(121)));
    assert!(is_valid_filename(&"é".repeat(120)));
    assert!(!is_valid_filename(&"é".repeat(121)));
}

#[test]
fn valid_names_are_those_the_pattern_matches() {
    let pattern = regex::Regex::new(r#"^[^\\/:\*\?"'<>|]{1,120}$"#).unwrap();
    let long = "y".repeat(121);
    let cases = [
        "", "a", "medias", "a/b", "a\\b", "x:y", "star*", "why?", "\"q\"", "it's", "<", ">", "|",
        "tab\there", "new\nline", "dot.", ".hidden", "名前", long.as_str(), "a b c",
    ];
    for case in cases {
        assert_eq!(is_valid_filename(case), pattern.find_iter(case).count() != 0, "{:?}", case);
    }
}

#[test]
fn numbers_are_rendered_in_decimal() {
    assert_eq!(u64_to_string(0), "0");
    assert_eq!(u64_to_string(7), "7");
    assert_eq!(u64_to_string(10), "10");
    assert_eq!(u64_to_string(1234567890), "1234567890");
    assert_eq!(u64_to_string(u64::MAX), "18446744073709551615");
}

#[test]
fn extension_is_what_follows_the_last_dot() {
    assert_eq!(file_extension("1.jpg"), "jpg");
    assert_eq!(file_extension("archive.tar.gz"), "gz");
    assert_eq!(file_extension("noext"), "");
    assert_eq!(file_extension(".hidden"), "");
    assert_eq!(file_extension("trailing."), "");
    assert_eq!(file_extension(""), "");
    assert_eq!(file_extension(".a.b"), "b");
}

#[test]
fn stem_is_what_precedes_the_last_dot() {
    assert_eq!(file_stem("1.jpg"), "1");
    assert_eq!(file_stem("archive.tar.gz"), "archive.tar");
    assert_eq!(file_stem("noext"), "noext");
    assert_eq!(file_stem(".hidden"), ".hidden");
    assert_eq!(file_stem("trailing."), "trailing");
    assert_eq!(file_stem(""), "");
}

#[test]
fn extension_and_stem_agree_with_std_paths() {
    for name in ["1.jpg", "archive.tar.gz", "noext", ".hidden", "trailing.", ".a.b", "a b.c d"] {
        let path = std::path::Path::new(name);
        let ext = path.extension().map(|e| e.to_str().unwrap()).unwrap_or("");
        let stem = path.file_stem().map(|e| e.to_str().unwrap()).unwrap_or("");
        assert_eq!(file_extension(name), ext, "{}", name);
        assert_eq!(file_stem(name), stem, "{}", name);
    }
}

#[test]
fn content_is_sharded_by_the_first_two_characters() {
    assert_eq!(make_shard_path("/lib/medias", "ABCDEF", "jpg"), "/lib/medias/AB/CDEF.jpg");
    assert_eq!(make_shard_path("/lib/medias", "ABCDEF", ""), "/lib/medias/AB/CDEF");
    assert_eq!(make_shard_path("m", "AB", "x"), "m/AB/.x");
}

#[test]
fn texts_are_joined_and_compared() {
    assert_eq!(concat2("ab", "cd"), "abcd");
    assert_eq!(concat3("a", "", "c"), "ac");
    assert!(str_eq("same", "same"));
    assert!(!str_eq("same", "Same"));
    assert!(str_eq("", ""));
}
