use vstd::prelude::*;
use vstd::string::StringExecFns;
use crate::misc::tools::lowercase;
use crate::misc::tools::str_eq;
use crate::misc::tools::to_lowercase;
use crate::misc::tools::u64_to_string;
use crate::misc::tools::decimal;
use crate::misc::Error;
use super::MediaType;
use super::MediaUpdateKey;

verus! {

impl MediaUpdateKey {
    /// The catalog column that the key stands for.
    pub open spec fn column(&self) -> Seq<char> {
        match self {
            MediaUpdateKey::Filename => "filename"@,
            MediaUpdateKey::Caption => "caption"@,
            MediaUpdateKey::SubType => "sub_type"@,
            MediaUpdateKey::TypeAddition => "type_addition"@,
            MediaUpdateKey::Comment => "comment"@,
        }
    }

    pub fn to_key(&self) -> (r: String)
        ensures
            r@ == self.column(),
    {
        match self {
            MediaUpdateKey::Filename => String::from_str("filename"),
            MediaUpdateKey::Caption => String::from_str("caption"),
            MediaUpdateKey::SubType => String::from_str("sub_type"),
            MediaUpdateKey::TypeAddition => String::from_str("type_addition"),
            MediaUpdateKey::Comment => String::from_str("comment"),
        }
    }
}

impl MediaType {
    /// The number under which the catalog stores the type.
    pub open spec fn typeid(&self) -> u32 {
        match self {
            MediaType::Image => 1,
            MediaType::Text => 2,
            MediaType::Audio => 3,
            MediaType::Video => 4,
            MediaType::URL => 5,
            MediaType::Other => 10,
            MediaType::Unset => 99999,
        }
    }

    /// The type that the catalog stores under `v`, if any.
    pub open spec fn of_typeid(v: u32) -> Option<MediaType> {
        if v == 1 {
            Some(MediaType::Image)
        } else if v == 2 {
            Some(MediaType::Text)
        } else if v == 3 {
            Some(MediaType::Audio)
        } else if v == 4 {
            Some(MediaType::Video)
        } else if v == 5 {
            Some(MediaType::URL)
        } else if v == 10 {
            Some(MediaType::Other)
        } else if v == 99999 {
            Some(MediaType::Unset)
        } else {
            None
        }
    }

    /// The type's display name.
    pub open spec fn label(&self) -> Seq<char> {
        match self {
            MediaType::Image => "Image"@,
            MediaType::Text => "Text"@,
            MediaType::Audio => "Audio"@,
            MediaType::Video => "Video"@,
            MediaType::URL => "URL"@,
            MediaType::Other => "Other"@,
            MediaType::Unset => "None"@,
        }
    }

    /// The type that a lower-case name stands for; an unknown name is `Other`.
    pub open spec fn of_lowercase(name: Seq<char>) -> MediaType {
        if name == "image"@ {
            MediaType::Image
        } else if name == "text"@ {
            MediaType::Text
        } else if name == "audio"@ {
            MediaType::Audio
        } else if name == "video"@ {
            MediaType::Video
        } else if name == "url"@ {
            MediaType::URL
        } else if name == "other"@ {
            MediaType::Other
        } else if name == "none"@ {
            MediaType::Unset
        } else {
            MediaType::Other
        }
    }

    pub fn get_typeid(&self) -> (r: u32)
        ensures
            r == self.typeid(),
    {
        match self {
            MediaType::Image => 1,
            MediaType::Text => 2,
            MediaType::Audio => 3,
            MediaType::Video => 4,
            MediaType::URL => 5,
            MediaType::Other => 10,
            MediaType::Unset => 99999,
        }
    }

    /// Reads a stored type number; an unknown number is a `TypeMismatch`
    /// that names it.
    pub fn from_typeid(v: u32) -> (r: Result<MediaType, Error>)
        ensures
            match MediaType::of_typeid(v) {
                Some(t) => r == Ok::<MediaType, Error>(t),
                None => r matches Err(Error::TypeMismatch { val, expect, found }) && val@
                    == decimal(v as nat) && expect@ == "valid type id"@ && found@
                    == "invalid type id"@,
            },
    {
        if v == 1 {
            Ok(MediaType::Image)
        } else if v == 2 {
            Ok(MediaType::Text)
        } else if v == 3 {
            Ok(MediaType::Audio)
        } else if v == 4 {
            Ok(MediaType::Video)
        } else if v == 5 {
            Ok(MediaType::URL)
        } else if v == 10 {
            Ok(MediaType::Other)
        } else if v == 99999 {
            Ok(MediaType::Unset)
        } else {
            Err(
                Error::TypeMismatch {
                    val: u64_to_string(v as u64),
                    expect: String::from_str("valid type id"),
                    found: String::from_str("invalid type id"),
                },
            )
        }
    }

    pub fn is_some(&self) -> (r: bool)
        ensures
            r == (*self != MediaType::Unset),
    {
        match self {
            MediaType::Unset => false,
            _ => true,
        }
    }

    pub fn is_none(&self) -> (r: bool)
        ensures
            r == (*self == MediaType::Unset),
    {
        !self.is_some()
    }

    /// The type's display name.
    pub fn to_string(&self) -> (r: String)
        ensures
            r@ == self.label(),
    {
        match self {
            MediaType::Image => String::from_str("Image"),
            MediaType::Text => String::from_str("Text"),
            MediaType::Audio => String::from_str("Audio"),
            MediaType::Video => String::from_str("Video"),
            MediaType::URL => String::from_str("URL"),
            MediaType::Other => String::from_str("Other"),
            MediaType::Unset => String::from_str("None"),
        }
    }

    /// The type that the lower-case name `name` stands for.
    pub fn from_lowercase(name: &str) -> (r: MediaType)
        ensures
            r == MediaType::of_lowercase(name@),
    {
        if str_eq(name, "image") {
            MediaType::Image
        } else if str_eq(name, "text") {
            MediaType::Text
        } else if str_eq(name, "audio") {
            MediaType::Audio
        } else if str_eq(name, "video") {
            MediaType::Video
        } else if str_eq(name, "url") {
            MediaType::URL
        } else if str_eq(name, "other") {
            MediaType::Other
        } else if str_eq(name, "none") {
            MediaType::Unset
        } else {
            MediaType::Other
        }
    }

    /// Reads a type name, whatever its case.
    pub fn parse(s: &str) -> (r: MediaType)
        ensures
            r == MediaType::of_lowercase(lowercase(s@)),
    {
        let lower = to_lowercase(s);
        MediaType::from_lowercase(lower.as_str())
    }
}

impl From<MediaType> for u32 {
    fn from(v: MediaType) -> (r: u32) {
        v.get_typeid()
    }
}

impl vstd::std_specs::convert::FromSpecImpl<MediaType> for u32 {
    open spec fn obeys_from_spec() -> bool {
        true
    }

    open spec fn from_spec(v: MediaType) -> u32 {
        v.typeid()
    }
}

impl std::str::FromStr for MediaType {
    type Err = Error;

    /// Reads a type name, whatever its case. Never fails: a name that no
    /// type has stands for `Other`.
    fn from_str(s: &str) -> (r: Result<MediaType, Error>)
        ensures
            r == Ok::<MediaType, Error>(MediaType::of_lowercase(lowercase(s@))),
    {
        Ok(MediaType::parse(s))
    }
}

/// Every type is found again under its own number.
pub proof fn law_typeid_round_trip(t: MediaType)
    ensures
        MediaType::of_typeid(t.typeid()) == Some(t),
{
}

} // verus!
