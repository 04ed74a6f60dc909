use vstd::prelude::*;
use vstd::string::StringExecFns;
use super::Media;
use super::MediaType;
use crate::misc::tools::concat3;
use crate::misc::tools::decimal;
use crate::misc::tools::u64_to_string;
use crate::misc::Error;

verus! {

#[derive(Debug)]
pub struct ImageDetail {
    pub height: u32,
    pub width: u32,
    pub format: String,
}

#[derive(Debug)]
pub struct TextDetail {
    pub words: usize,
    pub language: String,
}

#[derive(Debug)]
pub struct VideoDetail {
    pub height: u64,
    pub width: u64,
    /// In seconds.
    pub time_len: u64,
    pub frame_rates: u64,
    pub codec: String,
    /// In bits per second.
    pub bit_rates: u64,
}

#[derive(Debug)]
pub struct AudioDetail {
    pub time_len: u64,
    pub codec: String,
    pub bit_rates: u64,
}

#[derive(Debug)]
pub struct URLDetail {
    pub schema: String,
    pub host: String,
    pub path: String,
}

/// The detail payload of one media type.
#[derive(Debug)]
pub enum TypesDetail {
    Image(ImageDetail),
    Video(VideoDetail),
    Audio(AudioDetail),
    Text(TextDetail),
    URL(URLDetail),
    Other,
}

/// The structured detail of a media item, with free-form extras as
/// key-value pairs in which no key occurs twice.
#[derive(Debug)]
pub struct MediaDetail {
    detail: TypesDetail,
    other: Vec<(String, String)>,
}

/// What a detail payload holds.
pub struct MediaDetailView {
    pub detail: TypesDetail,
    pub other: Seq<(String, String)>,
}

/// The container formats that an image probe tells apart.
#[derive(Debug, Clone, Copy, PartialEq, Eq, Structural)]
pub enum ImageFormatName {
    Png,
    Jpeg,
    Gif,
    WebP,
    Tiff,
    Bmp,
    Ico,
    Other,
}

impl ImageFormatName {
    /// The name stored in an image's detail.
    pub open spec fn label(&self) -> Seq<char> {
        match self {
            ImageFormatName::Png => "PNG"@,
            ImageFormatName::Jpeg => "JPG"@,
            ImageFormatName::Gif => "GIF"@,
            ImageFormatName::WebP => "WEBP"@,
            ImageFormatName::Tiff => "TIFF"@,
            ImageFormatName::Bmp => "BMP"@,
            ImageFormatName::Ico => "ICO"@,
            ImageFormatName::Other => "OTHER"@,
        }
    }

    pub fn to_string(&self) -> (r: String)
        ensures
            r@ == self.label(),
    {
        match self {
            ImageFormatName::Png => String::from_str("PNG"),
            ImageFormatName::Jpeg => String::from_str("JPG"),
            ImageFormatName::Gif => String::from_str("GIF"),
            ImageFormatName::WebP => String::from_str("WEBP"),
            ImageFormatName::Tiff => String::from_str("TIFF"),
            ImageFormatName::Bmp => String::from_str("BMP"),
            ImageFormatName::Ico => String::from_str("ICO"),
            ImageFormatName::Other => String::from_str("OTHER"),
        }
    }
}

impl ImageDetail {
    /// The report of an image's detail.
    pub open spec fn text(&self) -> Seq<char> {
        "Image Resolution: "@ + decimal(self.width as nat) + " x "@ + decimal(self.height as nat)
            + "\nImage Format: "@ + self.format@
    }

    pub fn to_string(&self) -> (r: String)
        ensures
            r@ == self.text(),
    {
        let mut r = concat3(
            "Image Resolution: ",
            u64_to_string(self.width as u64).as_str(),
            " x ",
        );
        r.append(u64_to_string(self.height as u64).as_str());
        r.append("\nImage Format: ");
        r.append(self.format.as_str());
        r
    }

    /// The detail of an image, from what a probe of its file found.
    /// A probe that cannot tell the format is a `MediaDecode` error.
    pub fn get_detail(width: u32, height: u32, format: Option<ImageFormatName>) -> (r: Result<
        TypesDetail,
        Error,
    >)
        ensures
            match format {
                Some(f) => r matches Ok(TypesDetail::Image(d)) && d.width == width && d.height
                    == height && d.format@ == f.label(),
                None => r matches Err(Error::MediaDecode(m)) && m@ == "Unknown Image format."@,
            },
    {
        match format {
            Some(f) => Ok(TypesDetail::Image(ImageDetail { width, height, format: f.to_string() })),
            None => Err(Error::MediaDecode(String::from_str("Unknown Image format."))),
        }
    }
}

impl TypesDetail {
    /// The media type that this payload describes.
    pub open spec fn kind(&self) -> MediaType {
        match self {
            TypesDetail::Image(_) => MediaType::Image,
            TypesDetail::Video(_) => MediaType::Video,
            TypesDetail::Audio(_) => MediaType::Audio,
            TypesDetail::Text(_) => MediaType::Text,
            TypesDetail::URL(_) => MediaType::URL,
            TypesDetail::Other => MediaType::Other,
        }
    }

    pub fn get_kind(&self) -> (r: MediaType)
        ensures
            r == self.kind(),
    {
        match self {
            TypesDetail::Image(_) => MediaType::Image,
            TypesDetail::Video(_) => MediaType::Video,
            TypesDetail::Audio(_) => MediaType::Audio,
            TypesDetail::Text(_) => MediaType::Text,
            TypesDetail::URL(_) => MediaType::URL,
            TypesDetail::Other => MediaType::Other,
        }
    }

    /// A copy that equals the payload.
    pub fn duplicate(&self) -> (r: TypesDetail)
        ensures
            r == *self,
    {
        match self {
            TypesDetail::Image(d) => TypesDetail::Image(
                ImageDetail { height: d.height, width: d.width, format: d.format.clone() },
            ),
            TypesDetail::Video(d) => TypesDetail::Video(
                VideoDetail {
                    height: d.height,
                    width: d.width,
                    time_len: d.time_len,
                    frame_rates: d.frame_rates,
                    codec: d.codec.clone(),
                    bit_rates: d.bit_rates,
                },
            ),
            TypesDetail::Audio(d) => TypesDetail::Audio(
                AudioDetail { time_len: d.time_len, codec: d.codec.clone(), bit_rates: d.bit_rates },
            ),
            TypesDetail::Text(d) => TypesDetail::Text(
                TextDetail { words: d.words, language: d.language.clone() },
            ),
            TypesDetail::URL(d) => TypesDetail::URL(
                URLDetail {
                    schema: d.schema.clone(),
                    host: d.host.clone(),
                    path: d.path.clone(),
                },
            ),
            TypesDetail::Other => TypesDetail::Other,
        }
    }
}

impl View for MediaDetail {
    type V = MediaDetailView;

    closed spec fn view(&self) -> MediaDetailView {
        MediaDetailView { detail: self.detail, other: self.other@ }
    }
}

/// What an optional detail payload holds.
pub open spec fn detail_view(d: Option<MediaDetail>) -> Option<MediaDetailView> {
    match d {
        Some(d) => Some(d@),
        None => None,
    }
}

/// No key occurs twice among the pairs.
pub open spec fn keys_distinct(pairs: Seq<(String, String)>) -> bool {
    forall|i: int, j: int|
        0 <= i < j < pairs.len() ==> (#[trigger] pairs[i]).0@ != (#[trigger] pairs[j]).0@
}

/// Whether some pair has the key `key`.
pub open spec fn has_key(pairs: Seq<(String, String)>, key: Seq<char>) -> bool {
    exists|i: int| 0 <= i < pairs.len() && (#[trigger] pairs[i]).0@ == key
}

/// The position of a pair with the key `key`.
pub open spec fn key_index(pairs: Seq<(String, String)>, key: Seq<char>) -> int {
    choose|i: int| 0 <= i < pairs.len() && (#[trigger] pairs[i]).0@ == key
}

/// The pairs with `pair` taken in: where its key is present the value
/// under that key is replaced, else the pair is appended.
pub open spec fn with_pair(pairs: Seq<(String, String)>, pair: (String, String)) -> Seq<
    (String, String),
> {
    if has_key(pairs, pair.0@) {
        let i = key_index(pairs, pair.0@);
        pairs.update(i, (pairs[i].0, pair.1))
    } else {
        pairs.push(pair)
    }
}

/// The pairs taken in one after the other: a key that comes again
/// replaces the value that it had.
pub open spec fn merged_pairs(pairs: Seq<(String, String)>) -> Seq<(String, String)>
    decreases pairs.len(),
{
    if pairs.len() == 0 {
        Seq::<(String, String)>::empty()
    } else {
        with_pair(merged_pairs(pairs.drop_last()), pairs.last())
    }
}

/// Taking a pair in keeps the keys distinct.
pub proof fn lemma_with_pair_distinct(pairs: Seq<(String, String)>, pair: (String, String))
    requires
        keys_distinct(pairs),
    ensures
        keys_distinct(with_pair(pairs, pair)),
{
    let out = with_pair(pairs, pair);
    if has_key(pairs, pair.0@) {
        assert forall|i: int, j: int| 0 <= i < j < out.len() implies (#[trigger] out[i]).0@ != (
        #[trigger] out[j]).0@ by {
            assert(pairs[i].0@ != pairs[j].0@);
        }
    }
}

/// Pairs that were taken in one after the other have distinct keys.
pub proof fn law_merged_keys_distinct(pairs: Seq<(String, String)>)
    ensures
        keys_distinct(merged_pairs(pairs)),
    decreases pairs.len(),
{
    if pairs.len() > 0 {
        law_merged_keys_distinct(pairs.drop_last());
        lemma_with_pair_distinct(merged_pairs(pairs.drop_last()), pairs.last());
    }
}

/// A copy of a list of key-value pairs.
pub fn duplicate_pairs(pairs: &Vec<(String, String)>) -> (r: Vec<(String, String)>)
    ensures
        r@ == pairs@,
{
    let mut out: Vec<(String, String)> = Vec::new();
    let n: usize = pairs.len();
    let mut i: usize = 0;
    while i < n
        invariant
            n == pairs@.len(),
            i <= n,
            out@ == pairs@.take(i as int),
        decreases n - i,
    {
        let k = pairs[i].0.clone();
        let v = pairs[i].1.clone();
        out.push((k, v));
        assert(out@ =~= pairs@.take(i + 1));
        i += 1;
    }
    assert(pairs@.take(n as int) =~= pairs@);
    out
}

fn find_key(pairs: &Vec<(String, String)>, key: &String) -> (r: Option<usize>)
    requires
        keys_distinct(pairs@),
    ensures
        match r {
            Some(i) => has_key(pairs@, key@) && i == key_index(pairs@, key@),
            None => !has_key(pairs@, key@),
        },
{
    let n: usize = pairs.len();
    let mut i: usize = 0;
    while i < n
        invariant
            n == pairs@.len(),
            i <= n,
            keys_distinct(pairs@),
            forall|j: int| 0 <= j < i ==> (#[trigger] pairs@[j]).0@ != key@,
        decreases n - i,
    {
        if pairs[i].0 == *key {
            proof {
                let j = key_index(pairs@, key@);
                assert(pairs@[i as int].0@ == key@);
                if j < i {
                    assert(pairs@[j].0@ != pairs@[i as int].0@);
                }
                if i < j {
                    assert(pairs@[i as int].0@ != pairs@[j].0@);
                }
            }
            return Some(i);
        }
        i += 1;
    }
    None
}

/// Takes the pairs in one after the other.
pub fn merge_pairs(pairs: &Vec<(String, String)>) -> (r: Vec<(String, String)>)
    ensures
        r@ == merged_pairs(pairs@),
        keys_distinct(r@),
{
    let mut out: Vec<(String, String)> = Vec::new();
    let n: usize = pairs.len();
    let mut i: usize = 0;
    assert(pairs@.take(0) =~= Seq::<(String, String)>::empty());
    while i < n
        invariant
            n == pairs@.len(),
            i <= n,
            out@ == merged_pairs(pairs@.take(i as int)),
            keys_distinct(out@),
        decreases n - i,
    {
        proof {
            assert(pairs@.take(i + 1).drop_last() =~= pairs@.take(i as int));
            assert(pairs@.take(i + 1).last() == pairs@[i as int]);
            lemma_with_pair_distinct(out@, pairs@[i as int]);
        }
        let value = pairs[i].1.clone();
        match find_key(&out, &pairs[i].0) {
            Some(j) => {
                let key = out[j].0.clone();
                out[j] = (key, value);
            },
            None => {
                out.push((pairs[i].0.clone(), value));
            },
        }
        assert(out@ =~= merged_pairs(pairs@.take(i + 1)));
        i += 1;
    }
    assert(pairs@.take(n as int) =~= pairs@);
    out
}

impl MediaDetail {
    #[verifier::type_invariant]
    spec fn keys_are_distinct(self) -> bool {
        keys_distinct(self.other@)
    }

    /// A payload of `detail` and the extras `other`, taken in one after the
    /// other, so that of two values under one key the later one is kept.
    pub fn new(detail: TypesDetail, other: Vec<(String, String)>) -> (r: MediaDetail)
        ensures
            r@ == (MediaDetailView { detail, other: merged_pairs(other@) }),
    {
        MediaDetail { detail, other: merge_pairs(&other) }
    }

    /// The detail of the media type.
    pub fn detail(&self) -> (r: &TypesDetail)
        ensures
            *r == self@.detail,
    {
        &self.detail
    }

    /// The extras. No key occurs twice.
    pub fn other(&self) -> (r: &Vec<(String, String)>)
        ensures
            r@ == self@.other,
            keys_distinct(r@),
    {
        proof {
            use_type_invariant(self);
        }
        &self.other
    }

    /// The detail and the extras, taken apart.
    pub fn into_parts(self) -> (r: (TypesDetail, Vec<(String, String)>))
        ensures
            r.0 == self@.detail,
            r.1@ == self@.other,
            keys_distinct(r.1@),
    {
        proof {
            use_type_invariant(&self);
        }
        (self.detail, self.other)
    }

    /// A copy that holds what the payload holds.
    pub fn duplicate(&self) -> (r: MediaDetail)
        ensures
            r@ == self@,
    {
        proof {
            use_type_invariant(self);
        }
        MediaDetail { detail: self.detail.duplicate(), other: duplicate_pairs(&self.other) }
    }
}

/// A copy of an optional payload.
pub fn duplicate_detail(d: &Option<MediaDetail>) -> (r: Option<MediaDetail>)
    ensures
        detail_view(r) == detail_view(*d),
{
    match d {
        Some(d) => Some(d.duplicate()),
        None => None,
    }
}

impl Media {
    /// Whether `probe` is what `detailize` stores for a media item of type
    /// `kind`: nothing for the type `Unset`, the bare `Other` payload for the
    /// type `Other`, and for the rest a probe's finding of the same type.
    pub open spec fn accepts_probe(kind: MediaType, probe: Option<TypesDetail>) -> bool {
        match kind {
            MediaType::Unset => false,
            MediaType::Other => true,
            _ => probe matches Some(d) && d.kind() == kind,
        }
    }

    /// The detail of the media type that `detailize` stores for a media
    /// item of type `kind`.
    pub open spec fn stored_probe(kind: MediaType, probe: Option<TypesDetail>) -> TypesDetail {
        if kind == MediaType::Other {
            TypesDetail::Other
        } else {
            probe->0
        }
    }

    /// The extras that `detailize` stores: those given, taken in one after
    /// the other, or none.
    pub open spec fn stored_extras(other: Option<Vec<(String, String)>>) -> Seq<(String, String)> {
        match other {
            Some(o) => merged_pairs(o@),
            None => Seq::<(String, String)>::empty(),
        }
    }

    /// Attaches a detail payload. `probe` is what an inspection of the
    /// content file found, if it found anything; `other` are free-form
    /// extras. Where `accepts_probe` fails the item is returned as it came.
    pub fn detailize(self, probe: Option<TypesDetail>, other: Option<Vec<(String, String)>>) -> (r:
        Media)
        ensures
            !Media::accepts_probe(self.kind, probe) ==> r == self,
            Media::accepts_probe(self.kind, probe) ==> r == (Media { detail: r.detail, ..self })
                && detail_view(r.detail) == Some(
                MediaDetailView {
                    detail: Media::stored_probe(self.kind, probe),
                    other: Media::stored_extras(other),
                },
            ),
    {
        let other: Vec<(String, String)> = match other {
            Some(o) => o,
            None => Vec::new(),
        };
        match self.kind {
            MediaType::Unset => self,
            MediaType::Other => Media {
                detail: Some(MediaDetail::new(TypesDetail::Other, other)),
                ..self
            },
            _ => {
                match probe {
                    Some(d) => {
                        if same_kind(&d.get_kind(), &self.kind) {
                            Media { detail: Some(MediaDetail::new(d, other)), ..self }
                        } else {
                            self
                        }
                    },
                    None => self,
                }
            },
        }
    }

    /// The content file from which a preview can be made: only images have
    /// one, every other type is `NoThumbnail`.
    pub fn get_thumbnail(&self) -> (r: Result<&String, Error>)
        ensures
            self.kind == MediaType::Image ==> r == Ok::<&String, Error>(&self.filepath),
            self.kind != MediaType::Image ==> r matches Err(Error::NoThumbnail),
    {
        match self.kind {
            MediaType::Image => Ok(&self.filepath),
            _ => Err(Error::NoThumbnail),
        }
    }
}

fn same_kind(a: &MediaType, b: &MediaType) -> (r: bool)
    ensures
        r == (*a == *b),
{
    a.get_typeid() == b.get_typeid()
}

} // verus!
