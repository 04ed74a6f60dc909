use vstd::prelude::*;
use vstd::string::StringExecFns;
use crate::misc::error::ErrorView;
use crate::misc::tools::concat2;
use crate::misc::tools::concat3;
use crate::misc::tools::decimal;
use crate::misc::tools::u64_to_string;
use crate::misc::uuid::uuid_text;
use crate::misc::Error;
use crate::misc::Uuid;

verus! {

/// The error for a media id that no row has.
pub open spec fn media_not_exists(id: u64) -> ErrorView {
    ErrorView::NotExists("Media with id "@ + decimal(id as nat) + " not exists."@)
}

/// The error for a content hash that no row has.
pub open spec fn hash_not_exists(hash: Seq<char>) -> ErrorView {
    ErrorView::NotExists("Media with Hash "@ + hash + " do not exists."@)
}

/// The error for a tag identifier that no tag has.
pub open spec fn tag_not_exists(uuid: Uuid) -> ErrorView {
    ErrorView::NotExists("Tag with uuid "@ + uuid_text(uuid@) + " not exists."@)
}

/// The error for a tag caption that no tag has.
pub open spec fn tag_caption_not_exists(caption: Seq<char>) -> ErrorView {
    ErrorView::NotExists("Tag with caption "@ + caption + " not exists."@)
}

/// The error for a series identifier that no series has.
pub open spec fn series_not_exists(uuid: Uuid) -> ErrorView {
    ErrorView::NotExists("Series with uuid "@ + uuid_text(uuid@) + " not exists."@)
}

/// The error for an ordinal that another member of the series holds.
pub open spec fn ordinal_occupied(id: u64, uuid: Uuid, no: u64) -> ErrorView {
    ErrorView::Occupied(
        "occupied when add media(id "@ + decimal(id as nat) + ") to series "@ + uuid_text(uuid@)
            + " with no "@ + decimal(no as nat),
    )
}

/// The error for a media item that is not a member of a series.
pub open spec fn not_in_series(id: u64, uuid: Uuid) -> ErrorView {
    ErrorView::NotIn { a: "Media with id "@ + decimal(id as nat), b: "series "@ + uuid_text(uuid@) }
}

/// The error for a media item that already is a member of a set.
pub open spec fn already_member(id: u64, uuid: Uuid) -> ErrorView {
    ErrorView::AlreadyExists("Media with id "@ + decimal(id as nat) + " in "@ + uuid_text(uuid@))
}

/// The error for content that a row already holds: it carries the row's id.
pub open spec fn duplicate_content(id: u64) -> ErrorView {
    ErrorView::AlreadyExists(decimal(id as nat))
}

/// The error for a caption or identifier that a set already has.
pub open spec fn set_exists(what: Seq<char>) -> ErrorView {
    ErrorView::AlreadyExists(what)
}

/// The error for a counter or an id that cannot grow any further.
pub open spec fn library_full() -> ErrorView {
    ErrorView::Other("Library is full."@)
}

/// The error for a text that is not a content hash of the library.
pub open spec fn bad_hash() -> ErrorView {
    ErrorView::NotMatch("Content hash"@)
}

pub fn err_media_not_exists(id: u64) -> (e: Error)
    ensures
        e@ == media_not_exists(id),
{
    Error::NotExists(concat3("Media with id ", u64_to_string(id).as_str(), " not exists."))
}

pub fn err_hash_not_exists(hash: &str) -> (e: Error)
    ensures
        e@ == hash_not_exists(hash@),
{
    Error::NotExists(concat3("Media with Hash ", hash, " do not exists."))
}

pub fn err_tag_not_exists(uuid: &Uuid) -> (e: Error)
    ensures
        e@ == tag_not_exists(*uuid),
{
    Error::NotExists(concat3("Tag with uuid ", uuid.to_string().as_str(), " not exists."))
}

pub fn err_tag_caption_not_exists(caption: &str) -> (e: Error)
    ensures
        e@ == tag_caption_not_exists(caption@),
{
    Error::NotExists(concat3("Tag with caption ", caption, " not exists."))
}

pub fn err_series_not_exists(uuid: &Uuid) -> (e: Error)
    ensures
        e@ == series_not_exists(*uuid),
{
    Error::NotExists(concat3("Series with uuid ", uuid.to_string().as_str(), " not exists."))
}

pub fn err_ordinal_occupied(id: u64, uuid: &Uuid, no: u64) -> (e: Error)
    ensures
        e@ == ordinal_occupied(id, *uuid, no),
{
    let mut s = concat3("occupied when add media(id ", u64_to_string(id).as_str(), ") to series ");
    s.append(uuid.to_string().as_str());
    s.append(" with no ");
    s.append(u64_to_string(no).as_str());
    Error::Occupied(s)
}

pub fn err_not_in_series(id: u64, uuid: &Uuid) -> (e: Error)
    ensures
        e@ == not_in_series(id, *uuid),
{
    let a = concat2("Media with id ", u64_to_string(id).as_str());
    let b = concat2("series ", uuid.to_string().as_str());
    Error::NotIn { a, b }
}

pub fn err_already_member(id: u64, uuid: &Uuid) -> (e: Error)
    ensures
        e@ == already_member(id, *uuid),
{
    let mut s = concat3("Media with id ", u64_to_string(id).as_str(), " in ");
    s.append(uuid.to_string().as_str());
    Error::AlreadyExists(s)
}

pub fn err_duplicate_content(id: u64) -> (e: Error)
    ensures
        e@ == duplicate_content(id),
{
    Error::AlreadyExists(u64_to_string(id))
}

pub fn err_set_exists(what: &str) -> (e: Error)
    ensures
        e@ == set_exists(what@),
{
    Error::AlreadyExists(String::from_str(what))
}

pub fn err_library_full() -> (e: Error)
    ensures
        e@ == library_full(),
{
    Error::Other(String::from_str("Library is full."))
}

pub fn err_bad_hash() -> (e: Error)
    ensures
        e@ == bad_hash(),
{
    Error::NotMatch(String::from_str("Content hash"))
}

} // verus!
