//! What a read may ask for, what is known of an object, and whether the one allows the other.
use crate::range::GetRange;
use crate::text::{opt_text, pieces};
use crate::time::{valid_time, Timestamp};
use chrono::DateTime;
use object_store::path::Path;
use object_store::Error::{NotModified, Precondition};
use vstd::prelude::*;

verus! {

/// What a caller asks of a read.
#[derive(Debug)]
pub struct GetOptions {
    /// Read only an object with one of these tags.
    pub if_match: Option<String>,
    /// Read only an object with none of these tags.
    pub if_none_match: Option<String>,
    /// Read only an object that was stored after this point.
    pub if_modified_since: Option<Timestamp>,
    /// Read only an object that was not stored after this point.
    pub if_unmodified_since: Option<Timestamp>,
    /// Read only this part.
    pub range: Option<GetRange>,
    /// Read this version.
    pub version: Option<String>,
    /// Read no content.
    pub head: bool,
}

impl GetOptions {
    /// Whether the calendar has the points that the conditions name.
    pub open spec fn valid(self) -> bool {
        valid_time(self.if_modified_since) && valid_time(self.if_unmodified_since)
    }

    /// Whether the read depends on no condition.
    pub open spec fn unconditional(self) -> bool {
        &&& self.if_match is None
        &&& self.if_none_match is None
        &&& self.if_modified_since is None
        &&& self.if_unmodified_since is None
    }
}

/// What is known of a stored object.
#[derive(Debug)]
pub struct ObjectMeta {
    pub location: String,
    pub last_modified: Timestamp,
    pub size: u64,
    pub e_tag: Option<String>,
    pub version: Option<String>,
}

/// What is known of a stored object, by its texts.
#[verifier::ext_equal]
pub struct Meta {
    pub location: Seq<char>,
    pub last_modified: Timestamp,
    pub size: u64,
    pub e_tag: Option<Seq<char>>,
    pub version: Option<Seq<char>>,
}

impl View for ObjectMeta {
    type V = Meta;

    open spec fn view(&self) -> Meta {
        Meta {
            location: self.location@,
            last_modified: self.last_modified,
            size: self.size,
            e_tag: opt_text(self.e_tag),
            version: opt_text(self.version),
        }
    }
}

/// What the conditions of a read say of an object.
pub enum Verdict {
    /// It may be read.
    Allowed,
    /// It is not the object that the caller wants.
    Unwanted(String),
    /// It is the object that the caller has.
    Unchanged(String),
}

/// Whether Unicode counts a character as white space.
pub open spec fn is_white(c: char) -> bool {
    let n = c as u32;
    ||| 0x9 <= n <= 0xd
    ||| n == 0x20 || n == 0x85 || n == 0xa0 || n == 0x1680
    ||| 0x2000 <= n <= 0x200a
    ||| n == 0x2028 || n == 0x2029 || n == 0x202f || n == 0x205f || n == 0x3000
}

/// Whether `inner` is `text` without the white space at both ends.
pub open spec fn is_trimmed(text: Seq<char>, inner: Seq<char>) -> bool {
    exists|from: int, to: int|
        {
            &&& 0 <= from <= to <= text.len()
            &&& inner == #[trigger] text.subrange(from, to)
            &&& forall|i: int| 0 <= i < from || to <= i < text.len() ==> is_white(text[i])
            &&& from < to ==> !is_white(text[from]) && !is_white(text[to - 1])
        }
}

/// Whether a list of tags, parted by commas, holds a tag.
pub open spec fn lists_tag(list: Seq<char>, tag: Seq<char>) -> bool {
    exists|i: int|
        0 <= i < pieces(list, ',').len() && is_trimmed(#[trigger] pieces(list, ',')[i], tag)
}

/// The tag that conditions are held against: an object without one has the tag of no object.
pub open spec fn compared_tag(e_tag: Option<Seq<char>>) -> Seq<char> {
    match e_tag {
        Some(tag) => tag,
        None => "*"@,
    }
}

/// Whether the object is not the one that the caller wants. A tag condition sets the date
/// condition aside.
pub open spec fn is_unwanted(options: GetOptions, e_tag: Option<Seq<char>>, stored: Timestamp) -> bool {
    match options.if_match {
        Some(list) => list@ != "*"@ && !lists_tag(list@, compared_tag(e_tag)),
        None => match options.if_unmodified_since {
            Some(date) => stored.later_than(date),
            None => false,
        },
    }
}

/// Whether the object is the one that the caller has. A tag condition sets the date condition
/// aside.
pub open spec fn is_unchanged(options: GetOptions, e_tag: Option<Seq<char>>, stored: Timestamp) -> bool {
    match options.if_none_match {
        Some(list) => list@ == "*"@ || lists_tag(list@, compared_tag(e_tag)),
        None => match options.if_modified_since {
            Some(date) => !stored.later_than(date),
            None => false,
        },
    }
}

/// A point as `chrono::DateTime<chrono::Utc>` writes it.
pub uninterp spec fn date_text(time: Timestamp) -> Seq<char>;

/// The words with which an object that is not the wanted one is refused to a read.
pub open spec fn unwanted_words(options: GetOptions, e_tag: Option<Seq<char>>, stored: Timestamp) -> Seq<
    char,
> {
    match options.if_match {
        Some(list) => compared_tag(e_tag) + " does not match "@ + list@,
        None => date_text(options.if_unmodified_since->0) + " < "@ + date_text(stored),
    }
}

/// The words with which the object that the caller has is refused to a read.
pub open spec fn unchanged_words(
    options: GetOptions,
    e_tag: Option<Seq<char>>,
    stored: Timestamp,
) -> Seq<char> {
    match options.if_none_match {
        Some(list) => compared_tag(e_tag) + " matches "@ + list@,
        None => date_text(options.if_modified_since->0) + " >= "@ + date_text(stored),
    }
}

/// Calls `object_store::GetOptions::check_preconditions`. It refuses first an object that is not
/// the wanted one, then one that the caller has, and no other. Its words hold the tag of the object
/// and the tags of the condition, or else the two dates. How a date is written is left a name.
#[verifier::external_body]
pub(crate) fn check_preconditions(
    options: &GetOptions,
    e_tag: Option<String>,
    stored: Timestamp,
) -> (verdict: Verdict)
    requires
        options.valid(),
        stored.valid(),
    ensures
        verdict is Unwanted <==> is_unwanted(*options, opt_text(e_tag), stored),
        verdict is Unchanged <==> (!is_unwanted(*options, opt_text(e_tag), stored)
            && is_unchanged(*options, opt_text(e_tag), stored)),
        verdict matches Verdict::Unwanted(words) ==> words@ == (match options.if_match {
            Some(list) => compared_tag(opt_text(e_tag)) + " does not match "@ + list@,
            None => date_text(options.if_unmodified_since->0) + " < "@ + date_text(stored),
        }),
        verdict matches Verdict::Unchanged(words) ==> words@ == (match options.if_none_match {
            Some(list) => compared_tag(opt_text(e_tag)) + " matches "@ + list@,
            None => date_text(options.if_modified_since->0) + " >= "@ + date_text(stored),
        }),
{
    let date = |time: Timestamp| DateTime::from_timestamp(time.seconds, time.nanos);
    let asked = object_store::GetOptions::new()
        .with_if_match(options.if_match.clone())
        .with_if_none_match(options.if_none_match.clone())
        .with_if_modified_since(options.if_modified_since.and_then(date))
        .with_if_unmodified_since(options.if_unmodified_since.and_then(date));
    let last_modified = date(stored).unwrap();
    let location = Path::ROOT;
    let meta = object_store::ObjectMeta { location, last_modified, size: 0, e_tag, version: None };
    match asked.check_preconditions(&meta) {
        Ok(_) => Verdict::Allowed,
        Err(NotModified { source, .. }) => Verdict::Unchanged(source.to_string()),
        Err(Precondition { source, .. }) => Verdict::Unwanted(source.to_string()),
        Err(other) => Verdict::Unwanted(other.to_string()),
    }
}

/// A read that names no condition is refused by none.
pub proof fn law_unconditional_reads_are_not_refused(
    options: GetOptions,
    e_tag: Option<Seq<char>>,
    stored: Timestamp,
)
    requires
        options.unconditional(),
    ensures
        !is_unwanted(options, e_tag, stored),
        !is_unchanged(options, e_tag, stored),
{
}

/// What is known of an object shows its location, its date, its size, its tag and its version.
pub proof fn law_metadata_shows_what_it_holds(meta: ObjectMeta)
    ensures
        meta@.location == meta.location@,
        meta@.last_modified == meta.last_modified,
        meta@.size == meta.size,
        meta.e_tag matches Some(tag) ==> meta@.e_tag == Some(tag@),
        meta.e_tag is None ==> meta@.e_tag is None,
        meta.version matches Some(version) ==> meta@.version == Some(version@),
        meta.version is None ==> meta@.version is None,
{
}

/// A read depends on a condition exactly where it names a tag or a date.
pub proof fn law_conditions_are_tags_and_dates(options: GetOptions)
    ensures
        options.unconditional() <==> !(options.if_match is Some || options.if_none_match is Some
            || options.if_modified_since is Some || options.if_unmodified_since is Some),
        options.valid() <==> (options.if_modified_since matches Some(time) ==> time.valid()) && (
        options.if_unmodified_since matches Some(time) ==> time.valid()),
{
}

} // verus!
