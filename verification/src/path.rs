//! Object paths.
use crate::text::pieces;
use vstd::prelude::*;

verus! {

/// Whether a character stands for itself in every path.
pub open spec fn is_plain(c: char) -> bool {
    ||| 'a' <= c <= 'z'
    ||| 'A' <= c <= 'Z'
    ||| '0' <= c <= '9'
    ||| c == '-' || c == '_' || c == '.'
}

/// Whether a text is a path of segments, none empty, none a dot or two, of plain characters.
pub open spec fn is_plain_path(text: Seq<char>) -> bool {
    forall|i: int|
        0 <= i < pieces(text, '/').len() ==> {
            let segment = #[trigger] pieces(text, '/')[i];
            &&& segment.len() > 0 && segment != "."@ && segment != ".."@
            &&& forall|j: int| 0 <= j < segment.len() ==> is_plain(#[trigger] segment[j])
        }
}

/// The path that `object_store::path::Path` makes of a text.
pub uninterp spec fn encoded_path(text: Seq<char>) -> Seq<char>;

/// The path of a key: a plain path is itself, any other is encoded.
pub open spec fn path_of(text: Seq<char>) -> Seq<char> {
    if is_plain_path(text) {
        text
    } else {
        encoded_path(text)
    }
}

/// Calls `object_store::path::Path::from`, which drops empty segments and escapes what a path may
/// not hold. A plain path comes back as it is; what becomes of another text is left a name.
#[verifier::external_body]
pub(crate) fn path_from(text: &str) -> (path: String)
    ensures
        path@ == (if is_plain_path(text@) {
            text@
        } else {
            encoded_path(text@)
        }),
{
    object_store::path::Path::from(text).to_string()
}

/// A text without the slash that it may start with.
pub open spec fn without_first_slash(text: Seq<char>) -> Seq<char> {
    if text.len() > 0 && text[0] == '/' {
        text.skip(1)
    } else {
        text
    }
}

/// A text without the slash that it may end with.
pub open spec fn without_last_slash(text: Seq<char>) -> Seq<char> {
    if text.len() > 0 && text.last() == '/' {
        text.drop_last()
    } else {
        text
    }
}

/// Whether a text is a segment of a path: not empty, not a dot or two, without control characters.
pub open spec fn is_segment(text: Seq<char>) -> bool {
    &&& text.len() > 0 && text != "."@ && text != ".."@
    &&& forall|i: int| 0 <= i < text.len() ==> #[trigger] text[i] as u32 >= 0x20 && text[i] as u32 != 0x7f
}

/// Whether a text is a path, but for one slash at each end.
pub open spec fn is_path(text: Seq<char>) -> bool {
    let inner = without_first_slash(text);
    let segments = pieces(without_last_slash(inner), '/');
    inner.len() == 0 || forall|i: int|
        0 <= i < segments.len() ==> is_segment(#[trigger] segments[i])
}

/// The words with which `object_store::path::Path::parse` refuses a text.
pub uninterp spec fn path_fault(text: Seq<char>) -> Seq<char>;

/// Calls `object_store::path::Path::parse`. It takes one slash off each end of a text whose
/// segments are then all segments of a path, and refuses every other text. The words of a refusal
/// are left a name.
#[verifier::external_body]
pub(crate) fn parse_path(text: &str) -> (path: Result<String, String>)
    ensures
        path is Ok <==> is_path(text@),
        path matches Ok(parsed) ==> parsed@ == without_last_slash(without_first_slash(text@)),
        path matches Err(words) ==> words@ == path_fault(text@),
{
    let parsed = object_store::path::Path::parse(text);
    parsed.map(|path| path.to_string()).map_err(|error| error.to_string())
}

/// A plain path is the path of its own text, and any other text has the path that is made of it.
pub proof fn law_plain_paths_stand_for_themselves(text: Seq<char>)
    ensures
        is_plain_path(text) ==> path_of(text) == text,
        !is_plain_path(text) ==> path_of(text) == encoded_path(text),
{
}

} // verus!
