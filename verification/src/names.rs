//! Names of databases.
use crate::path::{is_plain, is_plain_path, path_of};
use crate::text::{characters, lemma_one_piece, lemma_pieces_of_two, pieces};
use vstd::prelude::*;
use vstd::string::*;
use vstd::utf8::*;

verus! {

/// The most characters that a name can have.
pub const MAX_NAME: usize = 128;

/// Whether a name can hold a character: an ASCII letter or digit, a dash or an underscore.
pub open spec fn is_name_char(c: char) -> bool {
    ||| 'a' <= c <= 'z'
    ||| 'A' <= c <= 'Z'
    ||| '0' <= c <= '9'
    ||| c == '-' || c == '_'
}

/// Whether a text is the name of a database.
pub open spec fn is_database_name(name: Seq<char>) -> bool {
    &&& 1 <= name.len() <= MAX_NAME
    &&& forall|i: int| 0 <= i < name.len() ==> is_name_char(#[trigger] name[i])
}

/// Whether a text is the name of a database.
pub fn names_a_database(name: &str) -> (valid: bool)
    ensures
        valid == is_database_name(name@),
{
    let chars: Vec<char> = characters(name);
    if chars.len() == 0 || chars.len() > MAX_NAME {
        return false;
    }
    for i in 0..chars.len()
        invariant
            chars@ == name@,
            forall|j: int| 0 <= j < i ==> is_name_char(#[trigger] name@[j]),
    {
        let c: char = chars[i];
        let plain: bool = ('a' <= c && c <= 'z') || ('A' <= c && c <= 'Z') || ('0' <= c && c
            <= '9') || c == '-' || c == '_';
        if !plain {
            assert(!is_name_char(name@[i as int]));
            return false;
        }
    }
    true
}

/// A name is safe in routes and in paths: it has no slash and is no step to another directory, so
/// that it is one segment of a path and stands for itself there. It has as many bytes as characters.
pub proof fn law_names_are_one_segment(name: Seq<char>)
    requires
        is_database_name(name),
    ensures
        !name.contains('/'),
        name != "."@ && name != ".."@,
        pieces(name, '/') == seq![name],
        path_of(name) == name,
        encode_utf8(name).len() == name.len(),
{
    assert forall|i: int| 0 <= i < name.len() implies name[i] != '/' by {
        assert(is_name_char(name[i]));
    }
    lemma_one_piece(name, '/');
    reveal_strlit(".");
    reveal_strlit("..");
    assert(is_name_char(name[0]));
    assert("."@[0] == '.');
    assert(".."@[0] == '.');
    assert forall|j: int| 0 <= j < name.len() implies is_plain(#[trigger] name[j]) by {
        assert(is_name_char(name[j]));
    }
    assert(is_plain_path(name));
    assert(is_ascii_chars(name)) by {
        assert forall|i: int| 0 <= i < name.len() implies #[trigger] name[i] as u32 <= 127 by {
            assert(is_name_char(name[i]));
        }
    }
    is_ascii_chars_encode_utf8(name);
}

/// Where something of a database lies in the bucket: under the prefix of its name.
pub open spec fn path_in_bucket(name: Seq<char>, path: Seq<char>) -> Seq<char> {
    name + seq!['/'] + path
}

/// No two databases share a place in the bucket: what lies under the prefix of the one lies under no
/// other.
pub proof fn law_prefixes_are_apart(
    left: Seq<char>,
    left_path: Seq<char>,
    right: Seq<char>,
    right_path: Seq<char>,
)
    requires
        is_database_name(left),
        is_database_name(right),
        path_in_bucket(left, left_path) == path_in_bucket(right, right_path),
    ensures
        left == right,
        left_path == right_path,
{
    law_names_are_one_segment(left);
    law_names_are_one_segment(right);
    lemma_pieces_of_two(left, left_path, '/');
    lemma_pieces_of_two(right, right_path, '/');
    let text = path_in_bucket(left, left_path);
    assert(pieces(text, '/')[0] == left);
    assert(pieces(text, '/')[0] == right);
    assert(left_path =~= text.skip(left.len() as int + 1));
    assert(right_path =~= text.skip(left.len() as int + 1));
}

/// Every text of one to 128 characters is a name that is made of ASCII letters of either case, ASCII
/// digits, dashes and underscores, and no other text is one.
pub proof fn law_names_are_ascii_letters_digits_dashes_and_underscores(name: Seq<char>)
    ensures
        is_database_name(name) <==> 1 <= name.len() <= 128 && forall|i: int|
            0 <= i < name.len() ==> {
                let code = #[trigger] name[i] as int;
                ||| 0x30 <= code <= 0x39
                ||| 0x41 <= code <= 0x5a
                ||| 0x61 <= code <= 0x7a
                ||| code == 0x2d
                ||| code == 0x5f
            },
{
    assert forall|i: int| 0 <= i < name.len() implies (#[trigger] is_name_char(name[i]) <==> {
        let code = name[i] as int;
        ||| 0x30 <= code <= 0x39
        ||| 0x41 <= code <= 0x5a
        ||| 0x61 <= code <= 0x7a
        ||| code == 0x2d
        ||| code == 0x5f
    }) by {}
}

/// Names stay names when they are put together or taken apart, as far as their lengths allow, and
/// whichever case their letters have.
pub proof fn law_names_are_closed_under_joining(left: Seq<char>, right: Seq<char>)
    requires
        is_database_name(left),
        is_database_name(right),
    ensures
        is_database_name(left + right) <==> left.len() + right.len() <= 128,
        forall|i: int| 0 < i <= left.len() ==> is_database_name(#[trigger] left.take(i)),
{
    let both = left + right;
    if both.len() <= 128 {
        assert forall|i: int| 0 <= i < both.len() implies is_name_char(#[trigger] both[i]) by {
            if i < left.len() {
                assert(is_name_char(left[i]));
            } else {
                assert(is_name_char(right[i - left.len()]));
            }
        }
    }
    assert forall|i: int| 0 < i <= left.len() implies is_database_name(#[trigger] left.take(i)) by {
        assert forall|j: int| 0 <= j < i implies is_name_char(#[trigger] left.take(i)[j]) by {
            assert(is_name_char(left[j]));
        }
    }
}

} // verus!
