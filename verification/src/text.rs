//! Text: decimal numbers, splitting, trimming and prefixes, over sequences of characters.
use vstd::prelude::*;
use vstd::string::*;

verus! {

/// The text inside an optional string.
pub open spec fn opt_text(value: Option<String>) -> Option<Seq<char>> {
    match value {
        Some(text) => Some(text@),
        None => None,
    }
}

/// The texts of a list of strings.
pub open spec fn texts(values: Seq<String>) -> Seq<Seq<char>> {
    values.map_values(|value: String| value@)
}

/// The texts of a list of name and value pairs.
pub open spec fn pair_texts(values: Seq<(String, String)>) -> Seq<(Seq<char>, Seq<char>)> {
    values.map_values(|pair: (String, String)| (pair.0@, pair.1@))
}

/// The character that stands for a digit.
pub open spec fn digit(n: nat) -> char {
    (48 + n) as char
}

/// A number in decimal, without leading zeros.
pub open spec fn decimal(n: nat) -> Seq<char>
    decreases n,
{
    if n < 10 {
        seq![digit(n)]
    } else {
        decimal(n / 10).push(digit(n % 10))
    }
}

/// Whether a character is one of `0` to `9`.
pub open spec fn is_digit(c: char) -> bool {
    '0' <= c <= '9'
}

/// Whether a text is made of decimal digits, at least one.
pub open spec fn is_digits(text: Seq<char>) -> bool {
    text.len() > 0 && forall|i: int| 0 <= i < text.len() ==> is_digit(#[trigger] text[i])
}

/// The number that a text of decimal digits stands for.
pub open spec fn digits_value(text: Seq<char>) -> nat
    decreases text.len(),
{
    if text.len() == 0 {
        0
    } else {
        digits_value(text.drop_last()) * 10 + (text.last() as nat - 48) as nat
    }
}

/// A decimal text is made of digits and reads back as the number it was written from.
pub proof fn lemma_decimal_reads_back(n: nat)
    ensures
        is_digits(decimal(n)),
        digits_value(decimal(n)) == n,
    decreases n,
{
    if n < 10 {
        assert(decimal(n).drop_last() =~= Seq::<char>::empty());
        assert(digits_value(decimal(n).drop_last()) == 0);
    } else {
        lemma_decimal_reads_back(n / 10);
        assert(decimal(n).drop_last() =~= decimal(n / 10));
    }
}

fn digit_text(n: u64) -> (text: &'static str)
    requires
        n < 10,
    ensures
        text@ == seq![digit(n as nat)],
{
    proof {
        reveal_strlit("0");
        reveal_strlit("1");
        reveal_strlit("2");
        reveal_strlit("3");
        reveal_strlit("4");
        reveal_strlit("5");
        reveal_strlit("6");
        reveal_strlit("7");
        reveal_strlit("8");
        reveal_strlit("9");
    }
    let text = match n {
        0 => "0",
        1 => "1",
        2 => "2",
        3 => "3",
        4 => "4",
        5 => "5",
        6 => "6",
        7 => "7",
        8 => "8",
        _ => "9",
    };
    assert(text@ =~= seq![digit(n as nat)]);
    text
}

/// Writes a number in decimal.
pub fn decimal_text(n: u64) -> (text: String)
    ensures
        text@ == decimal(n as nat),
    decreases n,
{
    if n < 10 {
        digit_text(n).to_owned()
    } else {
        let mut text = decimal_text(n / 10);
        text.append(digit_text(n % 10));
        assert(text@ =~= decimal(n as nat));
        text
    }
}

/// Digits that may stand behind a plus.
pub open spec fn unsigned_digits(text: Seq<char>) -> Seq<char> {
    if text.len() > 0 && text[0] == '+' {
        text.skip(1)
    } else {
        text
    }
}

/// Whether a text is a number of at most `max`: digits, perhaps behind a plus.
pub open spec fn is_number(text: Seq<char>, max: nat) -> bool {
    is_digits(unsigned_digits(text)) && digits_value(unsigned_digits(text)) <= max
}

/// The number that a text is.
pub open spec fn number_of(text: Seq<char>) -> nat {
    digits_value(unsigned_digits(text))
}

/// The words with which `str::parse` refuses a text as a `u64`.
pub uninterp spec fn number_fault(text: Seq<char>) -> Seq<char>;

/// Calls `str::parse` for `u64`. It reads digits, perhaps behind a plus, that stand for a number
/// that fits, and refuses every other text. The words of a refusal are left a name.
#[verifier::external_body]
pub(crate) fn parse_number(text: &str) -> (number: Result<u64, String>)
    ensures
        number is Ok <==> is_number(text@, u64::MAX as nat),
        number matches Ok(value) ==> value == number_of(text@),
        number matches Err(words) ==> words@ == number_fault(text@),
{
    text.parse::<u64>().map_err(|error| error.to_string())
}

/// Whether two texts are the same.
pub fn same_text(left: &str, right: &str) -> (same: bool)
    ensures
        same == (left@ == right@),
{
    left.to_owned() == right.to_owned()
}

/// The characters of a text.
pub fn characters(text: &str) -> (chars: Vec<char>)
    ensures
        chars@ == text@,
{
    let mut chars: Vec<char> = Vec::new();
    for c in it: text.chars()
        invariant
            chars@ == it.seq().take(it.index()),
            it.seq() == text@,
    {
        chars.push(c);
        assert(chars@ =~= it.seq().take(it.index() + 1));
    }
    assert(text@.take(text@.len() as int) =~= text@);
    chars
}

/// What follows `prefix` in a text that starts with it.
pub open spec fn after_prefix(text: Seq<char>, prefix: Seq<char>) -> Option<Seq<char>> {
    if prefix.is_prefix_of(text) {
        Some(text.skip(prefix.len() as int))
    } else {
        None
    }
}

/// Takes `prefix` off a text.
pub fn strip_prefix<'a>(text: &'a str, prefix: &str) -> (rest: Option<&'a str>)
    ensures
        rest is Some <==> after_prefix(text@, prefix@) is Some,
        rest matches Some(rest) ==> Some(rest@) == after_prefix(text@, prefix@),
{
    let total: usize = text.unicode_len();
    let taken: usize = prefix.unicode_len();
    if total < taken {
        return None;
    }
    if same_text(text.substring_char(0, taken), prefix) {
        Some(text.substring_char(taken, total))
    } else {
        None
    }
}

/// A text without the run of `c` at its start.
pub open spec fn trimmed_start(text: Seq<char>, c: char) -> Seq<char>
    decreases text.len(),
{
    if text.len() > 0 && text[0] == c {
        trimmed_start(text.skip(1), c)
    } else {
        text
    }
}

/// A text without the run of `c` at its end.
pub open spec fn trimmed_end(text: Seq<char>, c: char) -> Seq<char>
    decreases text.len(),
{
    if text.len() > 0 && text.last() == c {
        trimmed_end(text.drop_last(), c)
    } else {
        text
    }
}

/// Takes the run of `c` off the start of a text.
pub fn trim_start_matches<'a>(text: &'a str, c: char) -> (rest: &'a str)
    ensures
        rest@ == trimmed_start(text@, c),
{
    let chars: Vec<char> = characters(text);
    let mut from: usize = 0;
    assert(text@.skip(0) =~= text@);
    while from < chars.len() && chars[from] == c
        invariant
            chars@ == text@,
            from <= chars.len(),
            trimmed_start(text@.skip(from as int), c) == trimmed_start(text@, c),
        decreases chars.len() - from,
    {
        assert(text@.skip(from as int).skip(1) =~= text@.skip(from + 1));
        from = from + 1;
    }
    text.substring_char(from, chars.len())
}

/// Takes the run of `c` off the end of a text.
pub fn trim_end_matches<'a>(text: &'a str, c: char) -> (rest: &'a str)
    ensures
        rest@ == trimmed_end(text@, c),
{
    let chars: Vec<char> = characters(text);
    let mut to: usize = chars.len();
    assert(text@.take(to as int) =~= text@);
    while to > 0 && chars[to - 1] == c
        invariant
            chars@ == text@,
            to <= chars.len(),
            trimmed_end(text@.take(to as int), c) == trimmed_end(text@, c),
        decreases to,
    {
        assert(text@.take(to as int).drop_last() =~= text@.take(to - 1));
        to = to - 1;
    }
    text.substring_char(0, to)
}

/// Where `c` first stands in a text, or the text's length.
pub open spec fn first_at(text: Seq<char>, c: char) -> nat
    decreases text.len(),
{
    if text.len() == 0 || text[0] == c {
        0
    } else {
        first_at(text.skip(1), c) + 1
    }
}

/// The pieces of a text between the occurrences of `c`.
pub open spec fn pieces(text: Seq<char>, c: char) -> Seq<Seq<char>>
    decreases text.len(),
{
    let at = first_at(text, c) as int;
    if at < text.len() {
        seq![text.take(at)] + pieces(text.skip(at + 1), c)
    } else {
        seq![text]
    }
}

/// What `first_at` finds: the first place of `c`, with no `c` before it.
pub proof fn lemma_first_at(text: Seq<char>, c: char)
    ensures
        first_at(text, c) <= text.len(),
        first_at(text, c) < text.len() ==> text[first_at(text, c) as int] == c,
        forall|i: int| 0 <= i < first_at(text, c) ==> text[i] != c,
    decreases text.len(),
{
    if text.len() > 0 && text[0] != c {
        lemma_first_at(text.skip(1), c);
        assert forall|i: int| 0 <= i < first_at(text, c) implies text[i] != c by {
            if i > 0 {
                assert(text.skip(1)[i - 1] == text[i]);
            }
        }
    }
}

/// `first_at` is the only place with `c` there and none before it.
pub proof fn lemma_first_at_is(text: Seq<char>, c: char, at: int)
    requires
        0 <= at <= text.len(),
        at < text.len() ==> text[at] == c,
        forall|i: int| 0 <= i < at ==> text[i] != c,
    ensures
        first_at(text, c) == at,
{
    lemma_first_at(text, c);
}

/// The pieces of two texts with a `c` between them are those of the one and then those of the other.
pub proof fn lemma_pieces_of_two(left: Seq<char>, right: Seq<char>, c: char)
    ensures
        pieces(left + seq![c] + right, c) == pieces(left, c) + pieces(right, c),
    decreases left.len(),
{
    let text = left + seq![c] + right;
    let at = first_at(left, c) as int;
    lemma_first_at(left, c);
    assert forall|i: int| 0 <= i < at implies text[i] != c by {
        assert(text[i] == left[i]);
    }
    lemma_first_at_is(text, c, at);
    assert(text.take(at) =~= left.take(at));
    if at < left.len() {
        let rest = left.skip(at + 1);
        lemma_pieces_of_two(rest, right, c);
        assert(text.skip(at + 1) =~= rest + seq![c] + right);
        assert(pieces(text, c) =~= pieces(left, c) + pieces(right, c));
    } else {
        assert(left.take(at) =~= left);
        assert(text.skip(at + 1) =~= right);
        assert(pieces(text, c) =~= pieces(left, c) + pieces(right, c));
    }
}

/// A text without `c` is its only piece.
pub proof fn lemma_one_piece(text: Seq<char>, c: char)
    requires
        !text.contains(c),
    ensures
        pieces(text, c) == seq![text],
{
    assert forall|i: int| 0 <= i < text.len() implies text[i] != c by {
        assert(text.contains(text[i]));
    }
    lemma_first_at_is(text, c, text.len() as int);
}

/// Splits a text at every `c`.
pub fn split(text: &str, c: char) -> (parts: Vec<String>)
    ensures
        texts(parts@) == pieces(text@, c),
{
    let chars: Vec<char> = characters(text);
    let mut parts: Vec<String> = Vec::new();
    let mut start: usize = 0;
    let mut at: usize = 0;
    assert(text@.skip(0) =~= text@);
    assert(texts(parts@) + pieces(text@, c) =~= pieces(text@, c));
    while at < chars.len()
        invariant
            chars@ == text@,
            start <= at <= chars.len(),
            forall|i: int| start <= i < at ==> text@[i] != c,
            texts(parts@) + pieces(text@.skip(start as int), c) == pieces(text@, c),
        decreases chars.len() - at,
    {
        if chars[at] == c {
            let part = text.substring_char(start, at).to_owned();
            proof {
                let rest = text@.skip(start as int);
                lemma_first_at_is(rest, c, at - start);
                assert(rest.take(at - start) =~= part@);
                assert(rest.skip(at - start + 1) =~= text@.skip(at + 1));
                assert(texts(parts@.push(part)) =~= texts(parts@).push(part@));
                assert(texts(parts@) + (seq![part@] + pieces(text@.skip(at + 1), c)) =~= texts(
                    parts@,
                ).push(part@) + pieces(text@.skip(at + 1), c));
            }
            parts.push(part);
            start = at + 1;
        }
        at = at + 1;
    }
    let part = text.substring_char(start, chars.len()).to_owned();
    proof {
        let rest = text@.skip(start as int);
        lemma_first_at_is(rest, c, rest.len() as int);
        assert(rest =~= part@);
        assert(texts(parts@.push(part)) =~= texts(parts@) + seq![part@]);
    }
    parts.push(part);
    parts
}

/// A copy of an optional string.
pub fn clone_text(value: &Option<String>) -> (copy: Option<String>)
    ensures
        copy == *value,
{
    match value {
        Some(text) => Some(text.clone()),
        None => None,
    }
}

/// A number is written in digits that read back as it, with no zero in front of others, and a digit
/// behind a number makes it ten times as much and the digit more.
pub proof fn law_decimals_are_written_shortest(n: nat, c: char)
    ensures
        is_digits(decimal(n)),
        digits_value(decimal(n)) == n,
        decimal(n).len() > 1 ==> decimal(n)[0] != '0',
        is_digit(c) ==> digits_value(decimal(n).push(c)) == n * 10 + (c as nat - 48),
        digits_value(Seq::empty()) == 0,
    decreases n,
{
    lemma_decimal_reads_back(n);
    assert(decimal(n).push(c).drop_last() =~= decimal(n));
    if n >= 10 {
        law_decimals_are_written_shortest(n / 10, c);
        lemma_decimal_reads_back(n / 10);
        assert(decimal(n)[0] == decimal(n / 10)[0]);
        if n / 10 < 10 {
            assert(decimal(n / 10)[0] == digit(n / 10));
            assert(digit(n / 10) as nat == 48 + n / 10);
        } else {
            lemma_decimal_reads_back(n / 10 / 10);
        }
    }
}

/// Trimming takes off nothing but the one character, as often as it stands at that end: what is left
/// neither starts, or ends, with it nor lacks anything else.
pub proof fn law_trimming_takes_one_character(text: Seq<char>, c: char)
    ensures
        ({
            let rest = trimmed_start(text, c);
            let taken = text.len() - rest.len();
            &&& 0 <= taken && rest == text.skip(taken)
            &&& forall|i: int| 0 <= i < taken ==> text[i] == c
            &&& rest.len() > 0 ==> rest[0] != c
        }),
        ({
            let rest = trimmed_end(text, c);
            &&& rest.len() <= text.len() && rest == text.take(rest.len() as int)
            &&& forall|i: int| rest.len() <= i < text.len() ==> text[i] == c
            &&& rest.len() > 0 ==> rest.last() != c
        }),
    decreases text.len(),
{
    if text.len() == 0 {
        assert(text.skip(0) =~= text);
        assert(text.take(0) =~= text);
    } else {
        law_trimming_takes_one_character(text.skip(1), c);
        law_trimming_takes_one_character(text.drop_last(), c);
        if text[0] == c {
            let rest = trimmed_start(text.skip(1), c);
            let taken = text.len() - rest.len();
            assert(text.skip(1).skip(taken - 1) =~= text.skip(taken));
            assert forall|i: int| 0 <= i < taken implies text[i] == c by {
                if i > 0 {
                    assert(text.skip(1)[i - 1] == text[i]);
                }
            }
        } else {
            assert(text.skip(0) =~= text);
        }
        if text.last() == c {
            let rest = trimmed_end(text.drop_last(), c);
            assert(text.drop_last().take(rest.len() as int) =~= text.take(rest.len() as int));
            assert forall|i: int| rest.len() <= i < text.len() implies text[i] == c by {
                if i < text.len() - 1 {
                    assert(text.drop_last()[i] == text[i]);
                }
            }
        } else {
            assert(text.take(text.len() as int) =~= text);
        }
    }
}

/// What follows a prefix is what was put behind it, and nothing follows a prefix that is not there.
pub proof fn law_prefixes_come_off(text: Seq<char>, prefix: Seq<char>, rest: Seq<char>)
    ensures
        after_prefix(prefix + rest, prefix) == Some(rest),
        after_prefix(text, prefix) matches Some(rest) ==> text == prefix + rest,
{
    assert((prefix + rest).take(prefix.len() as int) =~= prefix);
    assert((prefix + rest).skip(prefix.len() as int) =~= rest);
    assert(prefix.is_prefix_of(prefix + rest));
    if prefix.is_prefix_of(text) {
        assert(text =~= prefix + text.skip(prefix.len() as int));
    }
}

/// Texts with `c` between them.
pub open spec fn joined_by(parts: Seq<Seq<char>>, c: char) -> Seq<char>
    decreases parts.len(),
{
    if parts.len() == 0 {
        Seq::empty()
    } else if parts.len() == 1 {
        parts[0]
    } else {
        parts[0] + seq![c] + joined_by(parts.skip(1), c)
    }
}

/// The pieces of a text hold no `c`, and with a `c` between them they are the text.
pub proof fn law_pieces_make_up_the_text(text: Seq<char>, c: char)
    ensures
        pieces(text, c).len() > 0,
        joined_by(pieces(text, c), c) == text,
        forall|i: int| 0 <= i < pieces(text, c).len() ==> !(#[trigger] pieces(text, c)[i]).contains(c),
    decreases text.len(),
{
    let at = first_at(text, c) as int;
    let all = pieces(text, c);
    lemma_first_at(text, c);
    if at < text.len() {
        let rest = text.skip(at + 1);
        law_pieces_make_up_the_text(rest, c);
        assert(all.skip(1) =~= pieces(rest, c));
        assert(text =~= text.take(at) + seq![c] + rest);
        assert forall|i: int| 0 <= i < all.len() implies !(#[trigger] all[i]).contains(c) by {
            if i > 0 {
                assert(all[i] == pieces(rest, c)[i - 1]);
            } else {
                assert forall|j: int| 0 <= j < all[0].len() implies all[0][j] != c by {
                    assert(all[0][j] == text[j]);
                }
            }
        }
    } else {
        assert forall|j: int| 0 <= j < text.len() implies text[j] != c by {}
        assert(all[0] == text);
    }
}

/// The texts of strings and of pairs are theirs, one for one and in order, and an optional string has
/// its own text.
pub proof fn law_texts_are_one_for_one(
    value: Option<String>,
    values: Seq<String>,
    pairs: Seq<(String, String)>,
)
    ensures
        value matches Some(text) ==> opt_text(value) == Some(text@),
        value is None ==> opt_text(value) is None,
        texts(values).len() == values.len(),
        forall|i: int| 0 <= i < values.len() ==> #[trigger] texts(values)[i] == values[i]@,
        pair_texts(pairs).len() == pairs.len(),
        forall|i: int|
            0 <= i < pairs.len() ==> #[trigger] pair_texts(pairs)[i] == (pairs[i].0@, pairs[i].1@),
{
}

/// A text is a number up to a limit where digits stand in it, perhaps behind one plus, that read as
/// no more than the limit; a written number is one, with or without a plus, and reads as itself.
pub proof fn law_written_numbers_are_read(n: nat, max: nat)
    ensures
        is_number(decimal(n), max) <==> n <= max,
        number_of(decimal(n)) == n,
        is_number(seq!['+'] + decimal(n), max) <==> n <= max,
        number_of(seq!['+'] + decimal(n)) == n,
        !is_number(Seq::empty(), max),
        !is_number(seq!['-'] + decimal(n), max),
{
    lemma_decimal_reads_back(n);
    let signed = seq!['+'] + decimal(n);
    assert(signed.skip(1) =~= decimal(n));
    assert(is_digit(decimal(n)[0]));
    let negative = seq!['-'] + decimal(n);
    assert(!is_digit(negative[0]));
}

} // verus!
