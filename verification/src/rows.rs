//! Rows of a database: bytes inside, texts outside; and scans over them.
use crate::text::{
    decimal, is_number, law_written_numbers_are_read, number_of, parse_number,
};
use vstd::prelude::*;
use vstd::string::*;
use vstd::utf8::*;

verus! {

/// How many rows a scan gives that does not say.
pub const DEFAULT_SCAN_LIMIT: usize = 100;

/// The most rows that a scan gives.
pub const MAX_SCAN_LIMIT: usize = 1000;

/// What is to be written.
#[derive(Debug)]
pub struct PutRequest {
    pub key: String,
    pub value: String,
}

/// What stands under a key.
#[derive(Debug)]
pub struct ValueResponse {
    pub key: String,
    pub value: Option<String>,
}

/// A row as a scan gives it.
#[derive(Debug)]
pub struct ScanItem {
    pub key: String,
    pub value: String,
}

/// What a scan gives.
#[derive(Debug)]
pub struct ScanResponse {
    pub items: Vec<ScanItem>,
    /// Whether there are more rows.
    pub truncated: bool,
}

/// That something was done.
#[derive(Clone, Copy, Debug, PartialEq, Eq, Structural)]
pub struct OkResponse {
    pub ok: bool,
}

/// That it was done.
pub fn done() -> (response: OkResponse)
    ensures
        response.ok,
{
    OkResponse { ok: true }
}

/// The bytes of a text in UTF-8.
pub fn text_bytes(text: &str) -> (bytes: Vec<u8>)
    ensures
        bytes@ == encode_utf8(text@),
{
    vstd::slice::slice_to_vec(text.as_bytes())
}

/// What `String::from_utf8_lossy` makes of bytes that are no UTF-8.
pub uninterp spec fn repaired_text(bytes: Seq<u8>) -> Seq<char>;

/// Bytes as text: what they encode, or what can be made of them where they encode nothing.
pub open spec fn text_of(bytes: Seq<u8>) -> Seq<char> {
    if valid_utf8(bytes) {
        decode_utf8(bytes)
    } else {
        repaired_text(bytes)
    }
}

/// Calls `String::from_utf8_lossy`. It decodes bytes that are UTF-8. In others it puts replacement
/// characters; that text is left a name.
#[verifier::external_body]
fn lossy_text(bytes: &Vec<u8>) -> (text: String)
    ensures
        text@ == (if valid_utf8(bytes@) {
            decode_utf8(bytes@)
        } else {
            repaired_text(bytes@)
        }),
{
    String::from_utf8_lossy(bytes).into_owned()
}

/// The row that a write stores.
pub fn put_row(request: &PutRequest) -> (row: (Vec<u8>, Vec<u8>))
    ensures
        row.0@ == encode_utf8(request.key@),
        row.1@ == encode_utf8(request.value@),
{
    (text_bytes(request.key.as_str()), text_bytes(request.value.as_str()))
}

/// What is said of a key by what stands under it.
pub fn value_response(key: String, stored: &Option<Vec<u8>>) -> (response: ValueResponse)
    ensures
        response.key == key,
        response.value is Some <==> stored is Some,
        stored matches Some(bytes) ==> response.value->0@ == text_of(bytes@),
{
    match stored {
        Some(bytes) => ValueResponse { key, value: Some(lossy_text(bytes)) },
        None => ValueResponse { key, value: None },
    }
}

/// How many rows a scan gives: a hundred where it does not say, and from one to a thousand.
pub open spec fn limited(asked: Option<usize>) -> usize {
    match asked {
        Some(limit) => if limit < 1 {
            1
        } else if limit > MAX_SCAN_LIMIT {
            MAX_SCAN_LIMIT
        } else {
            limit
        },
        None => DEFAULT_SCAN_LIMIT,
    }
}

/// How many rows a scan gives.
pub fn scan_limit(asked: Option<usize>) -> (limit: usize)
    ensures
        limit == limited(asked),
{
    match asked {
        Some(limit) => if limit < 1 {
            1
        } else if limit > MAX_SCAN_LIMIT {
            MAX_SCAN_LIMIT
        } else {
            limit
        },
        None => DEFAULT_SCAN_LIMIT,
    }
}

/// The number of rows that a text asks for: none where it is no number that fits.
pub open spec fn asked_limit(text: Option<Seq<char>>) -> Option<usize> {
    match text {
        Some(text) => if is_number(text, usize::MAX as nat) {
            Some(number_of(text) as usize)
        } else {
            None
        },
        None => None,
    }
}

/// Reads the number of rows that a text asks for.
pub fn read_limit(text: Option<&str>) -> (limit: Option<usize>)
    ensures
        limit == asked_limit(
            (match text {
                Some(text) => Some(text@),
                None => None,
            }),
        ),
{
    match text {
        Some(text) => match parse_number(text) {
            Ok(number) => if number <= usize::MAX as u64 {
                Some(number as usize)
            } else {
                None
            },
            Err(_) => None,
        },
        None => None,
    }
}

/// The rows that a scan goes over.
#[derive(Debug)]
pub enum ScanRange {
    /// All of them.
    All,
    /// Those whose key starts with these bytes.
    Prefix(Vec<u8>),
}

/// The rows that a scan for a prefix goes over: an empty prefix stands for all.
pub fn scan_range(prefix: &str) -> (range: ScanRange)
    ensures
        prefix@.len() == 0 ==> range is All,
        prefix@.len() > 0 ==> (range matches ScanRange::Prefix(bytes) && bytes@ == encode_utf8(
            prefix@,
        )),
{
    if prefix.unicode_len() == 0 {
        ScanRange::All
    } else {
        ScanRange::Prefix(text_bytes(prefix))
    }
}

/// Rows by their texts.
pub open spec fn row_texts(items: Seq<ScanItem>) -> Seq<(Seq<char>, Seq<char>)> {
    items.map_values(|item: ScanItem| (item.key@, item.value@))
}

/// A scan under way: the rows so far.
#[derive(Debug)]
pub struct Scan {
    pub limit: usize,
    pub items: Vec<ScanItem>,
}

impl Scan {
    /// Whether the scan has one row more than it gives, at most.
    pub open spec fn within(self) -> bool {
        self.items@.len() <= self.limit + 1 && self.limit < usize::MAX
    }

    /// Starts a scan of at most `limit` rows.
    pub fn new(limit: usize) -> (scan: Scan)
        requires
            limit < usize::MAX,
        ensures
            scan.limit == limit,
            scan.items@.len() == 0,
            scan.within(),
    {
        Scan { limit, items: Vec::new() }
    }

    /// Whether the scan wants another row: one more than it gives tells it that there are more.
    pub fn wants_more(&self) -> (wants: bool)
        ensures
            wants == (self.items@.len() <= self.limit),
    {
        self.items.len() <= self.limit
    }

    /// Takes a row in.
    pub fn push(&mut self, key: &Vec<u8>, value: &Vec<u8>)
        requires
            old(self).within(),
            old(self).items@.len() <= old(self).limit,
        ensures
            final(self).within(),
            final(self).limit == old(self).limit,
            row_texts(final(self).items@) == row_texts(old(self).items@).push(
                (text_of(key@), text_of(value@)),
            ),
    {
        let item = ScanItem { key: lossy_text(key), value: lossy_text(value) };
        self.items.push(item);
        assert(row_texts(self.items@) =~= row_texts(old(self).items@).push(
            (text_of(key@), text_of(value@)),
        ));
    }

    /// Ends the scan.
    pub fn finish(self) -> (response: ScanResponse)
        ensures
            response.truncated == (self.items@.len() > self.limit),
            response.items@ == given(self.items@, self.limit as nat),
            response.items@.len() <= self.limit && response.items@.len() <= self.items@.len(),
            response.items@.len() == self.limit || response.items@.len() == self.items@.len(),
            forall|i: int|
                0 <= i < response.items@.len() ==> #[trigger] response.items@[i] == self.items@[i],
    {
        let truncated: bool = self.items.len() > self.limit;
        let mut items: Vec<ScanItem> = self.items;
        items.truncate(self.limit);
        ScanResponse { items, truncated }
    }
}

/// The rows that a scan has taken in once it wants no more or there are none left.
pub open spec fn taken_in<T>(items: Seq<T>, rows: Seq<T>, limit: nat) -> Seq<T>
    decreases rows.len(),
{
    if items.len() <= limit && rows.len() > 0 {
        taken_in(items.push(rows[0]), rows.skip(1), limit)
    } else {
        items
    }
}

/// The rows that a scan gives of those that it has taken in.
pub open spec fn given<T>(items: Seq<T>, limit: nat) -> Seq<T> {
    if items.len() > limit {
        items.take(limit as int)
    } else {
        items
    }
}

proof fn lemma_taken_in<T>(items: Seq<T>, rows: Seq<T>, limit: nat)
    requires
        items.len() <= limit + 1,
    ensures
        taken_in(items, rows, limit) == (items + rows).take(
            if items.len() + rows.len() > limit {
                limit as int + 1
            } else {
                (items.len() + rows.len()) as int
            },
        ),
    decreases rows.len(),
{
    if items.len() <= limit && rows.len() > 0 {
        lemma_taken_in(items.push(rows[0]), rows.skip(1), limit);
        assert(items.push(rows[0]) + rows.skip(1) =~= items + rows);
    } else {
        assert(items =~= (items + rows).take(items.len() as int));
    }
}

/// A scan gives the first rows, at most as many as its limit, and says that there are more exactly
/// where there are.
pub proof fn law_scan_gives_the_first_rows<T>(rows: Seq<T>, limit: nat)
    ensures
        given(taken_in(Seq::empty(), rows, limit), limit) == rows.take(
            if rows.len() > limit {
                limit as int
            } else {
                rows.len() as int
            },
        ),
        taken_in(Seq::empty(), rows, limit).len() > limit <==> rows.len() > limit,
{
    lemma_taken_in(Seq::empty(), rows, limit);
    assert(Seq::empty() + rows =~= rows);
    assert(given(taken_in(Seq::empty(), rows, limit), limit) =~= rows.take(
        if rows.len() > limit {
            limit as int
        } else {
            rows.len() as int
        },
    ));
}

/// Text that is written reads back as the same text.
pub proof fn law_text_reads_back(text: Seq<char>)
    ensures
        text_of(encode_utf8(text)) == text,
{
    encode_utf8_valid_utf8(text);
    encode_utf8_decode_utf8(text);
}

/// Different keys are stored apart: no two texts have the same bytes.
pub proof fn law_keys_are_stored_apart(left: Seq<char>, right: Seq<char>)
    requires
        encode_utf8(left) == encode_utf8(right),
    ensures
        left == right,
{
    law_text_reads_back(left);
    law_text_reads_back(right);
}

/// What is given of rows is their start: no more than the limit, and all of them where they are no
/// more. A higher limit gives the same rows first.
pub proof fn law_given_rows_are_the_start<T>(items: Seq<T>, limit: nat, more: nat)
    ensures
        given(items, limit).len() == (if items.len() > limit {
            limit
        } else {
            items.len()
        }),
        forall|i: int| 0 <= i < given(items, limit).len() ==> #[trigger] given(items, limit)[i] == items[i],
        given(items, limit).is_prefix_of(given(items, limit + more)),
{
    let (few, many) = (given(items, limit), given(items, limit + more));
    assert(many.take(few.len() as int) =~= few);
}

/// A scan takes in the rows in their order, up to one behind its limit, and stops there.
pub proof fn law_scans_take_in_the_first_rows<T>(rows: Seq<T>, limit: nat)
    ensures
        taken_in(Seq::empty(), rows, limit) == rows.take(
            if rows.len() > limit {
                limit as int + 1
            } else {
                rows.len() as int
            },
        ),
{
    lemma_taken_in(Seq::empty(), rows, limit);
    assert(Seq::empty() + rows =~= rows);
}

/// A scan gives from one to a thousand rows: as many as were asked for where that lies between, the
/// nearer end where it does not, and a hundred where nothing was asked for.
pub proof fn law_limits_lie_between_one_and_a_thousand(asked: Option<usize>)
    ensures
        1 <= limited(asked) <= 1000,
        asked matches Some(limit) ==> (1 <= limit <= 1000 ==> limited(asked) == limit),
        asked == Some(0usize) ==> limited(asked) == 1,
        asked matches Some(limit) ==> (limit > 1000 ==> limited(asked) == 1000),
        asked is None ==> limited(asked) == 100,
{
}

/// A written number that fits is the number of rows that it asks for; one that does not fit, or
/// nothing, asks for none.
pub proof fn law_written_limits_are_read(n: nat)
    ensures
        n <= usize::MAX ==> asked_limit(Some(decimal(n))) == Some(n as usize),
        n > usize::MAX ==> asked_limit(Some(decimal(n))) is None,
        asked_limit(None) is None,
        asked_limit(Some(Seq::empty())) is None,
{
    law_written_numbers_are_read(n, usize::MAX as nat);
}

/// The rows of a scan show their keys and values, one for one and in order.
pub proof fn law_rows_show_their_texts(items: Seq<ScanItem>)
    ensures
        row_texts(items).len() == items.len(),
        forall|i: int|
            0 <= i < items.len() ==> #[trigger] row_texts(items)[i] == (items[i].key@, items[i].value@),
{
}

} // verus!
