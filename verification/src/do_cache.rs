//! The cache of object parts in the storage of a durable object: its keys and what it gives back.
use crate::error::{failure, generic, Failure, StoreError};
use crate::text::{
    decimal, decimal_text, first_at, is_digit, lemma_decimal_reads_back, lemma_first_at_is, texts,
};
use vstd::prelude::*;
use vstd::string::*;
use vstd::utf8::*;

verus! {

/// The name of the cache in errors.
pub const STORE: &'static str = "cloudflare-do-cache";

/// What every key of the cache starts with.
pub const CACHE_PREFIX: &'static str = "slatedb-cache:";

/// How many keys one deletion takes.
pub const DELETE_BATCH: usize = 128;

/// What the keys of an object in parts of `part_size` bytes start with. The length of the location
/// in bytes stands before it.
pub open spec fn prefix_of(location: Seq<char>, part_size: nat) -> Seq<char> {
    CACHE_PREFIX@ + decimal(part_size) + ":"@ + decimal(encode_utf8(location).len()) + ":"@
        + location + ":"@
}

/// Writes what the keys of an object start with.
pub fn entry_prefix(location: &str, part_size: usize) -> (prefix: String)
    ensures
        prefix@ == prefix_of(location@, part_size as nat),
{
    let mut prefix = CACHE_PREFIX.to_owned();
    prefix.append(decimal_text(part_size as u64).as_str());
    prefix.append(":");
    prefix.append(decimal_text(location.as_bytes().len() as u64).as_str());
    prefix.append(":");
    prefix.append(location);
    prefix.append(":");
    prefix
}

/// What the cache holds of an object.
pub enum Slot {
    /// What is known of it.
    Head,
    /// One of its parts.
    Part(nat),
}

/// How the key of a slot ends.
pub open spec fn slot_text(slot: Slot) -> Seq<char> {
    match slot {
        Slot::Head => "head"@,
        Slot::Part(number) => "part:"@ + decimal(number),
    }
}

/// The key of a slot of an object.
pub open spec fn key_of(location: Seq<char>, part_size: nat, slot: Slot) -> Seq<char> {
    prefix_of(location, part_size) + slot_text(slot)
}

/// The cache.
#[derive(Clone, Copy, Debug)]
pub struct DoCacheStorage;

impl DoCacheStorage {
    /// The cache in the storage of the object that runs.
    pub fn new() -> (cache: DoCacheStorage)
        ensures
            cache == DoCacheStorage,
    {
        DoCacheStorage
    }

    /// The cache in words.
    pub fn label(&self) -> (words: &'static str)
        ensures
            words@ == "Cloudflare Durable Object storage"@,
    {
        "Cloudflare Durable Object storage"
    }

    /// Whether the cache holds anything, by the number of keys that start with its prefix.
    pub fn is_populated(&self, entries: u32) -> (populated: bool)
        ensures
            populated == (entries > 0),
    {
        entries != 0
    }

    /// The entry of an object in parts of `part_size` bytes.
    pub fn entry(&self, location: &str, part_size: usize) -> (entry: DoCacheEntry)
        ensures
            entry.prefix@ == prefix_of(location@, part_size as nat),
            entry.part_size == part_size,
    {
        DoCacheEntry { prefix: entry_prefix(location, part_size), part_size }
    }
}

/// The entry of an object in the cache.
#[derive(Debug)]
pub struct DoCacheEntry {
    pub prefix: String,
    pub part_size: usize,
}

/// The parts of an object of `size` bytes, counted modulo the numbers that parts can have.
pub open spec fn part_count(size: u64, part_size: usize) -> nat {
    (((size + part_size - 1) / part_size as int) % (usize::MAX + 1)) as nat
}

/// The keys of the first parts.
pub open spec fn part_keys(prefix: Seq<char>, count: nat) -> Seq<Seq<char>> {
    Seq::new(count, |number: int| prefix + slot_text(Slot::Part(number as nat)))
}

/// A sequence cut into runs of `length`, the last of which may be shorter.
pub open spec fn runs<T>(items: Seq<T>, length: nat) -> Seq<Seq<T>>
    decreases items.len(),
{
    if items.len() == 0 || length == 0 {
        Seq::empty()
    } else if items.len() <= length {
        seq![items]
    } else {
        seq![items.take(length as int)] + runs(items.skip(length as int), length)
    }
}

/// The keys of the parts of an object of which this size is known, in batches.
pub open spec fn part_batches(prefix: Seq<char>, part_size: usize, size: Option<u64>) -> Seq<
    Seq<Seq<char>>,
> {
    match size {
        Some(size) => runs(part_keys(prefix, part_count(size, part_size)), DELETE_BATCH as nat),
        None => Seq::empty(),
    }
}

/// The texts of lists of strings.
pub open spec fn text_lists(lists: Seq<Vec<String>>) -> Seq<Seq<Seq<char>>> {
    lists.map_values(|list: Vec<String>| texts(list@))
}

impl DoCacheEntry {
    /// The key of what is known of the object.
    pub fn head_key(&self) -> (key: String)
        ensures
            key@ == self.prefix@ + slot_text(Slot::Head),
    {
        let mut key = self.prefix.clone();
        key.append("head");
        key
    }

    /// The key of a part.
    pub fn part_key(&self, part_number: usize) -> (key: String)
        ensures
            key@ == self.prefix@ + slot_text(Slot::Part(part_number as nat)),
    {
        let mut key = self.prefix.clone();
        key.append("part:");
        key.append(decimal_text(part_number as u64).as_str());
        assert(key@ =~= self.prefix@ + slot_text(Slot::Part(part_number as nat)));
        key
    }

    /// How many parts an object of `size` bytes has.
    fn parts_of(&self, size: u64) -> (count: usize)
        requires
            self.part_size > 0,
        ensures
            count == part_count(size, self.part_size),
    {
        let part: u64 = self.part_size as u64;
        let whole: u64 = size / part;
        let rest: u64 = size % part;
        proof {
            lemma_ceiling(size as int, part as int);
        }
        let count: u64 = if rest == 0 {
            whole
        } else {
            assert(whole < u64::MAX) by (nonlinear_arith)
                requires
                    whole == size / part,
                    rest == size % part,
                    rest != 0,
                    part > 0,
            ;
            whole + 1
        };
        if count <= usize::MAX as u64 {
            proof {
                vstd::arithmetic::div_mod::lemma_small_mod(count as nat, (usize::MAX + 1) as nat);
            }
            count as usize
        } else {
            (count % (usize::MAX as u64 + 1)) as usize
        }
    }

    /// The keys of the parts of an object of which this size is known, in batches that one deletion
    /// takes. Where nothing is known of the object, its parts stay.
    pub fn deletions(&self, size: Option<u64>) -> (batches: Vec<Vec<String>>)
        requires
            size is Some ==> self.part_size > 0,
        ensures
            text_lists(batches@) == part_batches(self.prefix@, self.part_size, size),
    {
        let size: u64 = match size {
            Some(size) => size,
            None => {
                let batches: Vec<Vec<String>> = Vec::new();
                assert(text_lists(batches@) =~= Seq::<Seq<Seq<char>>>::empty());
                return batches;
            },
        };
        let count: usize = self.parts_of(size);
        let ghost keys = part_keys(self.prefix@, count as nat);
        let mut batches: Vec<Vec<String>> = Vec::new();
        let mut next: usize = 0;
        assert(keys.skip(0) =~= keys);
        assert(text_lists(batches@) + runs(keys, 128) =~= runs(keys, 128));
        while next < count
            invariant
                keys == part_keys(self.prefix@, count as nat),
                next <= count,
                text_lists(batches@) + runs(keys.skip(next as int), 128) == runs(keys, 128),
            decreases count - next,
        {
            let end: usize = if count - next <= DELETE_BATCH {
                count
            } else {
                next + DELETE_BATCH
            };
            let mut batch: Vec<String> = Vec::new();
            for number in next..end
                invariant
                    keys == part_keys(self.prefix@, count as nat),
                    next <= end <= count,
                    texts(batch@) == keys.subrange(next as int, number as int),
            {
                let key = self.part_key(number);
                proof {
                    assert(keys[number as int] == key@);
                    assert(texts(batch@.push(key)) =~= texts(batch@).push(key@));
                    assert(keys.subrange(next as int, number + 1) =~= keys.subrange(
                        next as int,
                        number as int,
                    ).push(key@));
                }
                batch.push(key);
            }
            proof {
                let rest = keys.skip(next as int);
                if rest.len() <= 128 {
                    assert(texts(batch@) =~= rest);
                    assert(keys.skip(end as int) =~= Seq::<Seq<char>>::empty());
                    assert(runs(rest, 128) =~= seq![texts(batch@)] + runs(keys.skip(end as int), 128));
                } else {
                    assert(texts(batch@) =~= rest.take(128));
                    assert(keys.skip(end as int) =~= rest.skip(128));
                }
                assert(text_lists(batches@.push(batch)) =~= text_lists(batches@).push(
                    texts(batch@),
                ));
                assert(text_lists(batches@) + (seq![texts(batch@)] + runs(
                    keys.skip(end as int),
                    128,
                )) =~= text_lists(batches@).push(texts(batch@)) + runs(keys.skip(end as int), 128));
            }
            batches.push(batch);
            next = end;
        }
        assert(keys.skip(count as int) =~= Seq::<Seq<char>>::empty());
        assert(text_lists(batches@) + Seq::<Seq<Seq<char>>>::empty() =~= text_lists(batches@));
        batches
    }
}

proof fn lemma_ceiling(size: int, part: int)
    by (nonlinear_arith)
    requires
        size >= 0,
        part > 0,
    ensures
        (size + part - 1) / part == (if size % part == 0 {
            size / part
        } else {
            size / part + 1
        }),
{
}

/// The error of the cache with these words.
pub fn cache_message(words: String) -> (error: StoreError)
    ensures
        error@ == (Failure::Generic { store: STORE@, message: words@ }),
{
    generic(STORE, words)
}

/// The failure of a read of a cached part: the part does not have the bytes.
pub open spec fn part_failure(cached: Option<Vec<u8>>, start: usize, end: usize) -> Option<Failure> {
    match cached {
        Some(bytes) => if start <= end <= bytes@.len() {
            None
        } else {
            Some(
                Failure::Generic {
                    store: STORE@,
                    message: "cached part is shorter than requested range"@,
                },
            )
        },
        None => None,
    }
}

/// The bytes of a cached part from `start` up to `end`, where the part is cached.
pub fn read_part(cached: Option<Vec<u8>>, start: usize, end: usize) -> (bytes: Result<
    Option<Vec<u8>>,
    StoreError,
>)
    ensures
        failure(bytes) == part_failure(cached, start, end),
        bytes matches Ok(bytes) ==> (match cached {
            Some(part) => bytes matches Some(requested) && requested@ == part@.subrange(
                start as int,
                end as int,
            ),
            None => bytes is None,
        }),
{
    match cached {
        Some(part) => {
            if start <= end && end <= part.len() {
                let requested = vstd::slice::slice_subrange(part.as_slice(), start, end);
                Ok(Some(vstd::slice::slice_to_vec(requested)))
            } else {
                Err(cache_message("cached part is shorter than requested range".to_owned()))
            }
        },
        None => Ok(None),
    }
}

/// Every key of the cache starts with its prefix, so that a listing under the prefix sees it.
pub proof fn law_keys_start_with_the_prefix(location: Seq<char>, part_size: nat, slot: Slot)
    ensures
        CACHE_PREFIX@.is_prefix_of(key_of(location, part_size, slot)),
{
    let key = key_of(location, part_size, slot);
    assert(key.take(CACHE_PREFIX@.len() as int) =~= CACHE_PREFIX@);
}

proof fn lemma_encoded_length(left: Seq<char>, right: Seq<char>)
    ensures
        encode_utf8(left + right).len() == encode_utf8(left).len() + encode_utf8(right).len(),
        right.len() > 0 ==> encode_utf8(right).len() > 0,
    decreases left.len(),
{
    if left.len() == 0 {
        assert(left + right =~= right);
    } else {
        lemma_encoded_length(left.drop_first(), right);
        assert((left + right).drop_first() =~= left.drop_first() + right);
    }
}

/// A number before a colon, and what follows, can be told from the two together.
proof fn lemma_number_and_rest(left: nat, left_rest: Seq<char>, right: nat, right_rest: Seq<char>)
    requires
        decimal(left) + ":"@ + left_rest == decimal(right) + ":"@ + right_rest,
    ensures
        left == right,
        left_rest == right_rest,
{
    reveal_strlit(":");
    lemma_decimal_reads_back(left);
    lemma_decimal_reads_back(right);
    let text = decimal(left) + ":"@ + left_rest;
    lemma_colon(left, left_rest);
    lemma_colon(right, right_rest);
    assert(text.take(first_at(text, ':') as int) =~= decimal(left));
    assert(text.take(first_at(text, ':') as int) =~= decimal(right));
    assert(left_rest =~= text.skip(first_at(text, ':') as int + 1));
    assert(right_rest =~= text.skip(first_at(text, ':') as int + 1));
}

proof fn lemma_colon(number: nat, rest: Seq<char>)
    ensures
        first_at(decimal(number) + ":"@ + rest, ':') == decimal(number).len(),
{
    reveal_strlit(":");
    lemma_decimal_reads_back(number);
    let text = decimal(number) + ":"@ + rest;
    assert forall|i: int| 0 <= i < decimal(number).len() implies text[i] != ':' by {
        assert(is_digit(decimal(number)[i]));
    }
    lemma_first_at_is(text, ':', decimal(number).len() as int);
}

/// No two slots of the cache share a key: a key belongs to one location, one part size and one slot.
pub proof fn law_keys_are_told_apart(
    left: Seq<char>,
    left_size: nat,
    left_slot: Slot,
    right: Seq<char>,
    right_size: nat,
    right_slot: Slot,
)
    requires
        key_of(left, left_size, left_slot) == key_of(right, right_size, right_slot),
    ensures
        left == right,
        left_size == right_size,
        left_slot == right_slot,
{
    let left_end = left + ":"@ + slot_text(left_slot);
    let right_end = right + ":"@ + slot_text(right_slot);
    let left_middle = decimal(encode_utf8(left).len()) + ":"@ + left_end;
    let right_middle = decimal(encode_utf8(right).len()) + ":"@ + right_end;
    lemma_key_rest(left, left_size, left_slot);
    lemma_key_rest(right, right_size, right_slot);
    lemma_number_and_rest(left_size, left_middle, right_size, right_middle);
    lemma_number_and_rest(
        encode_utf8(left).len(),
        left_end,
        encode_utf8(right).len(),
        right_end,
    );
    if left.len() <= right.len() {
        lemma_same_start(left, slot_text(left_slot), right, slot_text(right_slot));
    } else {
        lemma_same_start(right, slot_text(right_slot), left, slot_text(left_slot));
    }
    lemma_slot(left_slot, right_slot);
}

/// Slots are told apart by how their keys end.
proof fn lemma_slot(left: Slot, right: Slot)
    requires
        slot_text(left) == slot_text(right),
    ensures
        left == right,
{
    reveal_strlit("head");
    reveal_strlit("part:");
    assert("head"@[0] == 'h');
    assert("part:"@[0] == 'p');
    assert(slot_text(left)[0] == slot_text(right)[0]);
    assert(left is Head <==> slot_text(left)[0] == 'h');
    assert(right is Head <==> slot_text(right)[0] == 'h');
    if let (Slot::Part(first), Slot::Part(second)) = (left, right) {
        lemma_decimal_reads_back(first);
        lemma_decimal_reads_back(second);
        assert(slot_text(left).skip(5) =~= decimal(first));
        assert(slot_text(right).skip(5) =~= decimal(second));
    }
}

/// What follows the cache's prefix in a key.
proof fn lemma_key_rest(location: Seq<char>, part_size: nat, slot: Slot)
    ensures
        key_of(location, part_size, slot).skip(CACHE_PREFIX@.len() as int) == decimal(part_size)
            + ":"@ + (decimal(encode_utf8(location).len()) + ":"@ + (location + ":"@ + slot_text(
            slot,
        ))),
{
    let rest = decimal(part_size) + ":"@ + (decimal(encode_utf8(location).len()) + ":"@ + (location
        + ":"@ + slot_text(slot)));
    assert(key_of(location, part_size, slot) =~= CACHE_PREFIX@ + rest);
    assert((CACHE_PREFIX@ + rest).skip(CACHE_PREFIX@.len() as int) =~= rest);
}

/// Two texts of the same length in bytes that start the same text are the same.
proof fn lemma_same_start(short: Seq<char>, short_rest: Seq<char>, long: Seq<char>, long_rest: Seq<char>)
    requires
        short.len() <= long.len(),
        short + ":"@ + short_rest == long + ":"@ + long_rest,
        encode_utf8(short).len() == encode_utf8(long).len(),
    ensures
        short == long,
        short_rest == long_rest,
{
    reveal_strlit(":");
    let text = short + ":"@ + short_rest;
    assert(text.take(short.len() as int) =~= short);
    assert(text.take(long.len() as int) =~= long);
    assert(long =~= short + long.skip(short.len() as int));
    lemma_encoded_length(short, long.skip(short.len() as int));
    assert(short =~= long);
    assert(short_rest =~= text.skip(short.len() as int + 1));
    assert(long_rest =~= text.skip(short.len() as int + 1));
}

/// A deletion takes the part of every byte: the number of the part is under the count, where parts
/// can have that many numbers.
pub proof fn law_deletion_covers_every_byte(size: u64, part_size: usize, offset: u64)
    requires
        part_size > 0,
        offset < size,
        (size + part_size - 1) / part_size as int <= usize::MAX,
    ensures
        (offset as int / part_size as int) < part_count(size, part_size),
{
    let count = (size + part_size - 1) / part_size as int;
    assert(0 <= (offset as int / part_size as int) && (offset as int / part_size as int) < count)
        by (nonlinear_arith)
        requires
            part_size > 0,
            0 <= offset < size,
            count == (size + part_size - 1) / part_size as int,
    ;
    vstd::arithmetic::div_mod::lemma_small_mod(count as nat, (usize::MAX + 1) as nat);
}

/// The batches of a deletion hold every key once, in order, and none is empty or too long.
pub proof fn law_runs_hold_everything<T>(items: Seq<T>, length: nat)
    requires
        length > 0,
    ensures
        runs(items, length).flatten() == items,
        forall|i: int|
            0 <= i < runs(items, length).len() ==> 0 < (#[trigger] runs(items, length)[i]).len()
                <= length,
    decreases items.len(),
{
    let all = runs(items, length);
    if items.len() == 0 {
        assert(all.flatten() =~= items);
    } else if items.len() <= length {
        assert(all.drop_first() =~= Seq::<Seq<T>>::empty());
        assert(all.drop_first().flatten() =~= Seq::<T>::empty());
        assert(all.flatten() =~= items);
    } else {
        let rest = items.skip(length as int);
        law_runs_hold_everything(rest, length);
        assert(all.drop_first() =~= runs(rest, length));
        assert(all.flatten() =~= items.take(length as int) + rest);
        assert(items.take(length as int) + rest =~= items);
        assert forall|i: int| 0 <= i < all.len() implies 0 < (#[trigger] all[i]).len() <= length by {
            if i > 0 {
                assert(all[i] == runs(rest, length)[i - 1]);
            }
        }
    }
}

/// A storage after batches of keys have been deleted in turn.
pub open spec fn after_batches<V>(
    stored: Map<Seq<char>, V>,
    batches: Seq<Seq<Seq<char>>>,
) -> Map<Seq<char>, V>
    decreases batches.len(),
{
    if batches.len() == 0 {
        stored
    } else {
        after_batches(stored.remove_keys(batches[0].to_set()), batches.drop_first())
    }
}

/// A storage after the entry of an object has been deleted: the key of what is known of it, and the
/// parts that its size tells of.
pub open spec fn after_deletion<V>(
    stored: Map<Seq<char>, V>,
    location: Seq<char>,
    part_size: usize,
    size: Option<u64>,
) -> Map<Seq<char>, V> {
    after_batches(
        stored.remove(key_of(location, part_size as nat, Slot::Head)),
        part_batches(prefix_of(location, part_size as nat), part_size, size),
    )
}

proof fn lemma_after_batches<V>(
    stored: Map<Seq<char>, V>,
    batches: Seq<Seq<Seq<char>>>,
    key: Seq<char>,
)
    ensures
        after_batches(stored, batches).contains_key(key) <==> stored.contains_key(key)
            && !batches.flatten().contains(key),
        after_batches(stored, batches).contains_key(key) ==> after_batches(stored, batches)[key]
            == stored[key],
    decreases batches.len(),
{
    if batches.len() == 0 {
        assert(!batches.flatten().contains(key));
    } else {
        let first = batches[0];
        let rest = batches.drop_first().flatten();
        lemma_after_batches(stored.remove_keys(first.to_set()), batches.drop_first(), key);
        assert(batches.flatten() == first + rest);
        if first.contains(key) {
            let at = choose|at: int| 0 <= at < first.len() && first[at] == key;
            assert((first + rest)[at] == key);
        }
        if rest.contains(key) {
            let at = choose|at: int| 0 <= at < rest.len() && rest[at] == key;
            assert((first + rest)[first.len() + at] == key);
        }
        if (first + rest).contains(key) {
            let at = choose|at: int| 0 <= at < (first + rest).len() && (first + rest)[at] == key;
            if at < first.len() {
                assert(first[at] == key);
            } else {
                assert(rest[at - first.len()] == key);
            }
        }
        assert(first.to_set().contains(key) <==> first.contains(key));
    }
}

/// The parts of an entry that a deletion takes: every one that the size tells of, once and in order,
/// in batches of at most as many keys as one deletion takes. Every part with a byte is among them
/// where parts can have that many numbers.
pub proof fn law_deletion_takes_every_part(location: Seq<char>, part_size: usize, size: u64)
    requires
        part_size > 0,
    ensures
        ({
            let prefix = prefix_of(location, part_size as nat);
            let batches = part_batches(prefix, part_size, Some(size));
            let count = part_count(size, part_size);
            &&& batches.flatten() == part_keys(prefix, count)
            &&& part_keys(prefix, count).no_duplicates()
            &&& forall|i: int|
                0 <= i < batches.len() ==> 0 < (#[trigger] batches[i]).len() <= DELETE_BATCH
            &&& (size + part_size - 1) / part_size as int <= usize::MAX ==> count == (size
                + part_size - 1) / part_size as int
        }),
{
    let prefix = prefix_of(location, part_size as nat);
    let count = (size + part_size - 1) / part_size as int;
    law_runs_hold_everything(part_keys(prefix, part_count(size, part_size)), DELETE_BATCH as nat);
    let keys = part_keys(prefix, part_count(size, part_size));
    assert forall|i: int, j: int| 0 <= i < keys.len() && 0 <= j < keys.len() && i != j implies keys[i]
        != keys[j] by {
        let (first, second) = (Slot::Part(i as nat), Slot::Part(j as nat));
        if keys[i] == keys[j] {
            assert((prefix + slot_text(first)).skip(prefix.len() as int) =~= slot_text(first));
            assert((prefix + slot_text(second)).skip(prefix.len() as int) =~= slot_text(second));
            lemma_slot(first, second);
        }
    }
    vstd::arithmetic::div_mod::lemma_div_pos_is_pos(size + part_size - 1, part_size as int);
    if count <= usize::MAX {
        vstd::arithmetic::div_mod::lemma_small_mod(count as nat, (usize::MAX + 1) as nat);
    }
}

/// A deletion takes an entry and nothing else, each key once and in batches of at most as many keys as
/// one deletion takes. Afterwards the storage holds neither what is known of the object nor any part
/// that its size tells of, the last and perhaps shorter one with the others; where no size is known,
/// the parts stay. A key of every other object or part size, and every key that belongs to no entry,
/// stays with its value.
pub proof fn law_deletion_takes_one_entry<V>(
    stored: Map<Seq<char>, V>,
    location: Seq<char>,
    part_size: usize,
    size: Option<u64>,
    key: Seq<char>,
)
    requires
        size is Some ==> part_size > 0,
    ensures
        ({
            let batches = part_batches(prefix_of(location, part_size as nat), part_size, size);
            &&& batches.flatten().no_duplicates()
            &&& forall|i: int|
                0 <= i < batches.len() ==> 0 < (#[trigger] batches[i]).len() <= DELETE_BATCH
        }),
        size matches Some(bytes) ==> forall|number: nat|
            number < (bytes + part_size - 1) / part_size as int && (bytes + part_size - 1)
                / part_size as int <= usize::MAX ==> !after_deletion(
                stored,
                location,
                part_size,
                size,
            ).contains_key(#[trigger] key_of(location, part_size as nat, Slot::Part(number))),
        ({
            let after = after_deletion(stored, location, part_size, size);
            let taken = key == key_of(location, part_size as nat, Slot::Head) || (size is Some
                && exists|number: nat|
                number < part_count(size->0, part_size) && key == #[trigger] key_of(
                    location,
                    part_size as nat,
                    Slot::Part(number),
                ));
            &&& taken ==> !after.contains_key(key)
            &&& !taken ==> (after.contains_key(key) <==> stored.contains_key(key))
            &&& !taken && stored.contains_key(key) ==> after[key] == stored[key]
        }),
        forall|other: Seq<char>, other_size: nat, slot: Slot|
            key == #[trigger] key_of(other, other_size, slot) && (other != location || other_size
                != part_size) && stored.contains_key(key) ==> after_deletion(
                stored,
                location,
                part_size,
                size,
            ).contains_key(key) && after_deletion(stored, location, part_size, size)[key]
                == stored[key],
{
    let prefix = prefix_of(location, part_size as nat);
    let head = key_of(location, part_size as nat, Slot::Head);
    let batches = part_batches(prefix, part_size, size);
    lemma_after_batches(stored.remove(head), batches, key);
    if let Some(bytes) = size {
        let keys = part_keys(prefix, part_count(bytes, part_size));
        law_deletion_takes_every_part(location, part_size, bytes);
        if keys.contains(key) {
            let at = choose|at: int| 0 <= at < keys.len() && keys[at] == key;
            assert(key == key_of(location, part_size as nat, Slot::Part(at as nat)));
        }
        assert forall|number: nat|
            number < (bytes + part_size - 1) / part_size as int && (bytes + part_size - 1)
                / part_size as int <= usize::MAX implies !after_deletion(
            stored,
            location,
            part_size,
            size,
        ).contains_key(#[trigger] key_of(location, part_size as nat, Slot::Part(number))) by {
            let part = key_of(location, part_size as nat, Slot::Part(number));
            assert(keys[number as int] == part);
            lemma_after_batches(stored.remove(head), batches, part);
        }
        assert forall|number: nat|
            number < part_count(bytes, part_size) && key == #[trigger] key_of(
                location,
                part_size as nat,
                Slot::Part(number),
            ) implies keys.contains(key) by {
            assert(keys[number as int] == key);
        }
    } else {
        assert(!batches.flatten().contains(key));
    }
    assert forall|other: Seq<char>, other_size: nat, slot: Slot|
        key == #[trigger] key_of(other, other_size, slot) && (other != location || other_size
            != part_size) && stored.contains_key(key) implies after_deletion(
        stored,
        location,
        part_size,
        size,
    ).contains_key(key) && after_deletion(stored, location, part_size, size)[key]
        == stored[key] by {
        if key == head {
            law_keys_are_told_apart(
                other,
                other_size,
                slot,
                location,
                part_size as nat,
                Slot::Head,
            );
        }
        if batches.flatten().contains(key) {
            let bytes = size->0;
            let keys = part_keys(prefix, part_count(bytes, part_size));
            let at = choose|at: int| 0 <= at < keys.len() && keys[at] == key;
            law_keys_are_told_apart(
                other,
                other_size,
                slot,
                location,
                part_size as nat,
                Slot::Part(at as nat),
            );
        }
    }
}

/// A key is the cache's prefix, the part size, the bytes of the location counted, the location and
/// the slot, with a colon behind each of the middle ones; a part has its number behind its slot.
pub proof fn law_keys_are_written_out(location: Seq<char>, part_size: nat, number: nat)
    ensures
        key_of(location, part_size, Slot::Head) == "slatedb-cache:"@ + decimal(part_size) + ":"@
            + decimal(encode_utf8(location).len()) + ":"@ + location + ":"@ + "head"@,
        key_of(location, part_size, Slot::Part(number)) == "slatedb-cache:"@ + decimal(part_size)
            + ":"@ + decimal(encode_utf8(location).len()) + ":"@ + location + ":"@ + "part:"@
            + decimal(number),
{
    assert(key_of(location, part_size, Slot::Part(number)) =~= prefix_of(location, part_size)
        + "part:"@ + decimal(number));
}

/// The keys of the first parts are those of the parts from nought up, without a gap.
pub proof fn law_part_keys_are_numbered_up(
    location: Seq<char>,
    part_size: nat,
    prefix: Seq<char>,
    count: nat,
    number: nat,
)
    requires
        number < count,
    ensures
        part_keys(prefix, count).len() == count,
        part_keys(prefix, count)[number as int] == prefix + ("part:"@ + decimal(number)),
        part_keys(prefix_of(location, part_size), count).len() == count,
        part_keys(prefix_of(location, part_size), count)[number as int] == key_of(
            location,
            part_size,
            Slot::Part(number),
        ),
{
}

/// Every batch but the last is full.
pub proof fn law_batches_are_full_but_the_last<T>(items: Seq<T>, length: nat)
    requires
        length > 0,
    ensures
        forall|i: int|
            0 <= i < runs(items, length).len() - 1 ==> (#[trigger] runs(items, length)[i]).len()
                == length,
    decreases items.len(),
{
    if items.len() > length {
        let rest = items.skip(length as int);
        law_batches_are_full_but_the_last(rest, length);
        let all = runs(items, length);
        assert forall|i: int| 0 <= i < all.len() - 1 implies (#[trigger] all[i]).len() == length by {
            if i > 0 {
                assert(all[i] == runs(rest, length)[i - 1]);
            }
        }
    }
}

/// The parts that are counted are enough for every byte, and without the last one they are not.
pub proof fn law_parts_are_just_enough(size: u64, part_size: usize)
    requires
        part_size > 0,
        (size + part_size - 1) / part_size as int <= usize::MAX,
    ensures
        part_count(size, part_size) * part_size >= size,
        size > 0 ==> (part_count(size, part_size) - 1) * part_size < size,
        size == 0 ==> part_count(size, part_size) == 0,
{
    let count = (size + part_size - 1) / part_size as int;
    let part = part_size as int;
    vstd::arithmetic::div_mod::lemma_div_pos_is_pos(size + part_size - 1, part);
    vstd::arithmetic::div_mod::lemma_small_mod(count as nat, (usize::MAX + 1) as nat);
    vstd::arithmetic::div_mod::lemma_fundamental_div_mod(size + part_size - 1, part);
    vstd::arithmetic::div_mod::lemma_mod_bound(size + part_size - 1, part);
    assert(part * count == count * part) by (nonlinear_arith);
    assert((count - 1) * part == count * part - part) by (nonlinear_arith);
    if size == 0 {
        vstd::arithmetic::div_mod::lemma_basic_div(part - 1, part);
    }
}

/// A cached part that has the bytes gives them; one that is too short, or a range that runs backwards,
/// fails in the words for that; a part that is not cached does not fail.
pub proof fn law_short_parts_fail(part: Vec<u8>, start: usize, end: usize)
    ensures
        part_failure(None, start, end) is None,
        part_failure(Some(part), start, end) is None <==> start <= end && end <= part@.len(),
        part_failure(Some(part), start, end) is Some ==> part_failure(Some(part), start, end)
            == Some(
            Failure::Generic {
                store: "cloudflare-do-cache"@,
                message: "cached part is shorter than requested range"@,
            },
        ),
{
}

/// The batches of an entry are the runs of its keys where its size is known, and none where it is not.
pub proof fn law_batches_need_a_known_size(prefix: Seq<char>, part_size: usize, size: u64)
    ensures
        part_batches(prefix, part_size, None).len() == 0,
        part_batches(prefix, part_size, Some(size)).flatten() == part_keys(
            prefix,
            part_count(size, part_size),
        ),
{
    law_runs_hold_everything(part_keys(prefix, part_count(size, part_size)), DELETE_BATCH as nat);
}

/// Slots are named by what they hold, and lists of texts show every text in its list and place.
pub proof fn law_slots_and_lists_show_their_texts(number: nat, lists: Seq<Vec<String>>)
    ensures
        slot_text(Slot::Head) == "head"@,
        slot_text(Slot::Part(number)) == "part:"@ + decimal(number),
        text_lists(lists).len() == lists.len(),
        forall|i: int| 0 <= i < lists.len() ==> #[trigger] text_lists(lists)[i] == texts(lists[i]@),
{
}

/// A deletion takes 128 keys at a time, but for the last, which takes what is left.
pub proof fn law_deletions_take_128_keys(prefix: Seq<char>, part_size: usize, size: u64, at: int)
    requires
        0 <= at < part_batches(prefix, part_size, Some(size)).len(),
    ensures
        ({
            let batches = part_batches(prefix, part_size, Some(size));
            &&& at < batches.len() - 1 ==> batches[at].len() == 128
            &&& 0 < batches[at].len() <= 128
        }),
{
    let keys = part_keys(prefix, part_count(size, part_size));
    law_batches_are_full_but_the_last(keys, 128);
    law_runs_hold_everything(keys, 128);
}

} // verus!
