//! The bytes of a write, which arrive in chunks.
use bytes::Bytes;
use object_store::PutPayload;
use vstd::prelude::*;

verus! {

/// `object_store::PutPayload`: the chunks of a write, in order.
#[verifier::external_type_specification]
#[verifier::external_body]
pub struct ExPutPayload(PutPayload);

/// `bytes::Bytes`: a chunk, whose bytes its copies share.
#[verifier::external_type_specification]
#[verifier::external_body]
pub struct ExBytes(Bytes);

/// The bytes that a chunk holds.
pub uninterp spec fn chunk_bytes(chunk: Bytes) -> Seq<u8>;

/// The chunks that a payload holds.
pub uninterp spec fn payload_chunks(payload: PutPayload) -> Seq<Seq<u8>>;

/// The bytes that a payload holds.
pub open spec fn payload_bytes(payload: PutPayload) -> Seq<u8> {
    joined(payload_chunks(payload))
}

/// Chunks put one behind the other.
pub open spec fn joined(chunks: Seq<Seq<u8>>) -> Seq<u8>
    decreases chunks.len(),
{
    if chunks.len() == 0 {
        Seq::empty()
    } else {
        joined(chunks.drop_last()) + chunks.last()
    }
}

/// The bytes of each of a list of chunks.
pub open spec fn byte_chunks(chunks: Seq<Bytes>) -> Seq<Seq<u8>> {
    chunks.map_values(|chunk: Bytes| chunk_bytes(chunk))
}

/// Calls `object_store::PutPayload::iter` and collects the chunks that it hands out. They come in the
/// payload's order, each once.
#[verifier::external_body]
fn chunks_of(payload: &PutPayload) -> (chunks: Vec<Bytes>)
    ensures
        byte_chunks(chunks@) == payload_chunks(*payload),
{
    payload.iter().cloned().collect()
}

/// Calls `bytes::Bytes::as_ref`, which gives the bytes of a chunk.
#[verifier::external_body]
fn slice_of(chunk: &Bytes) -> (slice: &[u8])
    ensures
        slice@ == chunk_bytes(*chunk),
{
    chunk.as_ref()
}

/// Calls `object_store::PutPayload::content_length`, which adds up the lengths of the chunks.
#[verifier::external_body]
fn content_length(payload: &PutPayload) -> (length: usize)
    requires
        joined(payload_chunks(*payload)).len() <= usize::MAX,
    ensures
        length == joined(payload_chunks(*payload)).len(),
{
    payload.content_length()
}

/// How many bytes a payload holds.
pub fn payload_size(payload: &PutPayload) -> (size: u64)
    requires
        payload_bytes(*payload).len() <= usize::MAX,
    ensures
        size == payload_bytes(*payload).len(),
{
    content_length(payload) as u64
}

/// How many bytes a payload holds; nothing where that is no length.
pub fn measured_payload(payload: &PutPayload) -> (size: Option<u64>)
    ensures
        size is Some <==> payload_bytes(*payload).len() <= usize::MAX,
        size matches Some(size) ==> size == payload_bytes(*payload).len(),
{
    let chunks: Vec<Bytes> = chunks_of(payload);
    let ghost all = byte_chunks(chunks@);
    let mut total: usize = 0;
    assert(all.take(0) =~= Seq::<Seq<u8>>::empty());
    for i in 0..chunks.len()
        invariant
            all == byte_chunks(chunks@),
            all == payload_chunks(*payload),
            total == joined(all.take(i as int)).len(),
    {
        proof {
            assert(all.take(i + 1).drop_last() =~= all.take(i as int));
            assert(all.take(i + 1).last() == chunk_bytes(chunks@[i as int]));
            assert(all.take(i + 1) + all.skip(i + 1) =~= all);
            law_chunks_join_in_order(all.take(i + 1), all.skip(i + 1));
        }
        match total.checked_add(slice_of(&chunks[i]).len()) {
            Some(sum) => {
                total = sum;
            },
            None => {
                return None;
            },
        }
    }
    assert(all.take(chunks.len() as int) =~= all);
    Some(payload_size(payload))
}

/// Puts the chunks of a write together.
pub fn collect_payload(payload: PutPayload) -> (bytes: Vec<u8>)
    ensures
        bytes@ == payload_bytes(payload),
{
    let chunks: Vec<Bytes> = chunks_of(&payload);
    join_chunks(&chunks)
}

/// Puts chunks together in order.
pub fn join_chunks(chunks: &Vec<Bytes>) -> (bytes: Vec<u8>)
    ensures
        bytes@ == joined(byte_chunks(chunks@)),
{
    let mut bytes: Vec<u8> = Vec::new();
    let ghost all = byte_chunks(chunks@);
    assert(all.take(0) =~= Seq::<Seq<u8>>::empty());
    for i in 0..chunks.len()
        invariant
            all == byte_chunks(chunks@),
            bytes@ == joined(all.take(i as int)),
    {
        bytes.extend_from_slice(slice_of(&chunks[i]));
        proof {
            assert(all.take(i + 1).drop_last() =~= all.take(i as int));
            assert(all.take(i + 1).last() == chunk_bytes(chunks@[i as int]));
            assert(bytes@ =~= joined(all.take(i + 1)));
        }
    }
    assert(all.take(chunks.len() as int) =~= all);
    bytes
}

/// Putting chunks together loses and adds nothing: two runs of chunks give the bytes of the first
/// followed by those of the second.
pub proof fn law_chunks_join_in_order(first: Seq<Seq<u8>>, second: Seq<Seq<u8>>)
    ensures
        joined(first + second) == joined(first) + joined(second),
    decreases second.len(),
{
    if second.len() == 0 {
        assert(first + second =~= first);
        assert(joined(first) + joined(second) =~= joined(first));
    } else {
        law_chunks_join_in_order(first, second.drop_last());
        assert((first + second).drop_last() =~= first + second.drop_last());
        assert(joined(first) + (joined(second.drop_last()) + second.last()) =~= (joined(first)
            + joined(second.drop_last())) + second.last());
    }
}

/// One chunk is all the bytes of a payload of that chunk, and no chunks have none.
pub proof fn law_one_chunk_is_the_payload(chunk: Seq<u8>)
    ensures
        joined(seq![chunk]) == chunk,
        joined(Seq::empty()) == Seq::<u8>::empty(),
{
    assert(seq![chunk].drop_last() =~= Seq::<Seq<u8>>::empty());
    assert(joined(seq![chunk].drop_last()) =~= Seq::<u8>::empty());
    assert(Seq::<u8>::empty() + chunk =~= chunk);
}

/// The bytes of a payload are those of its chunks in order: every byte of every chunk stands where
/// the chunks before it end.
pub proof fn law_every_byte_of_a_payload_is_in_place(
    before: Seq<Seq<u8>>,
    chunk: Seq<u8>,
    after: Seq<Seq<u8>>,
    at: int,
)
    requires
        0 <= at < chunk.len(),
    ensures
        joined(before.push(chunk) + after)[joined(before).len() + at] == chunk[at],
{
    law_chunks_join_in_order(before.push(chunk), after);
    assert(before.push(chunk).drop_last() =~= before);
}

/// Every byte of every chunk of a payload stands among its bytes where the chunks before it end, and
/// there are no more bytes than the chunks have.
pub proof fn law_payloads_hold_their_chunks(payload: PutPayload, chunk: int, at: int)
    requires
        0 <= chunk < payload_chunks(payload).len(),
        0 <= at < payload_chunks(payload)[chunk].len(),
    ensures
        payload_bytes(payload)[joined(payload_chunks(payload).take(chunk)).len() + at]
            == payload_chunks(payload)[chunk][at],
        payload_bytes(payload).len() == joined(payload_chunks(payload)).len(),
{
    let all = payload_chunks(payload);
    let (before, after) = (all.take(chunk), all.skip(chunk + 1));
    assert(all =~= before.push(all[chunk]) + after);
    law_every_byte_of_a_payload_is_in_place(before, all[chunk], after, at);
}

/// Chunks show their bytes, one for one and in order, and together have as many bytes as each of them
/// and the rest.
pub proof fn law_chunks_show_their_bytes(chunks: Seq<Bytes>, more: Seq<Seq<u8>>, chunk: Seq<u8>)
    ensures
        byte_chunks(chunks).len() == chunks.len(),
        forall|i: int| 0 <= i < chunks.len() ==> #[trigger] byte_chunks(chunks)[i] == chunk_bytes(chunks[i]),
        joined(more.push(chunk)).len() == joined(more).len() + chunk.len(),
{
    assert(more.push(chunk).drop_last() =~= more);
}

} // verus!
