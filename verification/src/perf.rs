//! Counters of what an object and its cache have done.
use crate::time::wrapped_u64;
use vstd::prelude::*;

verus! {

/// Counters, which wrap around.
#[derive(Debug)]
pub struct PerfCounters {
    pub cache_part_reads: u64,
    pub cache_part_hits: u64,
    pub cache_part_misses: u64,
    pub cache_requested_bytes: u64,
    pub cache_loaded_bytes: u64,
    pub cache_returned_bytes: u64,
    pub cache_part_writes: u64,
    pub cache_written_bytes: u64,
    pub cache_head_reads: u64,
    pub cache_head_hits: u64,
    pub cache_head_misses: u64,
    pub cache_head_writes: u64,
    pub cache_errors: u64,
    pub do_kv_gets: u64,
    pub do_kv_puts: u64,
    pub do_kv_deletes: u64,
    pub do_kv_delete_alls: u64,
    pub do_kv_lists: u64,
    pub do_kv_rows_read: u64,
    pub do_kv_rows_written: u64,
    pub r2_gets: u64,
    pub r2_heads: u64,
    pub r2_puts: u64,
    pub r2_lists: u64,
    pub r2_deletes: u64,
    pub r2_read_bytes: u64,
    pub r2_written_bytes: u64,
    pub r2_multipart_uploads: u64,
    pub r2_multipart_parts: u64,
    pub r2_multipart_completes: u64,
    pub r2_errors: u64,
}

/// The counters at one moment.
#[derive(Clone, Copy, Debug, PartialEq, Eq, Structural)]
pub struct PerfSnapshot {
    pub cache_part_reads: u64,
    pub cache_part_hits: u64,
    pub cache_part_misses: u64,
    pub cache_requested_bytes: u64,
    pub cache_loaded_bytes: u64,
    pub cache_returned_bytes: u64,
    pub cache_part_writes: u64,
    pub cache_written_bytes: u64,
    pub cache_head_reads: u64,
    pub cache_head_hits: u64,
    pub cache_head_misses: u64,
    pub cache_head_writes: u64,
    pub cache_errors: u64,
    pub do_kv_gets: u64,
    pub do_kv_puts: u64,
    pub do_kv_deletes: u64,
    pub do_kv_delete_alls: u64,
    pub do_kv_lists: u64,
    pub do_kv_rows_read: u64,
    pub do_kv_rows_written: u64,
    pub r2_gets: u64,
    pub r2_heads: u64,
    pub r2_puts: u64,
    pub r2_lists: u64,
    pub r2_deletes: u64,
    pub r2_read_bytes: u64,
    pub r2_written_bytes: u64,
    pub r2_multipart_uploads: u64,
    pub r2_multipart_parts: u64,
    pub r2_multipart_completes: u64,
    pub r2_errors: u64,
}

impl PerfCounters {
    /// What the counters show.
    pub open spec fn shown(self) -> PerfSnapshot {
        PerfSnapshot {
            cache_part_reads: self.cache_part_reads,
            cache_part_hits: self.cache_part_hits,
            cache_part_misses: self.cache_part_misses,
            cache_requested_bytes: self.cache_requested_bytes,
            cache_loaded_bytes: self.cache_loaded_bytes,
            cache_returned_bytes: self.cache_returned_bytes,
            cache_part_writes: self.cache_part_writes,
            cache_written_bytes: self.cache_written_bytes,
            cache_head_reads: self.cache_head_reads,
            cache_head_hits: self.cache_head_hits,
            cache_head_misses: self.cache_head_misses,
            cache_head_writes: self.cache_head_writes,
            cache_errors: self.cache_errors,
            do_kv_gets: self.do_kv_gets,
            do_kv_puts: self.do_kv_puts,
            do_kv_deletes: self.do_kv_deletes,
            do_kv_delete_alls: self.do_kv_delete_alls,
            do_kv_lists: self.do_kv_lists,
            do_kv_rows_read: self.do_kv_rows_read,
            do_kv_rows_written: self.do_kv_rows_written,
            r2_gets: self.r2_gets,
            r2_heads: self.r2_heads,
            r2_puts: self.r2_puts,
            r2_lists: self.r2_lists,
            r2_deletes: self.r2_deletes,
            r2_read_bytes: self.r2_read_bytes,
            r2_written_bytes: self.r2_written_bytes,
            r2_multipart_uploads: self.r2_multipart_uploads,
            r2_multipart_parts: self.r2_multipart_parts,
            r2_multipart_completes: self.r2_multipart_completes,
            r2_errors: self.r2_errors,
        }
    }

    /// The counters as they are now.
    pub fn snapshot(&self) -> (snapshot: PerfSnapshot)
        ensures
            snapshot == self.shown(),
    {
        PerfSnapshot {
            cache_part_reads: self.cache_part_reads,
            cache_part_hits: self.cache_part_hits,
            cache_part_misses: self.cache_part_misses,
            cache_requested_bytes: self.cache_requested_bytes,
            cache_loaded_bytes: self.cache_loaded_bytes,
            cache_returned_bytes: self.cache_returned_bytes,
            cache_part_writes: self.cache_part_writes,
            cache_written_bytes: self.cache_written_bytes,
            cache_head_reads: self.cache_head_reads,
            cache_head_hits: self.cache_head_hits,
            cache_head_misses: self.cache_head_misses,
            cache_head_writes: self.cache_head_writes,
            cache_errors: self.cache_errors,
            do_kv_gets: self.do_kv_gets,
            do_kv_puts: self.do_kv_puts,
            do_kv_deletes: self.do_kv_deletes,
            do_kv_delete_alls: self.do_kv_delete_alls,
            do_kv_lists: self.do_kv_lists,
            do_kv_rows_read: self.do_kv_rows_read,
            do_kv_rows_written: self.do_kv_rows_written,
            r2_gets: self.r2_gets,
            r2_heads: self.r2_heads,
            r2_puts: self.r2_puts,
            r2_lists: self.r2_lists,
            r2_deletes: self.r2_deletes,
            r2_read_bytes: self.r2_read_bytes,
            r2_written_bytes: self.r2_written_bytes,
            r2_multipart_uploads: self.r2_multipart_uploads,
            r2_multipart_parts: self.r2_multipart_parts,
            r2_multipart_completes: self.r2_multipart_completes,
            r2_errors: self.r2_errors,
        }
    }

    /// The counters at nought.
    pub open spec fn zero() -> PerfCounters {
        PerfCounters {
            cache_part_reads: 0,
            cache_part_hits: 0,
            cache_part_misses: 0,
            cache_requested_bytes: 0,
            cache_loaded_bytes: 0,
            cache_returned_bytes: 0,
            cache_part_writes: 0,
            cache_written_bytes: 0,
            cache_head_reads: 0,
            cache_head_hits: 0,
            cache_head_misses: 0,
            cache_head_writes: 0,
            cache_errors: 0,
            do_kv_gets: 0,
            do_kv_puts: 0,
            do_kv_deletes: 0,
            do_kv_delete_alls: 0,
            do_kv_lists: 0,
            do_kv_rows_read: 0,
            do_kv_rows_written: 0,
            r2_gets: 0,
            r2_heads: 0,
            r2_puts: 0,
            r2_lists: 0,
            r2_deletes: 0,
            r2_read_bytes: 0,
            r2_written_bytes: 0,
            r2_multipart_uploads: 0,
            r2_multipart_parts: 0,
            r2_multipart_completes: 0,
            r2_errors: 0,
        }
    }
}

impl Default for PerfCounters {
    fn default() -> (counters: PerfCounters)
        ensures
            counters == PerfCounters::zero(),
    {
        PerfCounters {
            cache_part_reads: 0,
            cache_part_hits: 0,
            cache_part_misses: 0,
            cache_requested_bytes: 0,
            cache_loaded_bytes: 0,
            cache_returned_bytes: 0,
            cache_part_writes: 0,
            cache_written_bytes: 0,
            cache_head_reads: 0,
            cache_head_hits: 0,
            cache_head_misses: 0,
            cache_head_writes: 0,
            cache_errors: 0,
            do_kv_gets: 0,
            do_kv_puts: 0,
            do_kv_deletes: 0,
            do_kv_delete_alls: 0,
            do_kv_lists: 0,
            do_kv_rows_read: 0,
            do_kv_rows_written: 0,
            r2_gets: 0,
            r2_heads: 0,
            r2_puts: 0,
            r2_lists: 0,
            r2_deletes: 0,
            r2_read_bytes: 0,
            r2_written_bytes: 0,
            r2_multipart_uploads: 0,
            r2_multipart_parts: 0,
            r2_multipart_completes: 0,
            r2_errors: 0,
        }
    }
}

/// A count that has grown: it wraps around at two to the power of 64.
pub open spec fn grown(count: u64, by: u64) -> u64 {
    wrapped_u64(count + by)
}

/// Adds to a counter.
pub fn increment(counter: &mut u64, value: u64)
    ensures
        *final(counter) == grown(*old(counter), value),
{
    *counter = counter.wrapping_add(value);
}

proof fn lemma_grown(count: u64, by: u64)
    ensures
        grown(count, by) == (if count + by <= u64::MAX {
            count + by
        } else {
            count + by - 0x1_0000_0000_0000_0000
        }),
{
}

/// The sum of values.
pub open spec fn sum_of(values: Seq<u64>) -> nat
    decreases values.len(),
{
    if values.len() == 0 {
        0
    } else {
        sum_of(values.drop_last()) + values.last() as nat
    }
}

/// A count after values have been added one by one.
pub open spec fn grown_by_all(count: u64, values: Seq<u64>) -> u64
    decreases values.len(),
{
    if values.len() == 0 {
        count
    } else {
        grown(grown_by_all(count, values.drop_last()), values.last())
    }
}

/// However many values are added, a count shows their sum, up to where it wraps around.
pub proof fn law_counts_show_the_sum(count: u64, values: Seq<u64>)
    ensures
        grown_by_all(count, values) == wrapped_u64(count + sum_of(values)),
    decreases values.len(),
{
    if values.len() > 0 {
        let before = values.drop_last();
        law_counts_show_the_sum(count, before);
        let m: int = 0x1_0000_0000_0000_0000;
        vstd::arithmetic::div_mod::lemma_add_mod_noop(
            count + sum_of(before),
            values.last() as int,
            m,
        );
        vstd::arithmetic::div_mod::lemma_add_mod_noop(
            (count + sum_of(before)) % m,
            values.last() as int,
            m,
        );
        vstd::arithmetic::div_mod::lemma_mod_twice(count + sum_of(before), m);
    } else {
        assert(count as int % 0x1_0000_0000_0000_0000 == count);
    }
}

/// Counts accumulate: it does not matter in what order two values are added, nor whether they are
/// added one after the other or at once.
pub proof fn law_counts_accumulate(count: u64, first: u64, second: u64)
    ensures
        grown(grown(count, first), second) == grown(grown(count, second), first),
        grown(grown(count, first), second) == grown(count, grown(first, second)),
        count + first + second <= u64::MAX ==> grown(grown(count, first), second) == count + first
            + second,
{
    lemma_grown(count, first);
    lemma_grown(count, second);
    lemma_grown(first, second);
    lemma_grown(grown(count, first), second);
    lemma_grown(grown(count, second), first);
    lemma_grown(count, grown(first, second));
}

/// A snapshot shows every counter under its own name.
pub proof fn law_snapshots_show_every_counter(counters: PerfCounters)
    ensures
        counters.shown().cache_part_reads == counters.cache_part_reads,
        counters.shown().cache_part_hits == counters.cache_part_hits,
        counters.shown().cache_part_misses == counters.cache_part_misses,
        counters.shown().cache_requested_bytes == counters.cache_requested_bytes,
        counters.shown().cache_loaded_bytes == counters.cache_loaded_bytes,
        counters.shown().cache_returned_bytes == counters.cache_returned_bytes,
        counters.shown().cache_part_writes == counters.cache_part_writes,
        counters.shown().cache_written_bytes == counters.cache_written_bytes,
        counters.shown().cache_head_reads == counters.cache_head_reads,
        counters.shown().cache_head_hits == counters.cache_head_hits,
        counters.shown().cache_head_misses == counters.cache_head_misses,
        counters.shown().cache_head_writes == counters.cache_head_writes,
        counters.shown().cache_errors == counters.cache_errors,
        counters.shown().do_kv_gets == counters.do_kv_gets,
        counters.shown().do_kv_puts == counters.do_kv_puts,
        counters.shown().do_kv_deletes == counters.do_kv_deletes,
        counters.shown().do_kv_delete_alls == counters.do_kv_delete_alls,
        counters.shown().do_kv_lists == counters.do_kv_lists,
        counters.shown().do_kv_rows_read == counters.do_kv_rows_read,
        counters.shown().do_kv_rows_written == counters.do_kv_rows_written,
        counters.shown().r2_gets == counters.r2_gets,
        counters.shown().r2_heads == counters.r2_heads,
        counters.shown().r2_puts == counters.r2_puts,
        counters.shown().r2_lists == counters.r2_lists,
        counters.shown().r2_deletes == counters.r2_deletes,
        counters.shown().r2_read_bytes == counters.r2_read_bytes,
        counters.shown().r2_written_bytes == counters.r2_written_bytes,
        counters.shown().r2_multipart_uploads == counters.r2_multipart_uploads,
        counters.shown().r2_multipart_parts == counters.r2_multipart_parts,
        counters.shown().r2_multipart_completes == counters.r2_multipart_completes,
        counters.shown().r2_errors == counters.r2_errors,
{
}

/// Every counter starts at nought.
pub proof fn law_counters_start_at_nought()
    ensures
        PerfCounters::zero().cache_part_reads == 0,
        PerfCounters::zero().cache_part_hits == 0,
        PerfCounters::zero().cache_part_misses == 0,
        PerfCounters::zero().cache_requested_bytes == 0,
        PerfCounters::zero().cache_loaded_bytes == 0,
        PerfCounters::zero().cache_returned_bytes == 0,
        PerfCounters::zero().cache_part_writes == 0,
        PerfCounters::zero().cache_written_bytes == 0,
        PerfCounters::zero().cache_head_reads == 0,
        PerfCounters::zero().cache_head_hits == 0,
        PerfCounters::zero().cache_head_misses == 0,
        PerfCounters::zero().cache_head_writes == 0,
        PerfCounters::zero().cache_errors == 0,
        PerfCounters::zero().do_kv_gets == 0,
        PerfCounters::zero().do_kv_puts == 0,
        PerfCounters::zero().do_kv_deletes == 0,
        PerfCounters::zero().do_kv_delete_alls == 0,
        PerfCounters::zero().do_kv_lists == 0,
        PerfCounters::zero().do_kv_rows_read == 0,
        PerfCounters::zero().do_kv_rows_written == 0,
        PerfCounters::zero().r2_gets == 0,
        PerfCounters::zero().r2_heads == 0,
        PerfCounters::zero().r2_puts == 0,
        PerfCounters::zero().r2_lists == 0,
        PerfCounters::zero().r2_deletes == 0,
        PerfCounters::zero().r2_read_bytes == 0,
        PerfCounters::zero().r2_written_bytes == 0,
        PerfCounters::zero().r2_multipart_uploads == 0,
        PerfCounters::zero().r2_multipart_parts == 0,
        PerfCounters::zero().r2_multipart_completes == 0,
        PerfCounters::zero().r2_errors == 0,
{
}

/// A counter grows by what is added, and from its greatest value on to nought.
pub proof fn law_a_counter_grows_by_what_is_added(count: u64, by: u64)
    ensures
        count + by <= u64::MAX ==> grown(count, by) == count + by,
        count + by > u64::MAX ==> grown(count, by) + 0x1_0000_0000_0000_0000 == count + by,
{
    lemma_grown(count, by);
}

/// The sum of values is that of their parts.
pub proof fn law_sums_add_up(left: Seq<u64>, right: Seq<u64>, value: u64)
    ensures
        sum_of(left + right) == sum_of(left) + sum_of(right),
        sum_of(seq![value]) == value,
        sum_of(Seq::empty()) == 0,
    decreases right.len(),
{
    assert(seq![value].drop_last() =~= Seq::<u64>::empty());
    assert(sum_of(seq![value].drop_last()) == 0);
    if right.len() == 0 {
        assert(left + right =~= left);
    } else {
        law_sums_add_up(left, right.drop_last(), value);
        assert((left + right).drop_last() =~= left + right.drop_last());
    }
}

} // verus!
