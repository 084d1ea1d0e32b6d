//! Byte ranges: what a caller asks for, what an object of a given size can give.
use crate::text::decimal;
use vstd::prelude::*;

verus! {

/// The part of an object that a caller asks for.
#[derive(Clone, Copy, Debug, PartialEq, Eq, Structural)]
pub enum GetRange {
    /// The bytes from `start` up to, not including, `end`.
    Bounded { start: u64, end: u64 },
    /// All bytes from an offset on.
    Offset(u64),
    /// The last bytes, at most so many.
    Suffix(u64),
}

/// A range in the form that the bucket binding takes.
#[derive(Clone, Copy, Debug, PartialEq, Eq, Structural)]
pub enum R2Range {
    /// `length` bytes from `offset` on.
    OffsetWithLength { offset: u64, length: u64 },
    /// All bytes from `offset` on.
    OffsetToEnd { offset: u64 },
    /// The last `suffix` bytes.
    Suffix { suffix: u64 },
}

/// The bytes from `start` up to, not including, `end`.
#[derive(Clone, Copy, Debug, PartialEq, Eq, Structural)]
pub struct ByteRange {
    pub start: u64,
    pub end: u64,
}

/// What is wrong with a range whatever the object, in words.
pub open spec fn range_fault(range: GetRange) -> Option<Seq<char>> {
    match range {
        GetRange::Bounded { start, end } => if end <= start {
            Some(
                "Range started at "@ + decimal(start as nat) + " and ended at "@ + decimal(
                    end as nat,
                ),
            )
        } else if end - start > usize::MAX {
            Some(
                "Range "@ + decimal(start as nat) + " is larger than system memory limit "@
                    + decimal(usize::MAX as nat),
            )
        } else {
            None
        },
        _ => None,
    }
}

/// Where a range starts in an object of `size` bytes.
pub open spec fn range_start(range: GetRange, size: u64) -> u64 {
    match range {
        GetRange::Bounded { start, .. } => start,
        GetRange::Offset(offset) => offset,
        GetRange::Suffix(suffix) => if suffix <= size {
            (size - suffix) as u64
        } else {
            0
        },
    }
}

/// Where a range ends in an object of `size` bytes.
pub open spec fn range_end(range: GetRange, size: u64) -> u64 {
    match range {
        GetRange::Bounded { end, .. } => if end <= size {
            end
        } else {
            size
        },
        _ => size,
    }
}

/// Why a range selects nothing of an object of `size` bytes, in words. Only a suffix may start at
/// the end of the object.
pub open spec fn range_refusal(range: GetRange, size: u64) -> Option<Seq<char>> {
    let start = range_start(range, size);
    if range_fault(range) is Some {
        range_fault(range)
    } else if start >= size && !(range is Suffix) {
        Some(
            "Wanted range starting at "@ + decimal(start as nat) + ", but object was only "@
                + decimal(size as nat) + " bytes long"@,
        )
    } else {
        None
    }
}

/// The bytes that a range selects of an object of `size` bytes, where it selects some.
pub open spec fn range_bytes(range: GetRange, size: u64) -> ByteRange {
    ByteRange { start: range_start(range, size), end: range_end(range, size) }
}

/// Calls `object_store::GetRange::is_valid`. It refuses a bounded range that is empty or runs
/// backwards, and one with more bytes than memory can address, with the words of its error, and
/// nothing else.
#[verifier::external_body]
pub(crate) fn check_range(range: &GetRange) -> (checked: Result<(), String>)
    ensures
        checked is Ok <==> range_fault(*range) is None,
        checked matches Err(words) ==> range_fault(*range) == Some(words@),
{
    let outside = match *range {
        GetRange::Bounded { start, end } => object_store::GetRange::Bounded(start..end),
        GetRange::Offset(offset) => object_store::GetRange::Offset(offset),
        GetRange::Suffix(suffix) => object_store::GetRange::Suffix(suffix),
    };
    outside.is_valid().map_err(|error| error.to_string())
}

/// Calls `object_store::GetRange::as_range`. It gives the bytes that the range selects of an
/// object of `size` bytes, cut at the object's end, or refuses with the words of its error a range
/// that is not valid and a bounded or offset range that starts at or behind the object's end.
#[verifier::external_body]
pub(crate) fn resolve_range(range: &GetRange, size: u64) -> (outcome: Result<ByteRange, String>)
    ensures
        outcome is Ok <==> range_refusal(*range, size) is None,
        outcome matches Ok(bytes) ==> bytes == range_bytes(*range, size),
        outcome matches Err(words) ==> range_refusal(*range, size) == Some(words@),
{
    let outside = match *range {
        GetRange::Bounded { start, end } => object_store::GetRange::Bounded(start..end),
        GetRange::Offset(offset) => object_store::GetRange::Offset(offset),
        GetRange::Suffix(suffix) => object_store::GetRange::Suffix(suffix),
    };
    let resolved = outside.as_range(size).map_err(|error| error.to_string());
    resolved.map(|bytes| ByteRange { start: bytes.start, end: bytes.end })
}

/// Why an optional range selects nothing: no range selects the whole object.
pub open spec fn selection_refusal(range: Option<GetRange>, size: u64) -> Option<Seq<char>> {
    match range {
        Some(range) => range_refusal(range, size),
        None => None,
    }
}

/// The bytes that an optional range selects.
pub open spec fn selection(range: Option<GetRange>, size: u64) -> ByteRange {
    match range {
        Some(range) => range_bytes(range, size),
        None => ByteRange { start: 0, end: size },
    }
}

/// The bytes that a range of the bucket binding denotes in an object of `size` bytes.
pub open spec fn r2_selected(range: R2Range, size: u64) -> ByteRange {
    match range {
        R2Range::OffsetWithLength { offset, length } => ByteRange {
            start: if offset <= size {
                offset
            } else {
                size
            },
            end: if offset + length <= size {
                (offset + length) as u64
            } else {
                size
            },
        },
        R2Range::OffsetToEnd { offset } => ByteRange {
            start: if offset <= size {
                offset
            } else {
                size
            },
            end: size,
        },
        R2Range::Suffix { suffix } => ByteRange {
            start: if suffix <= size {
                (size - suffix) as u64
            } else {
                0
            },
            end: size,
        },
    }
}

/// A valid range in the binding's form.
pub open spec fn as_r2_range(range: GetRange) -> R2Range {
    match range {
        GetRange::Bounded { start, end } => R2Range::OffsetWithLength {
            offset: start,
            length: (end - start) as u64,
        },
        GetRange::Offset(offset) => R2Range::OffsetToEnd { offset },
        GetRange::Suffix(suffix) => R2Range::Suffix { suffix },
    }
}

/// A range that is not refused lies inside the object, and is empty only for a suffix of no bytes
/// or of an empty object.
pub proof fn law_selected_bytes_lie_inside(range: GetRange, size: u64)
    requires
        range_refusal(range, size) is None,
    ensures
        range_bytes(range, size).start <= range_bytes(range, size).end <= size,
        range_bytes(range, size).start == range_bytes(range, size).end ==> range is Suffix && (size
            == 0 || range == GetRange::Suffix(0)),
{
}

/// The range that is sent to the bucket denotes the bytes that are reported to the caller.
pub proof fn law_requested_bytes_are_reported(range: GetRange, size: u64)
    requires
        range_refusal(range, size) is None,
    ensures
        r2_selected(as_r2_range(range), size) == range_bytes(range, size),
{
}

/// A read that is not refused reports exactly the bytes that were asked for and that the object has:
/// those of a bounded range between its ends, those from an offset on, those of a suffix that are no
/// further from the end. They are the bytes that the range sent to the bucket denotes.
pub proof fn law_reported_bytes_are_the_asked_ones(range: GetRange, size: u64, at: int)
    requires
        selection_refusal(Some(range), size) is None,
    ensures
        selection(Some(range), size).start <= at < selection(Some(range), size).end <==> 0 <= at
            < size && (match range {
            GetRange::Bounded { start, end } => start <= at < end,
            GetRange::Offset(offset) => offset <= at,
            GetRange::Suffix(suffix) => size - at <= suffix,
        }),
        selection(Some(range), size).start <= selection(Some(range), size).end <= size,
        range matches GetRange::Bounded { start, end } ==> (end <= size ==> selection(
            Some(range),
            size,
        ) == (ByteRange { start, end })),
        selection(Some(range), size) == r2_selected(as_r2_range(range), size),
{
}

/// A read without a range reports the whole object and is never refused one; a read with a range is
/// refused exactly where the range is empty or too long for memory, or starts behind the object and
/// is no suffix.
pub proof fn law_refused_ranges_ask_for_nothing(range: GetRange, size: u64)
    ensures
        selection_refusal(None, size) is None,
        selection(None, size) == (ByteRange { start: 0, end: size }),
        selection_refusal(Some(range), size) is None <==> (match range {
            GetRange::Bounded { start, end } => start < end && end - start <= usize::MAX && start
                < size,
            GetRange::Offset(offset) => offset < size,
            GetRange::Suffix(_) => true,
        }),
        selection_refusal(Some(range), size) == range_refusal(range, size),
{
}

/// The range that is sent to the bucket starts where the caller's starts and is as long, or is as
/// open at the same end.
pub proof fn law_bucket_is_asked_for_the_same_bytes(range: GetRange, size: u64, at: int)
    requires
        range_fault(range) is None,
    ensures
        range matches GetRange::Bounded { start, end } ==> (as_r2_range(range)
            matches R2Range::OffsetWithLength { offset, length } && offset == start && offset
            + length == end),
        range matches GetRange::Offset(from) ==> (as_r2_range(range)
            matches R2Range::OffsetToEnd { offset } && offset == from),
        range matches GetRange::Suffix(last) ==> (as_r2_range(range)
            matches R2Range::Suffix { suffix } && suffix == last),
        r2_selected(as_r2_range(range), size).start <= at < r2_selected(
            as_r2_range(range),
            size,
        ).end <==> 0 <= at < size && (match range {
            GetRange::Bounded { start, end } => start <= at < end,
            GetRange::Offset(offset) => offset <= at,
            GetRange::Suffix(suffix) => size - at <= suffix,
        }),
{
}

} // verus!
