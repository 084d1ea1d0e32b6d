//! Uploads in parts.
use crate::error::{failure, not_supported, precondition, Failure, StoreError};
use vstd::prelude::*;
use vstd::string::*;

verus! {

/// How many parts an upload can have.
pub const MAX_MULTIPART_PARTS: u16 = 10_000;

/// A part that the store has taken.
#[derive(Debug)]
pub struct UploadedPart {
    pub part_number: u16,
    pub etag: String,
}

/// What is known of an upload.
#[verifier::ext_equal]
pub struct Upload {
    pub location: Seq<char>,
    /// The parts that the store has taken, in the order in which it has.
    pub parts: Seq<UploadedPart>,
    /// The number of the next part.
    pub next_part: int,
    /// Whether the upload has been completed or given up.
    pub finished: bool,
    /// The words that refuse a part too many.
    pub limit_words: Seq<char>,
}

impl Upload {
    /// The start of an upload.
    pub open spec fn start(location: Seq<char>, limit_words: Seq<char>) -> Upload {
        Upload { location, parts: Seq::empty(), next_part: 1, finished: false, limit_words }
    }

    /// What every operation but the report of a part fails with once the upload is finished.
    pub open spec fn finished_failure(self) -> Failure {
        Failure::Precondition {
            path: self.location,
            message: "multipart upload already finished"@,
        }
    }

    /// Why no further part can be started.
    pub open spec fn part_failure(self) -> Option<Failure> {
        if self.finished {
            Some(self.finished_failure())
        } else if self.next_part > MAX_MULTIPART_PARTS {
            Some(Failure::NotSupported { message: self.limit_words })
        } else {
            None
        }
    }

    /// After a part has been started.
    pub open spec fn after_part(self) -> Upload {
        Upload { next_part: self.next_part + 1, ..self }
    }

    /// After the store has taken a part.
    pub open spec fn after_report(self, part: UploadedPart) -> Upload {
        Upload { parts: self.parts.push(part), ..self }
    }

    /// After the upload has been completed or given up.
    pub open spec fn after_end(self) -> Upload {
        Upload { finished: true, ..self }
    }

    /// After so many parts have been started.
    pub open spec fn after_parts(self, count: nat) -> Upload
        decreases count,
    {
        if count == 0 {
            self
        } else {
            self.after_parts((count - 1) as nat).after_part()
        }
    }
}

/// Whether parts are in the order of their numbers.
pub open spec fn in_order(parts: Seq<UploadedPart>) -> bool {
    forall|i: int, j: int|
        0 <= i < j < parts.len() ==> (#[trigger] parts[i]).part_number <= (
        #[trigger] parts[j]).part_number
}

/// Whether the numbers of parts are all different.
pub open spec fn numbered_apart(parts: Seq<UploadedPart>) -> bool {
    forall|i: int, j: int|
        0 <= i < j < parts.len() ==> (#[trigger] parts[i]).part_number != (
        #[trigger] parts[j]).part_number
}

/// An upload in parts.
#[derive(Debug)]
pub struct MultipartUpload {
    location: String,
    parts: Vec<UploadedPart>,
    next_part: u16,
    finished: bool,
    limit_words: String,
}

impl View for MultipartUpload {
    type V = Upload;

    closed spec fn view(&self) -> Upload {
        Upload {
            location: self.location@,
            parts: self.parts@,
            next_part: self.next_part as int,
            finished: self.finished,
            limit_words: self.limit_words@,
        }
    }
}

impl MultipartUpload {
    #[verifier::type_invariant]
    spec fn numbered(self) -> bool {
        1 <= self.next_part <= MAX_MULTIPART_PARTS + 1
    }

    /// Starts an upload to `location`; a part too many is refused with `limit_words`.
    pub fn new(location: &str, limit_words: &str) -> (upload: MultipartUpload)
        ensures
            upload@ == Upload::start(location@, limit_words@),
    {
        MultipartUpload {
            location: location.to_owned(),
            parts: Vec::new(),
            next_part: 1,
            finished: false,
            limit_words: limit_words.to_owned(),
        }
    }

    fn finished_error(&self) -> (error: StoreError)
        ensures
            error@ == self@.finished_failure(),
    {
        precondition(self.location.as_str(), "multipart upload already finished")
    }

    /// Starts a part and gives it the next number.
    pub fn put_part(&mut self) -> (number: Result<u16, StoreError>)
        ensures
            failure(number) == old(self)@.part_failure(),
            number matches Ok(number) ==> number == old(self)@.next_part && 1 <= number
                <= MAX_MULTIPART_PARTS && final(self)@ == old(self)@.after_part(),
            number is Err ==> final(self)@ == old(self)@,
    {
        proof {
            use_type_invariant(&*self);
        }
        if self.finished {
            return Err(self.finished_error());
        }
        if self.next_part > MAX_MULTIPART_PARTS {
            return Err(not_supported(self.limit_words.as_str()));
        }
        let number: u16 = self.next_part;
        self.next_part = number + 1;
        Ok(number)
    }

    /// Notes a part that the store has taken.
    pub fn report_part(&mut self, part: UploadedPart)
        ensures
            final(self)@ == old(self)@.after_report(part),
    {
        proof {
            use_type_invariant(&*self);
        }
        let mut parts: Vec<UploadedPart> = Vec::new();
        std::mem::swap(&mut parts, &mut self.parts);
        parts.push(part);
        self.parts = parts;
    }

    /// Ends the upload and lists the parts to complete it with, by number.
    pub fn complete(&mut self) -> (parts: Result<Vec<UploadedPart>, StoreError>)
        ensures
            failure(parts) == (if old(self)@.finished {
                Some(old(self)@.finished_failure())
            } else {
                None
            }),
            parts matches Ok(parts) ==> in_order(parts@) && parts@.to_multiset()
                == old(self)@.parts.to_multiset(),
            final(self)@ == old(self)@.after_end(),
    {
        proof {
            use_type_invariant(&*self);
        }
        if self.finished {
            return Err(self.finished_error());
        }
        self.finished = true;
        Ok(sorted_parts(&self.parts))
    }

    /// Gives the upload up.
    pub fn abort(&mut self) -> (ended: Result<(), StoreError>)
        ensures
            failure(ended) == (if old(self)@.finished {
                Some(old(self)@.finished_failure())
            } else {
                None
            }),
            final(self)@ == old(self)@.after_end(),
    {
        proof {
            use_type_invariant(&*self);
        }
        if self.finished {
            return Err(self.finished_error());
        }
        self.finished = true;
        Ok(())
    }
}

/// The parts in the order of their numbers.
fn sorted_parts(parts: &Vec<UploadedPart>) -> (sorted: Vec<UploadedPart>)
    ensures
        in_order(sorted@),
        sorted@.to_multiset() == parts@.to_multiset(),
{
    let mut sorted: Vec<UploadedPart> = Vec::new();
    assert(parts@.take(0) =~= Seq::<UploadedPart>::empty());
    for i in 0..parts.len()
        invariant
            in_order(sorted@),
            sorted@.to_multiset() == parts@.take(i as int).to_multiset(),
    {
        let part = UploadedPart { part_number: parts[i].part_number, etag: parts[i].etag.clone() };
        assert(part == parts@[i as int]);
        assert(parts@.take(i + 1) =~= parts@.take(i as int).push(part));
        let mut at: usize = sorted.len();
        while at > 0 && sorted[at - 1].part_number > part.part_number
            invariant
                at <= sorted.len(),
                in_order(sorted@),
                forall|j: int|
                    at <= j < sorted.len() ==> (#[trigger] sorted@[j]).part_number
                        > part.part_number,
            decreases at,
        {
            at = at - 1;
        }
        proof {
            vstd::seq_lib::to_multiset_insert(sorted@, at as int, part);
            vstd::seq_lib::to_multiset_build(parts@.take(i as int), part);
        }
        sorted.insert(at, part);
    }
    assert(parts@.take(parts.len() as int) =~= parts@);
    sorted
}

/// The parts of an upload are numbered from one up, without a gap, as far as the store's limit, and
/// behind it no part is started.
pub proof fn law_parts_are_numbered_up(location: Seq<char>, limit_words: Seq<char>, count: nat)
    requires
        count <= MAX_MULTIPART_PARTS,
    ensures
        Upload::start(location, limit_words).after_parts(count).next_part == count + 1,
        Upload::start(location, limit_words).after_parts(count).part_failure() is None <==> count
            < MAX_MULTIPART_PARTS,
    decreases count,
{
    if count > 0 {
        law_parts_are_numbered_up(location, limit_words, (count - 1) as nat);
    }
}

/// Once an upload is finished, a report changes nothing of that: no part is started after it.
pub proof fn law_finished_uploads_stay_finished(upload: Upload, part: UploadedPart)
    ensures
        upload.after_end().part_failure() == Some(upload.finished_failure()),
        upload.after_end().after_report(part).part_failure() == Some(upload.finished_failure()),
{
}

/// Parts with different numbers are completed in strictly rising order, each once.
pub proof fn law_completion_rises(reported: Seq<UploadedPart>, completed: Seq<UploadedPart>)
    requires
        numbered_apart(reported),
        in_order(completed),
        completed.to_multiset() == reported.to_multiset(),
    ensures
        completed.len() == reported.len(),
        forall|i: int, j: int|
            0 <= i < j < completed.len() ==> (#[trigger] completed[i]).part_number < (
            #[trigger] completed[j]).part_number,
{
    vstd::seq_lib::to_multiset_len(reported);
    vstd::seq_lib::to_multiset_len(completed);
    assert(reported.no_duplicates());
    reported.lemma_multiset_has_no_duplicates();
    completed.lemma_multiset_has_no_duplicates_conv();
    assert forall|i: int, j: int| 0 <= i < j < completed.len() implies (
    #[trigger] completed[i]).part_number < (#[trigger] completed[j]).part_number by {
        let first = completed[i];
        let second = completed[j];
        vstd::seq_lib::to_multiset_contains(completed, first);
        vstd::seq_lib::to_multiset_contains(completed, second);
        vstd::seq_lib::to_multiset_contains(reported, first);
        vstd::seq_lib::to_multiset_contains(reported, second);
        assert(completed.contains(first) && completed.contains(second));
        assert(reported.contains(first) && reported.contains(second));
        let a = choose|k: int| 0 <= k < reported.len() && reported[k] == first;
        let b = choose|k: int| 0 <= k < reported.len() && reported[k] == second;
        assert(a != b);
    }
}

/// An upload starts with the first part and none taken; starting, taking and ending change nothing
/// but the next number, the parts that were taken, and whether it is finished.
pub proof fn law_uploads_change_one_thing_at_a_time(upload: Upload, part: UploadedPart)
    ensures
        upload.after_part().next_part == upload.next_part + 1,
        upload.after_part().parts == upload.parts && upload.after_part().finished
            == upload.finished && upload.after_part().location == upload.location
            && upload.after_part().limit_words == upload.limit_words,
        upload.after_report(part).parts.len() == upload.parts.len() + 1,
        upload.after_report(part).parts.last() == part && upload.after_report(
            part,
        ).parts.drop_last() == upload.parts,
        upload.after_report(part).next_part == upload.next_part && upload.after_report(
            part,
        ).finished == upload.finished && upload.after_report(part).location == upload.location
            && upload.after_report(part).limit_words == upload.limit_words,
        upload.after_end().finished && upload.after_end().parts == upload.parts
            && upload.after_end().next_part == upload.next_part && upload.after_end().location
            == upload.location && upload.after_end().limit_words == upload.limit_words,
{
    assert(upload.after_report(part).parts.drop_last() =~= upload.parts);
}

/// A finished upload refuses a part at its location because it is finished; an unfinished one takes
/// the parts up to the ten-thousandth, and refuses the next in the words for that.
pub proof fn law_uploads_refuse_late_and_surplus_parts(upload: Upload)
    ensures
        upload.finished ==> (upload.part_failure() matches Some(Failure::Precondition {
            path,
            message,
        }) && path == upload.location && message == "multipart upload already finished"@),
        upload.finished_failure() == (Failure::Precondition {
            path: upload.location,
            message: "multipart upload already finished"@,
        }),
        !upload.finished && upload.next_part <= 10_000 ==> upload.part_failure() is None,
        !upload.finished && upload.next_part > 10_000 ==> (upload.part_failure()
            matches Some(Failure::NotSupported { message }) && message == upload.limit_words),
{
}

/// An upload starts unfinished, with no part taken and the number one, where it was asked to go.
pub proof fn law_uploads_start_empty(location: Seq<char>, limit_words: Seq<char>)
    ensures
        Upload::start(location, limit_words).location == location,
        Upload::start(location, limit_words).limit_words == limit_words,
        Upload::start(location, limit_words).parts.len() == 0,
        Upload::start(location, limit_words).next_part == 1,
        !Upload::start(location, limit_words).finished,
{
}

} // verus!
