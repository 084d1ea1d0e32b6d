//! Batches of measured operations.
use crate::container::{app_failure, AppError};
use vstd::prelude::*;
use vstd::string::*;

verus! {

/// The most clients that a batch has.
pub const MAX_CLIENTS: usize = 256;

/// The most operations that a client has.
pub const MAX_OPERATIONS: usize = 512;

/// What an operation does.
#[derive(Clone, Copy, Debug, PartialEq, Eq, Structural)]
pub enum BenchmarkOperationKind {
    Get,
    Put,
}

/// An operation on a key.
#[derive(Debug)]
pub struct BenchmarkOperation {
    pub operation: BenchmarkOperationKind,
    pub key: String,
}

/// A batch: the value that is written, and the operations of each client.
#[derive(Debug)]
pub struct BenchmarkBatchRequest {
    pub value: String,
    pub clients: Vec<Vec<BenchmarkOperation>>,
}

/// Whether a batch has clients and each has operations, and neither too many.
pub open spec fn is_batch(clients: Seq<Vec<BenchmarkOperation>>) -> bool {
    &&& 1 <= clients.len() <= MAX_CLIENTS
    &&& forall|i: int|
        0 <= i < clients.len() ==> 1 <= (#[trigger] clients[i])@.len() <= MAX_OPERATIONS
}

/// What a batch that is none fails with.
pub open spec fn batch_failure(clients: Seq<Vec<BenchmarkOperation>>) -> Option<(u16, Seq<char>)> {
    if is_batch(clients) {
        None
    } else {
        Some(
            (
                400,
                "benchmark batch must contain 1 to 256 clients with 1 to 512 operations each"@,
            ),
        )
    }
}

/// Refuses a batch with too few or too many clients or operations.
pub fn validate_batch(request: &BenchmarkBatchRequest) -> (checked: Result<(), AppError>)
    ensures
        app_failure(checked) == batch_failure(request.clients@),
{
    let mut valid: bool = request.clients.len() >= 1 && request.clients.len() <= MAX_CLIENTS;
    for i in 0..request.clients.len()
        invariant
            valid <==> (1 <= request.clients@.len() <= MAX_CLIENTS && forall|j: int|
                0 <= j < i ==> 1 <= (#[trigger] request.clients@[j])@.len() <= MAX_OPERATIONS),
    {
        let count: usize = request.clients[i].len();
        assert(count == request.clients@[i as int]@.len());
        if count == 0 || count > MAX_OPERATIONS {
            valid = false;
        }
    }
    if valid {
        Ok(())
    } else {
        Err(
            AppError::bad_request(
                "benchmark batch must contain 1 to 256 clients with 1 to 512 operations each",
            ),
        )
    }
}

/// What was measured of operations of one kind.
#[derive(Debug)]
pub struct BenchmarkOperationMeasurements {
    pub operations: u64,
    pub unmeasurable_operations: u64,
    pub measurable_latency_ns: Vec<u64>,
}

/// A latency as far as it can be noted.
pub open spec fn noted(latency_ns: u128) -> u64 {
    if latency_ns <= u64::MAX {
        latency_ns as u64
    } else {
        u64::MAX
    }
}

/// Measurements by their counts and their latencies, in order.
#[verifier::ext_equal]
pub struct Measured {
    pub operations: int,
    pub unmeasurable: int,
    pub latencies: Seq<u64>,
}

impl Measured {
    /// Nothing measured.
    pub open spec fn none() -> Measured {
        Measured { operations: 0, unmeasurable: 0, latencies: Seq::empty() }
    }

    /// With one more operation, which took so long.
    pub open spec fn after(self, latency_ns: u128) -> Measured {
        Measured {
            operations: self.operations + 1,
            unmeasurable: self.unmeasurable,
            latencies: self.latencies.push(noted(latency_ns)),
        }
    }

    /// With other measurements behind these.
    pub open spec fn with(self, other: Measured) -> Measured {
        Measured {
            operations: self.operations + other.operations,
            unmeasurable: self.unmeasurable + other.unmeasurable,
            latencies: self.latencies + other.latencies,
        }
    }
}

impl View for BenchmarkOperationMeasurements {
    type V = Measured;

    open spec fn view(&self) -> Measured {
        Measured {
            operations: self.operations as int,
            unmeasurable: self.unmeasurable_operations as int,
            latencies: self.measurable_latency_ns@,
        }
    }
}

impl Default for BenchmarkOperationMeasurements {
    fn default() -> (measurements: BenchmarkOperationMeasurements)
        ensures
            measurements@ == Measured::none(),
    {
        let measurements = BenchmarkOperationMeasurements {
            operations: 0,
            unmeasurable_operations: 0,
            measurable_latency_ns: Vec::new(),
        };
        assert(measurements@ =~= Measured::none());
        measurements
    }
}

impl BenchmarkOperationMeasurements {
    /// Whether every operation was measured or counted as one that cannot be.
    pub open spec fn complete(self) -> bool {
        self.operations == self.unmeasurable_operations + self.measurable_latency_ns@.len()
    }

    /// Whether the counts of these and of others together fit.
    pub open spec fn fits(self, other: BenchmarkOperationMeasurements) -> bool {
        &&& self.operations + other.operations <= u64::MAX
        &&& self.unmeasurable_operations + other.unmeasurable_operations <= u64::MAX
    }

    /// Notes an operation that took so long.
    pub fn record(&mut self, latency_ns: u128)
        requires
            old(self).operations < u64::MAX,
        ensures
            final(self)@ == old(self)@.after(latency_ns),
            old(self).complete() ==> final(self).complete(),
    {
        self.operations = self.operations + 1;
        let latency: u64 = if latency_ns <= u64::MAX as u128 {
            latency_ns as u64
        } else {
            u64::MAX
        };
        self.measurable_latency_ns.push(latency);
    }

    /// Takes other measurements in, behind these.
    pub fn merge(&mut self, other: BenchmarkOperationMeasurements)
        requires
            old(self).fits(other),
        ensures
            final(self)@ == old(self)@.with(other@),
            old(self).complete() && other.complete() ==> final(self).complete(),
    {
        self.operations = self.operations + other.operations;
        self.unmeasurable_operations = self.unmeasurable_operations + other.unmeasurable_operations;
        let mut latencies: Vec<u64> = other.measurable_latency_ns;
        self.measurable_latency_ns.append(&mut latencies);
    }
}

/// What was measured of a client, or of a batch.
#[derive(Debug)]
pub struct BenchmarkBatchResponse {
    pub get: BenchmarkOperationMeasurements,
    pub put: BenchmarkOperationMeasurements,
}

/// What was measured of a client, or of a batch, by its counts and latencies.
#[verifier::ext_equal]
pub struct MeasuredBatch {
    pub get: Measured,
    pub put: Measured,
}

impl MeasuredBatch {
    /// Nothing measured.
    pub open spec fn none() -> MeasuredBatch {
        MeasuredBatch { get: Measured::none(), put: Measured::none() }
    }

    /// With one more operation, which took so long.
    pub open spec fn after(self, kind: BenchmarkOperationKind, latency_ns: u128) -> MeasuredBatch {
        match kind {
            BenchmarkOperationKind::Get => MeasuredBatch {
                get: self.get.after(latency_ns),
                put: self.put,
            },
            BenchmarkOperationKind::Put => MeasuredBatch {
                get: self.get,
                put: self.put.after(latency_ns),
            },
        }
    }

    /// What was measured of one kind.
    pub open spec fn of_kind(self, kind: BenchmarkOperationKind) -> Measured {
        match kind {
            BenchmarkOperationKind::Get => self.get,
            BenchmarkOperationKind::Put => self.put,
        }
    }
}

impl View for BenchmarkBatchResponse {
    type V = MeasuredBatch;

    open spec fn view(&self) -> MeasuredBatch {
        MeasuredBatch { get: self.get@, put: self.put@ }
    }
}

impl Default for BenchmarkBatchResponse {
    fn default() -> (response: BenchmarkBatchResponse)
        ensures
            response@ == MeasuredBatch::none(),
    {
        BenchmarkBatchResponse {
            get: BenchmarkOperationMeasurements::default(),
            put: BenchmarkOperationMeasurements::default(),
        }
    }
}

impl BenchmarkBatchResponse {
    /// Notes an operation that took so long. A read that found nothing ends the batch.
    pub fn observe(&mut self, kind: BenchmarkOperationKind, found: bool, latency_ns: u128) -> (
    observed: Result<(), AppError>)
        requires
            old(self).get.operations < u64::MAX,
            old(self).put.operations < u64::MAX,
        ensures
            app_failure(observed) == (if kind == BenchmarkOperationKind::Get && !found {
                Some((500u16, "benchmark key not found"@))
            } else {
                None
            }),
            observed is Err ==> *final(self) == *old(self),
            observed is Ok ==> final(self)@ == old(self)@.after(kind, latency_ns),
            old(self).get.complete() && old(self).put.complete() ==> final(self).get.complete()
                && final(self).put.complete(),
    {
        match kind {
            BenchmarkOperationKind::Get => {
                if !found {
                    return Err(AppError::internal("benchmark key not found".to_owned()));
                }
                self.get.record(latency_ns);
            },
            BenchmarkOperationKind::Put => {
                self.put.record(latency_ns);
            },
        }
        Ok(())
    }
}

/// The reads, or the writes, of clients.
pub open spec fn of_kind(
    clients: Seq<BenchmarkBatchResponse>,
    kind: BenchmarkOperationKind,
) -> Seq<BenchmarkOperationMeasurements> {
    clients.map_values(
        |client: BenchmarkBatchResponse|
            match kind {
                BenchmarkOperationKind::Get => client.get,
                BenchmarkOperationKind::Put => client.put,
            },
    )
}

/// The operations of all measurements together.
pub open spec fn all_operations(parts: Seq<BenchmarkOperationMeasurements>) -> nat
    decreases parts.len(),
{
    if parts.len() == 0 {
        0
    } else {
        all_operations(parts.drop_last()) + parts.last().operations as nat
    }
}

/// The operations of all measurements together that could not be measured.
pub open spec fn all_unmeasurable(parts: Seq<BenchmarkOperationMeasurements>) -> nat
    decreases parts.len(),
{
    if parts.len() == 0 {
        0
    } else {
        all_unmeasurable(parts.drop_last()) + parts.last().unmeasurable_operations as nat
    }
}

/// The latencies of all measurements, one behind the other.
pub open spec fn all_latencies(parts: Seq<BenchmarkOperationMeasurements>) -> Seq<u64>
    decreases parts.len(),
{
    if parts.len() == 0 {
        Seq::empty()
    } else {
        all_latencies(parts.drop_last()) + parts.last().measurable_latency_ns@
    }
}

/// Whether measurements are those of parts together.
pub open spec fn is_sum(
    sum: BenchmarkOperationMeasurements,
    parts: Seq<BenchmarkOperationMeasurements>,
) -> bool {
    &&& sum.operations == all_operations(parts)
    &&& sum.unmeasurable_operations == all_unmeasurable(parts)
    &&& sum.measurable_latency_ns@ == all_latencies(parts)
}

/// Whether the counts of measurements together fit.
pub open spec fn sum_fits(parts: Seq<BenchmarkOperationMeasurements>) -> bool {
    all_operations(parts) <= u64::MAX && all_unmeasurable(parts) <= u64::MAX
}

proof fn lemma_sum_of_some(parts: Seq<BenchmarkOperationMeasurements>, count: int)
    requires
        0 <= count <= parts.len(),
    ensures
        all_operations(parts.take(count)) <= all_operations(parts),
        all_unmeasurable(parts.take(count)) <= all_unmeasurable(parts),
    decreases parts.len() - count,
{
    if count < parts.len() {
        lemma_sum_of_some(parts, count + 1);
        assert(parts.take(count + 1).drop_last() =~= parts.take(count));
    } else {
        assert(parts.take(count) =~= parts);
    }
}

proof fn lemma_sum_grows(parts: Seq<BenchmarkOperationMeasurements>, at: int)
    requires
        0 <= at < parts.len(),
        sum_fits(parts),
    ensures
        sum_fits(parts.take(at + 1)),
        all_operations(parts.take(at + 1)) == all_operations(parts.take(at))
            + parts[at].operations,
        all_unmeasurable(parts.take(at + 1)) == all_unmeasurable(parts.take(at))
            + parts[at].unmeasurable_operations,
        all_latencies(parts.take(at + 1)) == all_latencies(parts.take(at))
            + parts[at].measurable_latency_ns@,
{
    lemma_sum_of_some(parts, at + 1);
    assert(parts.take(at + 1).drop_last() =~= parts.take(at));
    assert(parts.take(at + 1).last() == parts[at]);
}

/// Puts the measurements of clients together, in their order.
pub fn merge_clients(clients: Vec<BenchmarkBatchResponse>) -> (result: BenchmarkBatchResponse)
    requires
        sum_fits(of_kind(clients@, BenchmarkOperationKind::Get)),
        sum_fits(of_kind(clients@, BenchmarkOperationKind::Put)),
    ensures
        is_sum(result.get, of_kind(clients@, BenchmarkOperationKind::Get)),
        is_sum(result.put, of_kind(clients@, BenchmarkOperationKind::Put)),
{
    let ghost gets = of_kind(clients@, BenchmarkOperationKind::Get);
    let ghost puts = of_kind(clients@, BenchmarkOperationKind::Put);
    let ghost all = clients@;
    let mut result = BenchmarkBatchResponse::default();
    assert(gets.take(0) =~= Seq::<BenchmarkOperationMeasurements>::empty());
    assert(puts.take(0) =~= Seq::<BenchmarkOperationMeasurements>::empty());
    assert(result.get.measurable_latency_ns@ =~= Seq::<u64>::empty());
    assert(result.put.measurable_latency_ns@ =~= Seq::<u64>::empty());
    for client in it: clients
        invariant
            it.seq() == all,
            gets == of_kind(all, BenchmarkOperationKind::Get),
            puts == of_kind(all, BenchmarkOperationKind::Put),
            sum_fits(gets),
            sum_fits(puts),
            is_sum(result.get, gets.take(it.index())),
            is_sum(result.put, puts.take(it.index())),
    {
        let ghost at = it.index();
        proof {
            assert(gets[at] == client.get);
            assert(puts[at] == client.put);
            lemma_sum_grows(gets, at);
            lemma_sum_grows(puts, at);
        }
        result.get.merge(client.get);
        result.put.merge(client.put);
    }
    assert(gets.take(gets.len() as int) =~= gets);
    assert(puts.take(puts.len() as int) =~= puts);
    result
}

/// How measurements came about.
pub enum Origin {
    /// They are the default.
    Fresh,
    /// An operation was recorded, which took so long.
    Recorded(Box<Origin>, u128),
    /// Others were merged in.
    Merged(Box<Origin>, Box<Origin>),
}

/// The measurements that came about so.
pub open spec fn measured(origin: Origin) -> Measured
    decreases origin,
{
    match origin {
        Origin::Fresh => Measured::none(),
        Origin::Recorded(before, latency_ns) => measured(*before).after(latency_ns),
        Origin::Merged(left, right) => measured(*left).with(measured(*right)),
    }
}

/// Whatever is recorded and merged from the default on, every operation has its sample: there are as
/// many samples as operations, and none that could not be measured. A record keeps the earlier
/// samples, in order.
pub proof fn law_every_operation_has_its_sample(origin: Origin)
    ensures
        measured(origin).operations == measured(origin).latencies.len(),
        measured(origin).unmeasurable == 0,
        origin matches Origin::Recorded(before, latency_ns) ==> measured(origin).latencies
            == measured(*before).latencies.push(noted(latency_ns)),
    decreases origin,
{
    match origin {
        Origin::Fresh => {},
        Origin::Recorded(before, _) => law_every_operation_has_its_sample(*before),
        Origin::Merged(left, right) => {
            law_every_operation_has_its_sample(*left);
            law_every_operation_has_its_sample(*right);
        },
    }
}

/// What is measured of a client after operations, each of which took so long.
pub open spec fn after_run(
    before: MeasuredBatch,
    run: Seq<(BenchmarkOperationKind, u128)>,
) -> MeasuredBatch
    decreases run.len(),
{
    if run.len() == 0 {
        before
    } else {
        after_run(before, run.drop_last()).after(run.last().0, run.last().1)
    }
}

/// The samples of the operations of one kind, in order.
pub open spec fn samples(
    run: Seq<(BenchmarkOperationKind, u128)>,
    kind: BenchmarkOperationKind,
) -> Seq<u64>
    decreases run.len(),
{
    if run.len() == 0 {
        Seq::empty()
    } else if run.last().0 == kind {
        samples(run.drop_last(), kind).push(noted(run.last().1))
    } else {
        samples(run.drop_last(), kind)
    }
}

/// After a client's run each kind has one sample for each operation of that kind, in the order of
/// the run, and no operation of either kind is left out.
pub proof fn law_a_run_has_one_sample_per_operation(run: Seq<(BenchmarkOperationKind, u128)>)
    ensures
        forall|kind: BenchmarkOperationKind| #[trigger]
            after_run(MeasuredBatch::none(), run).of_kind(kind) == (Measured {
                operations: samples(run, kind).len() as int,
                unmeasurable: 0,
                latencies: samples(run, kind),
            }),
        samples(run, BenchmarkOperationKind::Get).len() + samples(
            run,
            BenchmarkOperationKind::Put,
        ).len() == run.len(),
    decreases run.len(),
{
    if run.len() > 0 {
        law_a_run_has_one_sample_per_operation(run.drop_last());
        let before = after_run(MeasuredBatch::none(), run.drop_last());
        assert(before.of_kind(BenchmarkOperationKind::Get) == before.get);
        assert(before.of_kind(BenchmarkOperationKind::Put) == before.put);
    }
}

/// The measurements of a batch can always be put together: with no more clients than a batch has,
/// and no more operations of each than a client has, the counts fit.
pub proof fn law_batches_fit(parts: Seq<BenchmarkOperationMeasurements>)
    requires
        parts.len() <= MAX_CLIENTS,
        forall|i: int|
            0 <= i < parts.len() ==> (#[trigger] parts[i]).operations <= MAX_OPERATIONS
                && parts[i].unmeasurable_operations <= parts[i].operations,
    ensures
        sum_fits(parts),
{
    lemma_bounded_sum(parts);
}

proof fn lemma_bounded_sum(parts: Seq<BenchmarkOperationMeasurements>)
    requires
        forall|i: int|
            0 <= i < parts.len() ==> (#[trigger] parts[i]).operations <= MAX_OPERATIONS
                && parts[i].unmeasurable_operations <= parts[i].operations,
    ensures
        all_operations(parts) <= parts.len() * MAX_OPERATIONS,
        all_unmeasurable(parts) <= parts.len() * MAX_OPERATIONS,
    decreases parts.len(),
{
    if parts.len() > 0 {
        let rest = parts.drop_last();
        assert forall|i: int| 0 <= i < rest.len() implies (#[trigger] rest[i]).operations
            <= MAX_OPERATIONS && rest[i].unmeasurable_operations <= rest[i].operations by {
            assert(rest[i] == parts[i]);
        }
        lemma_bounded_sum(rest);
        assert(parts[parts.len() - 1].operations <= MAX_OPERATIONS);
    }
}

/// Putting measurements together loses no sample: every latency of every client is in the sum, and
/// the sum of complete measurements is complete.
pub proof fn law_no_sample_is_lost(
    sum: BenchmarkOperationMeasurements,
    parts: Seq<BenchmarkOperationMeasurements>,
)
    requires
        is_sum(sum, parts),
    ensures
        (forall|i: int| 0 <= i < parts.len() ==> (#[trigger] parts[i]).complete())
            ==> sum.complete(),
        forall|i: int, latency: u64|
            0 <= i < parts.len() && #[trigger] parts[i].measurable_latency_ns@.contains(latency)
                ==> sum.measurable_latency_ns@.contains(latency),
{
    lemma_no_sample_is_lost(parts);
}

proof fn lemma_no_sample_is_lost(parts: Seq<BenchmarkOperationMeasurements>)
    ensures
        (forall|i: int| 0 <= i < parts.len() ==> (#[trigger] parts[i]).complete())
            ==> all_operations(parts) == all_unmeasurable(parts) + all_latencies(parts).len(),
        forall|i: int, latency: u64|
            0 <= i < parts.len() && #[trigger] parts[i].measurable_latency_ns@.contains(latency)
                ==> all_latencies(parts).contains(latency),
    decreases parts.len(),
{
    if parts.len() > 0 {
        let rest = parts.drop_last();
        let last = parts.last().measurable_latency_ns@;
        lemma_no_sample_is_lost(rest);
        if forall|i: int| 0 <= i < parts.len() ==> (#[trigger] parts[i]).complete() {
            assert forall|i: int| 0 <= i < rest.len() implies (#[trigger] rest[i]).complete() by {
                assert(rest[i] == parts[i]);
            }
            assert(parts[parts.len() - 1].complete());
        }
        assert forall|i: int, latency: u64|
            0 <= i < parts.len()
                && #[trigger] parts[i].measurable_latency_ns@.contains(latency) implies all_latencies(
            parts,
        ).contains(latency) by {
            let all = all_latencies(parts);
            let before = all_latencies(rest);
            if i < rest.len() {
                assert(rest[i].measurable_latency_ns@.contains(latency));
                let at = choose|at: int| 0 <= at < before.len() && before[at] == latency;
                assert(all[at] == latency);
            } else {
                let at = choose|at: int| 0 <= at < last.len() && last[at] == latency;
                assert(all[before.len() + at] == latency);
            }
        }
    }
}

/// A batch has from one to 256 clients, each with from one to 512 operations, and any other fails as a
/// bad request in the words for that.
pub proof fn law_batches_are_bounded(clients: Seq<Vec<BenchmarkOperation>>)
    ensures
        batch_failure(clients) is None <==> 1 <= clients.len() <= 256 && forall|i: int|
            0 <= i < clients.len() ==> 1 <= (#[trigger] clients[i])@.len() <= 512,
        batch_failure(clients) is Some ==> batch_failure(clients) == Some(
            (
                400u16,
                "benchmark batch must contain 1 to 256 clients with 1 to 512 operations each"@,
            ),
        ),
{
}

/// A latency is noted as it is where it fits, and as the greatest that does where it does not.
pub proof fn law_latencies_are_noted_as_they_are(latency_ns: u128)
    ensures
        latency_ns <= u64::MAX ==> noted(latency_ns) == latency_ns,
        latency_ns > u64::MAX ==> noted(latency_ns) == u64::MAX,
{
}

/// Nothing measured is nothing; an operation more is one operation and one sample more, behind the
/// others; measurements together are their counts added and their samples one behind the other.
pub proof fn law_measurements_add_up(left: Measured, right: Measured, latency_ns: u128)
    ensures
        Measured::none().operations == 0 && Measured::none().unmeasurable == 0
            && Measured::none().latencies.len() == 0,
        left.after(latency_ns).operations == left.operations + 1,
        left.after(latency_ns).unmeasurable == left.unmeasurable,
        left.after(latency_ns).latencies.len() == left.latencies.len() + 1,
        left.after(latency_ns).latencies.last() == noted(latency_ns),
        left.after(latency_ns).latencies.drop_last() == left.latencies,
        left.with(right).operations == left.operations + right.operations,
        left.with(right).unmeasurable == left.unmeasurable + right.unmeasurable,
        left.with(right).latencies == left.latencies + right.latencies,
        left.with(right.after(latency_ns)) == left.with(right).after(latency_ns),
        left.with(Measured::none()) == left,
{
    assert(left.after(latency_ns).latencies.drop_last() =~= left.latencies);
    assert(left.latencies + right.latencies.push(noted(latency_ns)) =~= (left.latencies
        + right.latencies).push(noted(latency_ns)));
    assert(left.with(right.after(latency_ns)) =~= left.with(right).after(latency_ns));
    assert(left.with(Measured::none()) =~= left);
}

/// An operation is noted under its own kind and leaves the other as it was.
pub proof fn law_operations_are_noted_under_their_kind(batch: MeasuredBatch, latency_ns: u128)
    ensures
        batch.after(BenchmarkOperationKind::Get, latency_ns).get == batch.get.after(latency_ns),
        batch.after(BenchmarkOperationKind::Get, latency_ns).put == batch.put,
        batch.after(BenchmarkOperationKind::Put, latency_ns).put == batch.put.after(latency_ns),
        batch.after(BenchmarkOperationKind::Put, latency_ns).get == batch.get,
        MeasuredBatch::none().get == Measured::none() && MeasuredBatch::none().put
            == Measured::none(),
{
}

/// What measurements and responses show is what they hold.
pub proof fn law_measurements_show_what_they_hold(
    measurements: BenchmarkOperationMeasurements,
    response: BenchmarkBatchResponse,
)
    ensures
        measurements@.operations == measurements.operations,
        measurements@.unmeasurable == measurements.unmeasurable_operations,
        measurements@.latencies == measurements.measurable_latency_ns@,
        response@.get == response.get@ && response@.put == response.put@,
{
}

/// The sum over clients is that of its parts: of no client it is nothing, and a client more adds its
/// counts, and its samples behind the others.
pub proof fn law_clients_add_up(
    sum: BenchmarkOperationMeasurements,
    parts: Seq<BenchmarkOperationMeasurements>,
    part: BenchmarkOperationMeasurements,
    more: BenchmarkOperationMeasurements,
)
    requires
        is_sum(sum, parts),
        more@ == sum@.with(part@),
    ensures
        is_sum(more, parts.push(part)),
        parts.len() == 0 ==> sum@ == Measured::none(),
        parts.len() == 1 ==> sum@ == parts[0]@,
{
    assert(parts.push(part).drop_last() =~= parts);
    if parts.len() == 0 {
        assert(sum@ =~= Measured::none());
    }
    if parts.len() == 1 {
        assert(parts.drop_last() =~= Seq::<BenchmarkOperationMeasurements>::empty());
        assert(all_operations(parts.drop_last()) == 0 && all_unmeasurable(parts.drop_last()) == 0);
        assert(all_latencies(parts.drop_last()) =~= Seq::<u64>::empty());
        assert(sum@ =~= parts[0]@);
    }
}

/// A sum is determined by its parts.
pub proof fn law_a_sum_is_one(
    left: BenchmarkOperationMeasurements,
    right: BenchmarkOperationMeasurements,
    parts: Seq<BenchmarkOperationMeasurements>,
)
    requires
        is_sum(left, parts),
        is_sum(right, parts),
    ensures
        left@ == right@,
{
}

/// The reads of clients are each client's reads and the writes each client's writes, one for one and
/// in order.
pub proof fn law_kinds_are_kept_apart(clients: Seq<BenchmarkBatchResponse>, at: int)
    requires
        0 <= at < clients.len(),
    ensures
        of_kind(clients, BenchmarkOperationKind::Get).len() == clients.len(),
        of_kind(clients, BenchmarkOperationKind::Put).len() == clients.len(),
        of_kind(clients, BenchmarkOperationKind::Get)[at] == clients[at].get,
        of_kind(clients, BenchmarkOperationKind::Put)[at] == clients[at].put,
{
}

} // verus!
