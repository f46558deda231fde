use vstd::prelude::*;
use crate::registry::{Registry, RegistryError};

verus! {

/// How many delivery attempts each recipient gets.
pub const ATTEMPT_BUDGET: u32 = 5;

/// Why a recipient was not notified.
#[derive(Copy, Clone, Debug, PartialEq, Eq, Structural)]
pub enum FailureReason {
    /// Every attempt failed at the transport level.
    Unreachable,
    /// The push platform refused the message with this code.
    Rejected(i32),
    /// The push platform's answer could not be read.
    MalformedResponse,
    /// The dispatch was cut short before this recipient was done.
    NotAttempted,
}

/// Why an answer from the push platform rules out another attempt.
#[derive(Copy, Clone, Debug, PartialEq, Eq, Structural)]
pub enum PermanentReason {
    /// The platform refused the message with this code.
    Rejected(i32),
    /// The platform's answer could not be read.
    MalformedResponse,
}

/// The failure reason recorded for a permanent failure.
pub open spec fn reason_of(p: PermanentReason) -> FailureReason {
    match p {
        PermanentReason::Rejected(c) => FailureReason::Rejected(c),
        PermanentReason::MalformedResponse => FailureReason::MalformedResponse,
    }
}

/// What one delivery attempt came to.
#[derive(Copy, Clone, Debug, PartialEq, Eq, Structural)]
pub enum AttemptOutcome {
    /// The push platform confirmed the delivery.
    Delivered,
    /// No answer, or an HTTP status other than success: worth another try.
    RetryableFailure,
    /// An answer that rules out another try.
    PermanentFailure(PermanentReason),
}

/// Where a recipient stands in a dispatch.
#[derive(Copy, Clone, Debug, PartialEq, Eq, Structural)]
pub enum DeliveryStatus {
    Pending,
    Succeeded,
    Failed(FailureReason),
}

/// The outcome of an attempt whose HTTP exchange succeeded or not
/// (`transport_ok`) and whose body gave the result code `errcode`, where it
/// could be read: code 0 is a delivery, any other code a refusal.
pub open spec fn outcome_of(transport_ok: bool, errcode: Option<i32>) -> AttemptOutcome {
    if !transport_ok {
        AttemptOutcome::RetryableFailure
    } else {
        match errcode {
            None => AttemptOutcome::PermanentFailure(PermanentReason::MalformedResponse),
            Some(c) => if c == 0 {
                AttemptOutcome::Delivered
            } else {
                AttemptOutcome::PermanentFailure(PermanentReason::Rejected(c))
            },
        }
    }
}

/// Classifies the answer to one delivery attempt.
pub fn classify_response(transport_ok: bool, errcode: Option<i32>) -> (r: AttemptOutcome)
    ensures
        r == outcome_of(transport_ok, errcode),
{
    if !transport_ok {
        AttemptOutcome::RetryableFailure
    } else {
        match errcode {
            None => AttemptOutcome::PermanentFailure(PermanentReason::MalformedResponse),
            Some(c) => if c == 0 {
                AttemptOutcome::Delivered
            } else {
                AttemptOutcome::PermanentFailure(PermanentReason::Rejected(c))
            },
        }
    }
}

/// The aggregated result of a dispatch.
pub struct DispatchReport {
    /// How many recipients were notified (and retired).
    pub succeeded: usize,
    /// Each recipient that was not notified, with the reason, in the order
    /// of the recipients.
    pub failures: Vec<(String, FailureReason)>,
    /// The dispatch was cancelled before every recipient was done.
    pub cut_short: bool,
}

/// The number of `Succeeded` entries among the first `n` of `s`.
pub open spec fn succeeded_upto(s: Seq<DeliveryStatus>, n: int) -> nat
    decreases n,
{
    if n <= 0 {
        0
    } else {
        succeeded_upto(s, n - 1) + if s[n - 1] == DeliveryStatus::Succeeded {
            1nat
        } else {
            0nat
        }
    }
}

/// The failed recipients among the first `n`, with their reasons, in order.
pub open spec fn failures_upto(names: Seq<Seq<char>>, s: Seq<DeliveryStatus>, n: int) -> Seq<
    (Seq<char>, FailureReason),
>
    decreases n,
{
    if n <= 0 {
        Seq::empty()
    } else {
        match s[n - 1] {
            DeliveryStatus::Failed(r) => failures_upto(names, s, n - 1).push((names[n - 1], r)),
            _ => failures_upto(names, s, n - 1),
        }
    }
}

/// The view of a report's failure list.
pub open spec fn failures_view(v: Seq<(String, FailureReason)>) -> Seq<(Seq<char>, FailureReason)> {
    v.map_values(|p: (String, FailureReason)| (p.0@, p.1))
}

/// What recipient `i` can still cost: its attempts left while it is pending,
/// nothing once it is done.
pub open spec fn budget_term(st: Seq<DeliveryStatus>, at: Seq<u32>, i: int) -> int {
    if st[i] == DeliveryStatus::Pending {
        ATTEMPT_BUDGET - at[i]
    } else {
        0
    }
}

/// The attempts that the first `n` recipients can still cost.
pub open spec fn budget_left_upto(st: Seq<DeliveryStatus>, at: Seq<u32>, n: int) -> int
    decreases n,
{
    if n <= 0 {
        0
    } else {
        budget_left_upto(st, at, n - 1) + budget_term(st, at, n - 1)
    }
}

proof fn lemma_budget_update(
    st: Seq<DeliveryStatus>,
    at: Seq<u32>,
    st2: Seq<DeliveryStatus>,
    at2: Seq<u32>,
    n: int,
    i: int,
)
    requires
        0 <= i,
        n <= st.len(),
        n <= at.len(),
        n <= st2.len(),
        n <= at2.len(),
        forall|j: int| 0 <= j < n && j != i ==> st2[j] == st[j] && at2[j] == at[j],
    ensures
        budget_left_upto(st2, at2, n) == budget_left_upto(st, at, n) + if i < n {
            budget_term(st2, at2, i) - budget_term(st, at, i)
        } else {
            0
        },
    decreases n,
{
    if n > 0 {
        lemma_budget_update(st, at, st2, at2, n - 1, i);
    }
}

proof fn lemma_budget_nonneg(st: Seq<DeliveryStatus>, at: Seq<u32>, n: int)
    requires
        n <= st.len(),
        n <= at.len(),
        forall|j: int| 0 <= j < n && st[j] == DeliveryStatus::Pending ==> at[j] <= ATTEMPT_BUDGET,
    ensures
        budget_left_upto(st, at, n) >= 0,
    decreases n,
{
    if n > 0 {
        lemma_budget_nonneg(st, at, n - 1);
    }
}

/// The fan-out of one notification to the subscribers of one department.
///
/// Recipients wait in a work queue. The caller takes the recipient at the
/// front, makes one delivery attempt and hands the outcome back; a transport
/// failure sends the recipient to the back of the queue until its attempts
/// are used up. A confirmed delivery retires the recipient's subscription in
/// the same step that records the success.
pub struct Dispatch {
    university_id: u32,
    department_id: u32,
    recipients: Vec<String>,
    attempts: Vec<u32>,
    status: Vec<DeliveryStatus>,
    queue: Vec<usize>,
    head: usize,
    cut_short: bool,
}

impl Dispatch {
    /// The department notified.
    pub closed spec fn target(self) -> (u32, u32) {
        (self.university_id, self.department_id)
    }

    /// The recipients, fixed when the dispatch starts.
    pub closed spec fn recipients(self) -> Seq<Seq<char>> {
        self.recipients@.map_values(|s: String| s@)
    }

    /// The status of recipient `i`.
    pub open spec fn status_of(self, i: int) -> DeliveryStatus {
        self.statuses()[i]
    }

    /// The status of every recipient, one per recipient.
    pub closed spec fn statuses(self) -> Seq<DeliveryStatus> {
        self.status@
    }

    /// How many attempts recipient `i` has had.
    pub closed spec fn attempts_of(self, i: int) -> nat {
        self.attempts@[i] as nat
    }

    /// Every recipient is done.
    pub closed spec fn is_done(self) -> bool {
        self.head >= self.queue@.len()
    }

    /// The recipient at the front of the queue.
    pub closed spec fn current(self) -> int {
        self.queue@[self.head as int] as int
    }

    /// How many attempts the pending recipients can still take, in all.
    /// Every `record` lowers it, so a dispatch ends after finitely many
    /// attempts.
    pub closed spec fn work_left(self) -> nat {
        budget_left_upto(self.status@, self.attempts@, self.status@.len() as int) as nat
    }

    /// The dispatch was cancelled.
    pub closed spec fn was_cut_short(self) -> bool {
        self.cut_short
    }

    /// The dispatch's invariant: one status and one attempt count per
    /// recipient; every pending recipient waits in the queue exactly once;
    /// no recipient has had more than `ATTEMPT_BUDGET` attempts, a pending
    /// one fewer, and one recorded `Unreachable` all of them.
    pub closed spec fn wf(self) -> bool {
        let n = self.recipients@.len();
        &&& self.attempts@.len() == n
        &&& self.status@.len() == n
        &&& self.head <= self.queue@.len()
        &&& forall|k: int|
            self.head <= k < self.queue@.len() ==> (#[trigger] self.queue@[k]) < n
                && self.status@[self.queue@[k] as int] == DeliveryStatus::Pending
        &&& forall|k1: int, k2: int|
            self.head <= k1 < k2 < self.queue@.len() ==> self.queue@[k1] != self.queue@[k2]
        &&& forall|i: int|
            0 <= i < n && self.status@[i] == DeliveryStatus::Pending ==> exists|k: int|
                self.head <= k < self.queue@.len() && #[trigger] self.queue@[k] == i
        &&& forall|i: int| 0 <= i < n ==> #[trigger] self.attempts@[i] <= ATTEMPT_BUDGET
        &&& forall|i: int|
            0 <= i < n && #[trigger] self.status@[i] == DeliveryStatus::Pending ==> self.attempts@[i]
                < ATTEMPT_BUDGET
        &&& forall|i: int|
            0 <= i < n && #[trigger] self.status@[i] == DeliveryStatus::Failed(
                FailureReason::Unreachable,
            ) ==> self.attempts@[i] == ATTEMPT_BUDGET
        &&& forall|i: int, j: int| 0 <= i < j < n ==> self.recipients@[i]@ != self.recipients@[j]@
    }

    /// Starts a dispatch to the current subscribers of department `d` of
    /// university `u`: every one pending, with no attempt made, queued in the
    /// order of the snapshot. The directory read's refusal is passed on.
    pub fn start(registry: &Registry, u: u32, d: u32) -> (r: Result<Dispatch, RegistryError>)
        requires
            registry.wf(),
        ensures
            r is Err <==> !registry.has_department(u, d),
            r matches Err(e) ==> e == (if !registry.has_university(u) {
                RegistryError::UniversityNotFound
            } else {
                RegistryError::DepartmentNotFound
            }),
            r matches Ok(dsp) ==> {
                &&& dsp.wf()
                &&& dsp.target() == (u, d)
                &&& !dsp.was_cut_short()
                &&& dsp.statuses().len() == dsp.recipients().len()
                &&& forall|i: int, j: int|
                    0 <= i < j < dsp.recipients().len() ==> dsp.recipients()[i] != dsp.recipients()[j]
                &&& forall|k: int| 0 <= k < dsp.recipients().len() ==> registry.subscribed(#[trigger] dsp.recipients()[k], u, d)
                &&& forall|x: Seq<char>| registry.subscribed(x, u, d) ==> dsp.recipients().contains(x)
                &&& forall|i: int|
                    0 <= i < dsp.recipients().len() ==> dsp.status_of(i) == DeliveryStatus::Pending
                        && dsp.attempts_of(i) == 0
                &&& (dsp.is_done() <==> dsp.recipients().len() == 0)
            },
    {
        let users = match registry.get_users(u, d) {
            Ok(v) => v,
            Err(e) => {
                return Err(e);
            },
        };
        let n = users.len();
        let mut attempts: Vec<u32> = Vec::new();
        let mut status: Vec<DeliveryStatus> = Vec::new();
        let mut queue: Vec<usize> = Vec::new();
        let mut i: usize = 0;
        while i < n
            invariant
                n == users@.len(),
                i <= n,
                attempts@.len() == i,
                status@.len() == i,
                queue@.len() == i,
                forall|k: int| 0 <= k < i ==> attempts@[k] == 0,
                forall|k: int| 0 <= k < i ==> status@[k] == DeliveryStatus::Pending,
                forall|k: int| 0 <= k < i ==> queue@[k] == k,
            decreases n - i,
        {
            attempts.push(0);
            status.push(DeliveryStatus::Pending);
            queue.push(i);
            i = i + 1;
        }
        let dsp = Dispatch {
            university_id: u,
            department_id: d,
            recipients: users,
            attempts,
            status,
            queue,
            head: 0,
            cut_short: false,
        };
        proof {
            assert forall|i: int|
                0 <= i < n && dsp.status@[i] == DeliveryStatus::Pending implies exists|k: int|
                    dsp.head <= k < dsp.queue@.len() && #[trigger] dsp.queue@[k] == i by {
                assert(dsp.queue@[i] == i);
            }
            assert(dsp.wf());
            assert forall|i: int, j: int|
                0 <= i < j < dsp.recipients().len() implies dsp.recipients()[i] != dsp.recipients()[j] by {
                assert(dsp.recipients()[i] == dsp.recipients@[i]@);
                assert(dsp.recipients()[j] == dsp.recipients@[j]@);
            }
            assert forall|x: Seq<char>| registry.subscribed(x, u, d) implies dsp.recipients().contains(x) by {
                let k = choose|k: int| 0 <= k < dsp.recipients@.len() && #[trigger] dsp.recipients@[k]@ == x;
                assert(dsp.recipients()[k] == x);
            }
        }
        Ok(dsp)
    }

    /// Hands back the outcome of the attempt just made on the recipient at
    /// the front of the queue. The attempt is counted. A delivery marks the
    /// recipient succeeded and, in the same step, takes it off the
    /// department's subscriber set and its own subscription index. A
    /// transport failure sends it to the back of the queue, or records it
    /// `Unreachable` where that was its last allowed attempt. A permanent
    /// failure records its reason. No other recipient changes.
    pub fn record(&mut self, registry: &mut Registry, outcome: AttemptOutcome)
        requires
            old(self).wf(),
            !old(self).is_done(),
            old(registry).wf(),
        ensures
            final(self).wf(),
            final(registry).wf(),
            final(registry).ids_left() == old(registry).ids_left(),
            final(self).recipients() == old(self).recipients(),
            final(self).target() == old(self).target(),
            final(self).was_cut_short() == old(self).was_cut_short(),
            final(self).statuses().len() == old(self).statuses().len(),
            final(self).work_left() < old(self).work_left(),
            ({
                let i = old(self).current();
                let (u, d) = old(self).target();
                let user = old(self).recipients()[i];
                &&& final(self).attempts_of(i) == old(self).attempts_of(i) + 1
                &&& forall|j: int|
                    0 <= j < old(self).recipients().len() && j != i ==> final(self).attempts_of(j)
                        == old(self).attempts_of(j) && final(self).status_of(j)
                        == old(self).status_of(j)
                &&& final(self).status_of(i) == match outcome {
                    AttemptOutcome::Delivered => DeliveryStatus::Succeeded,
                    AttemptOutcome::RetryableFailure => if old(self).attempts_of(i) + 1
                        == ATTEMPT_BUDGET {
                        DeliveryStatus::Failed(FailureReason::Unreachable)
                    } else {
                        DeliveryStatus::Pending
                    },
                    AttemptOutcome::PermanentFailure(p) => DeliveryStatus::Failed(reason_of(p)),
                }
                &&& final(registry).same_universities(*old(registry))
                &&& final(registry).same_departments(*old(registry))
                &&& outcome == AttemptOutcome::Delivered ==> forall|x: Seq<char>, uu: u32, dd: u32|
                    #[trigger] final(registry).subscribed(x, uu, dd) == (old(registry).subscribed(
                        x,
                        uu,
                        dd,
                    ) && !(x == user && uu == u && dd == d))
                &&& outcome != AttemptOutcome::Delivered ==> *final(registry) == *old(registry)
            }),
    {
        let ghost prev = *self;
        let q_len = self.queue.len();
        let i = self.queue[self.head];
        assert(self.head < q_len);
        self.head = self.head + 1;
        let a = self.attempts[i] + 1;
        self.attempts[i] = a;
        match outcome {
            AttemptOutcome::Delivered => {
                self.status[i] = DeliveryStatus::Succeeded;
                registry.retire_subscription(&self.recipients[i], self.university_id, self.department_id);
            },
            AttemptOutcome::RetryableFailure => {
                if a < ATTEMPT_BUDGET {
                    self.queue.push(i);
                } else {
                    self.status[i] = DeliveryStatus::Failed(FailureReason::Unreachable);
                }
            },
            AttemptOutcome::PermanentFailure(p) => {
                let reason = match p {
                    PermanentReason::Rejected(c) => FailureReason::Rejected(c),
                    PermanentReason::MalformedResponse => FailureReason::MalformedResponse,
                };
                self.status[i] = DeliveryStatus::Failed(reason);
            },
        }
        proof {
            let n = prev.recipients@.len();
            let h = prev.head as int;
            assert(self.recipients() =~= prev.recipients());
            assert forall|k: int| self.head <= k < self.queue@.len() implies (#[trigger] self.queue@[k]) < n
                && self.status@[self.queue@[k] as int] == DeliveryStatus::Pending by {
                if k < prev.queue@.len() {
                    assert(self.queue@[k] == prev.queue@[k]);
                    assert(prev.queue@[k] != prev.queue@[h]);
                }
            }
            assert forall|k1: int, k2: int|
                self.head <= k1 < k2 < self.queue@.len() implies self.queue@[k1] != self.queue@[k2] by {
                assert(prev.queue@[h] != prev.queue@[k1] || k1 == h);
                if k2 >= prev.queue@.len() {
                    assert(self.queue@[k2] == prev.queue@[h]);
                    assert(self.queue@[k1] == prev.queue@[k1]);
                } else {
                    assert(self.queue@[k1] == prev.queue@[k1]);
                    assert(self.queue@[k2] == prev.queue@[k2]);
                }
            }
            assert forall|j: int|
                0 <= j < n && self.status@[j] == DeliveryStatus::Pending implies exists|k: int|
                    self.head <= k < self.queue@.len() && #[trigger] self.queue@[k] == j by {
                if j == i {
                    assert(self.queue@[prev.queue@.len() as int] == j);
                } else {
                    let k = choose|k: int| prev.head <= k < prev.queue@.len() && #[trigger] prev.queue@[k] == j;
                    assert(k != h);
                    assert(self.queue@[k] == j);
                }
            }
            assert(self.wf());
            lemma_budget_update(prev.status@, prev.attempts@, self.status@, self.attempts@, n as int, i as int);
            lemma_budget_nonneg(self.status@, self.attempts@, n as int);
            lemma_budget_nonneg(prev.status@, prev.attempts@, n as int);
        }
    }

    /// Cuts the dispatch short: every recipient still pending is recorded
    /// `NotAttempted` and no further attempt is handed out. Recipients
    /// already done keep their status.
    pub fn cancel(&mut self)
        requires
            old(self).wf(),
        ensures
            final(self).wf(),
            final(self).is_done(),
            final(self).was_cut_short(),
            final(self).recipients() == old(self).recipients(),
            final(self).target() == old(self).target(),
            final(self).statuses().len() == old(self).statuses().len(),
            forall|j: int|
                0 <= j < old(self).recipients().len() ==> final(self).attempts_of(j) == old(
                    self,
                ).attempts_of(j) && final(self).status_of(j) == if old(self).status_of(j)
                    == DeliveryStatus::Pending {
                    DeliveryStatus::Failed(FailureReason::NotAttempted)
                } else {
                    old(self).status_of(j)
                },
    {
        let ghost prev = *self;
        let n = self.status.len();
        let mut i: usize = 0;
        while i < n
            invariant
                n == self.status@.len(),
                i <= n,
                self.recipients == prev.recipients,
                self.attempts == prev.attempts,
                self.university_id == prev.university_id,
                self.department_id == prev.department_id,
                self.status@.len() == prev.status@.len(),
                forall|j: int|
                    0 <= j < n ==> #[trigger] self.status@[j] == if j < i && prev.status@[j]
                        == DeliveryStatus::Pending {
                        DeliveryStatus::Failed(FailureReason::NotAttempted)
                    } else {
                        prev.status@[j]
                    },
            decreases n - i,
        {
            if self.status[i] == DeliveryStatus::Pending {
                self.status[i] = DeliveryStatus::Failed(FailureReason::NotAttempted);
            }
            i = i + 1;
        }
        self.head = self.queue.len();
        self.cut_short = true;
        proof {
            assert(self.recipients() =~= prev.recipients());
            assert(self.wf());
        }
    }

    /// The report of the dispatch so far: how many recipients succeeded,
    /// each failed one with its reason in recipient order, and whether the
    /// dispatch was cut short.
    pub fn report(&self) -> (r: DispatchReport)
        requires
            self.wf(),
        ensures
            r.succeeded == succeeded_upto(self.statuses(), self.statuses().len() as int),
            failures_view(r.failures@) == failures_upto(
                self.recipients(),
                self.statuses(),
                self.statuses().len() as int,
            ),
            r.cut_short == self.was_cut_short(),
            self.statuses().len() == self.recipients().len(),
            (forall|i: int|
                0 <= i < self.recipients().len() ==> self.status_of(i) != DeliveryStatus::Pending)
                ==> r.succeeded + r.failures@.len() == self.recipients().len(),
    {
        let n = self.status.len();
        let mut succeeded: usize = 0;
        let mut failures: Vec<(String, FailureReason)> = Vec::new();
        let mut i: usize = 0;
        while i < n
            invariant
                self.wf(),
                n == self.status@.len(),
                i <= n,
                succeeded == succeeded_upto(self.status@, i as int),
                succeeded + failures@.len() <= i,
                (forall|j: int| 0 <= j < i ==> self.status@[j] != DeliveryStatus::Pending) ==> succeeded
                    + failures@.len() == i,
                failures_view(failures@) == failures_upto(self.recipients(), self.status@, i as int),
            decreases n - i,
        {
            match self.status[i] {
                DeliveryStatus::Succeeded => {
                    succeeded = succeeded + 1;
                },
                DeliveryStatus::Failed(reason) => {
                    let ghost before = failures@;
                    failures.push((self.recipients[i].clone(), reason));
                    proof {
                        assert(failures_view(failures@) =~= failures_view(before).push(
                            (self.recipients@[i as int]@, reason),
                        ));
                    }
                },
                DeliveryStatus::Pending => {},
            }
            i = i + 1;
        }
        proof {
            assert(self.recipients().len() == self.recipients@.len());
            if forall|j: int|
                0 <= j < self.recipients().len() ==> self.status_of(j) != DeliveryStatus::Pending {
                assert forall|j: int| 0 <= j < n implies self.status@[j] != DeliveryStatus::Pending by {
                    assert(self.status_of(j) == self.status@[j]);
                }
            }
        }
        DispatchReport { succeeded, failures, cut_short: self.cut_short }
    }

    /// Whether every recipient is done.
    pub fn is_finished(&self) -> (r: bool)
        ensures
            r == self.is_done(),
    {
        self.head >= self.queue.len()
    }

    /// The recipient to attempt next, or `None` once every recipient is
    /// done.
    pub fn next_recipient(&self) -> (r: Option<String>)
        requires
            self.wf(),
        ensures
            self.is_done() ==> r is None,
            !self.is_done() ==> (r matches Some(x) && x@ == self.recipients()[self.current()]
                && 0 <= self.current() < self.recipients().len()
                && self.status_of(self.current()) == DeliveryStatus::Pending),
    {
        if self.head >= self.queue.len() {
            None
        } else {
            let i = self.queue[self.head];
            Some(self.recipients[i].clone())
        }
    }
}

} // verus!

verus! {

/// No recipient ever gets more than `ATTEMPT_BUDGET` attempts; one still
/// pending has attempts left; and one recorded `Unreachable` has had exactly
/// `ATTEMPT_BUDGET` attempts (with `record`, its last one a transport
/// failure).
pub proof fn lemma_retry_budget(dsp: Dispatch, i: int)
    requires
        dsp.wf(),
        0 <= i < dsp.recipients().len(),
    ensures
        dsp.attempts_of(i) <= ATTEMPT_BUDGET,
        dsp.status_of(i) == DeliveryStatus::Pending ==> dsp.attempts_of(i) < ATTEMPT_BUDGET,
        dsp.status_of(i) == DeliveryStatus::Failed(FailureReason::Unreachable) ==> dsp.attempts_of(i)
            == ATTEMPT_BUDGET,
{
    assert(dsp.attempts@[i] <= ATTEMPT_BUDGET);
}

/// The shape of a dispatch: one status per recipient, no recipient twice,
/// and, while it is not done, the recipient at the front of the queue is
/// still pending. When no recipient is pending the dispatch is done.
pub proof fn lemma_dispatch_shape(dsp: Dispatch)
    requires
        dsp.wf(),
    ensures
        dsp.statuses().len() == dsp.recipients().len(),
        forall|i: int, j: int|
            0 <= i < j < dsp.recipients().len() ==> dsp.recipients()[i] != dsp.recipients()[j],
        !dsp.is_done() ==> 0 <= dsp.current() < dsp.recipients().len() && dsp.status_of(dsp.current())
            == DeliveryStatus::Pending,
        (forall|i: int| 0 <= i < dsp.recipients().len() ==> dsp.status_of(i) != DeliveryStatus::Pending)
            ==> dsp.is_done(),
{
    assert forall|i: int, j: int|
        0 <= i < j < dsp.recipients().len() implies dsp.recipients()[i] != dsp.recipients()[j] by {
        assert(dsp.recipients()[i] == dsp.recipients@[i]@);
        assert(dsp.recipients()[j] == dsp.recipients@[j]@);
    }
    if !dsp.is_done() {
        let k = dsp.head as int;
        assert(dsp.queue@[k] < dsp.recipients@.len());
    }
}

/// Once the queue is empty every recipient is done: succeeded or failed
/// with a reason, so the report accounts for each of them.
pub proof fn lemma_done_means_settled(dsp: Dispatch, i: int)
    requires
        dsp.wf(),
        dsp.is_done(),
        0 <= i < dsp.recipients().len(),
    ensures
        dsp.status_of(i) != DeliveryStatus::Pending,
{
    if dsp.status@[i] == DeliveryStatus::Pending {
        let k = choose|k: int| dsp.head <= k < dsp.queue@.len() && #[trigger] dsp.queue@[k] == i;
    }
}

} // verus!
