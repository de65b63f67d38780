//! The swap orchestrator: a ledger of limits, swap records and published
//! events, and the operations that move it. Each operation is one step of
//! the request/callback protocol; the caller performs the dispatch between
//! `compute_swap` and `settle_dispatch` and reports how it went.

use vstd::prelude::*;
use crate::protocol::callback_outcome;
use crate::protocol::executed_event;
use crate::protocol::is_swap_request;
use crate::protocol::queue_request;
use crate::protocol::ComputationOutputs;
use crate::protocol::ComputeSwapOutput;
use crate::protocol::QueueRequest;
use crate::state::ConfidentialSwapExecutedEvent;
use crate::state::ErrorCode;
use crate::state::LimitData;
use crate::state::SwapError;
use crate::state::SwapState;
use crate::state::SwapStatus;

verus! {

/// The ledger as a mathematical value: the limit of each owner, the record
/// of each swap by user and computation offset, and the log of events.
pub struct LedgerView {
    pub limits: Map<[u8; 32], [u8; 32]>,
    pub swaps: Map<([u8; 32], u64), SwapState>,
    pub events: Seq<ConfidentialSwapExecutedEvent>,
}

impl LedgerView {
    /// The ledger after `owner` stored `limit`: that owner's limit is
    /// created or replaced, and nothing else changes.
    pub open spec fn with_limit(self, owner: [u8; 32], limit: [u8; 32]) -> LedgerView {
        LedgerView {
            limits: self.limits.insert(owner, limit),
            swaps: self.swaps,
            events: self.events,
        }
    }

    /// Why a swap of `user` under `computation_offset` cannot be opened, if
    /// it cannot: the user has no limit, or the offset is taken.
    pub open spec fn refusal(self, user: [u8; 32], computation_offset: u64) -> Option<SwapError> {
        if !self.limits.contains_key(user) {
            Some(SwapError::MissingLimit)
        } else if self.swaps.contains_key((user, computation_offset)) {
            Some(SwapError::DuplicateOffset)
        } else {
            None
        }
    }

    /// The ledger with a fresh record for the swap.
    pub open spec fn opened(self, user: [u8; 32], computation_offset: u64, now: i64) -> LedgerView {
        LedgerView {
            limits: self.limits,
            swaps: self.swaps.insert(
                (user, computation_offset),
                SwapState::initiated_at(user, computation_offset, now),
            ),
            events: self.events,
        }
    }

    /// The ledger after a request to open a swap: with the fresh record
    /// where the request is admitted, unchanged where it is refused.
    pub open spec fn after_compute_swap(
        self,
        user: [u8; 32],
        computation_offset: u64,
        now: i64,
    ) -> LedgerView {
        if self.refusal(user, computation_offset) is None {
            self.opened(user, computation_offset, now)
        } else {
            self
        }
    }

    /// Whether a swap of `user` under `computation_offset` waits for its
    /// dispatch to be settled.
    pub open spec fn awaits_dispatch(self, user: [u8; 32], computation_offset: u64) -> bool {
        &&& self.swaps.contains_key((user, computation_offset))
        &&& self.swaps[(user, computation_offset)].status == SwapStatus::Initiated
    }

    /// How settling a dispatch ends: well where the swap waited for it and
    /// the network took the request.
    pub open spec fn settlement(
        self,
        user: [u8; 32],
        computation_offset: u64,
        accepted: bool,
    ) -> Result<(), SwapError> {
        if !self.awaits_dispatch(user, computation_offset) {
            Err(SwapError::NotInitiated)
        } else if !accepted {
            Err(SwapError::DispatchFailed)
        } else {
            Ok(())
        }
    }

    /// The ledger after a dispatch was settled: the record moves to
    /// `Computing` where settling ends well, and nothing changes otherwise.
    pub open spec fn after_settlement(
        self,
        user: [u8; 32],
        computation_offset: u64,
        accepted: bool,
    ) -> LedgerView {
        if self.settlement(user, computation_offset, accepted) is Ok {
            LedgerView {
                limits: self.limits,
                swaps: self.swaps.insert(
                    (user, computation_offset),
                    self.swaps[(user, computation_offset)].with_status(SwapStatus::Computing),
                ),
                events: self.events,
            }
        } else {
            self
        }
    }

    /// The ledger after a callback for `user`: one more event where the
    /// computation came back with a result, nothing new where it aborted.
    pub open spec fn after_callback(
        self,
        user: [u8; 32],
        output: ComputationOutputs,
    ) -> LedgerView {
        match callback_outcome(user, output) {
            Ok(event) => LedgerView {
                limits: self.limits,
                swaps: self.swaps,
                events: self.events.push(event),
            },
            Err(_) => self,
        }
    }

    /// Every record is filed under its own user and offset.
    pub open spec fn filed_by_key(self) -> bool {
        forall|user: [u8; 32], computation_offset: u64| #[trigger]
            self.swaps.contains_key((user, computation_offset)) ==> {
                &&& self.swaps[(user, computation_offset)].user == user
                &&& self.swaps[(user, computation_offset)].computation_offset
                    == computation_offset
            }
    }
}

/// The orchestrator's state. Limits are kept one per owner and swap
/// records one per user and offset; events are only ever appended.
pub struct Ledger {
    limits: Vec<LimitData>,
    swaps: Vec<SwapState>,
    events: Vec<ConfidentialSwapExecutedEvent>,
    limit_map: Ghost<Map<[u8; 32], [u8; 32]>>,
    swap_map: Ghost<Map<([u8; 32], u64), SwapState>>,
}

/// Compares two identities byte by byte.
pub fn same_identity(left: &[u8; 32], right: &[u8; 32]) -> (same: bool)
    ensures
        same == (*left == *right),
{
    let mut i: usize = 0;
    while i < 32
        invariant
            i <= 32,
            forall|j: int| 0 <= j < i ==> left[j] == right[j],
        decreases 32 - i,
    {
        if left[i] != right[i] {
            return false;
        }
        i += 1;
    }
    assert(*left =~= *right);
    true
}

impl View for Ledger {
    type V = LedgerView;

    closed spec fn view(&self) -> LedgerView {
        LedgerView { limits: self.limit_map@, swaps: self.swap_map@, events: self.events@ }
    }
}

impl Ledger {
    spec fn limit_stored(limits: Seq<LimitData>, i: int, owner: [u8; 32]) -> bool {
        0 <= i < limits.len() && limits[i].owner == owner
    }

    spec fn swap_stored(swaps: Seq<SwapState>, i: int, key: ([u8; 32], u64)) -> bool {
        &&& 0 <= i < swaps.len()
        &&& swaps[i].user == key.0
        &&& swaps[i].computation_offset == key.1
    }

    /// The stored records and the maps they stand for agree: each stored
    /// record is the map's entry for its key, each entry of a map is
    /// stored, and no key is stored twice.
    pub closed spec fn wf(&self) -> bool {
        &&& forall|i: int|
            0 <= i < self.limits@.len() ==> {
                &&& self.limit_map@.contains_key((#[trigger] self.limits@[i]).owner)
                &&& self.limit_map@[self.limits@[i].owner] == self.limits@[i].limit
            }
        &&& forall|owner: [u8; 32]| #[trigger]
            self.limit_map@.contains_key(owner) ==> exists|i: int|
                Ledger::limit_stored(self.limits@, i, owner)
        &&& forall|i: int, j: int|
            0 <= i < j < self.limits@.len() ==> (#[trigger] self.limits@[i]).owner != (
            #[trigger] self.limits@[j]).owner
        &&& forall|i: int|
            0 <= i < self.swaps@.len() ==> {
                &&& self.swap_map@.contains_key(
                    ((#[trigger] self.swaps@[i]).user, self.swaps@[i].computation_offset),
                )
                &&& self.swap_map@[(self.swaps@[i].user, self.swaps@[i].computation_offset)]
                    == self.swaps@[i]
            }
        &&& forall|key: ([u8; 32], u64)| #[trigger]
            self.swap_map@.contains_key(key) ==> exists|i: int|
                Ledger::swap_stored(self.swaps@, i, key)
        &&& forall|i: int, j: int|
            0 <= i < j < self.swaps@.len() ==> !({
                &&& (#[trigger] self.swaps@[i]).user == (#[trigger] self.swaps@[j]).user
                &&& self.swaps@[i].computation_offset == self.swaps@[j].computation_offset
            })
    }

    /// In a well-formed ledger every record is filed under its own key.
    pub proof fn records_are_filed_by_key(&self)
        requires
            self.wf(),
        ensures
            self@.filed_by_key(),
    {
        assert forall|user: [u8; 32], computation_offset: u64| #[trigger]
            self@.swaps.contains_key((user, computation_offset)) implies {
            &&& self@.swaps[(user, computation_offset)].user == user
            &&& self@.swaps[(user, computation_offset)].computation_offset == computation_offset
        } by {
            let key = (user, computation_offset);
            let i = choose|i: int| Ledger::swap_stored(self.swaps@, i, key);
            assert(Ledger::swap_stored(self.swaps@, i, (user, computation_offset)));
        }
    }

    /// An empty ledger.
    pub fn new() -> (ledger: Ledger)
        ensures
            ledger.wf(),
            ledger@.limits == Map::<[u8; 32], [u8; 32]>::empty(),
            ledger@.swaps == Map::<([u8; 32], u64), SwapState>::empty(),
            ledger@.events == Seq::<ConfidentialSwapExecutedEvent>::empty(),
    {
        Ledger {
            limits: Vec::new(),
            swaps: Vec::new(),
            events: Vec::new(),
            limit_map: Ghost(Map::empty()),
            swap_map: Ghost(Map::empty()),
        }
    }

    fn find_limit(&self, owner: &[u8; 32]) -> (found: Option<usize>)
        requires
            self.wf(),
        ensures
            match found {
                Some(i) => Ledger::limit_stored(self.limits@, i as int, *owner),
                None => !self.limit_map@.contains_key(*owner),
            },
    {
        let mut i: usize = 0;
        while i < self.limits.len()
            invariant
                i <= self.limits@.len(),
                forall|j: int| 0 <= j < i ==> !Ledger::limit_stored(self.limits@, j, *owner),
            decreases self.limits@.len() - i,
        {
            if same_identity(&self.limits[i].owner, owner) {
                return Some(i);
            }
            i += 1;
        }
        None
    }

    fn find_swap(&self, user: &[u8; 32], computation_offset: u64) -> (found: Option<usize>)
        requires
            self.wf(),
        ensures
            match found {
                Some(i) => Ledger::swap_stored(self.swaps@, i as int, (*user, computation_offset)),
                None => !self.swap_map@.contains_key((*user, computation_offset)),
            },
    {
        let mut i: usize = 0;
        while i < self.swaps.len()
            invariant
                i <= self.swaps@.len(),
                forall|j: int|
                    0 <= j < i ==> !Ledger::swap_stored(
                        self.swaps@,
                        j,
                        (*user, computation_offset),
                    ),
            decreases self.swaps@.len() - i,
        {
            if self.swaps[i].computation_offset == computation_offset && same_identity(
                &self.swaps[i].user,
                user,
            ) {
                return Some(i);
            }
            i += 1;
        }
        None
    }

    fn record_at(&self, i: usize) -> (record: SwapState)
        requires
            i < self.swaps@.len(),
        ensures
            record == self.swaps@[i as int],
    {
        self.swaps[i]
    }

    /// The limit that `owner` stored, if any.
    pub fn limit_of(&self, owner: [u8; 32]) -> (limit: Option<[u8; 32]>)
        requires
            self.wf(),
        ensures
            limit.is_some() == self@.limits.contains_key(owner),
            limit.is_some() ==> limit.unwrap() == self@.limits[owner],
    {
        match self.find_limit(&owner) {
            Some(i) => Some(self.limits[i].limit),
            None => None,
        }
    }

    /// The record of the swap of `user` under `computation_offset`, if any.
    pub fn swap_of(&self, user: [u8; 32], computation_offset: u64) -> (record: Option<SwapState>)
        requires
            self.wf(),
        ensures
            record.is_some() == self@.swaps.contains_key((user, computation_offset)),
            record.is_some() ==> record.unwrap() == self@.swaps[(user, computation_offset)],
    {
        match self.find_swap(&user, computation_offset) {
            Some(i) => Some(self.swaps[i]),
            None => None,
        }
    }

    /// The events published so far, oldest first.
    pub fn events(&self) -> (log: &Vec<ConfidentialSwapExecutedEvent>)
        ensures
            log@ == self@.events,
    {
        &self.events
    }
}

/// Stores `limit` as the limit of `owner`, in place of an earlier one if
/// there is one. No computation is started.
pub fn limit_data(ledger: &mut Ledger, owner: [u8; 32], limit: [u8; 32])
    requires
        old(ledger).wf(),
    ensures
        final(ledger).wf(),
        final(ledger)@ == old(ledger)@.with_limit(owner, limit),
{
    match ledger.find_limit(&owner) {
        Some(i) => {
            ledger.limits[i] = LimitData { owner, limit };
        },
        None => {
            ledger.limits.push(LimitData { owner, limit });
        },
    }
    ledger.limit_map = Ghost(ledger.limit_map@.insert(owner, limit));
    proof {
        assert(ledger.swaps@ == old(ledger).swaps@);
        assert forall|o: [u8; 32]| #[trigger]
            ledger.limit_map@.contains_key(o) implies exists|i: int|
            Ledger::limit_stored(ledger.limits@, i, o) by {
            if o == owner {
                if old(ledger).limit_map@.contains_key(owner) {
                    let i = choose|i: int| Ledger::limit_stored(old(ledger).limits@, i, owner);
                    assert(Ledger::limit_stored(ledger.limits@, i, o));
                } else {
                    let last = old(ledger).limits@.len() as int;
                    assert(Ledger::limit_stored(ledger.limits@, last, o));
                }
            } else {
                let i = choose|i: int| Ledger::limit_stored(old(ledger).limits@, i, o);
                assert(Ledger::limit_stored(ledger.limits@, i, o));
            }
        }
    }
}

/// Opens a swap of `user` under `computation_offset` and returns the
/// request to queue with the computation network. The request is refused,
/// and the ledger left as it was, when the user has stored no limit or
/// already has a swap under this offset. On success the swap's record
/// stands at `Initiated` until `settle_dispatch` reports on the dispatch.
pub fn compute_swap(
    ledger: &mut Ledger,
    user: [u8; 32],
    computation_offset: u64,
    pub_key: [u8; 32],
    nonce: u128,
    encrypted_amount: [u8; 32],
    now: i64,
) -> (outcome: Result<QueueRequest, SwapError>)
    requires
        old(ledger).wf(),
    ensures
        final(ledger).wf(),
        final(ledger)@ == old(ledger)@.after_compute_swap(user, computation_offset, now),
        match outcome {
            Ok(request) => {
                &&& old(ledger)@.refusal(user, computation_offset) is None
                &&& is_swap_request(
                    request,
                    user,
                    computation_offset,
                    pub_key,
                    nonce,
                    old(ledger)@.limits[user],
                    encrypted_amount,
                )
            },
            Err(error) => old(ledger)@.refusal(user, computation_offset) == Some(error),
        },
{
    let limit = match ledger.limit_of(user) {
        Some(limit) => limit,
        None => {
            return Err(SwapError::MissingLimit);
        },
    };
    if ledger.find_swap(&user, computation_offset).is_some() {
        return Err(SwapError::DuplicateOffset);
    }
    let record = SwapState::initiated(user, computation_offset, now);
    ledger.swaps.push(record);
    ledger.swap_map = Ghost(ledger.swap_map@.insert((user, computation_offset), record));
    proof {
        assert(ledger.limits@ == old(ledger).limits@);
        assert forall|key: ([u8; 32], u64)| #[trigger]
            ledger.swap_map@.contains_key(key) implies exists|i: int|
            Ledger::swap_stored(ledger.swaps@, i, key) by {
            if key == (user, computation_offset) {
                let last = old(ledger).swaps@.len() as int;
                assert(Ledger::swap_stored(ledger.swaps@, last, key));
            } else {
                let i = choose|i: int| Ledger::swap_stored(old(ledger).swaps@, i, key);
                assert(Ledger::swap_stored(ledger.swaps@, i, key));
            }
        }
    }
    Ok(queue_request(user, computation_offset, pub_key, nonce, limit, encrypted_amount))
}

/// Reports how the dispatch of an opened swap went. Where the network took
/// the request the record moves from `Initiated` to `Computing`. Where it
/// did not, the record stays at `Initiated` and the failure is returned.
/// A swap that does not wait for its dispatch is left alone.
pub fn settle_dispatch(
    ledger: &mut Ledger,
    user: [u8; 32],
    computation_offset: u64,
    accepted: bool,
) -> (outcome: Result<(), SwapError>)
    requires
        old(ledger).wf(),
    ensures
        final(ledger).wf(),
        outcome == old(ledger)@.settlement(user, computation_offset, accepted),
        final(ledger)@ == old(ledger)@.after_settlement(user, computation_offset, accepted),
{
    let i = match ledger.find_swap(&user, computation_offset) {
        Some(i) => i,
        None => {
            return Err(SwapError::NotInitiated);
        },
    };
    let current = ledger.record_at(i);
    if !current.is_initiated() {
        return Err(SwapError::NotInitiated);
    }
    if !accepted {
        return Err(SwapError::DispatchFailed);
    }
    let record = current.computing();
    ledger.swaps[i] = record;
    ledger.swap_map = Ghost(ledger.swap_map@.insert((user, computation_offset), record));
    proof {
        assert(ledger.limits@ == old(ledger).limits@);
        assert forall|key: ([u8; 32], u64)| #[trigger]
            ledger.swap_map@.contains_key(key) implies exists|j: int|
            Ledger::swap_stored(ledger.swaps@, j, key) by {
            if key == (user, computation_offset) {
                assert(Ledger::swap_stored(ledger.swaps@, i as int, key));
            } else {
                let j = choose|j: int| Ledger::swap_stored(old(ledger).swaps@, j, key);
                assert(Ledger::swap_stored(ledger.swaps@, j, key));
            }
        }
    }
    Ok(())
}

/// Takes the cluster's answer to a computation of `user`. A result is
/// published as one event, still encrypted; an aborted computation is
/// reported as `AbortedComputation` and changes nothing. No swap record is
/// touched either way.
pub fn compute_swap_callback(
    ledger: &mut Ledger,
    user: [u8; 32],
    output: ComputationOutputs,
) -> (outcome: Result<ConfidentialSwapExecutedEvent, ErrorCode>)
    requires
        old(ledger).wf(),
    ensures
        final(ledger).wf(),
        outcome == callback_outcome(user, output),
        final(ledger)@ == old(ledger)@.after_callback(user, output),
        final(ledger)@.swaps == old(ledger)@.swaps,
        final(ledger)@.limits == old(ledger)@.limits,
        outcome is Ok ==> final(ledger)@.events.len() == old(ledger)@.events.len() + 1,
{
    let event = match executed_event(user, output) {
        Ok(event) => event,
        Err(error) => {
            return Err(error);
        },
    };
    ledger.events.push(event);
    proof {
        assert(ledger.limits@ == old(ledger).limits@);
        assert(ledger.swaps@ == old(ledger).swaps@);
    }
    Ok(event)
}

/// Whatever came of a first request of `user` under `computation_offset`,
/// a second one under the same offset is refused and leaves the ledger as
/// the first left it; where the first was admitted, its record still
/// stands as it was opened and the refusal names the duplicate offset. The
/// offset stays taken once its dispatch has been settled, either way.
pub proof fn reused_offset_is_refused(
    ledger: LedgerView,
    user: [u8; 32],
    computation_offset: u64,
    first_now: i64,
    second_now: i64,
    accepted: bool,
)
    ensures
        ({
            let first = ledger.after_compute_swap(user, computation_offset, first_now);
            let settled = first.after_settlement(user, computation_offset, accepted);
            &&& first.refusal(user, computation_offset) is Some
            &&& first.after_compute_swap(user, computation_offset, second_now) == first
            &&& settled.refusal(user, computation_offset) is Some
            &&& settled.after_compute_swap(user, computation_offset, second_now) == settled
            &&& ledger.refusal(user, computation_offset) is None ==> {
                &&& first.refusal(user, computation_offset) == Some(SwapError::DuplicateOffset)
                &&& settled.refusal(user, computation_offset) == Some(
                    SwapError::DuplicateOffset,
                )
                &&& first.swaps[(user, computation_offset)] == SwapState::initiated_at(
                    user,
                    computation_offset,
                    first_now,
                )
            }
        }),
{
}

/// A dispatch that the network did not take changes nothing: settling it
/// fails, and a swap that was opened for it stays at `Initiated`.
pub proof fn failed_dispatch_leaves_swap_initiated(
    ledger: LedgerView,
    user: [u8; 32],
    computation_offset: u64,
    now: i64,
)
    ensures
        ledger.settlement(user, computation_offset, false) is Err,
        ledger.after_settlement(user, computation_offset, false) == ledger,
        ledger.refusal(user, computation_offset) is None ==> ({
            let opened = ledger.after_compute_swap(user, computation_offset, now);
            &&& opened.settlement(user, computation_offset, false) == Err::<(), SwapError>(
                SwapError::DispatchFailed,
            )
            &&& opened.after_settlement(user, computation_offset, false).swaps[(
                user,
                computation_offset,
            )].status == SwapStatus::Initiated
        }),
{
}

/// The callback of an aborted computation alters no swap record, whoever
/// the swap belongs to and whatever its offset, and publishes nothing.
pub proof fn aborted_callback_alters_nothing(ledger: LedgerView, user: [u8; 32])
    ensures
        callback_outcome(user, ComputationOutputs::Failure) == Err::<
            ConfidentialSwapExecutedEvent,
            ErrorCode,
        >(ErrorCode::AbortedComputation),
        ledger.after_callback(user, ComputationOutputs::Failure) == ledger,
        forall|other: [u8; 32], computation_offset: u64|
            {
                &&& ledger.after_callback(user, ComputationOutputs::Failure).swaps.contains_key(
                    (other, computation_offset),
                ) == #[trigger] ledger.swaps.contains_key((other, computation_offset))
                &&& ledger.after_callback(user, ComputationOutputs::Failure).swaps[(
                    other,
                    computation_offset,
                )] == ledger.swaps[(other, computation_offset)]
            },
{
}

/// The callback of a computation that came back with a result publishes
/// exactly one event, after those already in the log. The event names the
/// user of the callback and carries the result's own nonce.
pub proof fn result_is_published_once(ledger: LedgerView, user: [u8; 32], output: ComputeSwapOutput)
    ensures
        ({
            let after = ledger.after_callback(user, ComputationOutputs::Success(output));
            &&& after.events.len() == ledger.events.len() + 1
            &&& after.events.subrange(0, ledger.events.len() as int) == ledger.events
            &&& after.events.last().user == user
            &&& after.events.last().nonce == output.field_0.nonce
            &&& after.events.last().execute == output.field_0.ciphertexts[0]
            &&& after.events.last().withdraw_amount == output.field_0.ciphertexts[1]
            &&& after.swaps == ledger.swaps
            &&& after.limits == ledger.limits
        }),
{
    let after = ledger.after_callback(user, ComputationOutputs::Success(output));
    assert(after.events.subrange(0, ledger.events.len() as int) =~= ledger.events);
}

/// Opening a swap and settling its dispatch touch the record of that user
/// and offset alone: every other record, of this user or another, stays.
pub proof fn other_swaps_are_untouched(
    ledger: LedgerView,
    user: [u8; 32],
    computation_offset: u64,
    now: i64,
    accepted: bool,
    other: ([u8; 32], u64),
)
    requires
        other != (user, computation_offset),
    ensures
        ({
            let opened = ledger.after_compute_swap(user, computation_offset, now);
            let settled = ledger.after_settlement(user, computation_offset, accepted);
            &&& opened.swaps.contains_key(other) == ledger.swaps.contains_key(other)
            &&& opened.swaps[other] == ledger.swaps[other]
            &&& settled.swaps.contains_key(other) == ledger.swaps.contains_key(other)
            &&& settled.swaps[other] == ledger.swaps[other]
        }),
{
}

/// Storing a limit again replaces the owner's limit and nobody else's.
pub proof fn limit_is_overwritten_per_owner(
    ledger: LedgerView,
    owner: [u8; 32],
    first: [u8; 32],
    second: [u8; 32],
    other: [u8; 32],
)
    requires
        other != owner,
    ensures
        ({
            let stored = ledger.with_limit(owner, first).with_limit(owner, second);
            &&& stored.limits[owner] == second
            &&& stored == ledger.with_limit(owner, second)
            &&& stored.limits.contains_key(other) == ledger.limits.contains_key(other)
            &&& stored.limits[other] == ledger.limits[other]
            &&& stored.swaps == ledger.swaps
            &&& stored.events == ledger.events
        }),
{
    let stored = ledger.with_limit(owner, first).with_limit(owner, second);
    assert(stored.limits =~= ledger.with_limit(owner, second).limits);
}

/// The orchestrator moves a record's status along one edge only: from
/// `Initiated` to `Computing`, for the swap whose dispatch the network
/// took. No operation sets another status or moves a record back.
pub proof fn status_moves_from_initiated_to_computing_only(
    ledger: LedgerView,
    user: [u8; 32],
    computation_offset: u64,
    now: i64,
    accepted: bool,
    output: ComputationOutputs,
    key: ([u8; 32], u64),
)
    requires
        ledger.swaps.contains_key(key),
    ensures
        ledger.after_compute_swap(user, computation_offset, now).swaps[key] == ledger.swaps[key],
        ledger.after_callback(user, output).swaps[key] == ledger.swaps[key],
        ledger.with_limit(user, key.0).swaps[key] == ledger.swaps[key],
        ({
            let before = ledger.swaps[key];
            let after = ledger.after_settlement(user, computation_offset, accepted).swaps[key];
            ||| after == before
            ||| {
                &&& key == (user, computation_offset)
                &&& accepted
                &&& before.status == SwapStatus::Initiated
                &&& after == before.with_status(SwapStatus::Computing)
            }
        }),
{
}

/// A dispatch is settled once: after the network took the request, the swap
/// no longer waits, and settling it again fails and changes nothing.
pub proof fn dispatch_is_settled_once(
    ledger: LedgerView,
    user: [u8; 32],
    computation_offset: u64,
    again: bool,
)
    requires
        ledger.awaits_dispatch(user, computation_offset),
    ensures
        ({
            let settled = ledger.after_settlement(user, computation_offset, true);
            &&& ledger.settlement(user, computation_offset, true) is Ok
            &&& settled.swaps[(user, computation_offset)].status == SwapStatus::Computing
            &&& !settled.awaits_dispatch(user, computation_offset)
            &&& settled.settlement(user, computation_offset, again) == Err::<(), SwapError>(
                SwapError::NotInitiated,
            )
            &&& settled.after_settlement(user, computation_offset, again) == settled
        }),
{
}

/// Every operation keeps each record filed under its own user and offset.
pub proof fn records_stay_filed_by_key(
    ledger: LedgerView,
    user: [u8; 32],
    computation_offset: u64,
    now: i64,
    accepted: bool,
    limit: [u8; 32],
    output: ComputationOutputs,
)
    requires
        ledger.filed_by_key(),
    ensures
        ledger.with_limit(user, limit).filed_by_key(),
        ledger.after_compute_swap(user, computation_offset, now).filed_by_key(),
        ledger.after_settlement(user, computation_offset, accepted).filed_by_key(),
        ledger.after_callback(user, output).filed_by_key(),
{
    let opened = ledger.after_compute_swap(user, computation_offset, now);
    assert forall|u: [u8; 32], o: u64| #[trigger] opened.swaps.contains_key((u, o)) implies {
        &&& opened.swaps[(u, o)].user == u
        &&& opened.swaps[(u, o)].computation_offset == o
    } by {
        if (u, o) != (user, computation_offset) {
            assert(ledger.swaps.contains_key((u, o)));
        }
    }
    let settled = ledger.after_settlement(user, computation_offset, accepted);
    assert forall|u: [u8; 32], o: u64| #[trigger] settled.swaps.contains_key((u, o)) implies {
        &&& settled.swaps[(u, o)].user == u
        &&& settled.swaps[(u, o)].computation_offset == o
    } by {
        assert(ledger.swaps.contains_key((u, o)));
    }
}

} // verus!
