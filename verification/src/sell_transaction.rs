//! Quote requests, and the resolver's report of what a liquidation
//! brought.

use vstd::prelude::*;
use crate::error::Error;
use crate::principal::PrincipalId;
use crate::quote_manager::{assignment_of, has_assignment, AssignmentStore};
use crate::holdings_tracker::{proportional_withdrawal, HoldingsTracker};
use crate::types::{AssetWithdrawal, BundleHolding, OperationType, QuoteAssignment, QuoteRequest};

verus! {

/// Whether a request with this id is among `requests`.
pub open spec fn has_request(requests: Seq<QuoteRequest>, id: u64) -> bool {
    exists|i: int| 0 <= i < requests.len() && (#[trigger] requests[i]).request_id == id
}

/// The request with this id among `requests`.
pub open spec fn request_of(requests: Seq<QuoteRequest>, id: u64) -> QuoteRequest
    recommends
        has_request(requests, id),
{
    requests[choose|i: int| 0 <= i < requests.len() && (#[trigger] requests[i]).request_id == id]
}

/// The ids are positive, at most `counter`, and strictly increasing.
pub open spec fn ordered_requests(requests: Seq<QuoteRequest>, counter: u64) -> bool {
    &&& forall|i: int| 0 <= i < requests.len() ==> 1 <= (#[trigger] requests[i]).request_id <= counter
    &&& forall|i: int, j: int|
        0 <= i < j < requests.len() ==> (#[trigger] requests[i]).request_id < (#[trigger] requests[j]).request_id
}

/// With increasing ids, the request found for an id is the one at any
/// index that holds the id.
pub proof fn lemma_request_at(requests: Seq<QuoteRequest>, counter: u64, i: int)
    requires
        ordered_requests(requests, counter),
        0 <= i < requests.len(),
    ensures
        has_request(requests, requests[i].request_id),
        request_of(requests, requests[i].request_id) == requests[i],
{
    let c = choose|k: int| 0 <= k < requests.len() && (#[trigger] requests[k]).request_id == requests[i].request_id;
    if c < i {
        assert(requests[c].request_id < requests[i].request_id);
    } else if i < c {
        assert(requests[i].request_id < requests[c].request_id);
    }
}

/// The quote requests of the users.
pub struct QuoteRequests {
    requests: Vec<QuoteRequest>,
    counter: u64,
}

impl QuoteRequests {
    /// The requests, by increasing id.
    pub closed spec fn view(&self) -> Seq<QuoteRequest> {
        self.requests@
    }

    /// The id that was given out last, or zero.
    pub closed spec fn counter(&self) -> u64 {
        self.counter
    }

    /// The ids increase.
    pub open spec fn wf(&self) -> bool {
        ordered_requests(self@, self.counter())
    }

    /// No requests.
    pub fn new() -> (r: QuoteRequests)
        ensures
            r.wf(),
            r@ == Seq::<QuoteRequest>::empty(),
            r.counter() == 0,
    {
        QuoteRequests { requests: Vec::new(), counter: 0 }
    }

    /// Files a user's request under the next id and returns the id. Of the
    /// request as it is handed in, the id, the user and the time of
    /// creation are replaced.
    pub fn request_quote(&mut self, request: QuoteRequest, user: PrincipalId, now: u64) -> (r: Result<u64, Error>)
        requires
            old(self).wf(),
        ensures
            final(self).wf(),
            old(self).counter() == u64::MAX ==> r == Err::<u64, Error>(Error::CounterOverflow) && final(self)@
                == old(self)@ && final(self).counter() == old(self).counter(),
            old(self).counter() < u64::MAX ==> r == Ok::<u64, Error>((old(self).counter() + 1) as u64) && final(self).counter() == old(self).counter() + 1 && final(self)@ == old(self)@.push(
                QuoteRequest { request_id: (old(self).counter() + 1) as u64, user, created_at: now, ..request },
            ),
    {
        if self.counter == u64::MAX {
            return Err(Error::CounterOverflow);
        }
        let id = self.counter + 1;
        let ghost before = self.requests@;
        self.requests.push(QuoteRequest { request_id: id, user, created_at: now, ..request });
        self.counter = id;
        proof {
            let after = self.requests@;
            assert forall|i: int, j: int| 0 <= i < j < after.len() implies (#[trigger] after[i]).request_id < (
            #[trigger] after[j]).request_id by {
                if j == before.len() {
                    assert(after[i] == before[i]);
                } else {
                    assert(after[i] == before[i] && after[j] == before[j]);
                }
            }
            assert forall|i: int| 0 <= i < after.len() implies 1 <= (#[trigger] after[i]).request_id <= id by {
                if i < before.len() {
                    assert(after[i] == before[i]);
                }
            }
        }
        Ok(id)
    }

    /// The request with this id.
    pub fn get_quote_request(&self, request_id: u64) -> (r: Result<QuoteRequest, Error>)
        requires
            self.wf(),
        ensures
            r == if has_request(self@, request_id) {
                Ok::<QuoteRequest, Error>(request_of(self@, request_id))
            } else {
                Err::<QuoteRequest, Error>(Error::QuoteRequestNotFound)
            },
    {
        let mut i: usize = 0;
        while i < self.requests.len()
            invariant
                self.wf(),
                i <= self.requests.len(),
                forall|k: int| 0 <= k < i ==> (#[trigger] self.requests@[k]).request_id != request_id,
            decreases self.requests.len() - i,
        {
            if self.requests[i].request_id == request_id {
                proof {
                    lemma_request_at(self.requests@, self.counter, i as int);
                }
                return Ok(self.requests[i]);
            }
            i += 1;
        }
        Err(Error::QuoteRequestNotFound)
    }
}

/// The least settlement amount that a liquidation may bring: the quoted
/// amount less the slippage, in basis points of the amount.
pub open spec fn minimum_acceptable(ckusdc_amount: u64, max_slippage: u8) -> u64 {
    (ckusdc_amount - ckusdc_amount as nat * max_slippage as nat / 10_000) as u64
}

/// The slippage is never more than the amount.
pub proof fn lemma_slippage_within_amount(ckusdc_amount: u64, max_slippage: u8)
    ensures
        ckusdc_amount as nat * max_slippage as nat / 10_000 <= ckusdc_amount,
{
    assert(ckusdc_amount as nat * max_slippage as nat <= ckusdc_amount as nat * 10_000) by (nonlinear_arith)
        requires
            max_slippage <= 255,
    ;
    vstd::arithmetic::div_mod::lemma_div_is_ordered(
        ckusdc_amount as int * max_slippage as int,
        ckusdc_amount as int * 10_000,
        10_000,
    );
    vstd::arithmetic::div_mod::lemma_div_multiples_vanish(ckusdc_amount as int, 10_000);
    assert(ckusdc_amount as int * 10_000 == 10_000 * ckusdc_amount as int);
}

/// Whether a liquidation is accepted, and if not, why. The checks are made
/// in this order: the assignment is stored; the caller is its resolver;
/// the request is known; the amount received is not below the minimum.
pub open spec fn liquidation_check(
    assignments: Seq<QuoteAssignment>,
    requests: Seq<QuoteRequest>,
    request_id: u64,
    caller: PrincipalId,
    ckusdc_received: u64,
) -> Result<(), Error> {
    let assignment = assignment_of(assignments, request_id);
    let minimum = minimum_acceptable(assignment.ckusdc_amount, request_of(requests, request_id).max_slippage);
    if !has_assignment(assignments, request_id) {
        Err(Error::AssignmentNotFound)
    } else if assignment.resolver != caller {
        Err(Error::NotAssignedResolver)
    } else if !has_request(requests, request_id) {
        Err(Error::QuoteRequestNotFound)
    } else if ckusdc_received < minimum {
        Err(Error::SlippageExceeded { received: ckusdc_received, minimum })
    } else {
        Ok(())
    }
}

/// Takes the resolver's report of what a liquidation brought and sets the
/// settlement amount of the assignment to it. Refused, with nothing
/// changed, where the amount is below the quoted amount less the slippage
/// that the user allowed.
pub fn confirm_asset_liquidation(
    assignments: &mut AssignmentStore,
    requests: &QuoteRequests,
    request_id: u64,
    caller: PrincipalId,
    ckusdc_received: u64,
) -> (r: Result<(), Error>)
    requires
        old(assignments).wf(),
        requests.wf(),
    ensures
        final(assignments).wf(),
        r == liquidation_check(old(assignments)@, requests@, request_id, caller, ckusdc_received),
        r is Err ==> final(assignments)@ == old(assignments)@,
        r is Ok ==> final(assignments)@.len() == old(assignments)@.len() && forall|i: int|
            0 <= i < old(assignments)@.len() ==> #[trigger] final(assignments)@[i] == if old(
                assignments,
            )@[i].request_id == request_id {
                QuoteAssignment { ckusdc_amount: ckusdc_received, ..old(assignments)@[i] }
            } else {
                old(assignments)@[i]
            },
{
    let (resolver, amount) = match assignments.get_assignment(request_id) {
        Ok(a) => (a.resolver, a.ckusdc_amount),
        Err(e) => {
            return Err(e);
        },
    };
    if !resolver.same_as(&caller) {
        return Err(Error::NotAssignedResolver);
    }
    let request = match requests.get_quote_request(request_id) {
        Ok(r) => r,
        Err(e) => {
            return Err(e);
        },
    };
    proof {
        lemma_slippage_within_amount(amount, request.max_slippage);
    }
    let slippage: u128 = amount as u128 * request.max_slippage as u128 / 10_000u128;
    let minimum: u64 = amount - slippage as u64;
    if ckusdc_received < minimum {
        return Err(Error::SlippageExceeded { received: ckusdc_received, minimum });
    }
    assignments.update_settlement_amount(request_id, ckusdc_received)
}

/// Whether the request is a redemption.
pub fn is_sell_request(request: &QuoteRequest) -> (r: bool)
    ensures
        r == (request.operation == OperationType::Sell),
{
    match request.operation {
        OperationType::Sell => true,
        OperationType::Buy => false,
    }
}

impl QuoteRequests {
    /// All requests, by increasing id.
    pub fn all_requests(&self) -> (out: Vec<QuoteRequest>)
        ensures
            out@ == self@,
    {
        let mut out: Vec<QuoteRequest> = Vec::new();
        let mut i: usize = 0;
        while i < self.requests.len()
            invariant
                i <= self.requests.len(),
                out@ == self.requests@.take(i as int),
            decreases self.requests.len() - i,
        {
            out.push(self.requests[i]);
            i += 1;
            assert(out@ =~= self.requests@.take(i as int));
        }
        assert(self.requests@.take(i as int) =~= self.requests@);
        out
    }

    /// Puts back a request that was filed before, when the state is
    /// loaded. Its id must be larger than every id that is there.
    pub fn restore_request(&mut self, request: QuoteRequest) -> (r: Result<(), Error>)
        requires
            old(self).wf(),
        ensures
            final(self).wf(),
            request.request_id > old(self).counter() ==> r == Ok::<(), Error>(()) && final(self)@ == old(
                self,
            )@.push(request) && final(self).counter() == request.request_id,
            request.request_id <= old(self).counter() ==> r == Err::<(), Error>(Error::InconsistentRecord)
                && final(self)@ == old(self)@ && final(self).counter() == old(self).counter(),
    {
        if request.request_id <= self.counter {
            return Err(Error::InconsistentRecord);
        }
        let ghost before = self.requests@;
        self.requests.push(request);
        self.counter = request.request_id;
        proof {
            let after = self.requests@;
            assert forall|i: int, j: int| 0 <= i < j < after.len() implies (#[trigger] after[i]).request_id < (
            #[trigger] after[j]).request_id by {
                if j == before.len() {
                    assert(after[i] == before[i]);
                } else {
                    assert(after[i] == before[i] && after[j] == before[j]);
                }
            }
            assert forall|i: int| 0 <= i < after.len() implies 1 <= (#[trigger] after[i]).request_id
                <= request.request_id by {
                if i < before.len() {
                    assert(after[i] == before[i]);
                }
            }
        }
        Ok(())
    }
}

/// What `process_sell_transaction` returns: the request must be known, an
/// assignment must be stored for it, and it must be a redemption; then
/// the withdrawal is that of the assignment's bundle tokens out of
/// `total_nav_tokens`.
pub open spec fn sell_processing(
    requests: Seq<QuoteRequest>,
    assignments: Seq<QuoteAssignment>,
    holdings: Seq<BundleHolding>,
    request_id: u64,
    total_nav_tokens: u64,
) -> Result<Seq<AssetWithdrawal>, Error> {
    if !has_request(requests, request_id) {
        Err(Error::QuoteRequestNotFound)
    } else if !has_assignment(assignments, request_id) {
        Err(Error::AssignmentNotFound)
    } else if request_of(requests, request_id).operation != OperationType::Sell {
        Err(Error::NotSellOperation)
    } else {
        proportional_withdrawal(
            holdings,
            request_of(requests, request_id).bundle_id,
            assignment_of(assignments, request_id).nav_tokens,
            total_nav_tokens,
        )
    }
}

/// What the redemption of a request takes of each holding of its bundle;
/// `total_nav_tokens` is the supply of the bundle's token as the ledger
/// answered it.
pub fn process_sell_transaction(
    requests: &QuoteRequests,
    assignments: &AssignmentStore,
    holdings: &HoldingsTracker,
    request_id: u64,
    total_nav_tokens: u64,
) -> (r: Result<Vec<AssetWithdrawal>, Error>)
    requires
        requests.wf(),
        assignments.wf(),
    ensures
        match r {
            Ok(out) => sell_processing(requests@, assignments@, holdings@, request_id, total_nav_tokens)
                == Ok::<Seq<AssetWithdrawal>, Error>(out@),
            Err(e) => sell_processing(requests@, assignments@, holdings@, request_id, total_nav_tokens)
                == Err::<Seq<AssetWithdrawal>, Error>(e),
        },
{
    let request = match requests.get_quote_request(request_id) {
        Ok(r) => r,
        Err(e) => {
            return Err(e);
        },
    };
    let nav_tokens = match assignments.get_assignment(request_id) {
        Ok(a) => a.nav_tokens,
        Err(e) => {
            return Err(e);
        },
    };
    if !is_sell_request(&request) {
        return Err(Error::NotSellOperation);
    }
    holdings.calculate_proportional_withdrawal(request.bundle_id, nav_tokens, total_nav_tokens)
}

} // verus!
