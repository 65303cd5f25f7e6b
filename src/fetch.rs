use vstd::prelude::*;

use crate::summary::AddressSummary;

verus! {

/// A query for one address failed, which fails the whole batch.
pub enum FetchError {
    AddressQueryFailed { address: String, cause: String },
}

pub open spec fn all_succeeded(outcomes: Seq<Result<AddressSummary, String>>) -> bool {
    forall|i: int| 0 <= i < outcomes.len() ==> (#[trigger] outcomes[i]) is Ok
}

/// Position `k` holds the first failed query.
pub open spec fn is_first_failure(outcomes: Seq<Result<AddressSummary, String>>, k: int) -> bool {
    &&& 0 <= k < outcomes.len()
    &&& outcomes[k] is Err
    &&& forall|j: int| 0 <= j < k ==> (#[trigger] outcomes[j]) is Ok
}

/// Turns the outcomes of the queries for `addresses`, position by position, into
/// the summaries in the same order; the first failed query fails the batch and
/// names its address and cause.
pub fn collect_in_order(
    addresses: &Vec<String>,
    outcomes: &Vec<Result<AddressSummary, String>>,
) -> (r: Result<Vec<AddressSummary>, FetchError>)
    requires
        addresses@.len() == outcomes@.len(),
    ensures
        r is Ok <==> all_succeeded(outcomes@),
        r is Ok ==> r->Ok_0@.len() == outcomes@.len() && forall|i: int|
            0 <= i < outcomes@.len() ==> r->Ok_0@[i] == (#[trigger] outcomes@[i])->Ok_0,
        r is Err ==> exists|k: int|
            is_first_failure(outcomes@, k) && r->Err_0 == (FetchError::AddressQueryFailed {
                address: addresses@[k],
                cause: outcomes@[k]->Err_0,
            }),
{
    let mut summaries: Vec<AddressSummary> = Vec::new();
    let mut i: usize = 0;
    while i < outcomes.len()
        invariant
            i <= outcomes@.len(),
            addresses@.len() == outcomes@.len(),
            summaries@.len() == i,
            forall|j: int| 0 <= j < i ==> (#[trigger] outcomes@[j]) is Ok,
            forall|j: int| 0 <= j < i ==> summaries@[j] == (#[trigger] outcomes@[j])->Ok_0,
        decreases outcomes@.len() - i,
    {
        match &outcomes[i] {
            Ok(s) => {
                summaries.push(s.duplicate());
            },
            Err(cause) => {
                let e = FetchError::AddressQueryFailed {
                    address: addresses[i].clone(),
                    cause: cause.clone(),
                };
                assert(is_first_failure(outcomes@, i as int));
                assert(!all_succeeded(outcomes@));
                return Err(e);
            },
        }
        i = i + 1;
    }
    Ok(summaries)
}

/// Collects the answers for both chains: both lists come back whole and in
/// order, or the batch fails on the first failed receive query, else on the
/// first failed change query.
pub fn collect_both(
    receive_addresses: &Vec<String>,
    receive_outcomes: &Vec<Result<AddressSummary, String>>,
    change_addresses: &Vec<String>,
    change_outcomes: &Vec<Result<AddressSummary, String>>,
) -> (r: Result<(Vec<AddressSummary>, Vec<AddressSummary>), FetchError>)
    requires
        receive_addresses@.len() == receive_outcomes@.len(),
        change_addresses@.len() == change_outcomes@.len(),
    ensures
        r is Ok <==> all_succeeded(receive_outcomes@) && all_succeeded(change_outcomes@),
        r is Ok ==> {
            let (rs, cs) = r->Ok_0;
            &&& rs@.len() == receive_outcomes@.len()
            &&& cs@.len() == change_outcomes@.len()
            &&& forall|i: int|
                0 <= i < receive_outcomes@.len() ==> rs@[i] == (#[trigger] receive_outcomes@[i])->Ok_0
            &&& forall|i: int|
                0 <= i < change_outcomes@.len() ==> cs@[i] == (#[trigger] change_outcomes@[i])->Ok_0
        },
        r is Err && !all_succeeded(receive_outcomes@) ==> exists|k: int|
            is_first_failure(receive_outcomes@, k) && r->Err_0 == (FetchError::AddressQueryFailed {
                address: receive_addresses@[k],
                cause: receive_outcomes@[k]->Err_0,
            }),
        r is Err && all_succeeded(receive_outcomes@) ==> exists|k: int|
            is_first_failure(change_outcomes@, k) && r->Err_0 == (FetchError::AddressQueryFailed {
                address: change_addresses@[k],
                cause: change_outcomes@[k]->Err_0,
            }),
{
    let receive = collect_in_order(receive_addresses, receive_outcomes)?;
    let change = collect_in_order(change_addresses, change_outcomes)?;
    Ok((receive, change))
}

} // verus!
