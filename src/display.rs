use vstd::prelude::*;

use crate::config::{clamped_end, Args};
use crate::summary::{AddressInfo, AddressSummary, SummaryError};

verus! {

/// What a run does with its settings.
#[derive(Debug, Clone, Copy, PartialEq, Eq, Structural)]
pub enum Step {
    /// No index is in scope: nothing is derived, queried or shown.
    Nothing,
    /// Derive and show the displayed addresses, with no query to the service.
    ShowOffline,
    /// Query both chains over the whole scope, then show the displayed rows and
    /// the totals.
    FetchAndShow,
}

/// Decides what a run does: nothing for an empty scope, else addresses alone when
/// offline, else queries.
pub fn next_step(args: &Args) -> (r: Step)
    ensures
        args.n == 0 <==> r == Step::Nothing,
        args.n > 0 && args.is_offline <==> r == Step::ShowOffline,
        args.n > 0 && !args.is_offline <==> r == Step::FetchAndShow,
{
    if args.n == 0 {
        Step::Nothing
    } else if args.is_offline {
        Step::ShowOffline
    } else {
        Step::FetchAndShow
    }
}

/// One displayed line: the index on its chain, the address, its balance and its
/// transaction count.
pub struct DisplayRow {
    pub index: u32,
    pub address: String,
    pub balance: i128,
    pub tx_count: i32,
}

/// The summaries of the displayed chain.
pub open spec fn shown_summaries(
    receive: Seq<AddressSummary>,
    change: Seq<AddressSummary>,
    is_change: bool,
) -> Seq<AddressSummary> {
    if is_change {
        change
    } else {
        receive
    }
}

/// How many indices from `start` to `end`, both included, lie below `len`.
pub open spec fn shown_count(len: int, start: int, end: int) -> int {
    let stop = if end + 1 < len {
        end + 1
    } else {
        len
    };
    if stop > start {
        stop - start
    } else {
        0
    }
}

/// The row that shows a summary at an index.
pub open spec fn row_matches(row: DisplayRow, index: int, s: AddressSummary) -> bool {
    &&& row.index == index
    &&& s.address_spec() == Some(row.address@)
    &&& row.balance == s.balance_spec()
    &&& row.tx_count == s.tx_count_spec()
}

/// The rows of the displayed chain for indices `start` to the clamped `end`, as
/// far as the summaries reach; the totals are not affected. A shown summary
/// without an address is an error.
pub fn display_rows(
    receive: &Vec<AddressSummary>,
    change: &Vec<AddressSummary>,
    args: &Args,
) -> (r: Result<Vec<DisplayRow>, SummaryError>)
    ensures
        ({
            let shown = shown_summaries(receive@, change@, args.is_change);
            let count = shown_count(
                shown.len() as int,
                args.start as int,
                clamped_end(args.start, args.end) as int,
            );
            &&& r is Ok <==> forall|k: int|
                0 <= k < count ==> (#[trigger] shown[args.start + k]).address is Some
            &&& r is Err ==> r->Err_0 == SummaryError::MissingAddress
            &&& r is Ok ==> r->Ok_0@.len() == count && forall|k: int|
                0 <= k < count ==> row_matches(
                    #[trigger] r->Ok_0@[k],
                    args.start + k,
                    shown[args.start + k],
                )
        }),
{
    let shown = if args.is_change {
        change
    } else {
        receive
    };
    let end: u64 = if args.end < args.start {
        args.start as u64
    } else {
        args.end as u64
    };
    let ghost count = shown_count(shown@.len() as int, args.start as int, end as int);
    let mut rows: Vec<DisplayRow> = Vec::new();
    let mut i: u64 = args.start as u64;
    while i <= end && (i as usize) < shown.len()
        invariant
            args.start <= i <= end + 1,
            shown@ == shown_summaries(receive@, change@, args.is_change),
            end <= u32::MAX,
            end == clamped_end(args.start, args.end),
            i - args.start <= count,
            count == shown_count(shown@.len() as int, args.start as int, end as int),
            rows@.len() == i - args.start,
            forall|k: int|
                0 <= k < i - args.start ==> (#[trigger] shown@[args.start + k]).address is Some,
            forall|k: int|
                0 <= k < i - args.start ==> row_matches(
                    #[trigger] rows@[k],
                    args.start + k,
                    shown@[args.start + k],
                ),
        decreases end + 1 - i,
    {
        let s = &shown[i as usize];
        let address = match s.address() {
            Ok(a) => a.clone(),
            Err(e) => {
                assert(shown@ == shown_summaries(receive@, change@, args.is_change));
                assert(i - args.start < count);
                assert(shown@[args.start + (i - args.start)].address is None);
                return Err(e);
            },
        };
        rows.push(DisplayRow { index: i as u32, address, balance: s.balance(), tx_count: s.tx_count() });
        i = i + 1;
    }
    Ok(rows)
}

} // verus!
