use vstd::prelude::*;

verus! {

/// What the indexing service reports for one address: the sum of its funding
/// outputs, the sum of those spent, and its number of transactions.
pub struct AddressSummary {
    pub address: Option<String>,
    pub funded: i64,
    pub spent: i64,
    pub tx_count: i32,
}

/// A summary that is asked for its address but came without one.
#[derive(Debug, Clone, Copy, PartialEq, Eq, Structural)]
pub enum SummaryError {
    MissingAddress,
}

/// Balance, transaction count and address of a reported address.
pub trait AddressInfo {
    spec fn balance_spec(&self) -> int;

    spec fn tx_count_spec(&self) -> int;

    spec fn address_spec(&self) -> Option<Seq<char>>;

    /// Funded minus spent; signed, as spent may exceed funded.
    fn balance(&self) -> (r: i128)
        ensures
            r == self.balance_spec(),
    ;

    fn tx_count(&self) -> (r: i32)
        ensures
            r == self.tx_count_spec(),
    ;

    fn address(&self) -> (r: Result<&String, SummaryError>)
        ensures
            self.address_spec() is Some <==> r is Ok,
            r is Ok ==> r->Ok_0@ == self.address_spec()->0,
            r is Err ==> r->Err_0 == SummaryError::MissingAddress,
    ;
}

impl AddressInfo for AddressSummary {
    open spec fn balance_spec(&self) -> int {
        self.funded - self.spent
    }

    open spec fn tx_count_spec(&self) -> int {
        self.tx_count as int
    }

    open spec fn address_spec(&self) -> Option<Seq<char>> {
        match self.address {
            Some(a) => Some(a@),
            None => None,
        }
    }

    fn balance(&self) -> (r: i128) {
        self.funded as i128 - self.spent as i128
    }

    fn tx_count(&self) -> (r: i32) {
        self.tx_count
    }

    fn address(&self) -> (r: Result<&String, SummaryError>) {
        match &self.address {
            Some(a) => Ok(a),
            None => Err(SummaryError::MissingAddress),
        }
    }
}

impl AddressSummary {
    /// An equal copy.
    pub fn duplicate(&self) -> (r: AddressSummary)
        ensures
            r == *self,
    {
        let address = match &self.address {
            Some(a) => Some(a.clone()),
            None => None,
        };
        AddressSummary { address, funded: self.funded, spent: self.spent, tx_count: self.tx_count }
    }
}

/// The sum of the balances of a run of summaries.
pub open spec fn total_balance(s: Seq<AddressSummary>) -> int
    decreases s.len(),
{
    if s.len() == 0 {
        0
    } else {
        total_balance(s.drop_last()) + s.last().balance_spec()
    }
}

/// The sum of the transaction counts of a run of summaries.
pub open spec fn total_tx_count(s: Seq<AddressSummary>) -> int
    decreases s.len(),
{
    if s.len() == 0 {
        0
    } else {
        total_tx_count(s.drop_last()) + s.last().tx_count_spec()
    }
}

pub open spec fn fits_i64(x: int) -> bool {
    i64::MIN <= x <= i64::MAX
}

pub open spec fn fits_i32(x: int) -> bool {
    i32::MIN <= x <= i32::MAX
}

/// The totals over both chains, where they fit the result's integer types.
pub open spec fn totals_of(receive: Seq<AddressSummary>, change: Seq<AddressSummary>) -> Option<
    (i64, i32),
> {
    let b = total_balance(receive + change);
    let t = total_tx_count(receive + change);
    if fits_i64(b) && fits_i32(t) {
        Some((b as i64, t as i32))
    } else {
        None
    }
}

proof fn lemma_totals_bounded(s: Seq<AddressSummary>)
    ensures
        -s.len() * 0x1_0000_0000_0000_0000 <= total_balance(s) <= s.len()
            * 0x1_0000_0000_0000_0000,
        -s.len() * 0x8000_0000 <= total_tx_count(s) <= s.len() * 0x8000_0000,
    decreases s.len(),
{
    if s.len() > 0 {
        lemma_totals_bounded(s.drop_last());
    }
}

/// Adds one run of summaries to running totals.
fn add_run(v: &Vec<AddressSummary>, balance: &mut i128, txs: &mut i128, before: Ghost<Seq<AddressSummary>>)
    requires
        before@.len() + v@.len() <= 0x2_0000_0000,
        *old(balance) == total_balance(before@),
        *old(txs) == total_tx_count(before@),
    ensures
        *final(balance) == total_balance(before@ + v@),
        *final(txs) == total_tx_count(before@ + v@),
{
    let mut i: usize = 0;
    while i < v.len()
        invariant
            i <= v@.len(),
            before@.len() + v@.len() <= 0x2_0000_0000,
            *balance == total_balance(before@ + v@.subrange(0, i as int)),
            *txs == total_tx_count(before@ + v@.subrange(0, i as int)),
        decreases v@.len() - i,
    {
        let ghost s = before@ + v@.subrange(0, i as int);
        let ghost s1 = before@ + v@.subrange(0, i + 1);
        assert(s1.drop_last() =~= s);
        proof {
            lemma_totals_bounded(s1);
        }
        *balance = *balance + v[i].balance();
        *txs = *txs + v[i].tx_count() as i128;
        i = i + 1;
    }
    assert(v@.subrange(0, v@.len() as int) =~= v@);
}

/// The total balance and the total transaction count over the receive and the
/// change summaries; `None` where a total does not fit an `i64` or an `i32`.
pub fn calculate_totals(receive: &Vec<AddressSummary>, change: &Vec<AddressSummary>) -> (r: Option<
    (i64, i32),
>)
    requires
        receive@.len() <= u32::MAX,
        change@.len() <= u32::MAX,
    ensures
        r == totals_of(receive@, change@),
{
    let mut balance: i128 = 0;
    let mut txs: i128 = 0;
    add_run(receive, &mut balance, &mut txs, Ghost(Seq::empty()));
    assert(Seq::<AddressSummary>::empty() + receive@ =~= receive@);
    add_run(change, &mut balance, &mut txs, Ghost(receive@));
    if i64::MIN as i128 <= balance && balance <= i64::MAX as i128 && i32::MIN as i128 <= txs
        && txs <= i32::MAX as i128 {
        Some((balance as i64, txs as i32))
    } else {
        None
    }
}

} // verus!
