use vstd::prelude::*;

use std::str::FromStr;

use bdk::bitcoin::Network;
use bdk::database::MemoryDatabase;
use bdk::wallet::AddressIndex;
use bdk::Wallet;
use libelectrum2descriptors::{
    Electrum2DescriptorError, ElectrumExtendedKey, ElectrumExtendedPubKey,
};

use crate::config::{clamped_end, Args};

verus! {

#[verifier::external_type_specification]
#[verifier::external_body]
#[verifier::reject_recursive_types(B)]
#[verifier::reject_recursive_types(D)]
pub struct ExWallet<B, D>(Wallet<B, D>);

#[verifier::external_type_specification]
#[verifier::external_body]
pub struct ExMemoryDatabase(MemoryDatabase);

#[verifier::external_type_specification]
#[verifier::external_body]
pub struct ExBdkError(bdk::Error);

#[verifier::external_type_specification]
#[verifier::external_body]
pub struct ExElectrumExtendedPubKey(ElectrumExtendedPubKey);

/// The largest index that a non-hardened derivation step accepts.
pub const MAX_INDEX: u32 = 0x7fff_ffff;

/// The deepest key whose chains can be derived: a chain adds two levels, and a
/// depth is one byte.
pub const MAX_DEPTH: u8 = 253;

/// Why an extended public key gave no pair of chains.
#[derive(Debug, Clone, Copy, PartialEq, Eq, Structural)]
pub enum DecodeError {
    /// Not a well-formed key: bad characters, checksum, length or point.
    InvalidEncoding,
    /// The key's version bytes name no known script kind.
    UnsupportedScheme,
    /// The key is too deep to derive its chains, or a chain's descriptor could
    /// not be turned into a wallet.
    DerivationFailure,
}

/// Why no address came for an index.
#[derive(Debug, Clone, Copy, PartialEq, Eq, Structural)]
pub enum DeriveError {
    /// The index lies above `MAX_INDEX`.
    IndexOutOfRange,
    /// The wallet could not give an address for the index.
    DerivationFailure,
}

/// What electrum2descriptors decodes from a key text, with its error sorted into
/// an unknown version or any other flaw.
pub uninterp spec fn electrum_parse(s: Seq<char>) -> Result<ElectrumExtendedPubKey, DecodeError>;

/// The depth byte of a decoded key.
pub uninterp spec fn key_depth(k: ElectrumExtendedPubKey) -> u8;

/// The external and the change descriptor that electrum2descriptors writes for
/// a key: its script kind wrapped round the key at child number `0` and `1`.
pub uninterp spec fn key_descriptors(k: ElectrumExtendedPubKey) -> (Seq<char>, Seq<char>);

/// Whether bdk builds an offline main-network wallet from a descriptor text.
pub uninterp spec fn wallet_accepts(descriptor: Seq<char>) -> bool;

/// The descriptor text that a wallet was built from by an offline main-network
/// construction; `None` for a wallet made any other way.
pub uninterp spec fn wallet_origin(w: Wallet<(), MemoryDatabase>) -> Option<Seq<char>>;

/// The main-network address that bdk derives at an index from a descriptor text.
pub uninterp spec fn descriptor_address(descriptor: Seq<char>, index: u32) -> Seq<char>;

pub open spec fn starts_with(s: Seq<char>, p: Seq<char>) -> bool {
    p.len() <= s.len() && s.subrange(0, p.len() as int) == p
}

/// A descriptor whose top level is one that has an address form: `pkh`, `wpkh`,
/// `sh` or `wsh`.
pub open spec fn address_form(d: Seq<char>) -> bool {
    starts_with(d, seq!['p', 'k', 'h', '(']) || starts_with(d, seq!['w', 'p', 'k', 'h', '('])
        || starts_with(d, seq!['s', 'h', '(']) || starts_with(d, seq!['w', 's', 'h', '('])
}

/// Two descriptors that are written alike but for one character, `0` in the
/// first and `1` in the second: the same key at two child numbers.
pub open spec fn differ_in_chain_number(external: Seq<char>, change: Seq<char>) -> bool {
    exists|p: Seq<char>, q: Seq<char>|
        external == p + seq!['0'] + q && change == p + seq!['1'] + q
}

/// A descriptor that electrum2descriptors wrote for a key no deeper than
/// `MAX_DEPTH`.
pub open spec fn shallow_key_descriptor(d: Seq<char>) -> bool {
    exists|k: ElectrumExtendedPubKey|
        key_depth(k) <= MAX_DEPTH && (d == (#[trigger] key_descriptors(k)).0 || d
            == key_descriptors(k).1)
}

/// A chain that derives every index up to `MAX_INDEX`: built offline on the main
/// network from a descriptor with an address form, written for a shallow key.
pub open spec fn chain_ok(w: Wallet<(), MemoryDatabase>) -> bool {
    &&& wallet_origin(w) is Some
    &&& address_form(wallet_origin(w)->0)
    &&& shallow_key_descriptor(wallet_origin(w)->0)
}

/// The address of a chain at an index.
pub open spec fn chain_address(w: Wallet<(), MemoryDatabase>, index: u32) -> Seq<char> {
    descriptor_address(wallet_origin(w)->0, index)
}

/// The two descriptors of a key text, where it decodes.
pub open spec fn decoded_descriptors(xpub: Seq<char>) -> Option<(Seq<char>, Seq<char>)> {
    match electrum_parse(xpub) {
        Ok(k) => Some(key_descriptors(k)),
        Err(_) => None,
    }
}

/// Relies on `ElectrumExtendedPubKey::from_str` of electrum2descriptors: it decodes
/// a base58check key of 78 bytes whose version bytes are one of Electrum's, as a
/// function of the text alone; an unknown version is its own error. The key's
/// script kind comes from Electrum's version table: `pkh`, `wpkh`, `sh(wpkh`,
/// `sh(wsh` or `wsh`, so the descriptors that `to_descriptors` writes for it
/// start with `pkh(`, `wpkh(`, `sh(` or `wsh(`.
#[verifier::external_body]
fn parse_electrum_key(s: &str) -> (r: Result<ElectrumExtendedPubKey, DecodeError>)
    ensures
        r == electrum_parse(s@),
        r is Ok ==> address_form(key_descriptors(r->Ok_0).0) && address_form(
            key_descriptors(r->Ok_0).1,
        ),
        r is Err ==> r->Err_0 == DecodeError::InvalidEncoding || r->Err_0
            == DecodeError::UnsupportedScheme,
{
    match ElectrumExtendedPubKey::from_str(s) {
        Ok(k) => Ok(k),
        Err(Electrum2DescriptorError::InvalidExtendedKeyVersion(_)) => Err(
            DecodeError::UnsupportedScheme,
        ),
        Err(_) => Err(DecodeError::InvalidEncoding),
    }
}

/// Relies on `ElectrumExtendedPubKey::xpub` of electrum2descriptors and the
/// `depth` field of bitcoin's `Xpub`: the depth byte that was decoded.
#[verifier::external_body]
fn read_key_depth(k: &ElectrumExtendedPubKey) -> (r: u8)
    ensures
        r == key_depth(*k),
{
    k.xpub().depth
}

/// Relies on `ElectrumExtendedKey::to_descriptors` of electrum2descriptors: the
/// external and the change descriptor, `{kind}({xpub}/{i}/*)` closed once more
/// for a nested kind, with `i` being `0` and `1`, as a function of the key alone.
#[verifier::external_body]
fn electrum_descriptors(k: &ElectrumExtendedPubKey) -> (r: (String, String))
    ensures
        (r.0@, r.1@) == key_descriptors(*k),
        differ_in_chain_number(r.0@, r.1@),
{
    let d = k.to_descriptors();
    (d.external, d.change)
}

/// Relies on bdk's `Wallet::new_offline`: a wallet with no change descriptor on the
/// main network, kept in memory, built from the descriptor text or refused, as a
/// function of the text alone.
#[verifier::external_body]
fn new_offline_wallet(descriptor: &str) -> (r: Result<Wallet<(), MemoryDatabase>, bdk::Error>)
    ensures
        r is Ok <==> wallet_accepts(descriptor@),
        r is Ok ==> wallet_origin(r->Ok_0) == Some(descriptor@),
{
    Wallet::new_offline(descriptor, None, Network::Bitcoin, MemoryDatabase::default())
}

/// Relies on bdk's `Wallet::get_address` with `AddressIndex::Peek`: it derives the
/// address at `index` from the wallet's fixed descriptor and network, without
/// changing the wallet. The address fails only for a descriptor with no address
/// form. The derivation unwraps a non-hardened child number, so larger indices are
/// left out, and adds two levels to the key's depth byte, so deeper keys are left
/// out.
#[verifier::external_body]
fn peek_address(w: &Wallet<(), MemoryDatabase>, index: u32) -> (r: Result<String, bdk::Error>)
    requires
        index <= MAX_INDEX,
        chain_ok(*w),
    ensures
        r is Ok,
        r->Ok_0@ == descriptor_address(wallet_origin(*w)->0, index),
{
    w.get_address(AddressIndex::Peek(index)).map(|a| a.address.to_string())
}

/// The receive and the change chain of one account.
pub struct DerivationWallet {
    pub receive: Wallet<(), MemoryDatabase>,
    pub change: Wallet<(), MemoryDatabase>,
}

impl DerivationWallet {
    /// Both chains derive every index up to `MAX_INDEX`.
    pub open spec fn wf(&self) -> bool {
        chain_ok(self.receive) && chain_ok(self.change)
    }

    /// The chains were built from the two descriptors of the key text `xpub`.
    pub open spec fn decoded_from(&self, xpub: Seq<char>) -> bool {
        &&& decoded_descriptors(xpub) is Some
        &&& wallet_origin(self.receive) == Some((decoded_descriptors(xpub)->0).0)
        &&& wallet_origin(self.change) == Some((decoded_descriptors(xpub)->0).1)
    }
}

/// The descriptors of the receive and the change chain of an extended public
/// key: the same key at child number `0` and at child number `1`.
pub fn get_descriptors(xpub: &str) -> (r: Result<(String, String), DecodeError>)
    ensures
        r is Ok <==> electrum_parse(xpub@) is Ok,
        r is Ok ==> Some((r->Ok_0.0@, r->Ok_0.1@)) == decoded_descriptors(xpub@),
        r is Ok ==> differ_in_chain_number(r->Ok_0.0@, r->Ok_0.1@),
        r is Err ==> r->Err_0 == electrum_parse(xpub@)->Err_0,
        r is Err ==> r->Err_0 == DecodeError::InvalidEncoding || r->Err_0
            == DecodeError::UnsupportedScheme,
{
    let key = parse_electrum_key(xpub)?;
    Ok(electrum_descriptors(&key))
}

/// A main-network wallet for one chain's descriptor.
pub fn create_wallet(descriptor: &String) -> (r: Result<Wallet<(), MemoryDatabase>, DecodeError>)
    ensures
        r is Ok <==> wallet_accepts(descriptor@),
        r is Ok ==> wallet_origin(r->Ok_0) == Some(descriptor@),
        r is Err ==> r->Err_0 == DecodeError::DerivationFailure,
{
    match new_offline_wallet(descriptor.as_str()) {
        Ok(w) => Ok(w),
        Err(_) => Err(DecodeError::DerivationFailure),
    }
}

impl DerivationWallet {
    /// Decodes an extended public key into its two chains. A key that does not
    /// decode keeps its error; a key deeper than `MAX_DEPTH`, or a descriptor that
    /// bdk refuses, is a derivation failure.
    pub fn new(xpub: &str) -> (r: Result<DerivationWallet, DecodeError>)
        ensures
            ({
                let p = electrum_parse(xpub@);
                &&& p is Err ==> r == Err::<DerivationWallet, DecodeError>(p->Err_0)
                &&& r is Ok <==> (p is Ok && key_depth(p->Ok_0) <= MAX_DEPTH && wallet_accepts(
                    key_descriptors(p->Ok_0).0,
                ) && wallet_accepts(key_descriptors(p->Ok_0).1))
                &&& p is Ok && r is Err ==> r->Err_0 == DecodeError::DerivationFailure
                &&& r is Ok ==> r->Ok_0.wf() && r->Ok_0.decoded_from(xpub@)
            }),
    {
        let key = parse_electrum_key(xpub)?;
        if read_key_depth(&key) > MAX_DEPTH {
            return Err(DecodeError::DerivationFailure);
        }
        let (receive_descriptor, change_descriptor) = electrum_descriptors(&key);
        let receive = create_wallet(&receive_descriptor)?;
        let change = create_wallet(&change_descriptor)?;
        Ok(DerivationWallet { receive, change })
    }
}

/// The addresses of `count` consecutive indices from `start` on.
pub open spec fn range_addresses(w: Wallet<(), MemoryDatabase>, start: int, count: int) -> Seq<
    Seq<char>,
> {
    Seq::new(count as nat, |k: int| chain_address(w, (start + k) as u32))
}

/// Every index of the range is one that a chain can derive.
pub open spec fn range_in_bounds(start: int, count: int) -> bool {
    count == 0 || start + count - 1 <= MAX_INDEX
}

/// The texts of a run of strings.
pub open spec fn views(v: Seq<String>) -> Seq<Seq<char>> {
    v.map_values(|s: String| s@)
}

/// The address at one index of a chain; indices above `MAX_INDEX` are refused,
/// all others succeed.
pub fn derive_address(w: &Wallet<(), MemoryDatabase>, index: u32) -> (r: Result<String, DeriveError>)
    requires
        chain_ok(*w),
    ensures
        r is Ok <==> index <= MAX_INDEX,
        r is Err ==> r->Err_0 == DeriveError::IndexOutOfRange,
        r is Ok ==> r->Ok_0@ == chain_address(*w, index),
{
    if index > MAX_INDEX {
        return Err(DeriveError::IndexOutOfRange);
    }
    match peek_address(w, index) {
        Ok(a) => Ok(a),
        Err(_) => Err(DeriveError::DerivationFailure),
    }
}

/// The addresses of `count` consecutive indices of a chain from `start` on, in
/// index order; a range that reaches above `MAX_INDEX` is refused before any
/// derivation, all others succeed.
pub fn derive_range(w: &Wallet<(), MemoryDatabase>, start: u32, count: u32) -> (r: Result<
    Vec<String>,
    DeriveError,
>)
    requires
        chain_ok(*w),
    ensures
        r is Ok <==> range_in_bounds(start as int, count as int),
        r is Err ==> r->Err_0 == DeriveError::IndexOutOfRange,
        r is Ok ==> views(r->Ok_0@) == range_addresses(*w, start as int, count as int),
{
    if count > 0 && start as u64 + count as u64 - 1 > MAX_INDEX as u64 {
        return Err(DeriveError::IndexOutOfRange);
    }
    let mut out: Vec<String> = Vec::new();
    let mut k: u32 = 0;
    while k < count
        invariant
            k <= count,
            chain_ok(*w),
            range_in_bounds(start as int, count as int),
            out@.len() == k,
            views(out@) == range_addresses(*w, start as int, k as int),
        decreases count - k,
    {
        let a = match derive_address(w, start + k) {
            Ok(a) => a,
            Err(e) => return Err(e),
        };
        let ghost before = out@;
        let ghost idx = k;
        assert(a@ == chain_address(*w, (start + idx) as u32));
        out.push(a);
        k = k + 1;
        assert(views(out@) =~= range_addresses(*w, start as int, k as int)) by {
            assert(out@ == before.push(a));
            assert forall|j: int| 0 <= j < k implies #[trigger] views(out@)[j] == range_addresses(
                *w,
                start as int,
                k as int,
            )[j] by {
                assert(views(out@)[j] == out@[j]@);
                if j < idx {
                    assert(out@[j] == before[j]);
                    assert(views(before)[j] == before[j]@);
                    assert(views(before)[j] == range_addresses(*w, start as int, idx as int)[j]);
                }
            }
        }
    }
    Ok(out)
}

/// The receive and the change addresses that the totals span: indices `[0, n)`
/// of both chains.
pub open spec fn aggregation_scope(w: DerivationWallet, n: u32) -> (Seq<Seq<char>>, Seq<Seq<char>>) {
    (range_addresses(w.receive, 0, n as int), range_addresses(w.change, 0, n as int))
}

/// Derives the receive and the change addresses of indices `[0, n)`, whatever
/// range and chain are displayed; refused where `n` reaches above `MAX_INDEX`.
pub fn derive_addresses(wallet: &DerivationWallet, args: &Args) -> (r: Result<
    (Vec<String>, Vec<String>),
    DeriveError,
>)
    requires
        wallet.wf(),
    ensures
        r is Ok <==> args.n <= MAX_INDEX as u32 + 1,
        r is Err ==> r->Err_0 == DeriveError::IndexOutOfRange,
        r is Ok ==> (views(r->Ok_0.0@), views(r->Ok_0.1@)) == aggregation_scope(*wallet, args.n),
{
    let receive = derive_range(&wallet.receive, 0, args.n)?;
    let change = derive_range(&wallet.change, 0, args.n)?;
    Ok((receive, change))
}

/// The chain that is displayed.
pub open spec fn shown_chain(w: DerivationWallet, is_change: bool) -> Wallet<(), MemoryDatabase> {
    if is_change {
        w.change
    } else {
        w.receive
    }
}

/// The addresses of the displayed chain at indices `start` to the clamped `end`,
/// both included; refused exactly where that end lies above `MAX_INDEX`.
pub fn offline_addresses(wallet: &DerivationWallet, args: &Args) -> (r: Result<
    Vec<String>,
    DeriveError,
>)
    requires
        wallet.wf(),
    ensures
        r is Ok <==> clamped_end(args.start, args.end) <= MAX_INDEX,
        r is Err ==> r->Err_0 == DeriveError::IndexOutOfRange,
        r is Ok ==> views(r->Ok_0@) == range_addresses(
            shown_chain(*wallet, args.is_change),
            args.start as int,
            clamped_end(args.start, args.end) - args.start + 1,
        ),
{
    let chain = if args.is_change {
        &wallet.change
    } else {
        &wallet.receive
    };
    let end = if args.end < args.start {
        args.start
    } else {
        args.end
    };
    if end > MAX_INDEX {
        return Err(DeriveError::IndexOutOfRange);
    }
    derive_range(chain, args.start, end - args.start + 1)
}

/// The receive and the change descriptor of a key are never equal.
pub proof fn lemma_chain_descriptors_distinct(external: Seq<char>, change: Seq<char>)
    requires
        differ_in_chain_number(external, change),
    ensures
        external != change,
{
    let (p, q) = choose|p: Seq<char>, q: Seq<char>|
        external == p + seq!['0'] + q && change == p + seq!['1'] + q;
    assert(external[p.len() as int] == '0');
    assert(change[p.len() as int] == '1');
}

/// Two wallets decoded from one key text give the same addresses over any
/// scope: derivation depends on the key and the index alone.
pub proof fn lemma_same_key_same_addresses(
    w1: DerivationWallet,
    w2: DerivationWallet,
    xpub: Seq<char>,
    n: u32,
)
    requires
        w1.decoded_from(xpub),
        w2.decoded_from(xpub),
    ensures
        aggregation_scope(w1, n) == aggregation_scope(w2, n),
        forall|i: u32|
            chain_address(w1.receive, i) == chain_address(w2.receive, i) && #[trigger] chain_address(
                w1.change,
                i,
            ) == chain_address(w2.change, i),
{
    assert(range_addresses(w1.receive, 0, n as int) =~= range_addresses(w2.receive, 0, n as int));
    assert(range_addresses(w1.change, 0, n as int) =~= range_addresses(w2.change, 0, n as int));
}

/// The totals span every index below `n` on both chains, and only those: the
/// scope is fixed by the wallet and `n` alone.
pub proof fn lemma_scope_spans_both_chains(w: DerivationWallet, n: u32)
    ensures
        aggregation_scope(w, n).0.len() == n,
        aggregation_scope(w, n).1.len() == n,
        forall|i: int|
            0 <= i < n ==> (#[trigger] aggregation_scope(w, n).0[i]) == chain_address(
                w.receive,
                i as u32,
            ) && aggregation_scope(w, n).1[i] == chain_address(w.change, i as u32),
{
}

} // verus!
