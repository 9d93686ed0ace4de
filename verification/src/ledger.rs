use vstd::prelude::*;
use crate::address::Address;
use crate::deriver::{vault_address, VaultAuthority};
use crate::error::MarketError;
use crate::table::{lemma_lookup, slot, stored, Entry, Table};

verus! {

/// A balance of one asset, kept at an address of its own.
///
/// A holding whose authority is its own address is in custody: no caller
/// can draw on it, only program logic that holds the proof of its address.
#[derive(Clone, Copy, Debug, PartialEq, Eq)]
pub struct Holding {
    /// The asset held.
    pub mint: Address,
    /// Who may draw on the balance.
    pub authority: Address,
    /// How many units are held.
    pub amount: u64,
}

impl Holding {
    /// An empty holding of `asset` under `authority`.
    pub open spec fn empty(asset: Address, authority: Address) -> Holding {
        Holding { mint: asset, authority, amount: 0 }
    }

    /// This holding with `amount` units more.
    pub open spec fn credited(self, amount: u64) -> Holding {
        Holding { mint: self.mint, authority: self.authority, amount: (self.amount + amount) as u64 }
    }

    /// This holding with `amount` units fewer.
    pub open spec fn debited(self, amount: u64) -> Holding {
        Holding { mint: self.mint, authority: self.authority, amount: (self.amount - amount) as u64 }
    }
}

/// What making sure of a holding gives: the holdings with an empty holding
/// of `asset` under `authority` at `address`, unless one stands there that
/// is of another asset or authority, or the asset is unknown.
pub open spec fn ensure_outcome(
    supplies: Map<Address, u64>,
    holdings: Map<Address, Holding>,
    address: Address,
    asset: Address,
    authority: Address,
) -> Result<Map<Address, Holding>, MarketError> {
    if !supplies.contains_key(asset) {
        Err(MarketError::UnknownAsset)
    } else if !holdings.contains_key(address) {
        Ok(holdings.insert(address, Holding::empty(asset, authority)))
    } else if holdings[address].mint == asset && holdings[address].authority == authority {
        Ok(holdings)
    } else {
        Err(MarketError::VaultCreationError)
    }
}

/// The holdings after `amount` units went from `from` to `to`.
pub open spec fn moved(holdings: Map<Address, Holding>, from: Address, to: Address, amount: u64) -> Map<
    Address,
    Holding,
> {
    holdings.insert(from, holdings[from].debited(amount)).insert(
        to,
        holdings[to].credited(amount),
    )
}

/// What a deposit gives: `amount` units go from `source` into `vault` on
/// the word of `caller`, who must be the authority of `source`; a holding
/// in custody yields to no caller.
pub open spec fn deposit_outcome(
    holdings: Map<Address, Holding>,
    vault: Address,
    source: Address,
    amount: u64,
    caller: Address,
) -> Result<Map<Address, Holding>, MarketError> {
    if !holdings.contains_key(source) || !holdings.contains_key(vault) {
        Err(MarketError::UnknownHolding)
    } else if holdings[source].mint != holdings[vault].mint || source == vault {
        Err(MarketError::AssetMismatch)
    } else if holdings[source].authority != caller || holdings[source].authority == source {
        Err(MarketError::UnauthorizedDeposit)
    } else if holdings[source].amount < amount {
        Err(MarketError::InsufficientBalance)
    } else {
        Ok(moved(holdings, source, vault, amount))
    }
}

/// What a release gives: `amount` units go out of `vault` to `destination`
/// on the strength of a proof for the address `opened`; the vault must
/// stand at that address and be in custody.
pub open spec fn release_outcome(
    holdings: Map<Address, Holding>,
    vault: Address,
    destination: Address,
    amount: u64,
    opened: Address,
) -> Result<Map<Address, Holding>, MarketError> {
    if !holdings.contains_key(vault) || !holdings.contains_key(destination) {
        Err(MarketError::UnknownHolding)
    } else if opened != vault || holdings[vault].authority != vault {
        Err(MarketError::UnauthorizedRelease)
    } else if holdings[vault].mint != holdings[destination].mint || destination == vault {
        Err(MarketError::AssetMismatch)
    } else if holdings[vault].amount < amount {
        Err(MarketError::InsufficientBalance)
    } else {
        Ok(moved(holdings, vault, destination, amount))
    }
}

/// The units of `asset` that one record holds.
spec fn units(e: Entry<Holding>, asset: Address) -> nat {
    if e.value.mint == asset {
        e.value.amount as nat
    } else {
        0
    }
}

/// The units of `asset` that the records of `s` hold together.
spec fn circulating(s: Seq<Entry<Holding>>, asset: Address) -> nat
    decreases s.len(),
{
    if s.len() == 0 {
        0
    } else {
        circulating(s.drop_last(), asset) + units(s.last(), asset)
    }
}

proof fn lemma_circulating_update(s: Seq<Entry<Holding>>, i: int, e: Entry<Holding>, asset: Address)
    requires
        0 <= i < s.len(),
    ensures
        circulating(s.update(i, e), asset) + units(s[i], asset) == circulating(s, asset) + units(
            e,
            asset,
        ),
    decreases s.len(),
{
    let t = s.update(i, e);
    if i == s.len() - 1 {
        assert(t.drop_last() =~= s.drop_last());
    } else {
        assert(t.drop_last() =~= s.drop_last().update(i, e));
        lemma_circulating_update(s.drop_last(), i, e, asset);
    }
}

proof fn lemma_circulating_push(s: Seq<Entry<Holding>>, e: Entry<Holding>, asset: Address)
    ensures
        circulating(s.push(e), asset) == circulating(s, asset) + units(e, asset),
{
    assert(s.push(e).drop_last() =~= s);
}

proof fn lemma_circulating_one(s: Seq<Entry<Holding>>, i: int, asset: Address)
    requires
        0 <= i < s.len(),
    ensures
        units(s[i], asset) <= circulating(s, asset),
    decreases s.len(),
{
    if i < s.len() - 1 {
        lemma_circulating_one(s.drop_last(), i, asset);
    }
}

proof fn lemma_circulating_two(s: Seq<Entry<Holding>>, i: int, j: int, asset: Address)
    requires
        0 <= i < j < s.len(),
    ensures
        units(s[i], asset) + units(s[j], asset) <= circulating(s, asset),
    decreases s.len(),
{
    if j < s.len() - 1 {
        lemma_circulating_two(s.drop_last(), i, j, asset);
    } else {
        lemma_circulating_one(s.drop_last(), i, asset);
    }
}

proof fn lemma_circulating_none(s: Seq<Entry<Holding>>, asset: Address)
    requires
        forall|i: int| 0 <= i < s.len() ==> (#[trigger] s[i]).value.mint != asset,
    ensures
        circulating(s, asset) == 0,
    decreases s.len(),
{
    if s.len() > 0 {
        lemma_circulating_none(s.drop_last(), asset);
    }
}

proof fn lemma_circulating_prefix(s: Seq<Entry<Holding>>, n: int, asset: Address)
    requires
        0 <= n <= s.len(),
    ensures
        circulating(s.subrange(0, n), asset) <= circulating(s, asset),
    decreases s.len(),
{
    if n == s.len() {
        assert(s.subrange(0, n) =~= s);
    } else {
        assert(s.drop_last().subrange(0, n) =~= s.subrange(0, n));
        lemma_circulating_prefix(s.drop_last(), n, asset);
    }
}

/// The asset ledger: the assets that exist, each with its total supply, and
/// the holdings among which the units are spread.
#[derive(Debug)]
pub struct Ledger {
    assets: Table<u64>,
    accounts: Table<Holding>,
}

impl Ledger {
    /// The total supply of each asset.
    pub closed spec fn supplies(&self) -> Map<Address, u64> {
        self.assets.map()
    }

    /// The holdings, by address.
    pub closed spec fn holdings(&self) -> Map<Address, Holding> {
        self.accounts.map()
    }

    /// The units of `asset` that all holdings hold together.
    pub closed spec fn held(&self, asset: Address) -> nat {
        circulating(self.accounts.entries@, asset)
    }

    /// The ledger is sound: every holding is of a known asset, and of no
    /// asset do the holdings hold more than its supply.
    pub closed spec fn wf(&self) -> bool {
        &&& self.assets.wf()
        &&& self.accounts.wf()
        &&& forall|i: int|
            0 <= i < self.accounts.entries@.len() ==> self.assets.map().contains_key(
                (#[trigger] self.accounts.entries@[i]).value.mint,
            )
        &&& forall|asset: Address| #[trigger]
            self.assets.map().contains_key(asset) ==> circulating(self.accounts.entries@, asset)
                <= self.assets.map()[asset]
    }

    /// In a sound ledger every holding is of a known asset and holds no
    /// more than the supply; two holdings of one asset hold no more than
    /// the supply together.
    pub proof fn lemma_conservation(&self, a: Address, b: Address)
        requires
            self.wf(),
            self.holdings().contains_key(a),
            self.holdings().contains_key(b),
        ensures
            self.supplies().contains_key(self.holdings()[a].mint),
            self.holdings()[a].amount <= self.supplies()[self.holdings()[a].mint],
            a != b && self.holdings()[a].mint == self.holdings()[b].mint ==> self.holdings()[a].amount
                + self.holdings()[b].amount <= self.supplies()[self.holdings()[a].mint],
    {
        let s = self.accounts.entries@;
        let i = slot(s, a);
        let j = slot(s, b);
        lemma_lookup(s, i);
        lemma_lookup(s, j);
        let asset = s[i].value.mint;
        lemma_circulating_one(s, i, asset);
        if a != b && s[j].value.mint == asset {
            if i < j {
                lemma_circulating_two(s, i, j, asset);
            } else {
                lemma_circulating_two(s, j, i, asset);
            }
        }
    }

    /// A ledger without assets or holdings.
    pub fn new() -> (l: Ledger)
        ensures
            l.wf(),
            l.supplies() == Map::<Address, u64>::empty(),
            l.holdings() == Map::<Address, Holding>::empty(),
            forall|asset: Address| l.held(asset) == 0,
    {
        Ledger { assets: Table::new(), accounts: Table::new() }
    }

    /// The total supply of `asset`, if the ledger knows it.
    pub fn supply(&self, asset: &Address) -> (r: Option<u64>)
        requires
            self.wf(),
        ensures
            r == (if self.supplies().contains_key(*asset) {
                Some(self.supplies()[*asset])
            } else {
                None
            }),
    {
        self.assets.get(asset)
    }

    /// The holding at `address`, if there is one.
    pub fn holding(&self, address: &Address) -> (r: Option<Holding>)
        requires
            self.wf(),
        ensures
            r == (if self.holdings().contains_key(*address) {
                Some(self.holdings()[*address])
            } else {
                None
            }),
    {
        self.accounts.get(address)
    }

    /// A copy of the ledger on which the steps of an operation are tried.
    /// Nothing of them shows in the ledger itself until the copy is
    /// committed; a copy that is dropped leaves no trace.
    pub fn stage(&self) -> (l: Ledger)
        ensures
            l.wf() == self.wf(),
            l.supplies() == self.supplies(),
            l.holdings() == self.holdings(),
            forall|asset: Address| l.held(asset) == self.held(asset),
    {
        Ledger { assets: self.assets.duplicate(), accounts: self.accounts.duplicate() }
    }

    /// Takes over, at once, all that was done on a staged copy.
    pub fn commit(&mut self, staged: Ledger)
        requires
            staged.wf(),
        ensures
            final(self).wf(),
            final(self).supplies() == staged.supplies(),
            final(self).holdings() == staged.holdings(),
            forall|asset: Address| final(self).held(asset) == staged.held(asset),
    {
        *self = staged;
    }

    /// Makes `asset` known with its total supply. Naming a known asset
    /// again with the supply it has changes nothing; with another supply
    /// it fails.
    pub fn register_asset(&mut self, asset: Address, supply: u64) -> (r: Result<(), MarketError>)
        requires
            old(self).wf(),
        ensures
            final(self).wf(),
            final(self).holdings() == old(self).holdings(),
            forall|a: Address| final(self).held(a) == old(self).held(a),
            match r {
                Ok(()) => {
                    &&& old(self).supplies().contains_key(asset) ==> old(self).supplies()[asset]
                        == supply
                    &&& final(self).supplies() == old(self).supplies().insert(asset, supply)
                },
                Err(e) => {
                    &&& e == MarketError::AssetMismatch
                    &&& old(self).supplies().contains_key(asset)
                    &&& old(self).supplies()[asset] != supply
                    &&& final(self).supplies() == old(self).supplies()
                },
            },
    {
        match self.assets.get(&asset) {
            Some(known) => {
                if known == supply {
                    Ok(())
                } else {
                    Err(MarketError::AssetMismatch)
                }
            },
            None => {
                proof {
                    lemma_circulating_none(self.accounts.entries@, asset);
                }
                self.assets.put(asset, supply);
                Ok(())
            },
        }
    }

    /// Makes sure that a holding of `asset` under `authority` stands at
    /// `address`: an empty one is made where none stands; one that stands
    /// there is left as it is.
    pub fn ensure_exists(&mut self, address: Address, asset: Address, authority: Address) -> (r:
        Result<(), MarketError>)
        requires
            old(self).wf(),
        ensures
            final(self).wf(),
            final(self).supplies() == old(self).supplies(),
            forall|a: Address| final(self).held(a) == old(self).held(a),
            match ensure_outcome(
                old(self).supplies(),
                old(self).holdings(),
                address,
                asset,
                authority,
            ) {
                Ok(h) => r is Ok && final(self).holdings() == h,
                Err(e) => r == Err::<(), MarketError>(e) && final(self).holdings() == old(
                    self,
                ).holdings(),
            },
    {
        if self.assets.find(&asset).is_none() {
            return Err(MarketError::UnknownAsset);
        }
        match self.accounts.get(&address) {
            Some(h) => {
                if h.mint == asset && h.authority == authority {
                    Ok(())
                } else {
                    Err(MarketError::VaultCreationError)
                }
            },
            None => {
                let fresh = Holding { mint: asset, authority, amount: 0 };
                proof {
                    let e = Entry { key: address, value: fresh };
                    assert forall|a: Address|
                        circulating(self.accounts.entries@.push(e), a) == circulating(
                            self.accounts.entries@,
                            a,
                        ) by {
                        lemma_circulating_push(self.accounts.entries@, e, a);
                    }
                }
                self.accounts.put(address, fresh);
                Ok(())
            },
        }
    }

    fn count(&self, asset: &Address) -> (total: u64)
        requires
            self.wf(),
            self.supplies().contains_key(*asset),
        ensures
            total == self.held(*asset),
    {
        let mut total: u64 = 0;
        let mut i: usize = 0;
        while i < self.accounts.entries.len()
            invariant
                i <= self.accounts.entries@.len(),
                self.wf(),
                self.supplies().contains_key(*asset),
                total == circulating(self.accounts.entries@.subrange(0, i as int), *asset),
            decreases self.accounts.entries@.len() - i,
        {
            proof {
                let s = self.accounts.entries@;
                lemma_circulating_prefix(s, i + 1, *asset);
                assert(s.subrange(0, i + 1).drop_last() =~= s.subrange(0, i as int));
            }
            if self.accounts.entries[i].value.mint == *asset {
                total = total + self.accounts.entries[i].value.amount;
            }
            i = i + 1;
        }
        assert(self.accounts.entries@.subrange(0, i as int) =~= self.accounts.entries@);
        total
    }

    /// The units of `asset` that the holdings hold together.
    pub fn allocated(&self, asset: &Address) -> (r: Option<u64>)
        requires
            self.wf(),
        ensures
            r == (if self.supplies().contains_key(*asset) {
                Some(self.held(*asset) as u64)
            } else {
                None
            }),
            self.supplies().contains_key(*asset) ==> self.held(*asset) <= self.supplies()[*asset],
    {
        if self.assets.find(asset).is_none() {
            None
        } else {
            Some(self.count(asset))
        }
    }

    /// Puts `amount` units of the supply that no holding holds yet into the
    /// holding at `address`.
    pub fn fund(&mut self, address: &Address, amount: u64) -> (r: Result<(), MarketError>)
        requires
            old(self).wf(),
        ensures
            final(self).wf(),
            final(self).supplies() == old(self).supplies(),
            match r {
                Ok(()) => {
                    let h = old(self).holdings()[*address];
                    &&& old(self).holdings().contains_key(*address)
                    &&& old(self).held(h.mint) + amount <= old(self).supplies()[h.mint]
                    &&& final(self).holdings() == old(self).holdings().insert(
                        *address,
                        h.credited(amount),
                    )
                    &&& h.amount + amount <= u64::MAX
                    &&& forall|a: Address|
                        final(self).held(a) == old(self).held(a) + (if a == h.mint {
                            amount as nat
                        } else {
                            0
                        })
                },
                Err(e) => {
                    &&& final(self).holdings() == old(self).holdings()
                    &&& forall|a: Address| final(self).held(a) == old(self).held(a)
                    &&& e == (if old(self).holdings().contains_key(*address) {
                        MarketError::InsufficientBalance
                    } else {
                        MarketError::UnknownHolding
                    })
                    &&& old(self).holdings().contains_key(*address) ==> old(self).held(
                        old(self).holdings()[*address].mint,
                    ) + amount > old(self).supplies()[old(self).holdings()[*address].mint]
                },
            },
    {
        match self.accounts.find(address) {
            None => Err(MarketError::UnknownHolding),
            Some(i) => {
                let h = self.accounts.entries[i].value;
                let supply = match self.assets.get(&h.mint) {
                    Some(s) => s,
                    None => 0,
                };
                let total = self.count(&h.mint);
                if amount > supply - total {
                    return Err(MarketError::InsufficientBalance);
                }
                proof {
                    lemma_circulating_one(self.accounts.entries@, i as int, h.mint);
                }
                let credited = Holding { mint: h.mint, authority: h.authority, amount: h.amount + amount };
                proof {
                    let s = self.accounts.entries@;
                    let e = Entry { key: *address, value: credited };
                    assert forall|a: Address|
                        circulating(s.update(i as int, e), a) == circulating(s, a) + (if a
                            == h.mint {
                            amount as nat
                        } else {
                            0
                        }) by {
                        lemma_circulating_update(s, i as int, e, a);
                    }
                }
                self.accounts.set_at(i, credited);
                Ok(())
            },
        }
    }

    fn shift(&mut self, i: usize, j: usize, amount: u64)
        requires
            old(self).wf(),
            i < old(self).accounts.entries@.len(),
            j < old(self).accounts.entries@.len(),
            i != j,
            old(self).accounts.entries@[i as int].value.mint == old(
                self,
            ).accounts.entries@[j as int].value.mint,
            amount <= old(self).accounts.entries@[i as int].value.amount,
        ensures
            final(self).wf(),
            final(self).supplies() == old(self).supplies(),
            forall|a: Address| final(self).held(a) == old(self).held(a),
            final(self).holdings() == moved(
                old(self).holdings(),
                old(self).accounts.entries@[i as int].key,
                old(self).accounts.entries@[j as int].key,
                amount,
            ),
            old(self).accounts.entries@[j as int].value.amount + amount <= u64::MAX,
    {
        let from = self.accounts.entries[i].value;
        let to = self.accounts.entries[j].value;
        let ghost s = self.accounts.entries@;
        let ghost from_key = s[i as int].key;
        let ghost to_key = s[j as int].key;
        proof {
            lemma_lookup(s, i as int);
            lemma_lookup(s, j as int);
            if i < j {
                lemma_circulating_two(s, i as int, j as int, from.mint);
            } else {
                lemma_circulating_two(s, j as int, i as int, from.mint);
            }
        }
        let debited = Holding { mint: from.mint, authority: from.authority, amount: from.amount - amount };
        let credited = Holding { mint: to.mint, authority: to.authority, amount: to.amount + amount };
        proof {
            let e1 = Entry { key: from_key, value: debited };
            let e2 = Entry { key: to_key, value: credited };
            let s1 = s.update(i as int, e1);
            let s2 = s1.update(j as int, e2);
            assert forall|a: Address| circulating(s2, a) == circulating(s, a) by {
                lemma_circulating_update(s, i as int, e1, a);
                lemma_circulating_update(s1, j as int, e2, a);
            }
        }
        self.accounts.set_at(i, debited);
        self.accounts.set_at(j, credited);
    }

    /// Moves `amount` units from the holding at `source` into the one at
    /// `vault`, on the word of `caller`.
    pub fn deposit(&mut self, vault: &Address, source: &Address, amount: u64, caller: &Address) -> (r:
        Result<(), MarketError>)
        requires
            old(self).wf(),
        ensures
            final(self).wf(),
            final(self).supplies() == old(self).supplies(),
            forall|a: Address| final(self).held(a) == old(self).held(a),
            match deposit_outcome(old(self).holdings(), *vault, *source, amount, *caller) {
                Ok(h) => r is Ok && final(self).holdings() == h && old(self).holdings()[*vault].amount
                    + amount <= u64::MAX,
                Err(e) => r == Err::<(), MarketError>(e) && final(self).holdings() == old(
                    self,
                ).holdings(),
            },
    {
        let i = match self.accounts.find(source) {
            Some(i) => i,
            None => {
                return Err(MarketError::UnknownHolding);
            },
        };
        let j = match self.accounts.find(vault) {
            Some(j) => j,
            None => {
                return Err(MarketError::UnknownHolding);
            },
        };
        let from = self.accounts.entries[i].value;
        let to = self.accounts.entries[j].value;
        if from.mint != to.mint || *source == *vault {
            return Err(MarketError::AssetMismatch);
        }
        if from.authority != *caller || from.authority == *source {
            return Err(MarketError::UnauthorizedDeposit);
        }
        if from.amount < amount {
            return Err(MarketError::InsufficientBalance);
        }
        self.shift(i, j, amount);
        Ok(())
    }

    /// Moves `amount` units out of the vault at `vault` to the holding at
    /// `destination`, on the strength of `proof` alone.
    pub fn release(
        &mut self,
        vault: &Address,
        destination: &Address,
        amount: u64,
        proof: &VaultAuthority,
    ) -> (r: Result<(), MarketError>)
        requires
            old(self).wf(),
        ensures
            final(self).wf(),
            final(self).supplies() == old(self).supplies(),
            forall|a: Address| final(self).held(a) == old(self).held(a),
            vault_address(proof.asset()) is Some,
            match release_outcome(
                old(self).holdings(),
                *vault,
                *destination,
                amount,
                vault_address(proof.asset())->Some_0,
            ) {
                Ok(h) => r is Ok && final(self).holdings() == h && old(
                    self,
                ).holdings()[*destination].amount + amount <= u64::MAX,
                Err(e) => r == Err::<(), MarketError>(e) && final(self).holdings() == old(
                    self,
                ).holdings(),
            },
    {
        let opened = proof.address();
        let i = match self.accounts.find(vault) {
            Some(i) => i,
            None => {
                return Err(MarketError::UnknownHolding);
            },
        };
        let j = match self.accounts.find(destination) {
            Some(j) => j,
            None => {
                return Err(MarketError::UnknownHolding);
            },
        };
        let from = self.accounts.entries[i].value;
        let to = self.accounts.entries[j].value;
        if opened != *vault || from.authority != *vault {
            return Err(MarketError::UnauthorizedRelease);
        }
        if from.mint != to.mint || *destination == *vault {
            return Err(MarketError::AssetMismatch);
        }
        if from.amount < amount {
            return Err(MarketError::InsufficientBalance);
        }
        self.shift(i, j, amount);
        Ok(())
    }
}

} // verus!
