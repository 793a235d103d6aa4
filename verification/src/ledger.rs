use crate::address::Address;
use crate::error::SwapError;
use vstd::prelude::*;

verus! {

/// The balance of one account.
#[derive(Clone, Copy)]
struct Wallet {
    key: Address,
    lamports: u64,
}

/// One non-fungible item and the account that holds it.
#[derive(Clone, Copy)]
struct Holding {
    mint: Address,
    holder: Address,
}

/// What a ledger records: the balance of every account, the holder of every item it knows,
/// and the sum of all balances.
pub struct LedgerView {
    pub balances: Map<Address, nat>,
    pub holders: Map<Address, Address>,
    pub supply: nat,
}

impl LedgerView {
    /// Every account has a balance (zero unless credited).
    pub open spec fn total(self) -> bool {
        forall|key: Address| self.balances.dom().contains(key)
    }

    /// `who` holds the item `mint`.
    pub open spec fn holds(self, who: Address, mint: Address) -> bool {
        self.holders.dom().contains(mint) && self.holders[mint] == who
    }

    /// Adds `lamports` to the balance of `key`, from outside the ledger.
    pub open spec fn credit(self, key: Address, lamports: nat) -> LedgerView {
        LedgerView {
            balances: self.balances.insert(key, self.balances[key] + lamports),
            holders: self.holders,
            supply: self.supply + lamports,
        }
    }

    /// Records that `holder` holds the item `mint`.
    pub open spec fn assign(self, mint: Address, holder: Address) -> LedgerView {
        LedgerView {
            balances: self.balances,
            holders: self.holders.insert(mint, holder),
            supply: self.supply,
        }
    }

    /// Moves `lamports` from `from` to `to`; refused when `from` holds less.
    pub open spec fn transfer_lamports(self, from: Address, to: Address, lamports: nat) -> Result<
        LedgerView,
        SwapError,
    > {
        if self.balances[from] < lamports {
            Err(SwapError::InsufficientFunds)
        } else {
            let debited = self.balances.insert(from, (self.balances[from] - lamports) as nat);
            Ok(
                LedgerView {
                    balances: debited.insert(to, debited[to] + lamports),
                    holders: self.holders,
                    supply: self.supply,
                },
            )
        }
    }

    /// Moves the item `mint` from `from` to `to`; refused when `from` does not hold it.
    pub open spec fn transfer_item(self, mint: Address, from: Address, to: Address) -> Result<
        LedgerView,
        SwapError,
    > {
        if !self.holds(from, mint) {
            Err(SwapError::AssetUnavailable)
        } else {
            Ok(self.assign(mint, to))
        }
    }
}

/// The balance that `wallets` gives `key`: that of its last entry, zero without one.
spec fn balance_in(wallets: Seq<Wallet>, key: Address) -> nat
    decreases wallets.len(),
{
    if wallets.len() == 0 {
        0
    } else if wallets.last().key == key {
        wallets.last().lamports as nat
    } else {
        balance_in(wallets.drop_last(), key)
    }
}

/// The sum of all balances in `wallets`.
spec fn supply_of(wallets: Seq<Wallet>) -> nat
    decreases wallets.len(),
{
    if wallets.len() == 0 {
        0
    } else {
        supply_of(wallets.drop_last()) + wallets.last().lamports as nat
    }
}

/// The holder that `holdings` gives `mint`: that of its last entry, if it has one.
spec fn holder_in(holdings: Seq<Holding>, mint: Address) -> Option<Address>
    decreases holdings.len(),
{
    if holdings.len() == 0 {
        None
    } else if holdings.last().mint == mint {
        Some(holdings.last().holder)
    } else {
        holder_in(holdings.drop_last(), mint)
    }
}

/// `i` is the last entry of `wallets` for `key`.
spec fn last_wallet_of(wallets: Seq<Wallet>, key: Address, i: int) -> bool {
    &&& 0 <= i < wallets.len()
    &&& wallets[i].key == key
    &&& forall|j: int| i < j < wallets.len() ==> wallets[j].key != key
}

/// `i` is the last entry of `holdings` for `mint`.
spec fn last_holding_of(holdings: Seq<Holding>, mint: Address, i: int) -> bool {
    &&& 0 <= i < holdings.len()
    &&& holdings[i].mint == mint
    &&& forall|j: int| i < j < holdings.len() ==> holdings[j].mint != mint
}

proof fn lemma_balance_found(wallets: Seq<Wallet>, key: Address, i: int)
    requires
        last_wallet_of(wallets, key, i),
    ensures
        balance_in(wallets, key) == wallets[i].lamports,
        wallets[i].lamports <= supply_of(wallets),
    decreases wallets.len(),
{
    if i < wallets.len() - 1 {
        lemma_balance_found(wallets.drop_last(), key, i);
    }
}

proof fn lemma_balance_absent(wallets: Seq<Wallet>, key: Address)
    requires
        forall|j: int| 0 <= j < wallets.len() ==> wallets[j].key != key,
    ensures
        balance_in(wallets, key) == 0,
    decreases wallets.len(),
{
    if wallets.len() > 0 {
        lemma_balance_absent(wallets.drop_last(), key);
    }
}

proof fn lemma_wallet_update(wallets: Seq<Wallet>, i: int, lamports: u64)
    requires
        0 <= i < wallets.len(),
        last_wallet_of(wallets, wallets[i].key, i),
    ensures
        forall|k: Address|
            #![trigger balance_in(wallets.update(i, Wallet { key: wallets[i].key, lamports }), k)]
            balance_in(wallets.update(i, Wallet { key: wallets[i].key, lamports }), k) == if k
                == wallets[i].key {
                lamports as nat
            } else {
                balance_in(wallets, k)
            },
        supply_of(wallets.update(i, Wallet { key: wallets[i].key, lamports }))
            + wallets[i].lamports == supply_of(wallets) + lamports,
    decreases wallets.len(),
{
    let key = wallets[i].key;
    let updated = wallets.update(i, Wallet { key, lamports });
    if i == wallets.len() - 1 {
        assert(updated.drop_last() =~= wallets.drop_last());
    } else {
        let shorter = wallets.drop_last();
        lemma_wallet_update(shorter, i, lamports);
        assert(updated.drop_last() =~= shorter.update(i, Wallet { key, lamports }));
        assert(updated.last() == wallets.last());
        assert forall|k: Address| balance_in(updated, k) == if k == key {
            lamports as nat
        } else {
            balance_in(wallets, k)
        } by {
            assert(balance_in(shorter.update(i, Wallet { key, lamports }), k) == if k == key {
                lamports as nat
            } else {
                balance_in(shorter, k)
            });
        }
    }
}

proof fn lemma_wallet_push(wallets: Seq<Wallet>, wallet: Wallet)
    ensures
        forall|k: Address|
            #![trigger balance_in(wallets.push(wallet), k)]
            balance_in(wallets.push(wallet), k) == if k == wallet.key {
                wallet.lamports as nat
            } else {
                balance_in(wallets, k)
            },
        supply_of(wallets.push(wallet)) == supply_of(wallets) + wallet.lamports,
{
    assert(wallets.push(wallet).drop_last() =~= wallets);
}

proof fn lemma_supply_prefix(wallets: Seq<Wallet>, n: int)
    requires
        0 <= n <= wallets.len(),
    ensures
        supply_of(wallets.take(n)) <= supply_of(wallets),
        n < wallets.len() ==> supply_of(wallets.take(n + 1)) == supply_of(wallets.take(n))
            + wallets[n].lamports,
    decreases wallets.len(),
{
    if n == wallets.len() {
        assert(wallets.take(n) =~= wallets);
    } else {
        lemma_supply_prefix(wallets.drop_last(), n);
        assert(wallets.drop_last().take(n) =~= wallets.take(n));
        assert(wallets.take(n + 1).drop_last() =~= wallets.take(n));
    }
}

proof fn lemma_holder_found(holdings: Seq<Holding>, mint: Address, i: int)
    requires
        last_holding_of(holdings, mint, i),
    ensures
        holder_in(holdings, mint) == Some(holdings[i].holder),
    decreases holdings.len(),
{
    if i < holdings.len() - 1 {
        lemma_holder_found(holdings.drop_last(), mint, i);
    }
}

proof fn lemma_holder_absent(holdings: Seq<Holding>, mint: Address)
    requires
        forall|j: int| 0 <= j < holdings.len() ==> holdings[j].mint != mint,
    ensures
        holder_in(holdings, mint) is None,
    decreases holdings.len(),
{
    if holdings.len() > 0 {
        lemma_holder_absent(holdings.drop_last(), mint);
    }
}

proof fn lemma_holding_update(holdings: Seq<Holding>, i: int, holder: Address)
    requires
        0 <= i < holdings.len(),
        last_holding_of(holdings, holdings[i].mint, i),
    ensures
        forall|m: Address|
            #![trigger holder_in(holdings.update(i, Holding { mint: holdings[i].mint, holder }), m)]
            holder_in(holdings.update(i, Holding { mint: holdings[i].mint, holder }), m) == if m
                == holdings[i].mint {
                Some(holder)
            } else {
                holder_in(holdings, m)
            },
    decreases holdings.len(),
{
    let mint = holdings[i].mint;
    let updated = holdings.update(i, Holding { mint, holder });
    if i == holdings.len() - 1 {
        assert(updated.drop_last() =~= holdings.drop_last());
    } else {
        let shorter = holdings.drop_last();
        lemma_holding_update(shorter, i, holder);
        assert(updated.drop_last() =~= shorter.update(i, Holding { mint, holder }));
        assert(updated.last() == holdings.last());
        assert forall|m: Address| holder_in(updated, m) == if m == mint {
            Some(holder)
        } else {
            holder_in(holdings, m)
        } by {
            assert(holder_in(shorter.update(i, Holding { mint, holder }), m) == if m == mint {
                Some(holder)
            } else {
                holder_in(shorter, m)
            });
        }
    }
}

proof fn lemma_holding_push(holdings: Seq<Holding>, holding: Holding)
    ensures
        forall|m: Address|
            #![trigger holder_in(holdings.push(holding), m)]
            holder_in(holdings.push(holding), m) == if m == holding.mint {
                Some(holding.holder)
            } else {
                holder_in(holdings, m)
            },
{
    assert(holdings.push(holding).drop_last() =~= holdings);
}

/// The view that a list of wallets and a list of holdings stand for.
spec fn view_of(wallets: Seq<Wallet>, holdings: Seq<Holding>) -> LedgerView {
    LedgerView {
        balances: Map::new(|key: Address| true, |key: Address| balance_in(wallets, key)),
        holders: Map::new(
            |mint: Address| holder_in(holdings, mint) is Some,
            |mint: Address| holder_in(holdings, mint)->0,
        ),
        supply: supply_of(wallets),
    }
}

/// The custody ledger: which account holds how much, and which account holds which item.
/// The sum of all balances always fits in a `u64`, so no transfer can overflow.
pub struct Ledger {
    wallets: Vec<Wallet>,
    holdings: Vec<Holding>,
}

impl View for Ledger {
    type V = LedgerView;

    closed spec fn view(&self) -> LedgerView {
        view_of(self.wallets@, self.holdings@)
    }
}

impl Ledger {
    #[verifier::type_invariant]
    spec fn bounded(self) -> bool {
        supply_of(self.wallets@) <= u64::MAX
    }

    /// Every account has a balance in the view of a ledger.
    pub proof fn lemma_view_total(&self)
        ensures
            self@.total(),
    {
    }

    /// The empty ledger: every balance is zero and no item is known.
    pub fn new() -> (ledger: Ledger)
        ensures
            ledger@.supply == 0,
            ledger@.holders == Map::<Address, Address>::empty(),
            forall|key: Address| ledger@.balances[key] == 0,
            ledger@.total(),
    {
        let ledger = Ledger { wallets: Vec::new(), holdings: Vec::new() };
        assert(ledger@.holders =~= Map::<Address, Address>::empty());
        ledger
    }

    /// The index of the last wallet entry for `key`.
    fn find_wallet(&self, key: &Address) -> (r: Option<usize>)
        ensures
            match r {
                Some(i) => last_wallet_of(self.wallets@, *key, i as int),
                None => forall|j: int| 0 <= j < self.wallets@.len() ==> self.wallets@[j].key != *key,
            },
    {
        let mut i: usize = self.wallets.len();
        while i > 0
            invariant
                i <= self.wallets@.len(),
                forall|j: int| i <= j < self.wallets@.len() ==> self.wallets@[j].key != *key,
            decreases i,
        {
            i -= 1;
            if self.wallets[i].key == *key {
                return Some(i);
            }
        }
        None
    }

    /// The index of the last holding entry for `mint`.
    fn find_holding(&self, mint: &Address) -> (r: Option<usize>)
        ensures
            match r {
                Some(i) => last_holding_of(self.holdings@, *mint, i as int),
                None => forall|j: int|
                    0 <= j < self.holdings@.len() ==> self.holdings@[j].mint != *mint,
            },
    {
        let mut i: usize = self.holdings.len();
        while i > 0
            invariant
                i <= self.holdings@.len(),
                forall|j: int| i <= j < self.holdings@.len() ==> self.holdings@[j].mint != *mint,
            decreases i,
        {
            i -= 1;
            if self.holdings[i].mint == *mint {
                return Some(i);
            }
        }
        None
    }

    /// The balance of `key`.
    pub fn balance(&self, key: &Address) -> (lamports: u64)
        ensures
            lamports == self@.balances[*key],
    {
        let found = self.find_wallet(key);
        self.balance_at(found, key)
    }

    /// The account that holds the item `mint`, if the ledger knows the item.
    pub fn holder(&self, mint: &Address) -> (holder: Option<Address>)
        ensures
            holder is Some <==> self@.holders.dom().contains(*mint),
            holder is Some ==> holder->0 == self@.holders[*mint],
    {
        match self.find_holding(mint) {
            Some(i) => {
                proof {
                    lemma_holder_found(self.holdings@, *mint, i as int);
                }
                Some(self.holdings[i].holder)
            },
            None => {
                proof {
                    lemma_holder_absent(self.holdings@, *mint);
                }
                None
            },
        }
    }

    /// Sets the balance of `key`, whose last entry is `found`, to `lamports`.
    fn store_balance(&mut self, found: Option<usize>, key: Address, lamports: u64)
        requires
            match found {
                Some(i) => last_wallet_of(old(self).wallets@, key, i as int),
                None => forall|j: int|
                    0 <= j < old(self).wallets@.len() ==> old(self).wallets@[j].key != key,
            },
            supply_of(old(self).wallets@) - balance_in(old(self).wallets@, key) + lamports
                <= u64::MAX,
        ensures
            final(self)@.balances == old(self)@.balances.insert(key, lamports as nat),
            final(self)@.holders == old(self)@.holders,
            final(self)@.supply == old(self)@.supply - old(self)@.balances[key] + lamports,
    {
        let wallet = Wallet { key, lamports };
        let mut wallets: Vec<Wallet> = Vec::new();
        std::mem::swap(&mut wallets, &mut self.wallets);
        match found {
            Some(i) => {
                proof {
                    lemma_balance_found(wallets@, key, i as int);
                    lemma_wallet_update(wallets@, i as int, lamports);
                }
                wallets.set(i, wallet);
            },
            None => {
                proof {
                    lemma_balance_absent(wallets@, key);
                    lemma_wallet_push(wallets@, wallet);
                }
                wallets.push(wallet);
            },
        }
        self.wallets = wallets;
        assert(final(self)@.balances =~= old(self)@.balances.insert(key, lamports as nat));
    }

    /// Sets the holder of `mint`, whose last entry is `found`, to `holder`.
    fn store_holder(&mut self, found: Option<usize>, mint: Address, holder: Address)
        requires
            match found {
                Some(i) => last_holding_of(old(self).holdings@, mint, i as int),
                None => forall|j: int|
                    0 <= j < old(self).holdings@.len() ==> old(self).holdings@[j].mint != mint,
            },
        ensures
            final(self)@ == old(self)@.assign(mint, holder),
    {
        proof {
            use_type_invariant(&*self);
        }
        let holding = Holding { mint, holder };
        let mut holdings: Vec<Holding> = Vec::new();
        std::mem::swap(&mut holdings, &mut self.holdings);
        match found {
            Some(i) => {
                proof {
                    lemma_holding_update(holdings@, i as int, holder);
                }
                holdings.set(i, holding);
            },
            None => {
                proof {
                    lemma_holding_push(holdings@, holding);
                }
                holdings.push(holding);
            },
        }
        self.holdings = holdings;
        assert(final(self)@.holders =~= old(self)@.holders.insert(mint, holder));
    }

    /// The sum of all balances.
    pub fn supply(&self) -> (lamports: u64)
        ensures
            lamports == self@.supply,
    {
        proof {
            use_type_invariant(self);
        }
        let mut sum: u64 = 0;
        let mut i: usize = 0;
        while i < self.wallets.len()
            invariant
                i <= self.wallets@.len(),
                sum == supply_of(self.wallets@.take(i as int)),
                supply_of(self.wallets@) <= u64::MAX,
            decreases self.wallets@.len() - i,
        {
            proof {
                lemma_supply_prefix(self.wallets@, i as int);
                lemma_supply_prefix(self.wallets@, i + 1);
            }
            sum = sum + self.wallets[i].lamports;
            i += 1;
        }
        assert(self.wallets@.take(i as int) =~= self.wallets@);
        sum
    }

    /// Adds `lamports` to the balance of `key` from outside the ledger. Refused, with the
    /// ledger as it was, when the sum of all balances would no longer fit in a `u64`.
    pub fn credit(&mut self, key: Address, lamports: u64) -> (done: bool)
        ensures
            done == (old(self)@.supply + lamports <= u64::MAX),
            done ==> final(self)@ == old(self)@.credit(key, lamports as nat),
            !done ==> *final(self) == *old(self),
    {
        let supply = self.supply();
        if lamports > u64::MAX - supply {
            return false;
        }
        let found = self.find_wallet(&key);
        let held = self.balance_at(found, &key);
        self.store_balance(found, key, held + lamports);
        true
    }

    /// Records that `holder` holds the item `mint`, whoever held it before.
    pub fn assign(&mut self, mint: Address, holder: Address)
        ensures
            final(self)@ == old(self)@.assign(mint, holder),
    {
        let found = self.find_holding(&mint);
        self.store_holder(found, mint, holder);
    }

    /// The balance of `key`, whose last entry is `found`.
    fn balance_at(&self, found: Option<usize>, key: &Address) -> (lamports: u64)
        requires
            match found {
                Some(i) => last_wallet_of(self.wallets@, *key, i as int),
                None => forall|j: int| 0 <= j < self.wallets@.len() ==> self.wallets@[j].key != *key,
            },
        ensures
            lamports == self@.balances[*key],
            lamports <= self@.supply,
    {
        match found {
            Some(i) => {
                proof {
                    lemma_balance_found(self.wallets@, *key, i as int);
                }
                self.wallets[i].lamports
            },
            None => {
                proof {
                    lemma_balance_absent(self.wallets@, *key);
                }
                0
            },
        }
    }

    /// Moves `lamports` from `from` to `to`. Refused, with the ledger as it was, when
    /// `from` holds less than `lamports`.
    pub fn transfer_lamports(&mut self, from: Address, to: Address, lamports: u64) -> (r: Result<
        (),
        SwapError,
    >)
        ensures
            match old(self)@.transfer_lamports(from, to, lamports as nat) {
                Ok(ledger) => r is Ok && final(self)@ == ledger,
                Err(e) => r == Err::<(), SwapError>(e) && *final(self) == *old(self),
            },
    {
        proof {
            use_type_invariant(&*self);
        }
        let source = self.find_wallet(&from);
        let available = self.balance_at(source, &from);
        if available < lamports {
            return Err(SwapError::InsufficientFunds);
        }
        self.store_balance(source, from, available - lamports);
        let target = self.find_wallet(&to);
        let held = self.balance_at(target, &to);
        self.store_balance(target, to, held + lamports);
        Ok(())
    }

    /// Moves the item `mint` from `from` to `to`. Refused, with the ledger as it was, when
    /// `from` does not hold the item.
    pub fn transfer_item(&mut self, mint: Address, from: Address, to: Address) -> (r: Result<
        (),
        SwapError,
    >)
        ensures
            match old(self)@.transfer_item(mint, from, to) {
                Ok(ledger) => r is Ok && final(self)@ == ledger,
                Err(e) => r == Err::<(), SwapError>(e) && *final(self) == *old(self),
            },
    {
        let found = self.find_holding(&mint);
        match found {
            Some(i) => {
                proof {
                    lemma_holder_found(self.holdings@, mint, i as int);
                }
                if self.holdings[i].holder == from {
                    self.store_holder(found, mint, to);
                    Ok(())
                } else {
                    Err(SwapError::AssetUnavailable)
                }
            },
            None => {
                proof {
                    lemma_holder_absent(self.holdings@, mint);
                }
                Err(SwapError::AssetUnavailable)
            },
        }
    }
}

} // verus!
