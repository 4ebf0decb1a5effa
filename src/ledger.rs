use vstd::prelude::*;
use vstd::slice::slice_to_vec;
use crate::store::{DataStore, lookup};

verus! {

/// What an account holds, as mathematical values.
pub struct AccountView {
    pub balance: u64,
    pub bytecode: Seq<u8>,
    pub data: Map<Seq<u8>, Seq<u8>>,
}

/// The record that stands for an address that was never written.
pub open spec fn empty_account() -> AccountView {
    AccountView { balance: 0, bytecode: Seq::empty(), data: Map::empty() }
}

/// The account of `a`; a missing record reads as the empty one.
pub open spec fn account(m: Map<Seq<char>, AccountView>, a: Seq<char>) -> AccountView {
    if m.contains_key(a) {
        m[a]
    } else {
        empty_account()
    }
}

/// The balance of `a` in ledger `m`.
pub open spec fn balance_of(m: Map<Seq<char>, AccountView>, a: Seq<char>) -> u64 {
    account(m, a).balance
}

/// Ledger `m` with the balance of `a` set to `b`.
pub open spec fn with_balance(m: Map<Seq<char>, AccountView>, a: Seq<char>, b: u64) -> Map<
    Seq<char>,
    AccountView,
> {
    m.insert(a, AccountView { balance: b, bytecode: account(m, a).bytecode, data: account(m, a).data })
}

/// Ledger `m` with the bytecode of `a` set to `code`.
pub open spec fn with_bytecode(m: Map<Seq<char>, AccountView>, a: Seq<char>, code: Seq<u8>) -> Map<
    Seq<char>,
    AccountView,
> {
    m.insert(a, AccountView { balance: account(m, a).balance, bytecode: code, data: account(m, a).data })
}

/// Ledger `m` with `value` stored under `key` for `a`.
pub open spec fn with_data(
    m: Map<Seq<char>, AccountView>,
    a: Seq<char>,
    key: Seq<u8>,
    value: Seq<u8>,
) -> Map<Seq<char>, AccountView> {
    m.insert(
        a,
        AccountView {
            balance: account(m, a).balance,
            bytecode: account(m, a).bytecode,
            data: account(m, a).data.insert(key, value),
        },
    )
}

/// Ledger failures.
#[derive(Debug, Clone, Copy, PartialEq, Eq, Structural)]
pub enum LedgerError {
    InsufficientFunds,
    Overflow,
}

/// The record of one address.
pub struct Account {
    pub address: String,
    pub balance: u64,
    pub bytecode: Vec<u8>,
    pub data: DataStore,
}

impl Account {
    pub open spec fn model(&self) -> AccountView {
        AccountView { balance: self.balance, bytecode: self.bytecode@, data: self.data@ }
    }
}

/// Entries and model agree, each address is held once, each store is well formed.
pub open spec fn ledger_wf(entries: Seq<Account>, model: Map<Seq<char>, AccountView>) -> bool {
    &&& forall|i: int|
        0 <= i < entries.len() ==> #[trigger] model.contains_key(entries[i].address@)
            && model[entries[i].address@] == entries[i].model() && entries[i].data.wf()
    &&& forall|a: Seq<char>|
        #[trigger] model.contains_key(a) ==> exists|i: int|
            0 <= i < entries.len() && #[trigger] entries[i].address@ == a
    &&& forall|i: int, j: int|
        0 <= i < entries.len() && 0 <= j < entries.len() && i != j
            ==> #[trigger] entries[i].address@ != #[trigger] entries[j].address@
}

proof fn lemma_replace(
    entries: Seq<Account>,
    model: Map<Seq<char>, AccountView>,
    i: int,
    e: Account,
)
    requires
        ledger_wf(entries, model),
        0 <= i < entries.len(),
        e.address@ == entries[i].address@,
        e.data.wf(),
    ensures
        ledger_wf(entries.update(i, e), model.insert(e.address@, e.model())),
{
    let ne = entries.update(i, e);
    let nm = model.insert(e.address@, e.model());
    assert forall|j: int| 0 <= j < ne.len() implies #[trigger] nm.contains_key(ne[j].address@)
        && nm[ne[j].address@] == ne[j].model() && ne[j].data.wf() by {
        if j != i {
            assert(entries[j].address@ != entries[i].address@);
        }
    }
    assert forall|a: Seq<char>| #[trigger] nm.contains_key(a) implies exists|j: int|
        0 <= j < ne.len() && #[trigger] ne[j].address@ == a by {
        if a != e.address@ {
            let j = choose|j: int| 0 <= j < entries.len() && entries[j].address@ == a;
            assert(ne[j].address@ == a);
        } else {
            assert(ne[i].address@ == a);
        }
    }
    assert forall|a: int, b: int|
        0 <= a < ne.len() && 0 <= b < ne.len() && a != b
            implies #[trigger] ne[a].address@ != #[trigger] ne[b].address@ by {
        assert(entries[a].address@ != entries[b].address@);
    }
}

proof fn lemma_push(entries: Seq<Account>, model: Map<Seq<char>, AccountView>, e: Account)
    requires
        ledger_wf(entries, model),
        !model.contains_key(e.address@),
        e.data.wf(),
    ensures
        ledger_wf(entries.push(e), model.insert(e.address@, e.model())),
{
    let ne = entries.push(e);
    let nm = model.insert(e.address@, e.model());
    assert forall|j: int| 0 <= j < ne.len() implies #[trigger] nm.contains_key(ne[j].address@)
        && nm[ne[j].address@] == ne[j].model() && ne[j].data.wf() by {
        if j < entries.len() {
            assert(ne[j] == entries[j]);
            assert(model.contains_key(entries[j].address@));
        }
    }
    assert forall|a: Seq<char>| #[trigger] nm.contains_key(a) implies exists|j: int|
        0 <= j < ne.len() && #[trigger] ne[j].address@ == a by {
        if a != e.address@ {
            let j = choose|j: int| 0 <= j < entries.len() && entries[j].address@ == a;
            assert(ne[j].address@ == a);
        } else {
            assert(ne[entries.len() as int].address@ == a);
        }
    }
    assert forall|a: int, b: int|
        0 <= a < ne.len() && 0 <= b < ne.len() && a != b
            implies #[trigger] ne[a].address@ != #[trigger] ne[b].address@ by {
        if a < entries.len() && b < entries.len() {
            assert(entries[a].address@ != entries[b].address@);
        } else if a < entries.len() {
            assert(model.contains_key(entries[a].address@));
        } else {
            assert(model.contains_key(entries[b].address@));
        }
    }
}

proof fn lemma_insert_agree(
    m1: Map<Seq<char>, AccountView>,
    m2: Map<Seq<char>, AccountView>,
    a: Seq<char>,
    v: AccountView,
)
    requires
        forall|b: Seq<char>| account(m1, b) == account(m2, b),
        forall|b: Seq<char>| b != a ==> (#[trigger] m1.contains_key(b) <==> m2.contains_key(b)),
    ensures
        m1.insert(a, v) == m2.insert(a, v),
{
    assert forall|b: Seq<char>| #[trigger] m1.insert(a, v).contains_key(b) implies m1.insert(a, v)[b]
        == m2.insert(a, v)[b] by {
        assert(account(m1, b) == account(m2, b));
    }
    assert(m1.insert(a, v) =~= m2.insert(a, v));
}

proof fn lemma_balance_twice(m: Map<Seq<char>, AccountView>, a: Seq<char>, x: u64, y: u64)
    ensures
        with_balance(with_balance(m, a, x), a, y) == with_balance(m, a, y),
{
    assert(with_balance(with_balance(m, a, x), a, y) =~= with_balance(m, a, y));
}

proof fn lemma_balance_same(m: Map<Seq<char>, AccountView>, a: Seq<char>)
    requires
        m.contains_key(a),
    ensures
        with_balance(m, a, balance_of(m, a)) == m,
{
    assert(with_balance(m, a, balance_of(m, a)) =~= m);
}

/// Why a transfer fails, if it does: the source is short, or the destination would overflow.
pub open spec fn transfer_error(
    m: Map<Seq<char>, AccountView>,
    from: Seq<char>,
    to: Seq<char>,
    amount: u64,
) -> Option<LedgerError> {
    if amount > balance_of(m, from) {
        Some(LedgerError::InsufficientFunds)
    } else if from != to && balance_of(m, to) + amount > u64::MAX {
        Some(LedgerError::Overflow)
    } else {
        None
    }
}

/// The ledger after `amount` has moved from `from` to `to`.
pub open spec fn transferred(
    m: Map<Seq<char>, AccountView>,
    from: Seq<char>,
    to: Seq<char>,
    amount: u64,
) -> Map<Seq<char>, AccountView> {
    if amount == 0 {
        m
    } else {
        let d = with_balance(m, from, (balance_of(m, from) - amount) as u64);
        with_balance(d, to, (balance_of(d, to) + amount) as u64)
    }
}

/// The ledger after a transfer attempt: moved on success, untouched on failure.
pub open spec fn transfer_outcome(
    m: Map<Seq<char>, AccountView>,
    from: Seq<char>,
    to: Seq<char>,
    amount: u64,
) -> Map<Seq<char>, AccountView> {
    if transfer_error(m, from, to, amount) is None {
        transferred(m, from, to, amount)
    } else {
        m
    }
}

/// Address-keyed accounts.
pub struct Ledger {
    entries: Vec<Account>,
    model: Ghost<Map<Seq<char>, AccountView>>,
}

impl View for Ledger {
    type V = Map<Seq<char>, AccountView>;

    closed spec fn view(&self) -> Map<Seq<char>, AccountView> {
        self.model@
    }
}

impl Ledger {
    pub closed spec fn wf(&self) -> bool {
        ledger_wf(self.entries@, self.model@)
    }

    pub fn new() -> (r: Ledger)
        ensures
            r.wf(),
            r@ == Map::<Seq<char>, AccountView>::empty(),
    {
        Ledger { entries: Vec::new(), model: Ghost(Map::empty()) }
    }

    fn find(&self, address: &str) -> (r: Option<usize>)
        requires
            self.wf(),
        ensures
            match r {
                Some(i) => i < self.entries@.len() && self.entries@[i as int].address@ == address@,
                None => !self@.contains_key(address@),
            },
    {
        let a = address.to_owned();
        let mut i: usize = 0;
        while i < self.entries.len()
            invariant
                self.wf(),
                a@ == address@,
                0 <= i <= self.entries@.len(),
                forall|j: int| 0 <= j < i ==> self.entries@[j].address@ != address@,
            decreases self.entries@.len() - i,
        {
            if self.entries[i].address == a {
                return Some(i);
            }
            i = i + 1;
        }
        proof {
            if self@.contains_key(address@) {
                let j = choose|j: int|
                    0 <= j < self.entries@.len() && self.entries@[j].address@ == address@;
                assert(self.entries@[j].address@ != address@);
            }
        }
        None
    }

    /// Index of the record of `address`, creating an empty one if there was none.
    fn index_of(&mut self, address: &str) -> (r: usize)
        requires
            old(self).wf(),
        ensures
            final(self).wf(),
            r < final(self).entries@.len(),
            final(self).entries@[r as int].address@ == address@,
            final(self)@.contains_key(address@),
            forall|b: Seq<char>| account(final(self)@, b) == account(old(self)@, b),
            forall|b: Seq<char>| b != address@ ==> (#[trigger] final(self)@.contains_key(b)
                <==> old(self)@.contains_key(b)),
    {
        match self.find(address) {
            Some(i) => i,
            None => {
                let e = Account {
                    address: address.to_owned(),
                    balance: 0,
                    bytecode: Vec::new(),
                    data: DataStore::new(),
                };
                proof {
                    lemma_push(self.entries@, self.model@, e);
                }
                let ghost m = self.model@.insert(address@, e.model());
                self.entries.push(e);
                self.model = Ghost(m);
                assert forall|b: Seq<char>| account(self@, b) == account(old(self)@, b) by {
                    if b == address@ {
                        assert(e.model() =~= empty_account());
                    }
                }
                self.entries.len() - 1
            },
        }
    }

    /// Whether a record of `address` exists.
    pub fn contains(&self, address: &str) -> (r: bool)
        requires
            self.wf(),
        ensures
            r == self@.contains_key(address@),
    {
        match self.find(address) {
            Some(_) => true,
            None => false,
        }
    }

    /// Balance of `address`; zero for an unknown address.
    pub fn balance(&self, address: &str) -> (r: u64)
        requires
            self.wf(),
        ensures
            r == balance_of(self@, address@),
    {
        match self.find(address) {
            Some(i) => self.entries[i].balance,
            None => 0,
        }
    }

    /// Bytecode of `address`; empty for an unknown address.
    pub fn bytecode(&self, address: &str) -> (r: Vec<u8>)
        requires
            self.wf(),
        ensures
            r@ == account(self@, address@).bytecode,
    {
        match self.find(address) {
            Some(i) => slice_to_vec(self.entries[i].bytecode.as_slice()),
            None => Vec::new(),
        }
    }

    /// The bytes under `key` in the store of `address`; empty when unset.
    pub fn get_data(&self, address: &str, key: &[u8]) -> (r: Vec<u8>)
        requires
            self.wf(),
        ensures
            r@ == lookup(account(self@, address@).data, key@),
    {
        match self.find(address) {
            Some(i) => {
                assert(self.model@.contains_key(self.entries@[i as int].address@));
                self.entries[i].data.get(key)
            },
            None => Vec::new(),
        }
    }

    /// Whether the store of `address` holds `key`.
    pub fn has_data(&self, address: &str, key: &[u8]) -> (r: bool)
        requires
            self.wf(),
        ensures
            r == account(self@, address@).data.contains_key(key@),
    {
        match self.find(address) {
            Some(i) => {
                assert(self.model@.contains_key(self.entries@[i as int].address@));
                self.entries[i].data.contains(key)
            },
            None => false,
        }
    }

    /// Replaces the bytecode of `address`, creating its record if needed.
    pub fn set_bytecode(&mut self, address: &str, code: &[u8])
        requires
            old(self).wf(),
        ensures
            final(self).wf(),
            final(self)@ == with_bytecode(old(self)@, address@, code@),
    {
        let i = self.index_of(address);
        let ghost mid = self.model@;
        let ghost mid_entries = self.entries@;
        self.entries[i].bytecode = slice_to_vec(code);
        proof {
            assert(mid.contains_key(mid_entries[i as int].address@));
            lemma_replace(mid_entries, mid, i as int, self.entries@[i as int]);
            assert(self.entries@ == mid_entries.update(i as int, self.entries@[i as int]));
        }
        self.model = Ghost(self.model@.insert(address@, self.entries@[i as int].model()));
        proof {
            assert(account(mid, address@) == account(old(self)@, address@));
            assert(mid[address@] == mid_entries[i as int].model());
            lemma_insert_agree(mid, old(self)@, address@, self.entries@[i as int].model());
            assert(self.entries@[i as int].model() =~= with_bytecode(old(self)@, address@, code@)[address@]);
        }
    }

    /// Stores `value` under `key` for `address`, creating its record if needed.
    pub fn set_data(&mut self, address: &str, key: &[u8], value: &[u8])
        requires
            old(self).wf(),
        ensures
            final(self).wf(),
            final(self)@ == with_data(old(self)@, address@, key@, value@),
    {
        let i = self.index_of(address);
        let ghost mid = self.model@;
        let ghost mid_entries = self.entries@;
        proof {
            assert(mid.contains_key(mid_entries[i as int].address@));
        }
        self.entries[i].data.set(key, value);
        proof {
            lemma_replace(mid_entries, mid, i as int, self.entries@[i as int]);
            assert(self.entries@ == mid_entries.update(i as int, self.entries@[i as int]));
        }
        self.model = Ghost(self.model@.insert(address@, self.entries@[i as int].model()));
        proof {
            assert(account(mid, address@) == account(old(self)@, address@));
            assert(mid[address@] == mid_entries[i as int].model());
            lemma_insert_agree(mid, old(self)@, address@, self.entries@[i as int].model());
            assert(self.entries@[i as int].model() =~= with_data(old(self)@, address@, key@, value@)[address@]);
        }
    }

    fn set_balance(&mut self, address: &str, b: u64)
        requires
            old(self).wf(),
        ensures
            final(self).wf(),
            final(self)@ == with_balance(old(self)@, address@, b),
    {
        let i = self.index_of(address);
        let ghost mid = self.model@;
        let ghost mid_entries = self.entries@;
        self.entries[i].balance = b;
        proof {
            assert(mid.contains_key(mid_entries[i as int].address@));
            lemma_replace(mid_entries, mid, i as int, self.entries@[i as int]);
            assert(self.entries@ == mid_entries.update(i as int, self.entries@[i as int]));
        }
        self.model = Ghost(self.model@.insert(address@, self.entries@[i as int].model()));
        proof {
            assert(account(mid, address@) == account(old(self)@, address@));
            assert(mid[address@] == mid_entries[i as int].model());
            lemma_insert_agree(mid, old(self)@, address@, self.entries@[i as int].model());
            assert(self.entries@[i as int].model() =~= with_balance(old(self)@, address@, b)[address@]);
        }
    }

    /// Adds `amount` to the balance of `address`; fails, changing nothing, on overflow.
    pub fn credit(&mut self, address: &str, amount: u64) -> (r: Result<(), LedgerError>)
        requires
            old(self).wf(),
        ensures
            final(self).wf(),
            balance_of(old(self)@, address@) + amount <= u64::MAX ==> r is Ok && final(self)@ == (
            if amount == 0 {
                old(self)@
            } else {
                with_balance(old(self)@, address@, (balance_of(old(self)@, address@) + amount) as u64)
            }),
            balance_of(old(self)@, address@) + amount > u64::MAX ==> r == Err::<(), LedgerError>(
                LedgerError::Overflow,
            ) && final(self)@ == old(self)@,
    {
        if amount == 0 {
            return Ok(());
        }
        let b = self.balance(address);
        match b.checked_add(amount) {
            Some(nb) => {
                self.set_balance(address, nb);
                Ok(())
            },
            None => Err(LedgerError::Overflow),
        }
    }

    /// Takes `amount` from the balance of `address`; fails, changing nothing, when it is short.
    pub fn debit(&mut self, address: &str, amount: u64) -> (r: Result<(), LedgerError>)
        requires
            old(self).wf(),
        ensures
            final(self).wf(),
            amount <= balance_of(old(self)@, address@) ==> r is Ok && final(self)@ == (
            if amount == 0 {
                old(self)@
            } else {
                with_balance(old(self)@, address@, (balance_of(old(self)@, address@) - amount) as u64)
            }),
            amount > balance_of(old(self)@, address@) ==> r == Err::<(), LedgerError>(
                LedgerError::InsufficientFunds,
            ) && final(self)@ == old(self)@,
    {
        if amount == 0 {
            return Ok(());
        }
        let b = self.balance(address);
        if amount > b {
            return Err(LedgerError::InsufficientFunds);
        }
        self.set_balance(address, b - amount);
        Ok(())
    }
    /// Moves `amount` from `from` to `to`: debit first, then credit; a failed credit
    /// gives the debited amount back, so a failure leaves the ledger as it was.
    pub fn transfer(&mut self, from: &str, to: &str, amount: u64) -> (r: Result<(), LedgerError>)
        requires
            old(self).wf(),
        ensures
            final(self).wf(),
            r == (match transfer_error(old(self)@, from@, to@, amount) {
                None => Ok(()),
                Some(e) => Err::<(), LedgerError>(e),
            }),
            final(self)@ == transfer_outcome(old(self)@, from@, to@, amount),
    {
        match self.debit(from, amount) {
            Ok(()) => {},
            Err(e) => {
                return Err(e);
            },
        }
        let ghost debited = self@;
        match self.credit(to, amount) {
            Ok(()) => Ok(()),
            Err(e) => {
                let back = self.credit(from, amount);
                proof {
                    let m = old(self)@;
                    let bf = balance_of(m, from@);
                    assert(m.contains_key(from@));
                    assert(balance_of(debited, from@) == bf - amount);
                    lemma_balance_twice(m, from@, (bf - amount) as u64, bf);
                    lemma_balance_same(m, from@);
                    assert(back is Ok);
                }
                Err(e)
            },
        }
    }
}

} // verus!
