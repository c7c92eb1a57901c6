//! Accounts and the state snapshot that an execution sees.

use crate::error::ConfigError;
use crate::text::{address_digits, h160_from_str, hex_bytes, is_address_text};
use crate::word::Word256;
use vstd::prelude::*;

verus! {

/// A 20-byte account address.
#[derive(Clone, Copy, Debug, PartialEq, Eq)]
pub struct Address {
    pub bytes: [u8; 20],
}

impl View for Address {
    type V = Seq<u8>;

    open spec fn view(&self) -> Seq<u8> {
        self.bytes@
    }
}

impl Address {
    /// Reads an address from its text: forty hexadecimal digits, with or
    /// without a leading `0x`; blanks among the digits are skipped.
    pub fn parse(text: &str) -> (r: Result<Address, ConfigError>)
        ensures
            r is Ok <==> is_address_text(text@),
            r matches Ok(a) ==> a@ == hex_bytes(address_digits(text@)),
            r matches Err(e) ==> e == ConfigError::InvalidAddress,
    {
        match h160_from_str(text) {
            Some(bytes) => Ok(Address { bytes }),
            None => Err(ConfigError::InvalidAddress),
        }
    }

    /// Whether the two addresses are the same twenty bytes.
    pub fn same_as(&self, other: &Address) -> (b: bool)
        ensures
            b == (self@ == other@),
    {
        let mut i: usize = 0;
        while i < 20
            invariant
                i <= 20,
                forall|k: int| 0 <= k < i ==> self.bytes[k] == other.bytes[k],
            decreases 20 - i,
        {
            if self.bytes[i] != other.bytes[i] {
                return false;
            }
            i = i + 1;
        }
        assert(self@ =~= other@);
        true
    }
}

/// One storage entry of an account.
#[derive(Clone, Copy, Debug, PartialEq, Eq, Structural)]
pub struct StorageSlot {
    pub key: Word256,
    pub value: Word256,
}

/// What a snapshot holds of one account.
#[derive(Clone, Debug, PartialEq, Eq)]
pub struct AccountRecord {
    pub nonce: u64,
    pub balance: Word256,
    /// The contract code, absent for an account without code.
    pub code: Option<Vec<u8>>,
    /// The Keccak-256 digest of the code bytes.
    pub code_hash: [u8; 32],
    pub storage: Vec<StorageSlot>,
}

/// An account record as a mathematical value.
pub ghost struct AccountView {
    pub nonce: nat,
    pub balance: Word256,
    pub code: Option<Seq<u8>>,
    pub code_hash: Seq<u8>,
    pub storage: Seq<StorageSlot>,
}

impl View for AccountRecord {
    type V = AccountView;

    open spec fn view(&self) -> AccountView {
        AccountView {
            nonce: self.nonce as nat,
            balance: self.balance,
            code: match self.code {
                Some(c) => Some(c@),
                None => None,
            },
            code_hash: self.code_hash@,
            storage: self.storage@,
        }
    }
}

/// A copy of `bytes`.
pub fn copy_bytes(bytes: &Vec<u8>) -> (r: Vec<u8>)
    ensures
        r@ == bytes@,
{
    let mut r: Vec<u8> = Vec::new();
    let mut i: usize = 0;
    while i < bytes.len()
        invariant
            i <= bytes.len(),
            r@ == bytes@.take(i as int),
        decreases bytes.len() - i,
    {
        r.push(bytes[i]);
        assert(bytes@.take(i + 1) =~= bytes@.take(i as int).push(bytes@[i as int]));
        i = i + 1;
    }
    assert(bytes@.take(bytes.len() as int) =~= bytes@);
    r
}

/// A copy of `slots`.
pub fn copy_slots(slots: &Vec<StorageSlot>) -> (r: Vec<StorageSlot>)
    ensures
        r@ == slots@,
{
    let mut r: Vec<StorageSlot> = Vec::new();
    let mut i: usize = 0;
    while i < slots.len()
        invariant
            i <= slots.len(),
            r@ == slots@.take(i as int),
        decreases slots.len() - i,
    {
        r.push(slots[i]);
        assert(slots@.take(i + 1) =~= slots@.take(i as int).push(slots@[i as int]));
        i = i + 1;
    }
    assert(slots@.take(slots.len() as int) =~= slots@);
    r
}

/// One account of a snapshot, under its address.
#[derive(Clone, Debug)]
pub struct AccountEntry {
    pub address: Address,
    pub record: AccountRecord,
}

/// The accounts that an execution sees, each address at most once.
#[derive(Debug)]
pub struct StateSnapshot {
    entries: Vec<AccountEntry>,
}

impl StateSnapshot {
    /// The accounts in the order in which their addresses came in.
    pub closed spec fn entries_spec(&self) -> Seq<AccountEntry> {
        self.entries@
    }

    /// No address occurs twice.
    pub open spec fn wf(&self) -> bool {
        forall|i: int, j: int|
            0 <= i < j < self.entries_spec().len() ==> (#[trigger] self.entries_spec()[i]).address@
                != (#[trigger] self.entries_spec()[j]).address@
    }

    /// The place of address `a` among the entries.
    pub open spec fn index_of(&self, a: Seq<u8>) -> int {
        choose|i: int| 0 <= i < self.entries_spec().len() && self.entries_spec()[i].address@ == a
    }

    /// Whether the snapshot holds an account under address `a`.
    pub open spec fn holds(&self, a: Seq<u8>) -> bool {
        exists|i: int| 0 <= i < self.entries_spec().len() && self.entries_spec()[i].address@ == a
    }

    /// A snapshot without accounts.
    pub fn new() -> (s: StateSnapshot)
        ensures
            s.wf(),
            s@ == Map::<Seq<u8>, AccountView>::empty(),
            s.entries_spec().len() == 0,
    {
        let s = StateSnapshot { entries: Vec::new() };
        assert(s@ =~= Map::<Seq<u8>, AccountView>::empty());
        s
    }

    /// The number of accounts.
    pub fn len(&self) -> (n: usize)
        requires
            self.wf(),
        ensures
            n == self.entries_spec().len(),
            self@.dom().finite(),
            n == self@.dom().len(),
    {
        proof {
            lemma_addresses_counted(self.entries@);
            assert(self@.dom() =~= addresses_of(self.entries@));
        }
        self.entries.len()
    }

    /// The accounts, each address once, in the order in which the addresses
    /// came in.
    pub fn entries(&self) -> (r: &Vec<AccountEntry>)
        requires
            self.wf(),
        ensures
            r@ == self.entries_spec(),
            forall|i: int|
                0 <= i < r@.len() ==> self@.contains_key((#[trigger] r@[i]).address@)
                    && self@[r@[i].address@] == r@[i].record@,
            forall|a: Seq<u8>| self@.contains_key(a) ==> self.holds(a),
    {
        proof {
            assert forall|i: int| 0 <= i < self.entries@.len() implies self@.contains_key(
                (#[trigger] self.entries@[i]).address@,
            ) && self@[self.entries@[i].address@] == self.entries@[i].record@ by {
                self.lemma_entry(i);
            }
        }
        &self.entries
    }

    /// The entry at place `i` is what the snapshot holds under its address.
    pub proof fn lemma_entry(&self, i: int)
        requires
            self.wf(),
            0 <= i < self.entries_spec().len(),
        ensures
            self.holds(self.entries_spec()[i].address@),
            self.index_of(self.entries_spec()[i].address@) == i,
            self@.contains_key(self.entries_spec()[i].address@),
            self@[self.entries_spec()[i].address@] == self.entries_spec()[i].record@,
    {
        let a = self.entries_spec()[i].address@;
        let j = self.index_of(a);
        assert(0 <= j < self.entries_spec().len() && self.entries_spec()[j].address@ == a);
        if j < i {
            assert(self.entries_spec()[j].address@ != self.entries_spec()[i].address@);
        }
        if i < j {
            assert(self.entries_spec()[i].address@ != self.entries_spec()[j].address@);
        }
    }

    /// The record under `address`, if the snapshot holds one.
    pub fn get(&self, address: &Address) -> (r: Option<&AccountRecord>)
        requires
            self.wf(),
        ensures
            r is Some <==> self@.contains_key(address@),
            r matches Some(record) ==> record@ == self@[address@],
    {
        let mut i: usize = 0;
        while i < self.entries.len()
            invariant
                i <= self.entries.len(),
                self.wf(),
                forall|k: int| 0 <= k < i ==> self.entries@[k].address@ != address@,
            decreases self.entries.len() - i,
        {
            if self.entries[i].address.same_as(address) {
                proof {
                    self.lemma_entry(i as int);
                }
                return Some(&self.entries[i].record);
            }
            i = i + 1;
        }
        None
    }

    /// Puts `record` under `address`, in place of what was there.
    pub fn insert(&mut self, address: Address, record: AccountRecord)
        requires
            old(self).wf(),
        ensures
            final(self).wf(),
            final(self)@ == old(self)@.insert(address@, record@),
    {
        let ghost before = *self;
        let mut i: usize = 0;
        while i < self.entries.len()
            invariant
                i <= self.entries.len(),
                *self == before,
                before == *old(self),
                self.wf(),
                forall|k: int| 0 <= k < i ==> self.entries@[k].address@ != address@,
            decreases self.entries.len() - i,
        {
            if self.entries[i].address.same_as(&address) {
                self.entries.set(i, AccountEntry { address, record });
                proof {
                    assert forall|k: int| 0 <= k < before.entries@.len() && k != i implies before.entries@[k].address@
                        != address@ by {
                        if k < i {
                            assert(before.entries@[k].address@ != before.entries@[i as int].address@);
                        } else {
                            assert(before.entries@[i as int].address@ != before.entries@[k].address@);
                        }
                    }
                    Self::lemma_put(before, *self, i as int);
                }
                return ;
            }
            i = i + 1;
        }
        self.entries.push(AccountEntry { address, record });
        proof {
            Self::lemma_put(before, *self, before.entries@.len() as int);
        }
    }

    /// A snapshot that differs from a well-formed one only at place `at`, where
    /// it holds an address that the other holds at no other place, is well
    /// formed, and is the other with the entry at `at` put under its address.
    proof fn lemma_put(before: StateSnapshot, after: StateSnapshot, at: int)
        requires
            before.wf(),
            0 <= at < after.entries@.len(),
            at < before.entries@.len() ==> before.entries@[at].address@
                == after.entries@[at].address@,
            forall|j: int|
                0 <= j < after.entries@.len() && j != at ==> j < before.entries@.len() && (
                #[trigger] after.entries@[j]) == before.entries@[j],
            forall|j: int|
                0 <= j < before.entries@.len() && j != at ==> j < after.entries@.len() && (
                #[trigger] before.entries@[j]).address@ != after.entries@[at].address@,
        ensures
            after.wf(),
            after@ == before@.insert(after.entries@[at].address@, after.entries@[at].record@),
    {
        let address = after.entries@[at].address@;
        let record = after.entries@[at].record@;
        assert forall|x: int, y: int| 0 <= x < y < after.entries@.len() implies (
        #[trigger] after.entries@[x]).address@ != (#[trigger] after.entries@[y]).address@ by {
            if x != at && y != at {
                assert(after.entries@[x] == before.entries@[x]);
                assert(after.entries@[y] == before.entries@[y]);
                assert(before.entries@[x].address@ != before.entries@[y].address@);
            } else if x == at {
                assert(after.entries@[y] == before.entries@[y]);
            } else {
                assert(after.entries@[x] == before.entries@[x]);
            }
        }
        assert forall|a: Seq<u8>| after.holds(a) == (before.holds(a) || a == address) by {
            if after.holds(a) && a != address {
                let j = after.index_of(a);
                assert(after.entries@[j] == before.entries@[j]);
            }
            if before.holds(a) && a != address {
                let j = before.index_of(a);
                assert(before.entries@[j].address@ == a);
                assert(j != at);
                assert(after.entries@[j] == before.entries@[j]);
            }
            if a == address {
                assert(after.entries@[at].address@ == a);
            }
        }
        assert forall|a: Seq<u8>| after.holds(a) implies #[trigger] after@[a] == before@.insert(
            address,
            record,
        )[a] by {
            let j = after.index_of(a);
            after.lemma_entry(j);
            if a != address {
                assert(after.entries@[j] == before.entries@[j]);
                before.lemma_entry(j);
            } else {
                after.lemma_entry(at);
            }
        }
        assert(after@ =~= before@.insert(address, record));
    }
}

/// The addresses under which `entries` hold an account.
pub open spec fn addresses_of(entries: Seq<AccountEntry>) -> Set<Seq<u8>> {
    Set::new(|a: Seq<u8>| exists|i: int| 0 <= i < entries.len() && entries[i].address@ == a)
}

/// Entries without a repeated address hold as many addresses as there are
/// entries.
pub proof fn lemma_addresses_counted(entries: Seq<AccountEntry>)
    requires
        forall|i: int, j: int|
            0 <= i < j < entries.len() ==> (#[trigger] entries[i]).address@ != (
            #[trigger] entries[j]).address@,
    ensures
        addresses_of(entries).finite(),
        addresses_of(entries).len() == entries.len(),
    decreases entries.len(),
{
    if entries.len() == 0 {
        assert(addresses_of(entries) =~= Set::<Seq<u8>>::empty());
    } else {
        let rest = entries.drop_last();
        let last = entries.last().address@;
        assert forall|i: int, j: int| 0 <= i < j < rest.len() implies (#[trigger] rest[i]).address@
            != (#[trigger] rest[j]).address@ by {
            assert(rest[i] == entries[i]);
            assert(rest[j] == entries[j]);
        }
        lemma_addresses_counted(rest);
        assert(!addresses_of(rest).contains(last)) by {
            if addresses_of(rest).contains(last) {
                let i = choose|i: int| 0 <= i < rest.len() && rest[i].address@ == last;
                assert(rest[i] == entries[i]);
                assert(entries[i].address@ != entries[entries.len() - 1].address@);
            }
        }
        assert(addresses_of(entries) =~= addresses_of(rest).insert(last)) by {
            assert forall|a: Seq<u8>| addresses_of(entries).contains(a) == addresses_of(
                rest,
            ).insert(last).contains(a) by {
                if addresses_of(entries).contains(a) {
                    let i = choose|i: int| 0 <= i < entries.len() && entries[i].address@ == a;
                    if i < rest.len() {
                        assert(rest[i] == entries[i]);
                    }
                }
                if addresses_of(rest).contains(a) {
                    let i = choose|i: int| 0 <= i < rest.len() && rest[i].address@ == a;
                    assert(rest[i] == entries[i]);
                }
                if a == last {
                    assert(entries[entries.len() - 1].address@ == a);
                }
            }
        }
    }
}

impl View for StateSnapshot {
    type V = Map<Seq<u8>, AccountView>;

    /// The record under each address that the snapshot holds.
    open spec fn view(&self) -> Map<Seq<u8>, AccountView> {
        Map::new(|a: Seq<u8>| self.holds(a), |a: Seq<u8>| self.entries_spec()[self.index_of(a)].record@)
    }
}

} // verus!
