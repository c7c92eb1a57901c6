//! Scenario assembly: from fixture data to the state snapshot and the
//! transaction that a run executes. Nothing here is timed.

use crate::error::ConfigError;
use crate::state::{
    copy_bytes, copy_slots, AccountRecord, AccountView, Address, StateSnapshot, StorageSlot,
};
use crate::text::{
    address_digits, decode_hex, hex_bytes, is_address_text, is_hex_text, keccak256, keccak256_of,
};
use crate::word::Word256;
use vstd::prelude::*;

verus! {

/// The call that a run executes.
#[derive(Clone, Debug)]
pub struct TransactionDescriptor {
    pub sender: Address,
    /// The called account; absent for a contract creation.
    pub recipient: Option<Address>,
    pub data: Vec<u8>,
    pub value: Word256,
    pub gas_price: u128,
    /// The gas limit, where the fixture sets one; else the engine's own applies.
    pub gas_limit: Option<u64>,
}

/// A transaction as a mathematical value.
pub ghost struct TransactionView {
    pub sender: Seq<u8>,
    pub recipient: Option<Seq<u8>>,
    pub data: Seq<u8>,
    pub value: Word256,
    pub gas_price: u128,
    pub gas_limit: Option<u64>,
}

impl View for TransactionDescriptor {
    type V = TransactionView;

    open spec fn view(&self) -> TransactionView {
        TransactionView {
            sender: self.sender@,
            recipient: match self.recipient {
                Some(a) => Some(a@),
                None => None,
            },
            data: self.data@,
            value: self.value,
            gas_price: self.gas_price,
            gas_limit: self.gas_limit,
        }
    }
}

/// What a scenario fixes of the block that the call runs in.
#[derive(Clone, Copy, Debug, PartialEq, Eq, Structural)]
pub struct BlockLimits {
    pub base_fee: u64,
    pub gas_limit: u64,
}

/// A state and a transaction, ready to be executed again and again.
#[derive(Debug)]
pub struct Scenario {
    pub state: StateSnapshot,
    pub transaction: TransactionDescriptor,
    /// The block limits, where the fixture sets them; else the engine's own apply.
    pub block: Option<BlockLimits>,
}

/// An account as a test vector describes it.
#[derive(Clone, Debug)]
pub struct FixtureAccount {
    pub nonce: u64,
    pub balance: Word256,
    pub code: Vec<u8>,
    pub storage: Vec<StorageSlot>,
}

/// A pre-state account of a test vector, under its address.
#[derive(Clone, Debug)]
pub struct FixtureEntry {
    pub address: Address,
    pub account: FixtureAccount,
}

/// The transaction section of a test vector, with its variants.
#[derive(Clone, Debug)]
pub struct FixtureTransaction {
    pub sender: Option<Address>,
    pub to: Option<Address>,
    pub data: Vec<Vec<u8>>,
    pub value: Vec<Word256>,
    pub gas_price: Option<Word256>,
}

/// The environment section of a test vector.
#[derive(Clone, Copy, Debug)]
pub struct FixtureEnv {
    pub current_base_fee: Option<Word256>,
    pub current_gas_limit: Word256,
}

/// One test case of a test vector.
#[derive(Clone, Debug)]
pub struct FixtureCase {
    pub pre: Vec<FixtureEntry>,
    pub env: FixtureEnv,
    pub transaction: FixtureTransaction,
}

/// A two-account scenario written as text: the addresses of the caller and of
/// the contract, the contract's code and the call data, each in hexadecimal.
#[derive(Clone, Debug)]
pub struct CallText {
    pub owner: String,
    pub contract: String,
    pub code: String,
    pub call_data: String,
}

/// What the two accounts of a [`CallText`] scenario start with.
#[derive(Clone, Copy, Debug)]
pub struct Endowment {
    pub owner_nonce: u64,
    pub owner_balance: Word256,
    pub contract_nonce: u64,
    pub contract_balance: Word256,
    pub gas_limit: Option<u64>,
}

/// The code of an account whose code bytes are `bytes`: absent exactly when
/// there are no bytes.
pub open spec fn code_of(bytes: Seq<u8>) -> Option<Seq<u8>> {
    if bytes.len() > 0 {
        Some(bytes)
    } else {
        None
    }
}

/// The record of a fixture account whose code has the digest `digest`: its
/// fields as the fixture gives them, the code absent exactly when the fixture's
/// code is empty.
pub open spec fn fixture_record(account: FixtureAccount, digest: Seq<u8>) -> AccountView {
    AccountView {
        nonce: account.nonce as nat,
        balance: account.balance,
        code: code_of(account.code@),
        code_hash: digest,
        storage: account.storage@,
    }
}

/// The snapshot that the pre-state accounts `pre` make, put in one after the
/// other.
pub open spec fn pre_state(pre: Seq<FixtureEntry>) -> Map<Seq<u8>, AccountView>
    decreases pre.len(),
{
    if pre.len() == 0 {
        Map::empty()
    } else {
        pre_state(pre.drop_last()).insert(
            pre.last().address@,
            fixture_record(pre.last().account, keccak256_of(pre.last().account.code@)),
        )
    }
}

/// What a fixture transaction lacks, if anything; the first of sender,
/// recipient, call data and value.
pub open spec fn fixture_fault(tx: FixtureTransaction) -> Option<ConfigError> {
    if tx.sender is None {
        Some(ConfigError::MissingSender)
    } else if tx.to is None {
        Some(ConfigError::MissingRecipient)
    } else if tx.data@.len() == 0 {
        Some(ConfigError::MissingData)
    } else if tx.value@.len() == 0 {
        Some(ConfigError::MissingValue)
    } else {
        None
    }
}

/// The call that a complete fixture transaction describes: its first data and
/// value variants, and a gas price of zero where it names none.
pub open spec fn fixture_call(tx: FixtureTransaction) -> TransactionView {
    TransactionView {
        sender: tx.sender->0@,
        recipient: Some(tx.to->0@),
        data: tx.data@[0]@,
        value: tx.value@[0],
        gas_price: match tx.gas_price {
            Some(p) => p.saturated_u128(),
            None => 0,
        },
        gas_limit: None,
    }
}

/// The block limits that a fixture environment describes, with a base fee of
/// zero where it names none.
pub open spec fn fixture_block(env: FixtureEnv) -> BlockLimits {
    BlockLimits {
        base_fee: match env.current_base_fee {
            Some(f) => f.saturated_u64(),
            None => 0,
        },
        gas_limit: env.current_gas_limit.saturated_u64(),
    }
}

/// The record of a fixture account, given the digest of its code.
pub fn account_with_digest(account: &FixtureAccount, digest: [u8; 32]) -> (record: AccountRecord)
    ensures
        record@ == fixture_record(*account, digest@),
{
    let code = if account.code.len() > 0 {
        Some(copy_bytes(&account.code))
    } else {
        None
    };
    AccountRecord {
        nonce: account.nonce,
        balance: account.balance,
        code,
        code_hash: digest,
        storage: copy_slots(&account.storage),
    }
}

/// The record of a fixture account.
pub fn account_from_fixture(account: &FixtureAccount) -> (record: AccountRecord)
    ensures
        record@ == fixture_record(*account, keccak256_of(account.code@)),
{
    let digest = keccak256(&account.code);
    account_with_digest(account, digest)
}

/// The snapshot of the pre-state accounts `pre`. Where an address occurs more
/// than once, its last account stays.
pub fn snapshot_from_fixture(pre: &Vec<FixtureEntry>) -> (state: StateSnapshot)
    ensures
        state.wf(),
        state@ == pre_state(pre@),
{
    let mut state = StateSnapshot::new();
    let mut i: usize = 0;
    while i < pre.len()
        invariant
            i <= pre.len(),
            state.wf(),
            state@ == pre_state(pre@.take(i as int)),
        decreases pre.len() - i,
    {
        let record = account_from_fixture(&pre[i].account);
        state.insert(pre[i].address, record);
        proof {
            let upto = pre@.take(i + 1);
            assert(upto.drop_last() =~= pre@.take(i as int));
            assert(upto.last() == pre@[i as int]);
        }
        i = i + 1;
    }
    assert(pre@.take(pre.len() as int) =~= pre@);
    state
}

/// Makes one test case into a scenario: every pre-state account goes into the
/// snapshot, and the first data and value variants make the call.
pub fn assemble_case(case: &FixtureCase) -> (r: Result<Scenario, ConfigError>)
    ensures
        match r {
            Ok(s) => {
                &&& fixture_fault(case.transaction) is None
                &&& s.state.wf()
                &&& s.state@ == pre_state(case.pre@)
                &&& s.transaction@ == fixture_call(case.transaction)
                &&& s.block == Some(fixture_block(case.env))
            },
            Err(e) => fixture_fault(case.transaction) == Some(e),
        },
{
    let state = snapshot_from_fixture(&case.pre);
    let sender = match case.transaction.sender {
        Some(a) => a,
        None => {
            return Err(ConfigError::MissingSender);
        },
    };
    let to = match case.transaction.to {
        Some(a) => a,
        None => {
            return Err(ConfigError::MissingRecipient);
        },
    };
    if case.transaction.data.len() == 0 {
        return Err(ConfigError::MissingData);
    }
    if case.transaction.value.len() == 0 {
        return Err(ConfigError::MissingValue);
    }
    let data = copy_bytes(&case.transaction.data[0]);
    let value = case.transaction.value[0];
    let gas_price: u128 = match case.transaction.gas_price {
        Some(p) => p.saturating_to_u128(),
        None => 0,
    };
    let base_fee: u64 = match case.env.current_base_fee {
        Some(f) => f.saturating_to_u64(),
        None => 0,
    };
    let gas_limit: u64 = case.env.current_gas_limit.saturating_to_u64();
    let transaction = TransactionDescriptor {
        sender,
        recipient: Some(to),
        data,
        value,
        gas_price,
        gas_limit: None,
    };
    Ok(Scenario { state, transaction, block: Some(BlockLimits { base_fee, gas_limit }) })
}

/// Makes a test vector into a scenario: its first test case is taken.
pub fn assemble(cases: &Vec<FixtureCase>) -> (r: Result<Scenario, ConfigError>)
    ensures
        match r {
            Ok(s) => {
                &&& cases@.len() > 0
                &&& fixture_fault(cases@[0].transaction) is None
                &&& s.state.wf()
                &&& s.state@ == pre_state(cases@[0].pre@)
                &&& s.transaction@ == fixture_call(cases@[0].transaction)
                &&& s.block == Some(fixture_block(cases@[0].env))
            },
            Err(e) => if cases@.len() == 0 {
                e == ConfigError::NoTestCase
            } else {
                fixture_fault(cases@[0].transaction) == Some(e)
            },
        },
{
    if cases.len() == 0 {
        return Err(ConfigError::NoTestCase);
    }
    assemble_case(&cases[0])
}

/// What a [`CallText`] lacks, if anything; the first of the owner's address,
/// the contract's address, the code and the call data that does not decode.
pub open spec fn call_text_fault(text: CallText) -> Option<ConfigError> {
    if !is_address_text(text.owner@) {
        Some(ConfigError::InvalidAddress)
    } else if !is_address_text(text.contract@) {
        Some(ConfigError::InvalidAddress)
    } else if !is_hex_text(text.code@) {
        Some(ConfigError::InvalidHex)
    } else if !is_hex_text(text.call_data@) {
        Some(ConfigError::InvalidHex)
    } else {
        None
    }
}

/// The address that an address text stands for.
pub open spec fn address_of(text: Seq<char>) -> Seq<u8> {
    hex_bytes(address_digits(text))
}

/// The snapshot of a two-account scenario: the owner without code, then the
/// contract with the code that the text gives, absent where the text is empty.
pub open spec fn call_state(text: CallText, funds: Endowment) -> Map<Seq<u8>, AccountView> {
    Map::<Seq<u8>, AccountView>::empty().insert(
        address_of(text.owner@),
        AccountView {
            nonce: funds.owner_nonce as nat,
            balance: funds.owner_balance,
            code: None,
            code_hash: keccak256_of(Seq::empty()),
            storage: Seq::empty(),
        },
    ).insert(
        address_of(text.contract@),
        AccountView {
            nonce: funds.contract_nonce as nat,
            balance: funds.contract_balance,
            code: code_of(hex_bytes(text.code@)),
            code_hash: keccak256_of(hex_bytes(text.code@)),
            storage: Seq::empty(),
        },
    )
}

/// The call of a two-account scenario: from the owner to the contract, with
/// the call data that the text gives, no value and a gas price of zero.
pub open spec fn call_transaction(text: CallText, funds: Endowment) -> TransactionView {
    TransactionView {
        sender: address_of(text.owner@),
        recipient: Some(address_of(text.contract@)),
        data: hex_bytes(text.call_data@),
        value: Word256 { w0: 0, w1: 0, w2: 0, w3: 0 },
        gas_price: 0,
        gas_limit: funds.gas_limit,
    }
}

/// Makes a two-account scenario from its text: an owner account that calls a
/// contract account. It sets no block limits.
pub fn assemble_call(text: &CallText, funds: &Endowment) -> (r: Result<Scenario, ConfigError>)
    ensures
        match r {
            Ok(s) => {
                &&& call_text_fault(*text) is None
                &&& s.state.wf()
                &&& s.state@ == call_state(*text, *funds)
                &&& s.transaction@ == call_transaction(*text, *funds)
                &&& s.block == None::<BlockLimits>
            },
            Err(e) => call_text_fault(*text) == Some(e),
        },
{
    let owner = match Address::parse(text.owner.as_str()) {
        Ok(a) => a,
        Err(e) => {
            return Err(e);
        },
    };
    let contract = match Address::parse(text.contract.as_str()) {
        Ok(a) => a,
        Err(e) => {
            return Err(e);
        },
    };
    let code = match decode_hex(text.code.as_str()) {
        Ok(c) => c,
        Err(e) => {
            return Err(e);
        },
    };
    let data = match decode_hex(text.call_data.as_str()) {
        Ok(d) => d,
        Err(e) => {
            return Err(e);
        },
    };
    let no_code: Vec<u8> = Vec::new();
    let owner_digest = keccak256(&no_code);
    let code_digest = keccak256(&code);
    let mut state = StateSnapshot::new();
    state.insert(
        owner,
        AccountRecord {
            nonce: funds.owner_nonce,
            balance: funds.owner_balance,
            code: None,
            code_hash: owner_digest,
            storage: Vec::new(),
        },
    );
    state.insert(
        contract,
        AccountRecord {
            nonce: funds.contract_nonce,
            balance: funds.contract_balance,
            code: if code.len() > 0 {
                Some(code)
            } else {
                None
            },
            code_hash: code_digest,
            storage: Vec::new(),
        },
    );
    let transaction = TransactionDescriptor {
        sender: owner,
        recipient: Some(contract),
        data,
        value: Word256::zero(),
        gas_price: 0,
        gas_limit: funds.gas_limit,
    };
    Ok(Scenario { state, transaction, block: None })
}

/// A pre-state account that no later one replaces is in the snapshot exactly
/// as the fixture gives it: its storage is the fixture's key/value pairs.
pub proof fn law_fixture_round_trip(pre: Seq<FixtureEntry>, i: int)
    requires
        0 <= i < pre.len(),
        forall|j: int| i < j < pre.len() ==> pre[j].address@ != pre[i].address@,
    ensures
        pre_state(pre).contains_key(pre[i].address@),
        pre_state(pre)[pre[i].address@] == fixture_record(
            pre[i].account,
            keccak256_of(pre[i].account.code@),
        ),
        pre_state(pre)[pre[i].address@].storage == pre[i].account.storage@,
    decreases pre.len(),
{
    if i < pre.len() - 1 {
        let rest = pre.drop_last();
        assert(rest[i] == pre[i]);
        assert forall|j: int| i < j < rest.len() implies rest[j].address@ != rest[i].address@ by {
            assert(rest[j] == pre[j]);
        }
        law_fixture_round_trip(rest, i);
    }
}

} // verus!
