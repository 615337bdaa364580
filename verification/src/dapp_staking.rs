//! The off-chain claimer: holds the configuration and the keys with which the
//! reward of a staking era is claimed on the target chain, and prepares the
//! call that claims it.

use vstd::prelude::*;
use vstd::std_specs::cmp::PartialEqSpecImpl;
use crate::account::AccountId;

verus! {

/// How the target chain is reached and which call claims a reward.
#[derive(Debug)]
pub struct Config {
    /// The RPC endpoint of the target blockchain.
    pub rpc: String,
    pub pallet_id: u8,
    pub call_id: u8,
    pub smart_contract: AccountId,
    /// Key that signs the transaction; without it the claimer's own key
    /// signs.
    pub sender_key: Option<[u8; 32]>,
}

/// Errors of the claimer.
#[derive(Clone, Copy, Debug, PartialEq, Eq, Structural)]
pub enum ContractError {
    BadOrigin,
    NotConfigured,
    InvalidKeyLength,
    SubRpcError,
}

/// A smart contract on the target chain.
#[derive(Clone, Copy, Debug)]
pub enum SmartContract {
    /// EVM smart contract: a 20-byte address.
    Evm([u8; 20]),
    /// Wasm smart contract.
    Wasm(AccountId),
}

/// The arguments of the call that claims the reward of one era.
#[derive(Clone, Copy, Debug)]
pub struct ClaimDappRewardCall {
    pub smart_contract: SmartContract,
    pub era: u32,
}

/// Whether two EVM addresses are the same.
pub fn same_address(a: &[u8; 20], b: &[u8; 20]) -> (r: bool)
    ensures
        r == (*a == *b),
{
    let mut i: usize = 0;
    while i < 20
        invariant
            i <= 20,
            forall|j: int| 0 <= j < i ==> a[j] == b[j],
        decreases 20 - i,
    {
        if a[i] != b[i] {
            return false;
        }
        i += 1;
    }
    assert(*a =~= *b);
    true
}

impl PartialEq for SmartContract {
    fn eq(&self, other: &Self) -> (r: bool) {
        match (self, other) {
            (SmartContract::Evm(a), SmartContract::Evm(b)) => same_address(a, b),
            (SmartContract::Wasm(a), SmartContract::Wasm(b)) => *a == *b,
            _ => false,
        }
    }
}

impl Eq for SmartContract {

}

impl PartialEqSpecImpl for SmartContract {
    open spec fn obeys_eq_spec() -> bool {
        true
    }

    open spec fn eq_spec(&self, other: &Self) -> bool {
        *self == *other
    }
}

impl PartialEq for ClaimDappRewardCall {
    fn eq(&self, other: &Self) -> (r: bool) {
        self.smart_contract == other.smart_contract && self.era == other.era
    }
}

impl Eq for ClaimDappRewardCall {

}

impl PartialEqSpecImpl for ClaimDappRewardCall {
    open spec fn obeys_eq_spec() -> bool {
        true
    }

    open spec fn eq_spec(&self, other: &Self) -> bool {
        *self == *other
    }
}

/// All that is needed to build, sign and send the transaction that claims
/// the reward of one era.
#[derive(Debug)]
pub struct ClaimRequest {
    pub sender_key: [u8; 32],
    pub rpc: String,
    pub pallet_id: u8,
    pub call_id: u8,
    pub call: ClaimDappRewardCall,
}

/// The claimer: its owner, its configuration and its own signing key.
#[derive(Debug)]
pub struct DappStaking {
    owner: AccountId,
    config: Option<Config>,
    private_key: [u8; 32],
}

/// The first 32 entries of `key`, as a key.
pub open spec fn key_of(key: Seq<u8>, out: [u8; 32]) -> bool {
    forall|i: int| 0 <= i < 32 ==> out[i] == key[i]
}

/// The key that signs: the configured sender key, or else the claimer's own.
pub open spec fn signing_key_of(config: Option<Config>, private_key: [u8; 32]) -> [u8; 32] {
    match config {
        Some(c) => match c.sender_key {
            Some(key) => key,
            None => private_key,
        },
        None => private_key,
    }
}

fn key_from(bytes: &Vec<u8>) -> (key: [u8; 32])
    requires
        bytes.len() >= 32,
    ensures
        key_of(bytes@, key),
{
    let mut key = [0u8; 32];
    let mut i: usize = 0;
    while i < 32
        invariant
            i <= 32,
            bytes.len() >= 32,
            forall|j: int| 0 <= j < i ==> key[j] == bytes@[j],
        decreases 32 - i,
    {
        key[i] = bytes[i];
        i += 1;
    }
    key
}

impl DappStaking {
    /// The owner.
    pub closed spec fn spec_owner(&self) -> AccountId {
        self.owner
    }

    /// The configuration, if any.
    pub closed spec fn spec_config(&self) -> Option<Config> {
        self.config
    }

    /// The claimer's own signing key.
    pub closed spec fn spec_private_key(&self) -> [u8; 32] {
        self.private_key
    }

    /// A claimer owned by `caller`, not yet configured, whose own key is the
    /// first 32 bytes of `derived_key`.
    pub fn default(caller: AccountId, derived_key: Vec<u8>) -> (contract: DappStaking)
        requires
            derived_key.len() >= 32,
        ensures
            contract.spec_owner() == caller,
            contract.spec_config() is None,
            key_of(derived_key@, contract.spec_private_key()),
    {
        DappStaking { owner: caller, config: None, private_key: key_from(&derived_key) }
    }

    /// The owner of the claimer.
    pub fn owner(&self) -> (owner: AccountId)
        ensures
            owner == self.spec_owner(),
    {
        self.owner
    }

    /// The key whose public key is the sender's address: the configured
    /// sender key, or else the claimer's own.
    pub fn signing_key(&self) -> (key: [u8; 32])
        ensures
            key == signing_key_of(self.spec_config(), self.spec_private_key()),
    {
        match &self.config {
            Some(c) => match c.sender_key {
                Some(key) => key,
                None => self.private_key,
            },
            None => self.private_key,
        }
    }

    /// The configured call: endpoint, pallet, call and smart contract.
    pub fn get_call(&self) -> (call: Option<(String, u8, u8, AccountId)>)
        ensures
            match self.spec_config() {
                Some(c) => call is Some && call->Some_0.0@ == c.rpc@ && call->Some_0.1
                    == c.pallet_id && call->Some_0.2 == c.call_id && call->Some_0.3
                    == c.smart_contract,
                None => call is None,
            },
    {
        match &self.config {
            Some(c) => Some((c.rpc.clone(), c.pallet_id, c.call_id, c.smart_contract)),
            None => None,
        }
    }

    /// Configures the call (owner only). A sender key must have 32 bytes.
    pub fn config_call(
        &mut self,
        caller: AccountId,
        rpc: String,
        pallet_id: u8,
        call_id: u8,
        smart_contract: AccountId,
        sender_key: Option<Vec<u8>>,
    ) -> (result: Result<(), ContractError>)
        ensures
            final(self).spec_owner() == old(self).spec_owner(),
            final(self).spec_private_key() == old(self).spec_private_key(),
            match result {
                Ok(()) => {
                    &&& caller == old(self).spec_owner()
                    &&& final(self).spec_config() is Some
                    &&& final(self).spec_config()->Some_0.rpc == rpc
                    &&& final(self).spec_config()->Some_0.pallet_id == pallet_id
                    &&& final(self).spec_config()->Some_0.call_id == call_id
                    &&& final(self).spec_config()->Some_0.smart_contract == smart_contract
                    &&& match sender_key {
                        Some(key) => key.len() == 32 && final(self).spec_config()->Some_0.sender_key
                            is Some && key_of(
                            key@,
                            final(self).spec_config()->Some_0.sender_key->Some_0,
                        ),
                        None => final(self).spec_config()->Some_0.sender_key is None,
                    }
                },
                Err(e) => {
                    &&& final(self).spec_config() == old(self).spec_config()
                    &&& e == if caller != old(self).spec_owner() {
                        ContractError::BadOrigin
                    } else {
                        ContractError::InvalidKeyLength
                    }
                    &&& caller != old(self).spec_owner() || (sender_key is Some
                        && sender_key->Some_0.len() != 32)
                },
            },
    {
        match self.ensure_owner(caller) {
            Ok(()) => {},
            Err(e) => {
                return Err(e);
            },
        }
        let sender_key = match sender_key {
            Some(key) => {
                if key.len() != 32 {
                    return Err(ContractError::InvalidKeyLength);
                }
                Some(key_from(&key))
            },
            None => None,
        };
        self.config = Some(Config { rpc, pallet_id, call_id, smart_contract, sender_key });
        Ok(())
    }

    /// Hands the claimer to a new owner (owner only).
    pub fn transfer_ownership(
        &mut self,
        caller: AccountId,
        new_owner: AccountId,
    ) -> (result: Result<(), ContractError>)
        ensures
            final(self).spec_config() == old(self).spec_config(),
            final(self).spec_private_key() == old(self).spec_private_key(),
            caller == old(self).spec_owner() ==> result is Ok && final(self).spec_owner()
                == new_owner,
            caller != old(self).spec_owner() ==> result == Err::<(), ContractError>(
                ContractError::BadOrigin,
            ) && final(self).spec_owner() == old(self).spec_owner(),
    {
        match self.ensure_owner(caller) {
            Ok(()) => {},
            Err(e) => {
                return Err(e);
            },
        }
        self.owner = new_owner;
        Ok(())
    }

    /// Prepares the claim of the reward of `era`: the call on the configured
    /// Wasm smart contract, the key that signs it and where it is sent.
    pub fn claim_dapp_rewards(&self, era: u32) -> (result: Result<ClaimRequest, ContractError>)
        ensures
            match self.spec_config() {
                Some(c) => {
                    &&& result is Ok
                    &&& result->Ok_0.sender_key == signing_key_of(
                        self.spec_config(),
                        self.spec_private_key(),
                    )
                    &&& result->Ok_0.rpc@ == c.rpc@
                    &&& result->Ok_0.pallet_id == c.pallet_id
                    &&& result->Ok_0.call_id == c.call_id
                    &&& result->Ok_0.call == (ClaimDappRewardCall {
                        smart_contract: SmartContract::Wasm(c.smart_contract),
                        era,
                    })
                },
                None => result is Err && result->Err_0 == ContractError::NotConfigured,
            },
    {
        let config = match self.ensure_configured() {
            Ok(config) => config,
            Err(e) => {
                return Err(e);
            },
        };
        let call = ClaimDappRewardCall {
            smart_contract: SmartContract::Wasm(config.smart_contract),
            era,
        };
        let sender_key = match config.sender_key {
            Some(key) => key,
            None => self.private_key,
        };
        Ok(
            ClaimRequest {
                sender_key,
                rpc: config.rpc.clone(),
                pallet_id: config.pallet_id,
                call_id: config.call_id,
                call,
            },
        )
    }

    /// Fails with `BadOrigin` unless `caller` is the owner.
    pub fn ensure_owner(&self, caller: AccountId) -> (result: Result<(), ContractError>)
        ensures
            caller == self.spec_owner() ==> result is Ok,
            caller != self.spec_owner() ==> result == Err::<(), ContractError>(
                ContractError::BadOrigin,
            ),
    {
        if caller == self.owner {
            Ok(())
        } else {
            Err(ContractError::BadOrigin)
        }
    }

    /// The configuration, or the error `NotConfigured`.
    pub fn ensure_configured(&self) -> (result: Result<&Config, ContractError>)
        ensures
            match self.spec_config() {
                Some(c) => result is Ok && *result->Ok_0 == c,
                None => result is Err && result->Err_0 == ContractError::NotConfigured,
            },
    {
        match &self.config {
            Some(config) => Ok(config),
            None => Err(ContractError::NotConfigured),
        }
    }
}

} // verus!
