//! The meta-transaction relay: a signer's request, executed on its behalf
//! by whoever submits it, and the nonces that make each request single-use.

use vstd::prelude::*;
use crate::account::AccountId;
use crate::account_map::{accounts_of, bound_in_turn, map_of, AccountMap, Entry};
use crate::error::RollupClientError;
use crate::hashing::{blake2x256, hash_blake2x256};
use crate::scale::{compact_bytes, le_bytes, push_all, push_compact, push_le_bytes};

verus! {

/// A call that `from` asks the contract `to` to execute on its behalf.
#[derive(Debug)]
pub struct ForwardRequest {
    pub from: AccountId,
    pub to: AccountId,
    pub nonce: u128,
    pub data: Vec<u8>,
}

/// The bytes that are signed for a request: signer, target, nonce in 16
/// bytes, then the payload behind its length.
pub open spec fn request_bytes(
    from: AccountId,
    to: AccountId,
    nonce: u128,
    data: Seq<u8>,
) -> Seq<u8> {
    from.bytes@ + to.bytes@ + le_bytes(nonce as nat, 16) + compact_bytes(data.len() as u32) + data
}

/// The hash that stands for a request when it is signed out of band.
pub open spec fn request_hash(
    from: AccountId,
    to: AccountId,
    nonce: u128,
    data: Seq<u8>,
) -> Seq<u8> {
    blake2x256(request_bytes(from, to, nonce, data))
}

/// The nonce that the next request of `from` must carry.
pub open spec fn next_nonce(nonces: Map<AccountId, u128>, from: AccountId) -> u128 {
    if nonces.dom().contains(from) {
        nonces[from]
    } else {
        0
    }
}

/// Outcome of checking a request against the nonces: the nonces once the
/// request is consumed, or the error.
pub open spec fn accept_outcome(
    nonces: Map<AccountId, u128>,
    from: AccountId,
    nonce: u128,
    signature_valid: bool,
) -> Result<Map<AccountId, u128>, RollupClientError> {
    if !signature_valid {
        Err(RollupClientError::BadSignature)
    } else if nonce != next_nonce(nonces, from) {
        Err(RollupClientError::NonceMismatch)
    } else if nonce == u128::MAX {
        Err(RollupClientError::NonceOverflow)
    } else {
        Ok(nonces.insert(from, (nonce + 1) as u128))
    }
}

/// A request that was accepted once is refused with `NonceMismatch` when
/// it is submitted again, also with a signature that is still valid.
pub proof fn lemma_request_is_single_use(
    nonces: Map<AccountId, u128>,
    from: AccountId,
    nonce: u128,
)
    requires
        accept_outcome(nonces, from, nonce, true) is Ok,
    ensures
        accept_outcome(accept_outcome(nonces, from, nonce, true)->Ok_0, from, nonce, true) == Err::<
            Map<AccountId, u128>,
            RollupClientError,
        >(RollupClientError::NonceMismatch),
{
}

/// After a request has been accepted, the signer's next nonce is the one
/// after the request's, and no other signer's nonce has changed.
pub proof fn lemma_nonce_advances_by_one(
    nonces: Map<AccountId, u128>,
    from: AccountId,
    nonce: u128,
    other: AccountId,
)
    requires
        accept_outcome(nonces, from, nonce, true) is Ok,
    ensures
        next_nonce(accept_outcome(nonces, from, nonce, true)->Ok_0, from) == nonce + 1,
        other != from ==> next_nonce(accept_outcome(nonces, from, nonce, true)->Ok_0, other)
            == next_nonce(nonces, other),
{
}

/// The next nonce of each signer.
#[derive(Debug)]
pub struct MetaTransactionData {
    nonces: AccountMap,
}

impl View for MetaTransactionData {
    type V = Map<AccountId, u128>;

    closed spec fn view(&self) -> Map<AccountId, u128> {
        self.nonces@
    }
}

impl ForwardRequest {
    /// The bytes that are signed for the request, or nothing where its
    /// payload is too long for its length to be written.
    pub fn encode(&self) -> (r: Option<Vec<u8>>)
        ensures
            match r {
                Some(bytes) => self.data.len() <= u32::MAX && bytes@ == request_bytes(
                    self.from,
                    self.to,
                    self.nonce,
                    self.data@,
                ),
                None => self.data.len() > u32::MAX,
            },
    {
        if self.data.len() > 0xffff_ffff {
            return None;
        }
        let mut out: Vec<u8> = Vec::new();
        push_all(&mut out, self.from.bytes.as_slice());
        push_all(&mut out, self.to.bytes.as_slice());
        push_le_bytes(&mut out, self.nonce, 16);
        push_compact(&mut out, self.data.len() as u32);
        push_all(&mut out, self.data.as_slice());
        assert(out@ =~= request_bytes(self.from, self.to, self.nonce, self.data@));
        Some(out)
    }

    /// The hash that stands for the request when it is signed out of band:
    /// the 256-bit BLAKE2b digest of the bytes that are signed.
    pub fn hash(&self) -> (r: Option<[u8; 32]>)
        ensures
            match r {
                Some(hash) => self.data.len() <= u32::MAX && hash@ == request_hash(
                    self.from,
                    self.to,
                    self.nonce,
                    self.data@,
                ),
                None => self.data.len() > u32::MAX,
            },
    {
        match self.encode() {
            Some(bytes) => Some(hash_blake2x256(&bytes)),
            None => None,
        }
    }
}

impl MetaTransactionData {
    /// No signer has made a request yet.
    pub fn new() -> (data: MetaTransactionData)
        ensures
            data@ == Map::<AccountId, u128>::empty(),
    {
        MetaTransactionData { nonces: AccountMap::new() }
    }

    /// The next nonce of each signer that has made a request.
    pub fn nonces(&self) -> (entries: Vec<Entry>)
        ensures
            accounts_of(entries@).no_duplicates(),
            map_of(entries@) == self@,
    {
        self.nonces.entries()
    }

    /// The nonces that `entries` list; of two entries of one signer, the
    /// later one counts.
    pub fn restore(entries: &Vec<Entry>) -> (data: MetaTransactionData)
        ensures
            data@ == bound_in_turn(entries@),
    {
        MetaTransactionData { nonces: AccountMap::from_entries(entries) }
    }

    /// The same nonces.
    pub fn duplicate(&self) -> (data: MetaTransactionData)
        ensures
            data@ == self@,
    {
        MetaTransactionData { nonces: self.nonces.duplicate() }
    }

    /// The nonce that the next request of `from` must carry.
    pub fn get_nonce(&self, from: AccountId) -> (nonce: u128)
        ensures
            nonce == next_nonce(self@, from),
    {
        match self.nonces.get(&from) {
            Some(nonce) => nonce,
            None => 0,
        }
    }

    /// Builds the request by which `from` asks `to` to execute `data`: it
    /// carries the signer's next nonce, and comes with its hash for signing
    /// out of band. Nothing is changed. Fails with `FailedToEncode` where
    /// `data` is too long for its length to be written.
    pub fn inner_prepare(&self, from: AccountId, to: AccountId, data: Vec<u8>) -> (result: Result<
        (ForwardRequest, [u8; 32]),
        RollupClientError,
    >)
        ensures
            match result {
                Ok((request, hash)) => {
                    &&& data.len() <= u32::MAX
                    &&& request.from == from
                    &&& request.to == to
                    &&& request.nonce == next_nonce(self@, from)
                    &&& request.data == data
                    &&& hash@ == request_hash(from, to, next_nonce(self@, from), data@)
                },
                Err(e) => data.len() > u32::MAX && e == RollupClientError::FailedToEncode,
            },
    {
        let nonce = self.get_nonce(from);
        let request = ForwardRequest { from, to, nonce, data };
        match request.hash() {
            Some(hash) => Ok((request, hash)),
            None => Err(RollupClientError::FailedToEncode),
        }
    }

    /// Checks a request before it is executed, given whether its signature
    /// authenticates it under the signer's key, and consumes it: the signer's
    /// nonce advances by one, so that the request cannot be used again
    /// whatever comes of executing it.
    pub fn accept(&mut self, request: &ForwardRequest, signature_valid: bool) -> (result: Result<
        (),
        RollupClientError,
    >)
        ensures
            match accept_outcome(old(self)@, request.from, request.nonce, signature_valid) {
                Ok(nonces) => result is Ok && final(self)@ == nonces,
                Err(e) => result == Err::<(), RollupClientError>(e) && final(self)@ == old(self)@,
            },
    {
        if !signature_valid {
            return Err(RollupClientError::BadSignature);
        }
        if request.nonce != self.get_nonce(request.from) {
            return Err(RollupClientError::NonceMismatch);
        }
        let next = match request.nonce.checked_add(1) {
            Some(next) => next,
            None => {
                return Err(RollupClientError::NonceOverflow);
            },
        };
        self.nonces.insert(request.from, next);
        Ok(())
    }
}

} // verus!
