//! The oracle bridge's own state: the hashes that bind accepted messages to
//! one approved version of the off-chain program, and the pointer to the
//! messages already processed.

use vstd::prelude::*;
use crate::error::{AccessControlError, RollupClientError};

verus! {

/// A 32-byte hash.
pub type Hash32 = [u8; 32];

/// What the off-chain program produced for a request.
#[derive(Debug)]
pub enum Payload {
    /// The encoded response.
    Output(Vec<u8>),
    /// The program could not compute a response; the bytes say why.
    Error(Vec<u8>),
}

/// An attested message: the hashes of the program and of its settings, the
/// encoded request it answers, and what the program produced.
#[derive(Debug)]
pub struct ResponseEnvelope {
    pub js_script_hash: Hash32,
    pub settings_hash: Hash32,
    pub input: Vec<u8>,
    pub output: Payload,
}

/// The mathematical state of the bridge.
pub struct AnchorState {
    pub js_script_hash: Option<Hash32>,
    pub settings_hash: Option<Hash32>,
    pub queue_head: u32,
}

/// Whether a message carries the hashes that the bridge expects. A bridge
/// for which a hash has not been configured accepts no message.
pub open spec fn hashes_match(
    state: AnchorState,
    js_script_hash: Hash32,
    settings_hash: Hash32,
) -> bool {
    state.js_script_hash == Some(js_script_hash) && state.settings_hash == Some(settings_hash)
}

/// Outcome of moving the pointer to the processed messages to `id`.
pub open spec fn pop_outcome(
    state: AnchorState,
    id: u32,
) -> Result<AnchorState, RollupClientError> {
    if id < state.queue_head {
        Err(RollupClientError::InvalidPopTarget)
    } else {
        Ok(AnchorState { queue_head: id, ..state })
    }
}

/// A condition of a batch: the value that the key-value store holds for a
/// key, and the value that the batch expects it to hold.
#[derive(Debug)]
pub struct Condition {
    pub current: Option<Vec<u8>>,
    pub expected: Option<Vec<u8>>,
}

/// Whether a condition is met: both values are absent, or both are present
/// and hold the same bytes.
pub open spec fn condition_met(c: Condition) -> bool {
    match (c.current, c.expected) {
        (None, None) => true,
        (Some(a), Some(b)) => a@ == b@,
        _ => false,
    }
}

/// Whether two byte strings are the same.
pub fn same_bytes(a: &Vec<u8>, b: &Vec<u8>) -> (r: bool)
    ensures
        r == (a@ == b@),
{
    if a.len() != b.len() {
        return false;
    }
    let mut i: usize = 0;
    while i < a.len()
        invariant
            i <= a.len(),
            a.len() == b.len(),
            forall|j: int| 0 <= j < i ==> a@[j] == b@[j],
        decreases a.len() - i,
    {
        if a[i] != b[i] {
            return false;
        }
        i += 1;
    }
    assert(a@ =~= b@);
    true
}

/// Checks the conditions of a batch: fails with `CondNotMet` unless every
/// one is met.
pub fn check_conditions(conditions: &Vec<Condition>) -> (result: Result<(), RollupClientError>)
    ensures
        (forall|i: int| 0 <= i < conditions.len() ==> condition_met(#[trigger] conditions@[i]))
            ==> result is Ok,
        !(forall|i: int| 0 <= i < conditions.len() ==> condition_met(#[trigger] conditions@[i]))
            ==> result == Err::<(), RollupClientError>(RollupClientError::CondNotMet),
{
    let mut i: usize = 0;
    while i < conditions.len()
        invariant
            i <= conditions.len(),
            forall|j: int| 0 <= j < i ==> condition_met(#[trigger] conditions@[j]),
        decreases conditions.len() - i,
    {
        let met = match (&conditions[i].current, &conditions[i].expected) {
            (None, None) => true,
            (Some(a), Some(b)) => same_bytes(a, b),
            _ => false,
        };
        if !met {
            assert(!condition_met(conditions@[i as int]));
            return Err(RollupClientError::CondNotMet);
        }
        i += 1;
    }
    Ok(())
}

/// Whether two hashes are the same.
pub fn same_hash(a: &Hash32, b: &Hash32) -> (r: bool)
    ensures
        r == (*a == *b),
{
    let mut i: usize = 0;
    while i < 32
        invariant
            i <= 32,
            forall|j: int| 0 <= j < i ==> a[j] == b[j],
        decreases 32 - i,
    {
        if a[i] != b[i] {
            return false;
        }
        i += 1;
    }
    assert(*a =~= *b);
    true
}

/// Expected hashes and processed-message pointer of one bridge.
#[derive(Debug)]
pub struct RollupAnchorData {
    js_script_hash: Option<Hash32>,
    settings_hash: Option<Hash32>,
    queue_head: u32,
}

impl View for RollupAnchorData {
    type V = AnchorState;

    closed spec fn view(&self) -> AnchorState {
        AnchorState {
            js_script_hash: self.js_script_hash,
            settings_hash: self.settings_hash,
            queue_head: self.queue_head,
        }
    }
}

impl RollupAnchorData {
    /// A bridge without expected hashes, that has processed no message.
    pub fn new() -> (data: RollupAnchorData)
        ensures
            data@ == (AnchorState { js_script_hash: None, settings_hash: None, queue_head: 0 }),
    {
        RollupAnchorData { js_script_hash: None, settings_hash: None, queue_head: 0 }
    }

    /// The bridge that expects the given hashes and has processed the
    /// messages up to `queue_head`.
    pub fn restore(
        js_script_hash: Option<Hash32>,
        settings_hash: Option<Hash32>,
        queue_head: u32,
    ) -> (data: RollupAnchorData)
        ensures
            data@ == (AnchorState { js_script_hash, settings_hash, queue_head }),
    {
        RollupAnchorData { js_script_hash, settings_hash, queue_head }
    }

    /// A bridge in the same state.
    pub fn duplicate(&self) -> (data: RollupAnchorData)
        ensures
            data@ == self@,
    {
        RollupAnchorData {
            js_script_hash: self.js_script_hash,
            settings_hash: self.settings_hash,
            queue_head: self.queue_head,
        }
    }

    /// Sets the hash of the approved off-chain program.
    pub fn set_js_script_hash(&mut self, caller_is_manager: bool, hash: Hash32) -> (result: Result<
        (),
        RollupClientError,
    >)
        ensures
            caller_is_manager ==> result is Ok && final(self)@ == (AnchorState {
                js_script_hash: Some(hash),
                ..old(self)@
            }),
            !caller_is_manager ==> result == Err::<(), RollupClientError>(
                RollupClientError::AccessControlError(AccessControlError::MissingRole),
            ) && final(self)@ == old(self)@,
    {
        if !caller_is_manager {
            return Err(RollupClientError::AccessControlError(AccessControlError::MissingRole));
        }
        self.js_script_hash = Some(hash);
        Ok(())
    }

    /// Sets the hash of the approved settings of the off-chain program.
    pub fn set_settings_hash(&mut self, caller_is_manager: bool, hash: Hash32) -> (result: Result<
        (),
        RollupClientError,
    >)
        ensures
            caller_is_manager ==> result is Ok && final(self)@ == (AnchorState {
                settings_hash: Some(hash),
                ..old(self)@
            }),
            !caller_is_manager ==> result == Err::<(), RollupClientError>(
                RollupClientError::AccessControlError(AccessControlError::MissingRole),
            ) && final(self)@ == old(self)@,
    {
        if !caller_is_manager {
            return Err(RollupClientError::AccessControlError(AccessControlError::MissingRole));
        }
        self.settings_hash = Some(hash);
        Ok(())
    }

    /// The hash of the approved off-chain program, if configured.
    pub fn get_js_script_hash(&self) -> (hash: Option<Hash32>)
        ensures
            hash == self@.js_script_hash,
    {
        self.js_script_hash
    }

    /// The hash of the approved settings, if configured.
    pub fn get_settings_hash(&self) -> (hash: Option<Hash32>)
        ensures
            hash == self@.settings_hash,
    {
        self.settings_hash
    }

    /// The pointer to the processed messages.
    pub fn get_queue_head(&self) -> (id: u32)
        ensures
            id == self@.queue_head,
    {
        self.queue_head
    }

    /// Fails with `HashMismatch` unless the message carries both expected
    /// hashes.
    pub fn check_hashes(&self, envelope: &ResponseEnvelope) -> (result: Result<
        (),
        RollupClientError,
    >)
        ensures
            hashes_match(self@, envelope.js_script_hash, envelope.settings_hash) ==> result is Ok,
            !hashes_match(self@, envelope.js_script_hash, envelope.settings_hash) ==> result
                == Err::<(), RollupClientError>(RollupClientError::HashMismatch),
    {
        let js_ok = match &self.js_script_hash {
            Some(expected) => same_hash(expected, &envelope.js_script_hash),
            None => false,
        };
        let settings_ok = match &self.settings_hash {
            Some(expected) => same_hash(expected, &envelope.settings_hash),
            None => false,
        };
        if js_ok && settings_ok {
            Ok(())
        } else {
            Err(RollupClientError::HashMismatch)
        }
    }

    /// Moves the pointer to the processed messages to `id`. The pointer
    /// never moves backwards.
    pub fn pop_to(&mut self, id: u32) -> (result: Result<(), RollupClientError>)
        ensures
            match pop_outcome(old(self)@, id) {
                Ok(state) => result is Ok && final(self)@ == state,
                Err(e) => result == Err::<(), RollupClientError>(e) && final(self)@ == old(self)@,
            },
    {
        if id < self.queue_head {
            return Err(RollupClientError::InvalidPopTarget);
        }
        self.queue_head = id;
        Ok(())
    }
}

} // verus!
