//! The byte encoding shared with the off-chain programs: integers least
//! significant byte first, lengths in compact form, lists as their length
//! followed by their items.

use parity_scale_codec::{Decode, Encode};
use vstd::prelude::*;
use crate::account::AccountId;
use crate::message::le_u32;

verus! {

/// The `n` low bytes of `x`, least significant first.
pub open spec fn le_bytes(x: nat, n: nat) -> Seq<u8>
    decreases n,
{
    if n == 0 {
        Seq::empty()
    } else {
        seq![(x % 256) as u8] + le_bytes(x / 256, (n - 1) as nat)
    }
}

/// The compact form of a length: one, two or four bytes that hold the
/// length above two bits that tell the form, or a marker byte followed by
/// the length in four bytes.
pub open spec fn compact_bytes(n: u32) -> Seq<u8> {
    if n <= 0x3f {
        le_bytes((n * 4) as nat, 1)
    } else if n <= 0x3fff {
        le_bytes((n * 4 + 1) as nat, 2)
    } else if n <= 0x3fff_ffff {
        le_bytes((n * 4 + 2) as nat, 4)
    } else {
        seq![3u8] + le_bytes(n as nat, 4)
    }
}

/// The bytes of a list of 32-byte arrays, one array after the other.
pub open spec fn array_bytes(arrays: Seq<[u8; 32]>) -> Seq<u8>
    decreases arrays.len(),
{
    if arrays.len() == 0 {
        Seq::empty()
    } else {
        array_bytes(arrays.drop_last()) + arrays.last()@
    }
}

/// The encoding of a list of 32-byte arrays: its length in compact form,
/// then the arrays.
pub open spec fn encoded_arrays(arrays: Seq<[u8; 32]>) -> Seq<u8> {
    compact_bytes(arrays.len() as u32) + array_bytes(arrays)
}

/// The encoding of a list of accounts: that of their identifiers' bytes.
pub open spec fn encoded_accounts(accounts: Seq<AccountId>) -> Seq<u8> {
    encoded_arrays(Seq::new(accounts.len(), |i: int| accounts[i].bytes))
}

/// Encodes `x` with `parity_scale_codec::Encode::encode` for `u32`, which
/// writes the four bytes of `x`, least significant first.
#[verifier::external_body]
pub(crate) fn encode_u32(x: u32) -> (bytes: Vec<u8>)
    ensures
        bytes@ == le_bytes(x as nat, 4),
{
    x.encode()
}

/// Encodes `x` with `parity_scale_codec::Encode::encode` for `u16`, which
/// writes the two bytes of `x`, least significant first.
#[verifier::external_body]
pub(crate) fn encode_u16(x: u16) -> (bytes: Vec<u8>)
    ensures
        bytes@ == le_bytes(x as nat, 2),
{
    x.encode()
}

/// Decodes a `u32` with `parity_scale_codec::Decode::decode` from a byte
/// slice: the number that the first four bytes stand for, least significant
/// first, whatever follows them; an error where there are fewer than four.
#[verifier::external_body]
pub(crate) fn decode_u32(bytes: &Vec<u8>) -> (x: Option<u32>)
    ensures
        match x {
            Some(x) => bytes.len() >= 4 && x == le_u32(bytes@, 0),
            None => bytes.len() < 4,
        },
{
    u32::decode(&mut bytes.as_slice()).ok()
}

/// Encodes a list of 32-byte arrays with
/// `parity_scale_codec::Encode::encode` for a vector, which writes the
/// length in compact form and then the bytes of each array. The codec
/// panics on a list of more than `u32::MAX` items.
#[verifier::external_body]
pub(crate) fn encode_arrays(arrays: &Vec<[u8; 32]>) -> (bytes: Vec<u8>)
    requires
        arrays.len() <= u32::MAX,
    ensures
        bytes@ == encoded_arrays(arrays@),
{
    arrays.encode()
}

/// Encodes a list of accounts, or gives nothing where they are too many
/// for their number to be written.
pub fn encode_accounts(accounts: &Vec<AccountId>) -> (r: Option<Vec<u8>>)
    ensures
        match r {
            Some(bytes) => accounts.len() <= u32::MAX && bytes@ == encoded_accounts(accounts@),
            None => accounts.len() > u32::MAX,
        },
{
    if accounts.len() > 0xffff_ffff {
        return None;
    }
    let mut arrays: Vec<[u8; 32]> = Vec::new();
    let mut i: usize = 0;
    while i < accounts.len()
        invariant
            i <= accounts.len(),
            arrays@ == Seq::new(i as nat, |j: int| accounts@[j].bytes),
        decreases accounts.len() - i,
    {
        arrays.push(accounts[i].bytes);
        assert(arrays@ =~= Seq::new((i + 1) as nat, |j: int| accounts@[j].bytes));
        i += 1;
    }
    Some(encode_arrays(&arrays))
}

/// Appends the `n` low bytes of `x`, least significant first.
pub fn push_le_bytes(out: &mut Vec<u8>, x: u128, n: usize)
    ensures
        final(out)@ == old(out)@ + le_bytes(x as nat, n as nat),
{
    let mut v = x;
    let mut i: usize = 0;
    while i < n
        invariant
            i <= n,
            out@ + le_bytes(v as nat, (n - i) as nat) == old(out)@ + le_bytes(x as nat, n as nat),
        decreases n - i,
    {
        let ghost before = out@;
        out.push((v % 256) as u8);
        proof {
            assert(before + le_bytes(v as nat, (n - i) as nat) =~= before.push((v % 256) as u8)
                + le_bytes((v / 256) as nat, (n - i - 1) as nat));
        }
        v = v / 256;
        i += 1;
    }
    assert(out@ + le_bytes(v as nat, 0) =~= out@);
}

/// Appends the compact form of the length `n`.
pub fn push_compact(out: &mut Vec<u8>, n: u32)
    ensures
        final(out)@ == old(out)@ + compact_bytes(n),
{
    if n <= 0x3f {
        push_le_bytes(out, (n * 4) as u128, 1);
    } else if n <= 0x3fff {
        push_le_bytes(out, (n * 4 + 1) as u128, 2);
    } else if n <= 0x3fff_ffff {
        push_le_bytes(out, (n * 4 + 2) as u128, 4);
    } else {
        out.push(3);
        push_le_bytes(out, n as u128, 4);
        assert(out@ =~= old(out)@ + compact_bytes(n));
    }
}

/// Appends `bytes`.
pub fn push_all(out: &mut Vec<u8>, bytes: &[u8])
    ensures
        final(out)@ == old(out)@ + bytes@,
{
    let mut i: usize = 0;
    while i < bytes.len()
        invariant
            i <= bytes.len(),
            out@ == old(out)@ + bytes@.take(i as int),
        decreases bytes.len() - i,
    {
        out.push(bytes[i]);
        assert(out@ =~= old(out)@ + bytes@.take(i + 1));
        i += 1;
    }
    assert(bytes@.take(i as int) =~= bytes@);
}

/// Four bytes written least significant first read back as the number
/// they were written for.
pub proof fn lemma_u32_round_trip(x: u32)
    ensures
        le_bytes(x as nat, 4).len() == 4,
        le_u32(le_bytes(x as nat, 4), 0) == x,
{
    reveal_with_fuel(le_bytes, 5);
    let b = le_bytes(x as nat, 4);
    let x0 = x as nat;
    let x1 = x0 / 256;
    let x2 = x1 / 256;
    let x3 = x2 / 256;
    assert(b =~= seq![(x0 % 256) as u8, (x1 % 256) as u8, (x2 % 256) as u8, (x3 % 256) as u8]);
    assert(x3 < 256);
}

} // verus!
