//! The messages exchanged with the oracle, and their wire format: fields in
//! order; integers little-endian; a boolean as one byte, 0 or 1; a list as
//! its length in compact form followed by its items; an account as its 32
//! bytes.

use vstd::prelude::*;
use crate::account::{AccountId, Balance};

verus! {

/// What the oracle is asked: the winners of `era`.
#[derive(Debug)]
pub struct RaffleRequestMessage {
    pub era: u32,
    pub nb_winners: u16,
    pub excluded: Vec<AccountId>,
}

/// What the oracle answers: the era is skipped, or these winners share
/// these rewards.
#[derive(Debug)]
pub struct RaffleResponseMessage {
    pub era: u32,
    pub skipped: bool,
    pub rewards: Balance,
    pub winners: Vec<AccountId>,
}

/// The mathematical value of a request.
pub struct RequestView {
    pub era: u32,
    pub nb_winners: u16,
    pub excluded: Seq<AccountId>,
}

/// The mathematical value of a response.
pub struct ResponseView {
    pub era: u32,
    pub skipped: bool,
    pub rewards: Balance,
    pub winners: Seq<AccountId>,
}

impl View for RaffleRequestMessage {
    type V = RequestView;

    open spec fn view(&self) -> RequestView {
        RequestView { era: self.era, nb_winners: self.nb_winners, excluded: self.excluded@ }
    }
}

impl View for RaffleResponseMessage {
    type V = ResponseView;

    open spec fn view(&self) -> ResponseView {
        ResponseView {
            era: self.era,
            skipped: self.skipped,
            rewards: self.rewards,
            winners: self.winners@,
        }
    }
}

/// The number that the two bytes from `at` on stand for, least significant
/// first.
pub open spec fn le_u16(b: Seq<u8>, at: int) -> int {
    b[at] + 0x100 * b[at + 1]
}

/// The number that the four bytes from `at` on stand for, least significant
/// first.
pub open spec fn le_u32(b: Seq<u8>, at: int) -> int {
    b[at] + 0x100 * b[at + 1] + 0x1_0000 * b[at + 2] + 0x100_0000 * b[at + 3]
}

/// The number that the eight bytes from `at` on stand for, least
/// significant first.
pub open spec fn le_u64(b: Seq<u8>, at: int) -> int {
    le_u32(b, at) + 0x1_0000_0000 * le_u32(b, at + 4)
}

/// The number that the sixteen bytes from `at` on stand for, least
/// significant first.
pub open spec fn le_u128(b: Seq<u8>, at: int) -> int {
    le_u64(b, at) + 0x1_0000_0000_0000_0000 * le_u64(b, at + 8)
}

/// A length in compact form at position `at`: the length and the number of
/// bytes it takes. The two low bits of the first byte select the form: one
/// byte, two bytes, four bytes, or a marker byte followed by four bytes; the
/// other bits hold the length. A length written in a longer form than it
/// needs is refused.
pub open spec fn compact_len(b: Seq<u8>, at: int) -> Option<(int, int)> {
    if at >= b.len() {
        None
    } else if b[at] % 4 == 0 {
        Some((b[at] as int / 4, 1))
    } else if b[at] % 4 == 1 {
        if at + 2 <= b.len() && le_u16(b, at) / 4 > 0x3f {
            Some((le_u16(b, at) / 4, 2))
        } else {
            None
        }
    } else if b[at] % 4 == 2 {
        if at + 4 <= b.len() && le_u32(b, at) / 4 > 0x3fff {
            Some((le_u32(b, at) / 4, 4))
        } else {
            None
        }
    } else {
        if b[at] as int / 4 == 0 && at + 5 <= b.len() && le_u32(b, at + 1) > 0x3fff_ffff {
            Some((le_u32(b, at + 1), 5))
        } else {
            None
        }
    }
}

/// The account whose 32 bytes stand at position `at`.
pub open spec fn account_at(b: Seq<u8>, at: int) -> AccountId {
    AccountId { bytes: array_of(b.subrange(at, at + 32)) }
}

/// The array that holds the 32 bytes of `s`.
pub open spec fn array_of(s: Seq<u8>) -> [u8; 32] {
    choose|a: [u8; 32]| a@ == s
}

/// A list of accounts at position `at`: its length in compact form, then
/// the accounts.
pub open spec fn accounts_at(b: Seq<u8>, at: int) -> Option<Seq<AccountId>> {
    match compact_len(b, at) {
        None => None,
        Some((n, used)) => if at + used + 32 * n <= b.len() {
            Some(Seq::new(n as nat, |i: int| account_at(b, at + used + 32 * i)))
        } else {
            None
        },
    }
}

/// The response that `b` starts with, if it starts with one.
pub open spec fn parse_response(b: Seq<u8>) -> Option<ResponseView> {
    if b.len() < 21 || b[4] > 1 {
        None
    } else {
        match accounts_at(b, 21) {
            None => None,
            Some(winners) => Some(
                ResponseView {
                    era: le_u32(b, 0) as u32,
                    skipped: b[4] == 1,
                    rewards: le_u128(b, 5) as u128,
                    winners,
                },
            ),
        }
    }
}

/// The request that `b` starts with, if it starts with one.
pub open spec fn parse_request(b: Seq<u8>) -> Option<RequestView> {
    if b.len() < 6 {
        None
    } else {
        match accounts_at(b, 6) {
            None => None,
            Some(excluded) => Some(
                RequestView { era: le_u32(b, 0) as u32, nb_winners: le_u16(b, 4) as u16, excluded },
            ),
        }
    }
}

fn read_u16(b: &Vec<u8>, at: usize) -> (r: u16)
    requires
        at + 2 <= b.len(),
    ensures
        r == le_u16(b@, at as int),
{
    b[at] as u16 + 0x100 * (b[at + 1] as u16)
}

fn read_u32(b: &Vec<u8>, at: usize) -> (r: u32)
    requires
        at + 4 <= b.len(),
    ensures
        r == le_u32(b@, at as int),
{
    b[at] as u32 + 0x100 * (b[at + 1] as u32) + 0x1_0000 * (b[at + 2] as u32) + 0x100_0000 * (b[at
        + 3] as u32)
}

fn read_u64(b: &Vec<u8>, at: usize) -> (r: u64)
    requires
        at + 8 <= b.len(),
    ensures
        r == le_u64(b@, at as int),
{
    read_u32(b, at) as u64 + 0x1_0000_0000 * (read_u32(b, at + 4) as u64)
}

fn read_u128(b: &Vec<u8>, at: usize) -> (r: u128)
    requires
        at + 16 <= b.len(),
    ensures
        r == le_u128(b@, at as int),
{
    read_u64(b, at) as u128 + 0x1_0000_0000_0000_0000 * (read_u64(b, at + 8) as u128)
}

fn read_compact_len(b: &Vec<u8>, at: usize) -> (r: Option<(u32, usize)>)
    ensures
        match r {
            Some((n, used)) => compact_len(b@, at as int) == Some((n as int, used as int)) && at
                + used <= b.len(),
            None => compact_len(b@, at as int) is None,
        },
{
    if at >= b.len() {
        return None;
    }
    let prefix = b[at];
    let mode = prefix % 4;
    if mode == 0 {
        Some(((prefix / 4) as u32, 1))
    } else if mode == 1 {
        if b.len() - at < 2 {
            return None;
        }
        let x = read_u16(b, at) / 4;
        if x > 0x3f {
            Some((x as u32, 2))
        } else {
            None
        }
    } else if mode == 2 {
        if b.len() - at < 4 {
            return None;
        }
        let x = read_u32(b, at) / 4;
        if x > 0x3fff {
            Some((x, 4))
        } else {
            None
        }
    } else {
        if prefix / 4 != 0 || b.len() - at < 5 {
            return None;
        }
        let x = read_u32(b, at + 1);
        if x > 0x3fff_ffff {
            Some((x, 5))
        } else {
            None
        }
    }
}

fn read_account(b: &Vec<u8>, at: usize) -> (r: AccountId)
    requires
        at + 32 <= b.len(),
    ensures
        r == account_at(b@, at as int),
{
    let mut bytes = [0u8; 32];
    let mut i: usize = 0;
    while i < 32
        invariant
            i <= 32,
            at + 32 <= b.len(),
            forall|j: int| 0 <= j < i ==> bytes[j] == b@[at + j],
        decreases 32 - i,
    {
        bytes[i] = b[at + i];
        i += 1;
    }
    proof {
        let s = b@.subrange(at as int, at + 32);
        assert(bytes@ =~= s);
        let chosen = array_of(s);
        assert(chosen@ == s);
        assert(chosen =~= bytes);
    }
    AccountId { bytes }
}

fn read_accounts(b: &Vec<u8>, at: usize) -> (r: Option<Vec<AccountId>>)
    ensures
        match r {
            Some(v) => accounts_at(b@, at as int) == Some(v@),
            None => accounts_at(b@, at as int) is None,
        },
{
    let (n, used) = match read_compact_len(b, at) {
        Some(found) => found,
        None => {
            return None;
        },
    };
    let start = at + used;
    let available = b.len() - start;
    if ((available / 32) as u64) < (n as u64) {
        return None;
    }
    let count = n as usize;
    let mut accounts: Vec<AccountId> = Vec::new();
    let mut i: usize = 0;
    while i < count
        invariant
            i <= count,
            start + 32 * count <= b.len(),
            accounts@ == Seq::new(i as nat, |j: int| account_at(b@, start + 32 * j)),
        decreases count - i,
    {
        let account = read_account(b, start + 32 * i);
        accounts.push(account);
        assert(accounts@ =~= Seq::new((i + 1) as nat, |j: int| account_at(b@, start + 32 * j)));
        i += 1;
    }
    Some(accounts)
}

/// Reads the response that `bytes` starts with. What follows it is ignored.
pub fn decode_response(bytes: &Vec<u8>) -> (r: Option<RaffleResponseMessage>)
    ensures
        match r {
            Some(m) => parse_response(bytes@) == Some(m@),
            None => parse_response(bytes@) is None,
        },
{
    if bytes.len() < 21 {
        return None;
    }
    let era = read_u32(bytes, 0);
    let flag = bytes[4];
    if flag > 1 {
        return None;
    }
    let rewards = read_u128(bytes, 5);
    match read_accounts(bytes, 21) {
        Some(winners) => Some(RaffleResponseMessage { era, skipped: flag == 1, rewards, winners }),
        None => None,
    }
}

/// Reads the request that `bytes` starts with. What follows it is ignored.
pub fn decode_request(bytes: &Vec<u8>) -> (r: Option<RaffleRequestMessage>)
    ensures
        match r {
            Some(m) => parse_request(bytes@) == Some(m@),
            None => parse_request(bytes@) is None,
        },
{
    if bytes.len() < 6 {
        return None;
    }
    let era = read_u32(bytes, 0);
    let nb_winners = read_u16(bytes, 4);
    match read_accounts(bytes, 6) {
        Some(excluded) => Some(RaffleRequestMessage { era, nb_winners, excluded }),
        None => None,
    }
}

} // verus!
