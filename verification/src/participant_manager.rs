//! The participant store: a weighted list of raffle participants, held in a
//! fixed number of bounded shards that are filled from the left, with the
//! cumulative-weight lookup by which a winner is drawn.

use vstd::prelude::*;
use crate::account::{AccountId, Balance};
use crate::error::{AccessControlError, ParticipantManagerError};

verus! {

/// Identifier of the capability that guards changes to the participant store.
pub const PARTICIPANT_MANAGER: u32 = 2902811363;

/// Number of participants one shard can hold.
pub const MAX_PART_BY_VEC: usize = 150;

/// Number of shards.
pub const NB_SHARDS: usize = 6;

/// Number of participants the store can hold.
pub const MAX_PART: usize = MAX_PART_BY_VEC * 6;

/// One entry of the store. An account may have several entries; each is
/// drawn independently, with a chance proportional to its `value`.
#[derive(Clone, Copy, Debug)]
pub struct Participant {
    pub account: AccountId,
    pub value: Balance,
}

impl PartialEq for Participant {
    fn eq(&self, other: &Self) -> (r: bool) {
        self.account == other.account && self.value == other.value
    }
}

impl Eq for Participant {

}

impl vstd::std_specs::cmp::PartialEqSpecImpl for Participant {
    open spec fn obeys_eq_spec() -> bool {
        true
    }

    open spec fn eq_spec(&self, other: &Self) -> bool {
        *self == *other
    }
}

/// Total weight of the first `n` entries of `s` (of all of them, where `n`
/// exceeds their number).
pub open spec fn cumulative(s: Seq<Participant>, n: int) -> int
    decreases n,
{
    if n <= 0 {
        0
    } else if n > s.len() {
        cumulative(s, s.len() as int)
    } else {
        cumulative(s, n - 1) + s[n - 1].value
    }
}

/// Total weight of all entries of `s`.
pub open spec fn weight(s: Seq<Participant>) -> int {
    cumulative(s, s.len() as int)
}

/// The entries that a list of (account, weight) pairs stands for.
pub open spec fn entries(src: Seq<(AccountId, Balance)>) -> Seq<Participant> {
    Seq::new(src.len(), |i: int| Participant { account: src[i].0, value: src[i].1 })
}

/// Whether entry `i` of `s` is the one drawn by `value`: the first entry at
/// which the running total of the weights reaches `value`.
pub open spec fn is_selected(s: Seq<Participant>, value: Balance, i: int) -> bool {
    &&& 0 <= i < s.len()
    &&& cumulative(s, i + 1) >= value
    &&& (i == 0 || cumulative(s, i) < value)
}

/// Whether `r` is the result of drawing with `value` from `s`: the account of
/// the one entry that `value` selects, or nothing where `s` is empty or
/// `value` exceeds its total weight.
pub open spec fn drawn(s: Seq<Participant>, value: Balance, r: Option<AccountId>) -> bool {
    match r {
        Some(account) => exists|i: int| #[trigger] is_selected(s, value, i) && account == s[i].account,
        None => s.len() == 0 || weight(s) < value,
    }
}

/// The account that `value` draws from `s`, if it draws one.
pub open spec fn winner_of(s: Seq<Participant>, value: Balance) -> Option<AccountId> {
    if exists|i: int| #[trigger] is_selected(s, value, i) {
        Some(s[choose|i: int| #[trigger] is_selected(s, value, i)].account)
    } else {
        None
    }
}

/// A draw has one result.
pub proof fn lemma_drawn_is_winner(s: Seq<Participant>, value: Balance, r: Option<AccountId>)
    requires
        drawn(s, value, r),
    ensures
        r == winner_of(s, value),
{
    match r {
        Some(account) => {
            let i = choose|i: int| #[trigger] is_selected(s, value, i) && account == s[i].account;
            let j = choose|j: int| #[trigger] is_selected(s, value, j);
            lemma_selected_unique(s, value, i, j);
        },
        None => {
            if exists|i: int| #[trigger] is_selected(s, value, i) {
                let i = choose|i: int| #[trigger] is_selected(s, value, i);
                lemma_cumulative_monotonic(s, i + 1, s.len() as int);
            }
        },
    }
}

/// Cumulative weights never decrease.
pub proof fn lemma_cumulative_monotonic(s: Seq<Participant>, m: int, n: int)
    requires
        m <= n,
    ensures
        0 <= cumulative(s, m) <= cumulative(s, n),
    decreases n,
{
    if n <= 0 {
    } else if n > s.len() {
        if m > s.len() {
            lemma_cumulative_nonnegative(s, s.len() as int);
        } else {
            lemma_cumulative_monotonic(s, m, s.len() as int);
        }
    } else {
        if m < n {
            lemma_cumulative_monotonic(s, m, n - 1);
        } else {
            lemma_cumulative_nonnegative(s, n);
        }
    }
}

/// Cumulative weights are never negative.
pub proof fn lemma_cumulative_nonnegative(s: Seq<Participant>, n: int)
    ensures
        0 <= cumulative(s, n),
    decreases n,
{
    if n <= 0 {
    } else if n > s.len() {
        lemma_cumulative_nonnegative(s, s.len() as int);
    } else {
        lemma_cumulative_nonnegative(s, n - 1);
    }
}

/// The cumulative weight of the first `n` entries depends on those entries
/// alone.
pub proof fn lemma_cumulative_prefix(s: Seq<Participant>, t: Seq<Participant>, n: int)
    requires
        0 <= n <= s.len(),
        n <= t.len(),
        forall|i: int| 0 <= i < n ==> s[i] == t[i],
    ensures
        cumulative(s, n) == cumulative(t, n),
    decreases n,
{
    if n > 0 {
        lemma_cumulative_prefix(s, t, n - 1);
    }
}

/// Where `t` stands in `s` from position `at` on, the cumulative weights of
/// `s` past `at` are those of `t`, shifted.
pub proof fn lemma_cumulative_shift(s: Seq<Participant>, t: Seq<Participant>, at: int, j: int)
    requires
        0 <= at,
        0 <= j <= t.len(),
        at + t.len() <= s.len(),
        forall|i: int| 0 <= i < t.len() ==> s[at + i] == t[i],
    ensures
        cumulative(s, at + j) == cumulative(s, at) + cumulative(t, j),
    decreases j,
{
    if j > 0 {
        lemma_cumulative_shift(s, t, at, j - 1);
    }
}

/// The weight of a concatenation is the sum of the weights.
pub proof fn lemma_weight_concat(s: Seq<Participant>, t: Seq<Participant>)
    ensures
        weight(s + t) == weight(s) + weight(t),
{
    lemma_cumulative_prefix(s + t, s, s.len() as int);
    lemma_cumulative_shift(s + t, t, s.len() as int, t.len() as int);
}

/// At most one entry is drawn by a given value.
pub proof fn lemma_selected_unique(s: Seq<Participant>, value: Balance, i: int, j: int)
    requires
        is_selected(s, value, i),
        is_selected(s, value, j),
    ensures
        i == j,
{
    if i < j {
        lemma_cumulative_monotonic(s, i + 1, j);
    } else if j < i {
        lemma_cumulative_monotonic(s, j + 1, i);
    }
}

/// Selection is proportional to weight: the values from 1 on that select
/// entry `i` are those above the total weight of the entries before it, up
/// to that total plus its own weight. They are as many as its weight.
pub proof fn lemma_selection_is_proportional(s: Seq<Participant>, value: Balance, i: int)
    requires
        0 <= i < s.len(),
        value >= 1,
    ensures
        is_selected(s, value, i) <==> cumulative(s, i) < value <= cumulative(s, i) + s[i].value,
        cumulative(s, i + 1) == cumulative(s, i) + s[i].value,
{
}

/// Every value up to the total weight of a store that is not empty selects
/// an entry.
pub proof fn lemma_selection_exists(s: Seq<Participant>, value: Balance, n: int)
    requires
        0 < n <= s.len(),
        value <= cumulative(s, n),
    ensures
        exists|i: int| 0 <= i < n && #[trigger] is_selected(s, value, i),
    decreases n,
{
    if n == 1 {
        assert(is_selected(s, value, 0));
    } else if cumulative(s, n - 1) >= value {
        lemma_selection_exists(s, value, n - 1);
    } else {
        assert(is_selected(s, value, n - 1));
    }
}

/// Draws from one list: walks the entries, adding up their weights, and
/// returns the account of the first entry at which the running total reaches
/// `selected_value`.
pub fn select_winner_matching_value(participants: &Vec<Participant>, selected_value: Balance) -> (r:
    Option<AccountId>)
    ensures
        drawn(participants@, selected_value, r),
{
    let mut total_value: Balance = 0;
    let mut i: usize = 0;
    while i < participants.len()
        invariant
            i <= participants.len(),
            total_value == cumulative(participants@, i as int),
            i == 0 || total_value < selected_value,
        decreases participants.len() - i,
    {
        let participant = participants[i];
        match total_value.checked_add(participant.value) {
            Some(t) => {
                if t >= selected_value {
                    assert(is_selected(participants@, selected_value, i as int));
                    return Some(participant.account);
                }
                total_value = t;
            },
            None => {
                assert(is_selected(participants@, selected_value, i as int));
                return Some(participant.account);
            },
        }
        i += 1;
    }
    None
}

/// Moves entries of `src`, from position `index` on, to the end of `dest`
/// until `dest` is full or `src` is used up. Returns how many were moved and
/// their total weight.
pub fn push_participants(
    index: usize,
    src: &Vec<(AccountId, Balance)>,
    dest: &mut Vec<Participant>,
) -> (r: (usize, Balance))
    requires
        index <= src.len(),
        old(dest).len() <= MAX_PART_BY_VEC,
        weight(entries(src@)) <= u128::MAX,
    ensures
        r.0 == if src.len() - index <= MAX_PART_BY_VEC - old(dest).len() {
            src.len() - index
        } else {
            MAX_PART_BY_VEC - old(dest).len()
        },
        final(dest)@ == old(dest)@ + entries(src@).subrange(index as int, index + r.0),
        r.1 == weight(entries(src@).subrange(index as int, index + r.0)),
{
    let ghost all = entries(src@);
    let mut total_value: Balance = 0;
    let remaining_len = MAX_PART_BY_VEC - dest.len();
    let end_index = if remaining_len >= src.len() - index {
        src.len()
    } else {
        index + remaining_len
    };
    let mut i: usize = index;
    while i < end_index
        invariant
            index <= i <= end_index <= src.len(),
            all == entries(src@),
            weight(all) <= u128::MAX,
            dest@ == old(dest)@ + all.subrange(index as int, i as int),
            total_value == weight(all.subrange(index as int, i as int)),
        decreases end_index - i,
    {
        let (account, value) = src[i];
        proof {
            let before = all.subrange(index as int, i as int);
            let after = all.subrange(index as int, i + 1);
            assert(after.drop_last() =~= before);
            lemma_cumulative_prefix(after, before, before.len() as int);
            lemma_cumulative_shift(all, after, index as int, after.len() as int);
            lemma_cumulative_monotonic(all, i + 1, all.len() as int);
            lemma_cumulative_nonnegative(all, index as int);
            assert(dest@.push(Participant { account, value }) =~= old(dest)@ + after);
        }
        dest.push(Participant { account, value });
        total_value = total_value + value;
        i += 1;
    }
    (end_index - index, total_value)
}

/// The total weight of a list of (account, weight) pairs, or nothing where
/// it does not fit in 128 bits.
pub fn total_weight(src: &Vec<(AccountId, Balance)>) -> (r: Option<Balance>)
    ensures
        match r {
            Some(w) => w == weight(entries(src@)),
            None => weight(entries(src@)) > u128::MAX,
        },
{
    let ghost all = entries(src@);
    let mut total: Balance = 0;
    let mut i: usize = 0;
    while i < src.len()
        invariant
            i <= src.len(),
            all == entries(src@),
            total == cumulative(all, i as int),
        decreases src.len() - i,
    {
        match total.checked_add(src[i].1) {
            Some(t) => {
                total = t;
            },
            None => {
                proof {
                    lemma_cumulative_monotonic(all, i + 1, all.len() as int);
                }
                return None;
            },
        }
        i += 1;
    }
    Some(total)
}

/// Number of entries that shard `k` holds when the store holds `nb`: the
/// shards are filled from the left.
pub open spec fn shard_len(nb: int, k: int) -> int {
    if nb <= MAX_PART_BY_VEC * k {
        0
    } else if nb >= MAX_PART_BY_VEC * (k + 1) {
        MAX_PART_BY_VEC as int
    } else {
        nb - MAX_PART_BY_VEC * k
    }
}

/// One page of the store: page 0 is empty, page `k` holds the entries of
/// shard `k`, which are those from position `150 * (k - 1)` up to, and not
/// including, position `150 * k`, as far as the store has them.
pub open spec fn page_of(s: Seq<Participant>, page: int) -> Seq<Participant> {
    if page <= 0 {
        Seq::empty()
    } else {
        s.subrange(
            vstd::math::min(s.len() as int, MAX_PART_BY_VEC * (page - 1)),
            vstd::math::min(s.len() as int, MAX_PART_BY_VEC * page),
        )
    }
}

spec fn flat(shards: Seq<Vec<Participant>>, nb: int) -> Seq<Participant> {
    Seq::new(
        nb as nat,
        |i: int| shards[i / (MAX_PART_BY_VEC as int)]@[i % (MAX_PART_BY_VEC as int)],
    )
}

spec fn packed(shards: Seq<Vec<Participant>>, nb: int) -> bool {
    &&& shards.len() == NB_SHARDS
    &&& 0 <= nb <= MAX_PART
    &&& forall|k: int| 0 <= k < NB_SHARDS ==> (#[trigger] shards[k])@.len() == shard_len(nb, k)
}

spec fn totalled(shards: Seq<Vec<Participant>>, totals: Seq<Balance>) -> bool {
    &&& totals.len() == NB_SHARDS
    &&& forall|k: int| 0 <= k < NB_SHARDS ==> #[trigger] totals[k] == weight(shards[k]@)
}

proof fn lemma_shard_in_flat(shards: Seq<Vec<Participant>>, nb: int, k: int)
    requires
        packed(shards, nb),
        0 <= k < NB_SHARDS,
    ensures
        forall|j: int|
            0 <= j < shard_len(nb, k) ==> #[trigger] flat(shards, nb)[MAX_PART_BY_VEC * k + j]
                == shards[k]@[j],
        nb > MAX_PART_BY_VEC * k ==> MAX_PART_BY_VEC * k + shard_len(nb, k) <= nb,
{
    assert forall|j: int| 0 <= j < shard_len(nb, k) implies #[trigger] flat(
        shards,
        nb,
    )[MAX_PART_BY_VEC * k + j] == shards[k]@[j] by {
        let i = MAX_PART_BY_VEC * k + j;
        assert(i / 150 == k && i % 150 == j);
    }
}

proof fn lemma_shard_weight(shards: Seq<Vec<Participant>>, nb: int, k: int)
    requires
        packed(shards, nb),
        0 <= k < NB_SHARDS,
    ensures
        cumulative(flat(shards, nb), MAX_PART_BY_VEC * (k + 1)) == cumulative(
            flat(shards, nb),
            MAX_PART_BY_VEC * k,
        ) + weight(shards[k]@),
        0 <= weight(shards[k]@) <= weight(flat(shards, nb)),
        0 <= cumulative(flat(shards, nb), MAX_PART_BY_VEC * k),
        cumulative(flat(shards, nb), MAX_PART_BY_VEC * (k + 1)) <= weight(flat(shards, nb)),
{
    let f = flat(shards, nb);
    let sh = shards[k]@;
    let len = shard_len(nb, k);
    assert(sh.len() == len);
    lemma_shard_in_flat(shards, nb, k);
    lemma_cumulative_monotonic(f, 150 * k, 150 * (k + 1));
    lemma_cumulative_monotonic(f, 150 * (k + 1), 900);
    assert(cumulative(f, 900) == weight(f));
    if nb > 150 * k {
        lemma_cumulative_shift(f, sh, 150 * k, len);
    }
}

proof fn lemma_flat_weight(shards: Seq<Vec<Participant>>, totals: Seq<Balance>, nb: int)
    requires
        packed(shards, nb),
        totalled(shards, totals),
    ensures
        weight(flat(shards, nb)) == totals[0] + totals[1] + totals[2] + totals[3] + totals[4]
            + totals[5],
{
    let f = flat(shards, nb);
    lemma_shard_weight(shards, nb, 0);
    lemma_shard_weight(shards, nb, 1);
    lemma_shard_weight(shards, nb, 2);
    lemma_shard_weight(shards, nb, 3);
    lemma_shard_weight(shards, nb, 4);
    lemma_shard_weight(shards, nb, 5);
    assert(cumulative(f, 900) == weight(f));
}

/// The participants of one raffle.
#[derive(Debug)]
pub struct Data {
    nb_participants: u16,
    shards: Vec<Vec<Participant>>,
    totals: Vec<Balance>,
}

impl View for Data {
    type V = Seq<Participant>;

    /// All entries, in the order in which they were added.
    closed spec fn view(&self) -> Seq<Participant> {
        flat(self.shards@, self.nb_participants as int)
    }
}

/// Outcome of adding `participants` to a store that holds `s`.
pub open spec fn add_outcome(
    s: Seq<Participant>,
    caller_is_manager: bool,
    participants: Seq<(AccountId, Balance)>,
) -> Result<Seq<Participant>, ParticipantManagerError> {
    if !caller_is_manager {
        Err(ParticipantManagerError::AccessControlError(AccessControlError::MissingRole))
    } else if s.len() + participants.len() > MAX_PART {
        Err(ParticipantManagerError::MaxSizeExceeded)
    } else if weight(s) + weight(entries(participants)) > u128::MAX {
        Err(ParticipantManagerError::AddOverFlow)
    } else {
        Ok(s + entries(participants))
    }
}

impl Data {
    /// Well-formedness: the shards are filled from the left, each shard's
    /// running total is the weight of its entries, and the total weight fits
    /// in 128 bits.
    pub closed spec fn wf(&self) -> bool {
        &&& packed(self.shards@, self.nb_participants as int)
        &&& totalled(self.shards@, self.totals@)
        &&& weight(self@) <= u128::MAX
    }

    /// A well-formed store holds at most `MAX_PART` entries.
    pub proof fn lemma_bounded(&self)
        requires
            self.wf(),
        ensures
            self@.len() <= MAX_PART,
            0 <= weight(self@) <= u128::MAX,
    {
        lemma_cumulative_nonnegative(self@, self@.len() as int);
    }

    /// An empty store.
    pub fn new() -> (data: Data)
        ensures
            data.wf(),
            data@ == Seq::<Participant>::empty(),
    {
        let mut shards: Vec<Vec<Participant>> = Vec::new();
        let mut totals: Vec<Balance> = Vec::new();
        let mut k: usize = 0;
        while k < NB_SHARDS
            invariant
                k <= NB_SHARDS,
                shards.len() == k,
                totals.len() == k,
                forall|j: int| 0 <= j < k ==> (#[trigger] shards[j])@.len() == 0,
                forall|j: int| 0 <= j < k ==> #[trigger] totals[j] == 0,
            decreases NB_SHARDS - k,
        {
            shards.push(Vec::new());
            totals.push(0);
            k += 1;
        }
        let data = Data { nb_participants: 0, shards, totals };
        assert(data@ =~= Seq::<Participant>::empty());
        data
    }

    /// Number of entries.
    pub fn get_nb_participants(&self) -> (nb: u16)
        requires
            self.wf(),
        ensures
            nb == self@.len(),
    {
        self.nb_participants
    }

    /// Total weight of all entries.
    pub fn get_total_value(&self) -> (total: Balance)
        requires
            self.wf(),
        ensures
            total == weight(self@),
    {
        proof {
            lemma_flat_weight(self.shards@, self.totals@, self.nb_participants as int);
            lemma_cumulative_nonnegative(self@, self@.len() as int);
            lemma_shard_weight(self.shards@, self.nb_participants as int, 0);
            lemma_shard_weight(self.shards@, self.nb_participants as int, 1);
            lemma_shard_weight(self.shards@, self.nb_participants as int, 2);
            lemma_shard_weight(self.shards@, self.nb_participants as int, 3);
            lemma_shard_weight(self.shards@, self.nb_participants as int, 4);
            lemma_shard_weight(self.shards@, self.nb_participants as int, 5);
        }
        self.totals[0] + self.totals[1] + self.totals[2] + self.totals[3] + self.totals[4]
            + self.totals[5]
    }

    /// Draws a participant: walks the shards in order, keeping the running
    /// total of the weights passed, and within the shard whose range holds
    /// `value` returns the account of the first entry at which the running
    /// total reaches `value`.
    pub fn get_participant(&self, value: Balance) -> (r: Option<AccountId>)
        requires
            self.wf(),
        ensures
            drawn(self@, value, r),
            r == winner_of(self@, value),
    {
        let r = self.find_participant(value);
        proof {
            lemma_drawn_is_winner(self@, value, r);
        }
        r
    }

    fn find_participant(&self, value: Balance) -> (r: Option<AccountId>)
        requires
            self.wf(),
        ensures
            drawn(self@, value, r),
    {
        let ghost f = self@;
        let ghost nb = self.nb_participants as int;
        let mut from_value: Balance = 0;
        let mut k: usize = 0;
        while k < NB_SHARDS
            invariant
                k <= NB_SHARDS,
                self.wf(),
                f == self@,
                nb == self.nb_participants as int,
                from_value == cumulative(f, MAX_PART_BY_VEC * k),
                k == 0 || from_value < value,
            decreases NB_SHARDS - k,
        {
            proof {
                lemma_shard_weight(self.shards@, nb, k as int);
                lemma_shard_in_flat(self.shards@, nb, k as int);
            }
            let to_value = from_value + self.totals[k];
            if value <= to_value {
                let r = select_winner_matching_value(&self.shards[k], value - from_value);
                proof {
                    let sh = self.shards@[k as int]@;
                    match r {
                        Some(account) => {
                            let j = choose|j: int| #[trigger]
                                is_selected(sh, (value - from_value) as Balance, j) && account
                                    == sh[j].account;
                            lemma_cumulative_shift(f, sh, 150 * k, j);
                            lemma_cumulative_shift(f, sh, 150 * k, j + 1);
                            assert(is_selected(f, value, 150 * k + j));
                        },
                        None => {
                            assert(sh.len() == 0);
                            assert(nb <= 150 * k);
                            if k == 0 {
                                assert(f.len() == 0);
                            } else {
                                assert(weight(f) == from_value);
                            }
                        },
                    }
                }
                return r;
            }
            from_value = to_value;
            k += 1;
        }
        assert(cumulative(f, 900) == weight(f));
        None
    }

    /// The entries of one shard: page 0 is empty, pages 1 to `NB_SHARDS` are
    /// the shards in order.
    pub fn get_participants(
        &self,
        page: u8,
    ) -> (r: Result<Vec<Participant>, ParticipantManagerError>)
        requires
            self.wf(),
        ensures
            match r {
                Ok(v) => page <= NB_SHARDS && v@ == page_of(self@, page as int),
                Err(e) => page > NB_SHARDS && e == ParticipantManagerError::PageNotFound,
            },
    {
        if page == 0 {
            Ok(Vec::new())
        } else if page as usize <= NB_SHARDS {
            let k = (page - 1) as usize;
            let participants = self.shards[k].clone();
            proof {
                lemma_shard_in_flat(self.shards@, self.nb_participants as int, k as int);
                assert(participants@ =~= page_of(self@, page as int));
            }
            Ok(participants)
        } else {
            Err(ParticipantManagerError::PageNotFound)
        }
    }

    /// Adds participants at the end of the store: into the first shard that
    /// is not full, and on into the next ones as each fills up. A participant
    /// with a higher weight has a higher chance to be drawn. Either all of
    /// them are added or, on an error, none.
    pub fn add_participants(
        &mut self,
        caller_is_manager: bool,
        participants: Vec<(AccountId, Balance)>,
    ) -> (result: Result<(), ParticipantManagerError>)
        requires
            old(self).wf(),
        ensures
            final(self).wf(),
            match add_outcome(old(self)@, caller_is_manager, participants@) {
                Ok(s) => result is Ok && final(self)@ == s,
                Err(e) => result == Err::<(), ParticipantManagerError>(e) && final(self)@ == old(self)@,
            },
    {
        if !caller_is_manager {
            return Err(
                ParticipantManagerError::AccessControlError(AccessControlError::MissingRole),
            );
        }
        let mut nb_participants = self.nb_participants as usize;
        if participants.len() > MAX_PART - nb_participants {
            return Err(ParticipantManagerError::MaxSizeExceeded);
        }
        let added = match total_weight(&participants) {
            Some(added) => added,
            None => {
                proof {
                    lemma_cumulative_nonnegative(self@, self@.len() as int);
                }
                return Err(ParticipantManagerError::AddOverFlow);
            },
        };
        if self.get_total_value().checked_add(added).is_none() {
            return Err(ParticipantManagerError::AddOverFlow);
        }
        let ghost all = entries(participants@);
        let ghost before = self@;
        proof {
            lemma_cumulative_nonnegative(before, before.len() as int);
        }
        let mut index: usize = 0;
        while index < participants.len()
            invariant
                index <= participants.len(),
                all == entries(participants@),
                before == old(self)@,
                caller_is_manager,
                nb_participants == before.len() + index,
                before.len() + participants.len() <= MAX_PART,
                weight(before) + weight(all) <= u128::MAX,
                0 <= weight(all) <= u128::MAX,
                0 <= weight(before),
                packed(self.shards@, nb_participants as int),
                totalled(self.shards@, self.totals@),
                flat(self.shards@, nb_participants as int) == before + all.take(index as int),
            decreases participants.len() - index,
        {
            let k = nb_participants / MAX_PART_BY_VEC;
            let ghost shards_before = self.shards@;
            let ghost shard_before = self.shards@[k as int]@;
            assert(shard_before.len() == shard_len(nb_participants as int, k as int));
            let (inserted_participants, total_value) = push_participants(
                index,
                &participants,
                &mut self.shards[k],
            );
            let ghost moved = all.subrange(index as int, index + inserted_participants);
            let ghost nb_after = nb_participants + inserted_participants;
            proof {
                assert(self.shards@[k as int]@ == shard_before + moved);
                assert forall|m: int| 0 <= m < NB_SHARDS implies (#[trigger] self.shards@[m])@.len()
                    == shard_len(nb_after, m) by {
                    if m != k {
                        assert(self.shards@[m] == shards_before[m]);
                    }
                }
                assert(packed(self.shards@, nb_after));
                assert(flat(self.shards@, nb_after) =~= before + all.take(
                    index + inserted_participants,
                )) by {
                    let f0 = flat(shards_before, nb_participants as int);
                    let f1 = flat(self.shards@, nb_after);
                    let t = before + all.take(index + inserted_participants);
                    assert(f1.len() == t.len());
                    assert forall|i: int| 0 <= i < f1.len() implies f1[i] == t[i] by {
                        if i < nb_participants {
                            assert(f0[i] == (before + all.take(index as int))[i]);
                            if i / 150 != k {
                                assert(self.shards@[i / 150] == shards_before[i / 150]);
                            }
                        } else {
                            assert(i / 150 == k);
                            assert(i % 150 == shard_before.len() + (i - nb_participants));
                        }
                    }
                }
                lemma_weight_concat(shard_before, moved);
                lemma_shard_weight(self.shards@, nb_after, k as int);
                lemma_weight_concat(before, all.take(index + inserted_participants));
                lemma_cumulative_prefix(
                    all.take(index + inserted_participants),
                    all,
                    index + inserted_participants,
                );
                lemma_cumulative_monotonic(all, index + inserted_participants, all.len() as int);
            }
            let total = self.totals[k] + total_value;
            self.totals.set(k, total);
            proof {
                assert forall|m: int| 0 <= m < NB_SHARDS implies #[trigger] self.totals@[m] == weight(
                    self.shards@[m]@,
                ) by {
                    if m != k {
                        assert(self.shards@[m] == shards_before[m]);
                    }
                }
            }
            nb_participants = nb_participants + inserted_participants;
            index = index + inserted_participants;
        }
        self.nb_participants = nb_participants as u16;
        proof {
            assert(all.take(index as int) =~= all);
            lemma_weight_concat(before, all);
        }
        Ok(())
    }

    /// Removes every participant.
    pub fn clear_data(&mut self, caller_is_manager: bool) -> (result: Result<
        (),
        ParticipantManagerError,
    >)
        requires
            old(self).wf(),
        ensures
            final(self).wf(),
            caller_is_manager ==> result is Ok && final(self)@ == Seq::<Participant>::empty(),
            !caller_is_manager ==> result == Err::<(), ParticipantManagerError>(
                ParticipantManagerError::AccessControlError(AccessControlError::MissingRole),
            ) && final(self)@ == old(self)@,
    {
        if !caller_is_manager {
            return Err(
                ParticipantManagerError::AccessControlError(AccessControlError::MissingRole),
            );
        }
        let nb_participants = self.nb_participants as usize;
        let mut k: usize = 0;
        while k < NB_SHARDS
            invariant
                k <= NB_SHARDS,
                self.shards@.len() == NB_SHARDS,
                self.totals@.len() == NB_SHARDS,
                nb_participants <= MAX_PART,
                forall|m: int|
                    k <= m < NB_SHARDS ==> (#[trigger] self.shards@[m])@.len() == shard_len(
                        nb_participants as int,
                        m,
                    ),
                forall|m: int| 0 <= m < k ==> (#[trigger] self.shards@[m])@.len() == 0,
                forall|m: int| 0 <= m < k ==> #[trigger] self.totals@[m] == 0,
            decreases NB_SHARDS - k,
        {
            let ghost shards_before = self.shards@;
            if nb_participants > k * MAX_PART_BY_VEC {
                self.shards[k].clear();
            }
            self.totals.set(k, 0);
            proof {
                assert forall|m: int| k < m < NB_SHARDS implies (#[trigger] self.shards@[m])@.len()
                    == shard_len(nb_participants as int, m) by {
                    assert(self.shards@[m] == shards_before[m]);
                }
                assert forall|m: int| 0 <= m < k implies (#[trigger] self.shards@[m])@.len()
                    == 0 by {
                    assert(self.shards@[m] == shards_before[m]);
                }
            }
            k += 1;
        }
        self.nb_participants = 0;
        assert(self@ =~= Seq::<Participant>::empty());
        Ok(())
    }
}

} // verus!
