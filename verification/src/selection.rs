//! How winners are chosen from a giveaway's participants: pseudo-random
//! picks with linear probing, first-come, manual lists and merit ranking.

use vstd::prelude::*;
use crate::types::AccountId;

verus! {

broadcast use vstd::seq_lib::group_seq_properties;

/// Whether `accounts` holds `account`.
pub fn contains_account(accounts: &Vec<AccountId>, account: AccountId) -> (found: bool)
    ensures
        found == accounts@.contains(account),
{
    let mut i: usize = 0;
    while i < accounts.len()
        invariant
            i <= accounts.len(),
            forall|j: int| 0 <= j < i ==> accounts@[j] != account,
        decreases accounts.len() - i,
    {
        if accounts[i] == account {
            assert(accounts@[i as int] == account);
            return true;
        }
        i += 1;
    }
    false
}

/// Whether `indexes` holds `index`.
fn contains_index(indexes: &Vec<u32>, index: u32) -> (found: bool)
    ensures
        found == indexes@.contains(index),
{
    let mut k: usize = 0;
    while k < indexes.len()
        invariant
            k <= indexes.len(),
            forall|j: int| 0 <= j < k ==> indexes@[j] != index,
        decreases indexes.len() - k,
    {
        if indexes[k] == index {
            assert(indexes@[k as int] == index);
            return true;
        }
        k += 1;
    }
    false
}

/// Position of the first occurrence of `winner` in `winners`.
pub fn find_winner_index(winners: &Vec<AccountId>, winner: AccountId) -> (r: Option<u32>)
    requires
        winners.len() <= u32::MAX,
    ensures
        match r {
            Some(i) => {
                &&& i < winners.len()
                &&& winners@[i as int] == winner
                &&& forall|j: int| 0 <= j < i ==> winners@[j] != winner
            },
            None => !winners@.contains(winner),
        },
{
    let mut i: usize = 0;
    while i < winners.len()
        invariant
            i <= winners.len(),
            winners.len() <= u32::MAX,
            forall|j: int| 0 <= j < i ==> winners@[j] != winner,
        decreases winners.len() - i,
    {
        if winners[i] == winner {
            return Some(i as u32);
        }
        i += 1;
    }
    None
}

// ------------------------------------------------------------------------
// Pseudo-random selection
// ------------------------------------------------------------------------

/// Where the probe for the `i`-th pick starts: `seed + i` (wrapping at 2^64),
/// reduced modulo the number of participants.
pub open spec fn probe_start(seed: u64, i: int, total: int) -> int {
    ((seed + i) % 0x1_0000_0000_0000_0000) % total
}

/// Linear probing: starting at `index`, step forward (cyclically, modulo
/// `total`) until an index not yet `picked` is met, for at most `fuel` steps.
pub open spec fn probe(index: int, picked: Seq<u32>, total: int, fuel: nat) -> int
    decreases fuel,
{
    if fuel == 0 || !picked.contains(index as u32) {
        index
    } else {
        probe((index + 1) % total, picked, total, (fuel - 1) as nat)
    }
}

/// The first `n` participant indexes picked from `total` participants with `seed`.
pub open spec fn random_picks(seed: u64, total: int, n: nat) -> Seq<u32>
    decreases n,
{
    if n == 0 {
        Seq::empty()
    } else {
        let prev = random_picks(seed, total, (n - 1) as nat);
        prev.push(probe(probe_start(seed, n - 1, total), prev, total, total as nat) as u32)
    }
}

/// The slot a probe starting at `start` reaches after `j` steps.
pub open spec fn probe_slot(start: int, total: int, j: int) -> u32 {
    ((start + j) % total) as u32
}

/// The indexes reached by the first `k` steps of a probe starting at `start`.
pub open spec fn probe_span(start: int, total: int, k: nat) -> Set<u32>
    decreases k,
{
    if k == 0 {
        Set::empty()
    } else {
        probe_span(start, total, (k - 1) as nat).insert(probe_slot(start, total, k - 1))
    }
}

proof fn lemma_mod_steps_distinct(a: int, d: int, t: int)
    requires
        0 < d < t,
        a >= 0,
    ensures
        (a + d) % t != a % t,
{
    let x = a + d;
    let qx = x / t;
    let qa = a / t;
    vstd::arithmetic::div_mod::lemma_fundamental_div_mod(x, t);
    vstd::arithmetic::div_mod::lemma_fundamental_div_mod(a, t);
    if x % t == a % t {
        assert(d == t * (qx - qa)) by (nonlinear_arith)
            requires
                x == t * qx + x % t,
                a == t * qa + a % t,
                x % t == a % t,
                x == a + d,
        ;
        assert(false) by (nonlinear_arith)
            requires
                d == t * (qx - qa),
                0 < d < t,
        ;
    }
}

proof fn lemma_probe_span_len(start: int, total: int, k: nat)
    requires
        start >= 0,
        0 < total <= u32::MAX + 1,
        k <= total,
    ensures
        probe_span(start, total, k).finite(),
        probe_span(start, total, k).len() == k,
    decreases k,
{
    if k > 0 {
        lemma_probe_span_len(start, total, (k - 1) as nat);
        let x = probe_slot(start, total, k - 1);
        if probe_span(start, total, (k - 1) as nat).contains(x) {
            lemma_probe_span_members(start, total, (k - 1) as nat, x);
            let j = choose|j: int| 0 <= j < k - 1 && x == #[trigger] probe_slot(start, total, j);
            lemma_mod_steps_distinct(start + j, k - 1 - j, total);
            assert(false);
        }
    }
}

proof fn lemma_probe_span_members(start: int, total: int, k: nat, x: u32)
    requires
        start >= 0,
        0 < total,
        probe_span(start, total, k).contains(x),
    ensures
        exists|j: int| 0 <= j < k && x == #[trigger] probe_slot(start, total, j),
    decreases k,
{
    if k > 0 {
        if x != probe_slot(start, total, k - 1) {
            lemma_probe_span_members(start, total, (k - 1) as nat, x);
        }
    }
}

proof fn lemma_probe_span_subset(start: int, total: int, k: nat, picked: Seq<u32>)
    requires
        start >= 0,
        0 < total,
        forall|j: int| 0 <= j < k ==> picked.contains(#[trigger] probe_slot(start, total, j)),
    ensures
        probe_span(start, total, k).subset_of(picked.to_set()),
    decreases k,
{
    if k > 0 {
        lemma_probe_span_subset(start, total, (k - 1) as nat, picked);
        assert(picked.contains(probe_slot(start, total, k - 1)));
    }
}

/// Picks `target` distinct participant indexes out of `total` by linear probing
/// from `seed + i` for the `i`-th pick.
pub fn pick_random_indexes(seed: u64, total: u32, target: u32) -> (picked: Vec<u32>)
    requires
        0 < total,
        target <= total,
    ensures
        picked@ == random_picks(seed, total as int, target as nat),
{
    let mut selected: Vec<u32> = Vec::new();
    let mut i: u32 = 0;
    while i < target
        invariant
            0 < total,
            i <= target <= total,
            selected@ == random_picks(seed, total as int, i as nat),
            selected@.len() == i,
        decreases target - i,
    {
        let ghost start: int = probe_start(seed, i as int, total as int);
        let mut index: u32 = ((seed.wrapping_add(i as u64)) % (total as u64)) as u32;
        assert(index == start) by {
            assert(seed.wrapping_add(i as u64) == (seed + i) % 0x1_0000_0000_0000_0000);
        }
        proof {
            vstd::arithmetic::div_mod::lemma_small_mod(start as nat, total as nat);
        }
        let ghost mut steps: nat = 0;
        while contains_index(&selected, index)
            invariant
                0 < total,
                i < total,
                selected@.len() == i,
                0 <= start < total,
                index == (start + steps) % (total as int),
                steps <= i,
                forall|j: int|
                    0 <= j < steps ==> selected@.contains(
                        #[trigger] probe_slot(start, total as int, j),
                    ),
                probe(start, selected@, total as int, total as nat) == probe(
                    index as int,
                    selected@,
                    total as int,
                    (total - steps) as nat,
                ),
            decreases i - steps,
        {
            proof {
                let t = total as int;
                assert forall|j: int| 0 <= j < steps + 1 implies selected@.contains(
                    #[trigger] probe_slot(start, t, j),
                ) by {
                    if j == steps {
                        assert(selected@.contains(index));
                    }
                }
                lemma_probe_span_len(start, t, (steps + 1) as nat);
                lemma_probe_span_subset(start, t, (steps + 1) as nat, selected@);
                selected@.lemma_cardinality_of_set();
                vstd::set_lib::lemma_len_subset(
                    probe_span(start, t, (steps + 1) as nat),
                    selected@.to_set(),
                );
                vstd::arithmetic::div_mod::lemma_add_mod_noop(start + steps, 1, t);
                vstd::arithmetic::div_mod::lemma_small_mod(1, t as nat);
            }
            index = (index + 1) % total;
            proof {
                steps = steps + 1;
            }
        }
        proof {
            assert(!selected@.contains(index));
        }
        selected.push(index);
        i += 1;
    }
    selected
}

/// No index is picked twice, and every pick is a valid participant index.
pub proof fn lemma_random_picks_distinct_in_range(seed: u64, total: int, n: nat)
    requires
        0 < total <= u32::MAX + 1,
        n <= total,
    ensures
        random_picks(seed, total, n).len() == n,
        forall|k: int| 0 <= k < n ==> random_picks(seed, total, n)[k] < total,
        random_picks(seed, total, n).no_duplicates(),
    decreases n,
{
    if n > 0 {
        lemma_random_picks_distinct_in_range(seed, total, (n - 1) as nat);
        let prev = random_picks(seed, total, (n - 1) as nat);
        let start = probe_start(seed, n - 1, total);
        lemma_probe_finds_free(start, prev, total);
    }
}

/// A probe with a full cycle of fuel, over fewer picks than slots, always ends
/// on a slot that is not taken.
proof fn lemma_probe_finds_free(start: int, picked: Seq<u32>, total: int)
    requires
        0 <= start < total <= u32::MAX + 1,
        picked.len() < total,
    ensures
        0 <= probe(start, picked, total, total as nat) < total,
        !picked.contains(probe(start, picked, total, total as nat) as u32),
{
    vstd::arithmetic::div_mod::lemma_small_mod(start as nat, total as nat);
    lemma_probe_walk(start, picked, total, 0);
}

proof fn lemma_probe_walk(start: int, picked: Seq<u32>, total: int, steps: nat)
    requires
        0 <= start < total <= u32::MAX + 1,
        picked.len() < total,
        steps <= picked.len(),
        forall|j: int| 0 <= j < steps ==> picked.contains(#[trigger] probe_slot(start, total, j)),
    ensures
        0 <= probe(((start + steps) % total), picked, total, (total - steps) as nat) < total,
        !picked.contains(
            probe(((start + steps) % total), picked, total, (total - steps) as nat) as u32,
        ),
    decreases picked.len() - steps,
{
    let index = (start + steps) % total;
    if picked.contains(index as u32) {
        assert forall|j: int| 0 <= j < steps + 1 implies picked.contains(
            #[trigger] probe_slot(start, total, j),
        ) by {}
        lemma_probe_span_len(start, total, (steps + 1) as nat);
        lemma_probe_span_subset(start, total, (steps + 1) as nat, picked);
        picked.lemma_cardinality_of_set();
        vstd::set_lib::lemma_len_subset(probe_span(start, total, (steps + 1) as nat), picked.to_set());
        vstd::arithmetic::div_mod::lemma_add_mod_noop(start + steps, 1, total);
        vstd::arithmetic::div_mod::lemma_small_mod(1, total as nat);
        assert((index + 1) % total == (start + steps + 1) % total);
        lemma_probe_walk(start, picked, total, steps + 1);
    }
}

// ------------------------------------------------------------------------
// First-come and manual selection
// ------------------------------------------------------------------------

/// The first `winner_count` participants, in registration order.
pub fn select_first_come_winners(participants: &Vec<AccountId>, winner_count: u32) -> (winners:
    Vec<AccountId>)
    requires
        winner_count <= participants.len(),
    ensures
        winners@ == participants@.take(winner_count as int),
{
    let mut winners: Vec<AccountId> = Vec::new();
    let mut i: u32 = 0;
    while i < winner_count
        invariant
            i <= winner_count <= participants.len(),
            winners@ == participants@.take(i as int),
        decreases winner_count - i,
    {
        winners.push(participants[i as usize]);
        i += 1;
        assert(winners@ =~= participants@.take(i as int));
    }
    winners
}

/// Whether every proposed winner has entered the giveaway and none is named twice.
pub fn manual_winners_valid(participants: &Vec<AccountId>, winners: &Vec<AccountId>) -> (ok: bool)
    ensures
        ok == ((forall|k: int| 0 <= k < winners.len() ==> participants@.contains(winners@[k]))
            && winners@.no_duplicates()),
{
    let mut k: usize = 0;
    while k < winners.len()
        invariant
            k <= winners.len(),
            forall|m: int| 0 <= m < k ==> participants@.contains(winners@[m]),
        decreases winners.len() - k,
    {
        if !contains_account(participants, winners[k]) {
            return false;
        }
        k += 1;
    }
    let mut i: usize = 0;
    while i < winners.len()
        invariant
            i <= winners.len(),
            forall|m: int| 0 <= m < winners.len() ==> participants@.contains(winners@[m]),
            forall|a: int, b: int| 0 <= a < i && a < b < winners.len() ==> winners@[a] != winners@[b],
        decreases winners.len() - i,
    {
        let mut j: usize = i + 1;
        while j < winners.len()
            invariant
                i < winners.len(),
                i + 1 <= j <= winners.len(),
                forall|a: int, b: int|
                    0 <= a < i && a < b < winners.len() ==> winners@[a] != winners@[b],
                forall|b: int| i < b < j ==> winners@[i as int] != winners@[b],
            decreases winners.len() - j,
        {
            if winners[i] == winners[j] {
                return false;
            }
            j += 1;
        }
        i += 1;
    }
    true
}

// ------------------------------------------------------------------------
// Merit selection
// ------------------------------------------------------------------------

/// Inserts `entry` before the first entry of `ranked` with a strictly lower
/// reputation (after all entries with an equal or higher one).
pub open spec fn insert_by_reputation(ranked: Seq<(AccountId, u64)>, entry: (AccountId, u64)) -> Seq<
    (AccountId, u64),
>
    decreases ranked.len(),
{
    if ranked.len() == 0 {
        seq![entry]
    } else if entry.1 > ranked[0].1 {
        seq![entry] + ranked
    } else {
        seq![ranked[0]] + insert_by_reputation(ranked.drop_first(), entry)
    }
}

/// Participants ranked by reputation, highest first; among equal
/// reputations the earlier entrant comes first.
pub open spec fn merit_ranking(entries: Seq<(AccountId, u64)>) -> Seq<(AccountId, u64)>
    decreases entries.len(),
{
    if entries.len() == 0 {
        Seq::empty()
    } else {
        insert_by_reputation(merit_ranking(entries.drop_last()), entries.last())
    }
}

/// Reputations never increase along `ranked`.
pub open spec fn ranked_by_reputation(ranked: Seq<(AccountId, u64)>) -> bool {
    forall|a: int, b: int| 0 <= a < b < ranked.len() ==> ranked[a].1 >= ranked[b].1
}

#[verifier::spinoff_prover]
#[verifier::rlimit(40)]
proof fn lemma_insert_at_first_lower(ranked: Seq<(AccountId, u64)>, entry: (AccountId, u64), i: int)
    requires
        0 <= i <= ranked.len(),
        forall|j: int| 0 <= j < i ==> entry.1 <= ranked[j].1,
        i == ranked.len() || entry.1 > ranked[i].1,
    ensures
        insert_by_reputation(ranked, entry) == ranked.take(i) + seq![entry] + ranked.skip(i),
    decreases ranked.len(),
{
    if ranked.len() == 0 {
        assert(ranked.take(i) + seq![entry] + ranked.skip(i) =~= seq![entry]);
    } else if i == 0 {
        assert(ranked.take(i) + seq![entry] + ranked.skip(i) =~= seq![entry] + ranked);
    } else {
        let rest = ranked.drop_first();
        assert forall|j: int| 0 <= j < i - 1 implies entry.1 <= rest[j].1 by {
            assert(rest[j] == ranked[j + 1]);
        }
        lemma_insert_at_first_lower(rest, entry, i - 1);
        assert(seq![ranked[0]] + (rest.take(i - 1) + seq![entry] + rest.skip(i - 1)) =~= ranked.take(
            i,
        ) + seq![entry] + ranked.skip(i));
    }
}

proof fn lemma_insert_keeps_ranking(ranked: Seq<(AccountId, u64)>, entry: (AccountId, u64))
    requires
        ranked_by_reputation(ranked),
    ensures
        ranked_by_reputation(insert_by_reputation(ranked, entry)),
        insert_by_reputation(ranked, entry).to_multiset() == ranked.to_multiset().insert(entry),
        insert_by_reputation(ranked, entry).len() == ranked.len() + 1,
    decreases ranked.len(),
{
    broadcast use vstd::multiset::group_multiset_axioms;

    if ranked.len() == 0 {
        assert(seq![entry] =~= Seq::<(AccountId, u64)>::empty().push(entry));
    } else if entry.1 > ranked[0].1 {
        let r = seq![entry] + ranked;
        assert(r =~= ranked.insert(0, entry));
        vstd::seq_lib::to_multiset_insert(ranked, 0, entry);
    } else {
        let rest = ranked.drop_first();
        lemma_insert_keeps_ranking(rest, entry);
        let ins = insert_by_reputation(rest, entry);
        let r = seq![ranked[0]] + ins;
        assert(r =~= ins.insert(0, ranked[0]));
        vstd::seq_lib::to_multiset_insert(ins, 0, ranked[0]);
        assert(ranked =~= rest.insert(0, ranked[0]));
        vstd::seq_lib::to_multiset_insert(rest, 0, ranked[0]);
        assert(r.to_multiset() =~= ranked.to_multiset().insert(entry));
        assert forall|a: int, b: int| 0 <= a < b < r.len() implies r[a].1 >= r[b].1 by {
            if a == 0 {
                let x = r[b];
                assert(ins.to_multiset().count(x) > 0) by {
                    assert(ins[b - 1] == x);
                    vstd::seq_lib::to_multiset_contains(ins, x);
                }
                assert(rest.to_multiset().insert(entry).count(x) > 0);
                if x != entry {
                    assert(rest.to_multiset().count(x) > 0);
                    vstd::seq_lib::to_multiset_contains(rest, x);
                    let k = choose|k: int| 0 <= k < rest.len() && rest[k] == x;
                    assert(ranked[k + 1] == x);
                }
            } else {
                assert(r[a] == ins[a - 1] && r[b] == ins[b - 1]);
            }
        }
    }
}

/// The merit ranking holds every entry exactly as often as the input does, and
/// lists reputations from highest to lowest.
pub proof fn lemma_merit_ranking_sorted_permutation(entries: Seq<(AccountId, u64)>)
    ensures
        ranked_by_reputation(merit_ranking(entries)),
        merit_ranking(entries).to_multiset() == entries.to_multiset(),
        merit_ranking(entries).len() == entries.len(),
    decreases entries.len(),
{
    broadcast use vstd::multiset::group_multiset_axioms;

    if entries.len() == 0 {
        assert(merit_ranking(entries).to_multiset() =~= entries.to_multiset());
    } else {
        let init = entries.drop_last();
        lemma_merit_ranking_sorted_permutation(init);
        lemma_insert_keeps_ranking(merit_ranking(init), entries.last());
        assert(entries =~= init.push(entries.last()));
        vstd::seq_lib::to_multiset_build(init, entries.last());
    }
}

/// Pairs each participant with its reputation, in registration order.
pub open spec fn with_reputations(participants: Seq<AccountId>, reputations: Seq<u64>) -> Seq<
    (AccountId, u64),
> {
    Seq::new(participants.len(), |i: int| (participants[i], reputations[i]))
}

/// Ranks the participants by reputation, highest first, ties in registration order.
pub fn rank_by_reputation(participants: &Vec<AccountId>, reputations: &Vec<u64>) -> (ranked: Vec<
    (AccountId, u64),
>)
    requires
        participants.len() == reputations.len(),
    ensures
        ranked@ == merit_ranking(with_reputations(participants@, reputations@)),
{
    let ghost entries = with_reputations(participants@, reputations@);
    let mut sorted: Vec<(AccountId, u64)> = Vec::new();
    let mut n: usize = 0;
    while n < participants.len()
        invariant
            participants.len() == reputations.len(),
            entries == with_reputations(participants@, reputations@),
            n <= participants.len(),
            sorted@ == merit_ranking(entries.take(n as int)),
        decreases participants.len() - n,
    {
        let pr: (AccountId, u64) = (participants[n], reputations[n]);
        assert(entries.take(n + 1).drop_last() =~= entries.take(n as int));
        assert(entries.take(n + 1).last() == pr);
        let ghost before = sorted@;
        let mut inserted = false;
        let mut i: usize = 0;
        while i < sorted.len()
            invariant_except_break
                !inserted,
                sorted@ == before,
                i <= sorted.len(),
                forall|j: int| 0 <= j < i ==> pr.1 <= sorted@[j].1,
            ensures
                inserted ==> sorted@ == insert_by_reputation(before, pr),
                !inserted ==> sorted@ == before && forall|j: int|
                    0 <= j < sorted.len() ==> pr.1 <= sorted@[j].1,
            decreases sorted.len() - i,
        {
            let existing = sorted[i];
            if pr.1 > existing.1 {
                let mut temp: Vec<(AccountId, u64)> = Vec::new();
                let mut j: usize = 0;
                while j < i
                    invariant
                        j <= i < sorted.len(),
                        temp@ == sorted@.take(j as int),
                    decreases i - j,
                {
                    temp.push(sorted[j]);
                    j += 1;
                    assert(temp@ =~= sorted@.take(j as int));
                }
                temp.push(pr);
                let mut j: usize = i;
                while j < sorted.len()
                    invariant
                        i <= j <= sorted.len(),
                        temp@ == sorted@.take(i as int) + seq![pr] + sorted@.subrange(i as int, j as int),
                    decreases sorted.len() - j,
                {
                    temp.push(sorted[j]);
                    j += 1;
                    assert(temp@ =~= sorted@.take(i as int) + seq![pr] + sorted@.subrange(
                        i as int,
                        j as int,
                    ));
                }
                proof {
                    lemma_insert_at_first_lower(sorted@, pr, i as int);
                    assert(sorted@.subrange(i as int, sorted@.len() as int) =~= sorted@.skip(i as int));
                }
                sorted = temp;
                inserted = true;
                break;
            }
            i += 1;
        }
        if !inserted {
            proof {
                lemma_insert_at_first_lower(sorted@, pr, sorted@.len() as int);
                assert(sorted@.take(sorted@.len() as int) + seq![pr] + sorted@.skip(
                    sorted@.len() as int,
                ) =~= sorted@.push(pr));
            }
            sorted.push(pr);
        }
        n += 1;
    }
    assert(entries.take(participants.len() as int) =~= entries);
    sorted
}

/// The participants with the `winner_count` highest reputations, best first.
pub fn select_merit_winners(participants: &Vec<AccountId>, reputations: &Vec<u64>, winner_count: u32) -> (winners: Vec<AccountId>)
    requires
        participants.len() == reputations.len(),
        winner_count <= participants.len(),
    ensures
        winners@ == top_by_merit(participants@, reputations@, winner_count as int),
{
    let ranked = rank_by_reputation(participants, reputations);
    proof {
        lemma_merit_ranking_sorted_permutation(with_reputations(participants@, reputations@));
        assert(with_reputations(participants@, reputations@).len() == participants.len());
        assert(ranked.len() == participants.len());
    }
    let mut winners: Vec<AccountId> = Vec::new();
    let mut i: u32 = 0;
    while i < winner_count
        invariant
            i <= winner_count <= ranked.len(),
            winners@ == ranked@.take(i as int).map_values(|e: (AccountId, u64)| e.0),
        decreases winner_count - i,
    {
        winners.push(ranked[i as usize].0);
        i += 1;
        assert(winners@ =~= ranked@.take(i as int).map_values(|e: (AccountId, u64)| e.0));
    }
    winners
}

/// The participants at positions `indexes`.
pub open spec fn at_positions(participants: Seq<AccountId>, indexes: Seq<u32>) -> Seq<AccountId> {
    indexes.map_values(|i: u32| participants[i as int])
}

/// Distinct positions of distinct participants name distinct participants.
pub proof fn lemma_at_positions_distinct(participants: Seq<AccountId>, indexes: Seq<u32>)
    requires
        participants.no_duplicates(),
        indexes.no_duplicates(),
        forall|k: int| 0 <= k < indexes.len() ==> indexes[k] < participants.len(),
    ensures
        at_positions(participants, indexes).no_duplicates(),
        forall|k: int|
            0 <= k < indexes.len() ==> participants.contains(
                #[trigger] at_positions(participants, indexes)[k],
            ),
{
    let w = at_positions(participants, indexes);
    assert forall|k: int| 0 <= k < indexes.len() implies participants.contains(#[trigger] w[k]) by {
        assert(participants[indexes[k] as int] == w[k]);
    }
}

/// Participants named by `at_positions` over the pick sequence are collected one by one.
pub fn participants_at(participants: &Vec<AccountId>, indexes: &Vec<u32>) -> (named: Vec<AccountId>)
    requires
        forall|k: int| 0 <= k < indexes.len() ==> indexes@[k] < participants.len(),
    ensures
        named@ == at_positions(participants@, indexes@),
{
    let mut named: Vec<AccountId> = Vec::new();
    let mut k: usize = 0;
    while k < indexes.len()
        invariant
            k <= indexes.len(),
            forall|j: int| 0 <= j < indexes.len() ==> indexes@[j] < participants.len(),
            named@ == at_positions(participants@, indexes@.take(k as int)),
        decreases indexes.len() - k,
    {
        named.push(participants[indexes[k] as usize]);
        k += 1;
        assert(named@ =~= at_positions(participants@, indexes@.take(k as int)));
    }
    assert(indexes@.take(indexes.len() as int) =~= indexes@);
    named
}

/// The `n` participants ranked highest by reputation, best first.
pub open spec fn top_by_merit(participants: Seq<AccountId>, reputations: Seq<u64>, n: int) -> Seq<
    AccountId,
> {
    merit_ranking(with_reputations(participants, reputations)).take(n).map_values(
        |e: (AccountId, u64)| e.0,
    )
}

/// The merit winners are distinct participants.
pub proof fn lemma_merit_winners_distinct(participants: Seq<AccountId>, reputations: Seq<u64>, n: int)
    requires
        participants.no_duplicates(),
        participants.len() == reputations.len(),
        0 <= n <= participants.len(),
    ensures
        top_by_merit(participants, reputations, n).len() == n,
        top_by_merit(participants, reputations, n).no_duplicates(),
        forall|k: int|
            0 <= k < n ==> participants.contains(#[trigger] top_by_merit(participants, reputations, n)[k]),
{
    broadcast use vstd::multiset::group_multiset_axioms;

    let entries = with_reputations(participants, reputations);
    let ranked = merit_ranking(entries);
    let w = ranked.take(n).map_values(|e: (AccountId, u64)| e.0);
    lemma_merit_ranking_sorted_permutation(entries);
    assert(entries.no_duplicates()) by {
        assert forall|i: int, j: int|
            0 <= i < entries.len() && 0 <= j < entries.len() && i != j implies entries[i]
            != entries[j] by {
            assert(entries[i].0 == participants[i]);
            assert(entries[j].0 == participants[j]);
        }
    }
    entries.lemma_multiset_has_no_duplicates();
    assert forall|x: (AccountId, u64)| ranked.to_multiset().contains(x) implies ranked.to_multiset().count(
        x,
    ) == 1 by {
        assert(entries.to_multiset().contains(x));
    }
    ranked.lemma_multiset_has_no_duplicates_conv();
    assert forall|k: int| 0 <= k < ranked.len() implies exists|i: int|
        0 <= i < entries.len() && entries[i] == #[trigger] ranked[k] by {
        vstd::seq_lib::to_multiset_contains(ranked, ranked[k]);
        vstd::seq_lib::to_multiset_contains(entries, ranked[k]);
    }
    assert forall|k: int| 0 <= k < n implies participants.contains(#[trigger] w[k]) by {
        let i = choose|i: int| 0 <= i < entries.len() && entries[i] == ranked[k];
        assert(participants[i] == w[k]);
    }
    assert forall|a: int, b: int| 0 <= a < n && 0 <= b < n && a != b implies w[a] != w[b] by {
        let i = choose|i: int| 0 <= i < entries.len() && entries[i] == ranked[a];
        let j = choose|j: int| 0 <= j < entries.len() && entries[j] == ranked[b];
        if w[a] == w[b] {
            assert(participants[i] == participants[j]);
            assert(i == j);
            assert(ranked[a] == ranked[b]);
        }
    }
}

/// Merit selection is fair: every winner has at least the reputation of
/// every participant who did not win.
pub proof fn lemma_merit_winners_outrank_losers(
    participants: Seq<AccountId>,
    reputations: Seq<u64>,
    n: int,
    k: int,
    winner_index: int,
    loser_index: int,
)
    requires
        participants.no_duplicates(),
        participants.len() == reputations.len(),
        0 <= n <= participants.len(),
        0 <= k < n,
        0 <= winner_index < participants.len(),
        participants[winner_index] == top_by_merit(participants, reputations, n)[k],
        0 <= loser_index < participants.len(),
        !top_by_merit(participants, reputations, n).contains(participants[loser_index]),
    ensures
        reputations[winner_index] >= reputations[loser_index],
{
    let entries = with_reputations(participants, reputations);
    let ranked = merit_ranking(entries);
    let w = top_by_merit(participants, reputations, n);
    lemma_merit_ranking_sorted_permutation(entries);
    // The winner's entry is the `k`-th of the ranking.
    vstd::seq_lib::to_multiset_contains(ranked, ranked[k]);
    vstd::seq_lib::to_multiset_contains(entries, ranked[k]);
    let j = choose|j: int| 0 <= j < entries.len() && entries[j] == ranked[k];
    assert(participants[j] == w[k]);
    assert(j == winner_index);
    // The loser's entry sits somewhere in the ranking, after the winners.
    let e = entries[loser_index];
    assert(entries.contains(e));
    vstd::seq_lib::to_multiset_contains(entries, e);
    vstd::seq_lib::to_multiset_contains(ranked, e);
    let m = choose|m: int| 0 <= m < ranked.len() && ranked[m] == e;
    if m < n {
        assert(w[m] == participants[loser_index]);
        assert(w.contains(participants[loser_index]));
    }
    assert(ranked[k].1 >= ranked[m].1);
}

} // verus!
