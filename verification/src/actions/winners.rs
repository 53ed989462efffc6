//! Choosing the winners of a batch from the tallies of its members.
//!
//! The members are ranked by tally, highest first; of two members with the
//! same tally the one that joined the batch earlier comes first. The first
//! `max_winners` of that ranking win.

use vstd::prelude::*;
use vstd::relations::injective_on;
use vstd::set_lib::{
    lemma_int_range,
    lemma_len_subset,
    lemma_map_size,
    lemma_subset_equality,
    set_int_range,
};

use crate::Balance;

verus! {

/// Whether member `j` comes before member `i` in the ranking: a higher tally,
/// or the same tally and an earlier place in the batch.
pub open spec fn outranks(tallies: Seq<Balance>, j: int, i: int) -> bool {
    tallies[j] > tallies[i] || (tallies[j] == tallies[i] && j < i)
}

/// How many of the first `n` members come before member `i` in the ranking.
pub open spec fn outranking_among(tallies: Seq<Balance>, i: int, n: int) -> nat
    decreases n,
{
    if n <= 0 {
        0
    } else {
        outranking_among(tallies, i, n - 1) + if outranks(tallies, n - 1, i) {
            1nat
        } else {
            0nat
        }
    }
}

/// The place of member `i` in the ranking, from 0 for the first.
pub open spec fn rank(tallies: Seq<Balance>, i: int) -> nat {
    outranking_among(tallies, i, tallies.len() as int)
}

/// Whether member `i` is among the first `max_winners` of the ranking.
pub open spec fn is_winner(tallies: Seq<Balance>, max_winners: u8, i: int) -> bool {
    rank(tallies, i) < max_winners
}

/// The positions of the winners.
pub open spec fn winner_set(tallies: Seq<Balance>, max_winners: u8) -> Set<int> {
    Set::new(|i: int| 0 <= i < tallies.len() && is_winner(tallies, max_winners, i))
}

/// Says of each member whether it wins: the flag at position `i` is set
/// exactly when fewer than `max_winners` members come before member `i` in the
/// ranking.
pub fn select_winners(tallies: &Vec<Balance>, max_winners: u8) -> (flags: Vec<bool>)
    ensures
        flags@.len() == tallies@.len(),
        forall|i: int|
            0 <= i < tallies@.len() ==> flags@[i] == is_winner(tallies@, max_winners, i),
{
    let n = tallies.len();
    let mut flags: Vec<bool> = Vec::new();
    let mut i: usize = 0;
    while i < n
        invariant
            n == tallies@.len(),
            i <= n,
            flags@.len() == i,
            forall|k: int| 0 <= k < i ==> flags@[k] == is_winner(tallies@, max_winners, k),
        decreases n - i,
    {
        let mut before: usize = 0;
        let mut j: usize = 0;
        while j < n
            invariant
                n == tallies@.len(),
                i < n,
                j <= n,
                before == outranking_among(tallies@, i as int, j as int),
                before <= j,
            decreases n - j,
        {
            if tallies[j] > tallies[i] || (tallies[j] == tallies[i] && j < i) {
                before = before + 1;
            }
            j = j + 1;
        }
        flags.push(before < max_winners as usize);
        i = i + 1;
    }
    flags
}

/// Of two different members one comes before the other.
pub proof fn lemma_outranks_total(tallies: Seq<Balance>, a: int, b: int)
    requires
        a != b,
    ensures
        outranks(tallies, a, b) || outranks(tallies, b, a),
{
}

/// A member that comes before another has the smaller rank.
pub proof fn lemma_rank_follows_order(tallies: Seq<Balance>, a: int, b: int)
    requires
        0 <= a < tallies.len(),
        0 <= b < tallies.len(),
        outranks(tallies, a, b),
    ensures
        rank(tallies, a) < rank(tallies, b),
{
    lemma_outranking_among_follows_order(tallies, a, b, tallies.len() as int);
}

proof fn lemma_outranking_among_follows_order(tallies: Seq<Balance>, a: int, b: int, n: int)
    requires
        0 <= a < tallies.len(),
        0 <= b < tallies.len(),
        0 <= n <= tallies.len(),
        outranks(tallies, a, b),
    ensures
        outranking_among(tallies, a, n) <= outranking_among(tallies, b, n),
        a < n ==> outranking_among(tallies, a, n) < outranking_among(tallies, b, n),
    decreases n,
{
    if n > 0 {
        lemma_outranking_among_follows_order(tallies, a, b, n - 1);
    }
}

/// The rank of a member is less than the number of members.
pub proof fn lemma_rank_in_range(tallies: Seq<Balance>, i: int)
    requires
        0 <= i < tallies.len(),
    ensures
        rank(tallies, i) < tallies.len(),
{
    lemma_outranking_among_bound(tallies, i, tallies.len() as int);
}

proof fn lemma_outranking_among_bound(tallies: Seq<Balance>, i: int, n: int)
    requires
        0 <= i < tallies.len(),
        0 <= n <= tallies.len(),
    ensures
        outranking_among(tallies, i, n) <= n,
        i < n ==> outranking_among(tallies, i, n) < n,
    decreases n,
{
    if n > 0 {
        lemma_outranking_among_bound(tallies, i, n - 1);
    }
}

/// At most `max_winners` members win.
pub proof fn lemma_winners_at_most_max(tallies: Seq<Balance>, max_winners: u8)
    ensures
        winner_set(tallies, max_winners).finite(),
        winner_set(tallies, max_winners).len() <= max_winners,
        winner_set(tallies, max_winners).len() <= tallies.len(),
{
    let winners = winner_set(tallies, max_winners);
    let n = tallies.len() as int;
    lemma_int_range(0, n);
    assert(winners.subset_of(set_int_range(0, n)));
    lemma_len_subset(winners, set_int_range(0, n));
    let place = |i: int| rank(tallies, i) as int;
    assert(injective_on(place, winners)) by {
        assert forall|a: int, b: int|
            winners.contains(a) && winners.contains(b) && #[trigger] place(a) == #[trigger] place(
                b,
            ) implies a == b by {
            if a != b {
                lemma_outranks_total(tallies, a, b);
                if outranks(tallies, a, b) {
                    lemma_rank_follows_order(tallies, a, b);
                } else {
                    lemma_rank_follows_order(tallies, b, a);
                }
            }
        }
    }
    let places = winners.map(place);
    lemma_map_size(winners, places, place);
    lemma_int_range(0, max_winners as int);
    assert(places.subset_of(set_int_range(0, max_winners as int))) by {
        assert forall|p: int| places.contains(p) implies set_int_range(
            0,
            max_winners as int,
        ).contains(p) by {
            let i = choose|i: int| winners.contains(i) && place(i) == p;
            assert(is_winner(tallies, max_winners, i));
        }
    }
    lemma_len_subset(places, set_int_range(0, max_winners as int));
}

/// Every place of the ranking is taken: for each place below the number of
/// members there is a member with that rank.
pub proof fn lemma_every_rank_is_taken(tallies: Seq<Balance>, place: int) -> (member: int)
    requires
        0 <= place < tallies.len(),
    ensures
        0 <= member < tallies.len(),
        rank(tallies, member) == place,
{
    let n = tallies.len() as int;
    let members = set_int_range(0, n);
    let place_of = |i: int| rank(tallies, i) as int;
    lemma_int_range(0, n);
    assert(injective_on(place_of, members)) by {
        assert forall|a: int, b: int|
            members.contains(a) && members.contains(b) && #[trigger] place_of(a)
                == #[trigger] place_of(b) implies a == b by {
            if a != b {
                lemma_outranks_total(tallies, a, b);
                if outranks(tallies, a, b) {
                    lemma_rank_follows_order(tallies, a, b);
                } else {
                    lemma_rank_follows_order(tallies, b, a);
                }
            }
        }
    }
    let places = members.map(place_of);
    lemma_map_size(members, places, place_of);
    assert(places.subset_of(members)) by {
        assert forall|p: int| places.contains(p) implies members.contains(p) by {
            let i = choose|i: int| members.contains(i) && place_of(i) == p;
            lemma_rank_in_range(tallies, i);
        }
    }
    lemma_subset_equality(places, members);
    assert(places.contains(place));
    choose|i: int| members.contains(i) && place_of(i) == place
}

/// As many members win as can: `max_winners` of them, or all where there are
/// fewer.
pub proof fn lemma_winner_count(tallies: Seq<Balance>, max_winners: u8)
    ensures
        winner_set(tallies, max_winners).finite(),
        winner_set(tallies, max_winners).len() == if max_winners <= tallies.len() {
            max_winners as nat
        } else {
            tallies.len()
        },
{
    let winners = winner_set(tallies, max_winners);
    let n = tallies.len() as int;
    let count = if max_winners <= n {
        max_winners as int
    } else {
        n
    };
    lemma_winners_at_most_max(tallies, max_winners);
    let place_of = |i: int| rank(tallies, i) as int;
    assert(injective_on(place_of, winners)) by {
        assert forall|a: int, b: int|
            winners.contains(a) && winners.contains(b) && #[trigger] place_of(a)
                == #[trigger] place_of(b) implies a == b by {
            if a != b {
                lemma_outranks_total(tallies, a, b);
                if outranks(tallies, a, b) {
                    lemma_rank_follows_order(tallies, a, b);
                } else {
                    lemma_rank_follows_order(tallies, b, a);
                }
            }
        }
    }
    let places = winners.map(place_of);
    lemma_map_size(winners, places, place_of);
    lemma_int_range(0, count);
    assert(places =~= set_int_range(0, count)) by {
        assert forall|p: int| set_int_range(0, count).contains(p) implies places.contains(p) by {
            let member = lemma_every_rank_is_taken(tallies, p);
            assert(winners.contains(member));
            assert(place_of(member) == p);
        }
        assert forall|p: int| places.contains(p) implies set_int_range(0, count).contains(p) by {
            let i = choose|i: int| winners.contains(i) && place_of(i) == p;
            lemma_rank_in_range(tallies, i);
        }
    }
}

/// Every winner comes before every member that does not win: it has the
/// higher tally, or the same tally and the earlier place in the batch.
pub proof fn lemma_winners_outrank_the_rest(
    tallies: Seq<Balance>,
    max_winners: u8,
    winner: int,
    other: int,
)
    requires
        0 <= winner < tallies.len(),
        0 <= other < tallies.len(),
        is_winner(tallies, max_winners, winner),
        !is_winner(tallies, max_winners, other),
    ensures
        outranks(tallies, winner, other),
        tallies[winner] >= tallies[other],
{
    if !outranks(tallies, winner, other) {
        lemma_outranks_total(tallies, winner, other);
        lemma_rank_follows_order(tallies, other, winner);
    }
}

} // verus!
