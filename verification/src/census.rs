//! Votes and voters, counted.
//!
//! A ballot is counted for one candidate and marks one voter, so in every
//! state that calls can lead to there are as many votes as marked voters.

use crate::model::{Call, Ledger};
use crate::rules::{has_voted, Text};
use vstd::prelude::*;
use vstd::set_lib::lemma_set_subset_finite;

verus! {

/// Adds the votes of one candidate to a sum.
pub open spec fn add_votes_of(tallies: Map<Text, nat>) -> spec_fn(nat, Text) -> nat {
    |sum: nat, candidate: Text| sum + tallies[candidate]
}

/// The votes of the given candidates, added up.
pub open spec fn votes_among(candidates: Set<Text>, tallies: Map<Text, nat>) -> nat {
    candidates.fold(0nat, add_votes_of(tallies))
}

/// The voters whose stored flag says that they have cast a ballot.
pub open spec fn marked_among(voter_status: Map<Text, bool>) -> Set<Text> {
    Set::new(|voter: Text| has_voted(voter_status.get(voter)))
}

impl Ledger {
    /// All votes counted since the last reset.
    pub open spec fn total_votes(self) -> nat {
        votes_among(self.tallies.dom(), self.tallies)
    }

    /// The voters who have cast a ballot since the last reset.
    pub open spec fn marked_voters(self) -> Set<Text> {
        marked_among(self.voter_status)
    }

    /// The round holds finitely many entries, and as many votes as marked
    /// voters.
    pub open spec fn balanced(self) -> bool {
        &&& self.tallies.dom().finite()
        &&& self.voter_status.dom().finite()
        &&& self.total_votes() == self.marked_voters().len()
    }
}

/// The sum over a set of candidates depends only on their own tallies.
proof fn lemma_votes_among_same_tallies(
    candidates: Set<Text>,
    tallies: Map<Text, nat>,
    others: Map<Text, nat>,
)
    requires
        candidates.finite(),
        forall|candidate: Text|
            candidates.contains(candidate) ==> tallies[candidate] == others[candidate],
    ensures
        votes_among(candidates, tallies) == votes_among(candidates, others),
    decreases candidates.len(),
{
    broadcast use vstd::set::fold::lemma_fold_insert, vstd::set::fold::lemma_fold_empty;

    if candidates.is_empty() {
        assert(candidates =~= Set::empty());
    } else {
        let one = candidates.choose();
        let rest = candidates.remove(one);
        assert(candidates =~= rest.insert(one));
        assert(vstd::set::fold::is_fun_commutative(add_votes_of(tallies)));
        assert(vstd::set::fold::is_fun_commutative(add_votes_of(others)));
        lemma_votes_among_same_tallies(rest, tallies, others);
        assert(rest.insert(one).fold(0nat, add_votes_of(tallies)) == add_votes_of(tallies)(
            rest.fold(0nat, add_votes_of(tallies)),
            one,
        ));
        assert(rest.insert(one).fold(0nat, add_votes_of(others)) == add_votes_of(others)(
            rest.fold(0nat, add_votes_of(others)),
            one,
        ));
    }
}

/// One vote more for one candidate is one vote more in all.
proof fn lemma_one_vote_more(ledger: Ledger, candidate: Text, voter: Text)
    requires
        ledger.tallies.dom().finite(),
    ensures
        ledger.count_vote(candidate, voter).total_votes() == ledger.total_votes() + 1,
        ledger.count_vote(candidate, voter).tallies.dom().finite(),
{
    broadcast use vstd::set::fold::lemma_fold_insert;

    let before = ledger.tallies;
    let after = ledger.count_vote(candidate, voter).tallies;
    let rest = before.dom().remove(candidate);
    assert(after.dom() =~= rest.insert(candidate));
    assert(vstd::set::fold::is_fun_commutative(add_votes_of(before)));
    assert(vstd::set::fold::is_fun_commutative(add_votes_of(after)));
    lemma_votes_among_same_tallies(rest, before, after);
    assert(rest.insert(candidate).fold(0nat, add_votes_of(after)) == add_votes_of(after)(
        rest.fold(0nat, add_votes_of(after)),
        candidate,
    ));
    if before.contains_key(candidate) {
        assert(before.dom() =~= rest.insert(candidate));
        assert(rest.insert(candidate).fold(0nat, add_votes_of(before)) == add_votes_of(before)(
            rest.fold(0nat, add_votes_of(before)),
            candidate,
        ));
    } else {
        assert(before.dom() =~= rest);
    }
}

/// Marking a voter who was not marked is one marked voter more.
proof fn lemma_one_voter_more(ledger: Ledger, candidate: Text, voter: Text)
    requires
        ledger.voter_status.dom().finite(),
        !ledger.voted(voter),
    ensures
        ledger.count_vote(candidate, voter).marked_voters().len() == ledger.marked_voters().len()
            + 1,
        ledger.count_vote(candidate, voter).voter_status.dom().finite(),
{
    let before = ledger.marked_voters();
    let after = ledger.count_vote(candidate, voter).marked_voters();
    assert(before.subset_of(ledger.voter_status.dom()));
    lemma_set_subset_finite(ledger.voter_status.dom(), before);
    assert(after =~= before.insert(voter));
}

/// One call keeps the balance of votes and marked voters.
pub proof fn law_call_keeps_balance(ledger: Ledger, call: Call)
    requires
        ledger.balanced(),
    ensures
        ledger.after(call).balanced(),
{
    broadcast use vstd::set::fold::lemma_fold_empty;

    match call {
        Call::SetGreeting { .. } => {},
        Call::SetCandidates { .. } => {},
        Call::VoteForCandidate { candidate, voter, submitted } => {
            if ledger.verdict(candidate, voter, submitted) is Ok {
                lemma_one_vote_more(ledger, candidate, voter);
                lemma_one_voter_more(ledger, candidate, voter);
            }
        },
        Call::ResetVotes => {
            assert(ledger.reset_votes().tallies.dom() =~= Set::empty());
            assert(ledger.reset_votes().voter_status.dom() =~= Set::empty());
            assert(ledger.reset_votes().marked_voters() =~= Set::empty());
        },
    }
}

/// One vote per voter: whatever was called since the ledger was made, the
/// votes of all candidates together are as many as the voters who are marked.
pub proof fn law_as_many_votes_as_voters(calls: Seq<Call>)
    ensures
        Ledger::empty().after_all(calls).balanced(),
    decreases calls.len(),
{
    broadcast use vstd::set::fold::lemma_fold_empty;

    if calls.len() == 0 {
        assert(Ledger::empty().tallies.dom() =~= Set::empty());
        assert(Ledger::empty().voter_status.dom() =~= Set::empty());
        assert(Ledger::empty().marked_voters() =~= Set::empty());
    } else {
        law_as_many_votes_as_voters(calls.drop_last());
        law_call_keeps_balance(Ledger::empty().after_all(calls.drop_last()), calls.last());
    }
}

} // verus!
