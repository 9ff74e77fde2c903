//! The ledger as a mathematical value, and what each call makes of it.
//!
//! The five mappings are independent: no entry of one refers to an entry of
//! another, and what relates them is only that they share key strings.

use crate::rules::{ballot_verdict, greeting_of, has_voted, secret_of, Text, VoteError};
use vstd::prelude::*;

verus! {

/// The state of the ledger.
pub struct Ledger {
    /// The last greeting that each account stored.
    pub greetings: Map<Text, Text>,
    /// The names that were registered as candidates.
    pub valid_candidates: Map<Text, bool>,
    /// The secret that a ballot for each candidate must carry.
    pub secrets: Map<Text, Text>,
    /// The votes counted for each candidate since the last reset.
    pub tallies: Map<Text, nat>,
    /// Whether each voter has cast a ballot since the last reset.
    pub voter_status: Map<Text, bool>,
}

/// The last position at which `name` stands in `names`, or -1 where it does
/// not occur.
pub open spec fn last_position(names: Seq<Text>, name: Text) -> int
    decreases names.len(),
{
    if names.len() == 0 {
        -1
    } else if names.last() == name {
        names.len() - 1
    } else {
        last_position(names.drop_last(), name)
    }
}

impl Ledger {
    /// The ledger in which nothing was ever stored.
    pub open spec fn empty() -> Ledger {
        Ledger {
            greetings: Map::empty(),
            valid_candidates: Map::empty(),
            secrets: Map::empty(),
            tallies: Map::empty(),
            voter_status: Map::empty(),
        }
    }

    /// The greeting of `account`.
    pub open spec fn greeting(self, account: Text) -> Text {
        greeting_of(self.greetings.get(account))
    }

    /// The votes counted for `candidate`.
    pub open spec fn votes_for(self, candidate: Text) -> nat {
        match self.tallies.get(candidate) {
            Some(votes) => votes,
            None => 0,
        }
    }

    /// Whether `voter` has cast a ballot since the last reset.
    pub open spec fn voted(self, voter: Text) -> bool {
        has_voted(self.voter_status.get(voter))
    }

    /// Whether `name` was registered as a candidate.
    pub open spec fn is_candidate(self, name: Text) -> bool {
        self.valid_candidates.get(name) == Some(true)
    }

    /// The secret that a ballot for `candidate` must carry.
    pub open spec fn secret(self, candidate: Text) -> Text {
        secret_of(self.secrets.get(candidate))
    }

    /// The outcome of a ballot of `voter` for `candidate` in this state.
    pub open spec fn verdict(self, candidate: Text, voter: Text, submitted: Text) -> Result<
        (),
        VoteError,
    > {
        ballot_verdict(self.voter_status.get(voter), self.secrets.get(candidate), submitted)
    }

    /// `caller` stores `message`; an earlier greeting of `caller` is lost.
    pub open spec fn set_greeting(self, caller: Text, message: Text) -> Ledger {
        Ledger { greetings: self.greetings.insert(caller, message), ..self }
    }

    /// One candidate is registered; an earlier secret of that name is lost.
    pub open spec fn register(self, name: Text, secret: Text) -> Ledger {
        Ledger {
            valid_candidates: self.valid_candidates.insert(name, true),
            secrets: self.secrets.insert(name, secret),
            ..self
        }
    }

    /// Every name in `names` is registered, each with the secret at its own
    /// position; of a name that stands there more than once, the last
    /// position counts.
    pub open spec fn set_candidates(self, names: Seq<Text>, secrets: Seq<Text>) -> Ledger {
        Ledger {
            valid_candidates: Map::new(
                |name: Text| names.contains(name) || self.valid_candidates.contains_key(name),
                |name: Text|
                    if names.contains(name) {
                        true
                    } else {
                        self.valid_candidates[name]
                    },
            ),
            secrets: Map::new(
                |name: Text| names.contains(name) || self.secrets.contains_key(name),
                |name: Text|
                    if names.contains(name) {
                        secrets[last_position(names, name)]
                    } else {
                        self.secrets[name]
                    },
            ),
            ..self
        }
    }

    /// One vote more for `candidate`, and `voter` is marked.
    pub open spec fn count_vote(self, candidate: Text, voter: Text) -> Ledger {
        Ledger {
            tallies: self.tallies.insert(candidate, self.votes_for(candidate) + 1),
            voter_status: self.voter_status.insert(voter, true),
            ..self
        }
    }

    /// A ballot is cast: counted where the verdict accepts it, and without
    /// any effect where it does not.
    pub open spec fn vote_for_candidate(
        self,
        candidate: Text,
        voter: Text,
        submitted: Text,
    ) -> Ledger {
        if self.verdict(candidate, voter, submitted) is Ok {
            self.count_vote(candidate, voter)
        } else {
            self
        }
    }

    /// A new round: no votes and no voters; greetings and candidates stay.
    pub open spec fn reset_votes(self) -> Ledger {
        Ledger { tallies: Map::empty(), voter_status: Map::empty(), ..self }
    }
}

/// One call of the ledger, with what it was given.
pub enum Call {
    /// `caller` stores `message` as its greeting.
    SetGreeting { caller: Text, message: Text },
    /// The names are registered as candidates, each with its secret.
    SetCandidates { names: Seq<Text>, secrets: Seq<Text> },
    /// `voter` casts a ballot for `candidate` that carries `submitted`.
    VoteForCandidate { candidate: Text, voter: Text, submitted: Text },
    /// A new round begins.
    ResetVotes,
}

impl Call {
    /// Whether this call stores a greeting for `account`.
    pub open spec fn stores_greeting_of(self, account: Text) -> bool {
        self matches Call::SetGreeting { caller, .. } && caller == account
    }

    /// Whether this call casts a ballot for `candidate`, accepted or not.
    pub open spec fn is_ballot_for(self, candidate: Text) -> bool {
        self matches Call::VoteForCandidate { candidate: named, .. } && named == candidate
    }
}

impl Ledger {
    /// The state after one call. Reading calls change nothing, so they are
    /// no calls here.
    pub open spec fn after(self, call: Call) -> Ledger {
        match call {
            Call::SetGreeting { caller, message } => self.set_greeting(caller, message),
            Call::SetCandidates { names, secrets } => self.set_candidates(names, secrets),
            Call::VoteForCandidate { candidate, voter, submitted } => self.vote_for_candidate(
                candidate,
                voter,
                submitted,
            ),
            Call::ResetVotes => self.reset_votes(),
        }
    }

    /// The state after a sequence of calls, the first of them first.
    pub open spec fn after_all(self, calls: Seq<Call>) -> Ledger
        decreases calls.len(),
    {
        if calls.len() == 0 {
            self
        } else {
            self.after_all(calls.drop_last()).after(calls.last())
        }
    }
}

/// Registering the first `done + 1` names is registering the first `done`
/// and then the one that follows them.
pub proof fn lemma_set_candidates_next(
    ledger: Ledger,
    names: Seq<Text>,
    secrets: Seq<Text>,
    done: int,
)
    requires
        0 <= done < names.len(),
    ensures
        ledger.set_candidates(names.take(done + 1), secrets) == ledger.set_candidates(
            names.take(done),
            secrets,
        ).register(names[done], secrets[done]),
{
    let before = names.take(done);
    let after = names.take(done + 1);
    assert(after.drop_last() =~= before);
    assert(after.last() == names[done]);
    assert forall|name: Text|
        after.contains(name) <==> (before.contains(name) || name == names[done]) by {
        if before.contains(name) {
            let at = choose|at: int| 0 <= at < before.len() && before[at] == name;
            assert(after[at] == name);
        }
        if name == names[done] {
            assert(after[done] == name);
        }
    }
    let stepwise = ledger.set_candidates(before, secrets).register(names[done], secrets[done]);
    assert(ledger.set_candidates(after, secrets).valid_candidates =~= stepwise.valid_candidates);
    assert(ledger.set_candidates(after, secrets).secrets =~= stepwise.secrets);
}

} // verus!
